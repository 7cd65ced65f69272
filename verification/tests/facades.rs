use std::path::PathBuf;

use cmdproxy::client::{return_code, select_queue, Client, ClientStep};
use cmdproxy::configs::{
    command_queues, setting, CmdProxyClientConf, CmdProxyClientConfFile, CmdProxyServerConf,
    CmdProxyServerConfFile,
};
use cmdproxy::error::{Error, ErrorKind};
use cmdproxy::middles::serde::client_end::MiddleImpl as ClientSerde;
use cmdproxy::middles::serde::server_end::MiddleImpl as ServerSerde;
use cmdproxy::params::Param;
use cmdproxy::protocol::{RunResponse, RunSpecification};
use cmdproxy::server::{Server, ServerStep};

fn pairs(entries: &[(&str, &str)]) -> Vec<(String, String)> {
    entries.iter().map(|(k, v)| (k.to_string(), v.to_string())).collect()
}

#[test]
fn the_callers_queue_comes_first() {
    let queue = select_queue(&Param::cmd_name("sh"), Some("special".to_string())).unwrap();
    assert_eq!(queue, "special");
    let queue = select_queue(&Param::cmd_path("/bin/sh"), Some("sh".to_string())).unwrap();
    assert_eq!(queue, "sh");
    let queue = select_queue(&Param::str("anything"), Some("q".to_string())).unwrap();
    assert_eq!(queue, "q");
}

#[test]
fn a_command_name_is_its_own_queue() {
    assert_eq!(select_queue(&Param::cmd_name("sh"), None).unwrap(), "sh");
}

#[test]
fn without_a_queue_and_a_command_name_nothing_is_sent() {
    for command in [Param::cmd_path("/bin/sh"), Param::str("sh"), Param::env("SHELL")] {
        let e = select_queue(&command, None).unwrap_err();
        assert_eq!(e.kind, ErrorKind::Validation);
        assert_eq!(
            e.to_string(),
            "Queue should be specified when command is not an instance of CmdNameParam"
        );
    }
}

#[test]
fn the_caller_gets_the_exit_code() {
    assert_eq!(return_code(Ok(RunResponse { return_code: 1, exc: None })), Ok(1));
    let failure = Error::new(ErrorKind::Transport, "down");
    assert_eq!(return_code(Err(failure.clone())), Err(failure));
}

#[test]
fn the_client_lifts_a_reason_into_a_failure() {
    let serde = ClientSerde::new();
    let fine = RunResponse { return_code: 2, exc: None };
    assert_eq!(serde.transform_response(Ok(fine.clone())), Ok(fine));

    let failed = RunResponse { return_code: -1, exc: Some("no such command".to_string()) };
    let e = serde.transform_response(Ok(failed)).unwrap_err();
    assert_eq!(e.kind, ErrorKind::Server);
    assert_eq!(e.to_string(), "Server Error: code=-1, no such command");

    let empty = RunResponse { return_code: 0, exc: Some(String::new()) };
    let e = serde.transform_response(Ok(empty)).unwrap_err();
    assert_eq!(e.to_string(), "Server Error: code=0, ");

    let transport = Error::new(ErrorKind::Transport, "down");
    assert_eq!(serde.transform_response(Err(transport.clone())), Err(transport));
}

#[test]
fn the_server_embeds_a_failure_into_its_response() {
    let serde = ServerSerde::new();
    let fine = RunResponse { return_code: 0, exc: None };
    assert_eq!(serde.transform_response(Ok(fine.clone())), fine);

    let failure = Error::palette_miss("nonesuch", &vec!["sh".to_string()]);
    assert_eq!(
        serde.transform_response(Err(failure)),
        RunResponse {
            return_code: -1,
            exc: Some("Command `nonesuch' not found in command-palette: [sh]".to_string()),
        }
    );
}

#[test]
fn what_the_server_embeds_the_client_lifts() {
    let server = ServerSerde::new();
    let client = ClientSerde::new();

    let fine = RunResponse { return_code: 7, exc: None };
    let answer = server.transform_response(Ok(fine.clone()));
    assert_eq!(client.transform_response(Ok(answer)), Ok(fine));

    let failure = Error::new(ErrorKind::Staging, "disk full");
    let answer = server.transform_response(Err(failure));
    let lifted = client.transform_response(Ok(answer)).unwrap_err();
    assert_eq!(lifted.kind, ErrorKind::Server);
    assert_eq!(lifted.to_string(), "Server Error: code=-1, disk full");
}

#[test]
fn a_clients_settings() {
    let conf = CmdProxyClientConf::new(CmdProxyClientConfFile {
        redis_url: "redis://r/".to_string(),
        mongo_url: "mongodb://m/".to_string(),
        mongo_dbname: "db".to_string(),
    });
    assert_eq!(conf.celery.broker_url, "redis://r/");
    assert_eq!(conf.celery.backend_url, "mongodb://m/");
    assert_eq!(conf.cloud.mongo_url, "mongodb://m/");
    assert_eq!(conf.cloud.mongo_dbname, "db");

    let empty = CmdProxyClientConfFile::default();
    assert_eq!(empty.redis_url, "");
    assert_eq!(empty.mongo_url, "");
    assert_eq!(empty.mongo_dbname, "");
}

#[test]
fn a_servers_settings() {
    let file = CmdProxyServerConfFile {
        redis_url: "redis://r/".to_string(),
        mongo_url: "mongodb://m/".to_string(),
        mongo_dbname: "db".to_string(),
        command_palette: Some(PathBuf::from("/etc/palette.yaml")),
    };
    let conf = CmdProxyServerConf::new(file, Some(pairs(&[("sh", "/bin/sh")])));
    assert_eq!(conf.celery.broker_url, "redis://r/");
    assert_eq!(conf.celery.backend_url, "mongodb://m/");
    assert_eq!(conf.cloud.mongo_url, "mongodb://m/");
    assert_eq!(conf.cloud.mongo_dbname, "db");
    assert_eq!(conf.command_palette, pairs(&[("sh", "/bin/sh")]));
    assert_eq!(conf.command_palette_path, Some(PathBuf::from("/etc/palette.yaml")));

    let bare = CmdProxyServerConf::new(CmdProxyServerConfFile::default(), None);
    assert!(bare.command_palette.is_empty());
    assert_eq!(bare.command_palette_path, None);
}

#[test]
fn a_setting_falls_back_in_order() {
    assert_eq!(setting(Some("cli".to_string()), Some("env".to_string()), "default"), "cli");
    assert_eq!(setting(None, Some("env".to_string()), "default"), "env");
    assert_eq!(setting(None, None, "default"), "default");
    assert_eq!(setting(Some(String::new()), Some("env".to_string()), "default"), "");
}

#[test]
fn a_server_listens_to_its_palette_and_its_extension_queues() {
    let palette = pairs(&[("sh", "/bin/sh"), ("", "/bin/none"), ("ls", "/bin/ls")]);
    assert_eq!(command_queues(&palette, "").unwrap(), vec!["sh", "ls"]);
    assert_eq!(command_queues(&palette, "a,b").unwrap(), vec!["sh", "ls", "a", "b"]);
    assert_eq!(command_queues(&palette, ",a,,b c,").unwrap(), vec!["sh", "ls", "a", "b c"]);
    assert_eq!(command_queues(&vec![], "only").unwrap(), vec!["only"]);
    assert_eq!(command_queues(&vec![], "x,").unwrap(), vec!["x"]);
}

#[test]
fn a_server_without_queues_is_refused() {
    for ext in ["", ",", ",,,"] {
        let e = command_queues(&pairs(&[("", "/bin/none")]), ext).unwrap_err();
        assert_eq!(e.kind, ErrorKind::Validation);
        assert_eq!(e.to_string(), "No queues to be consumed!");
    }
}

#[test]
fn a_recipe_runs_where_it_says() {
    let here = RunSpecification::new("/bin/true".to_string(), vec![]);
    assert_eq!(Server::working_dir(&here), ".");
    let there = RunSpecification::new("/bin/true".to_string(), vec![]).cwd("/work".to_string());
    assert_eq!(Server::working_dir(&there), "/work");
}

#[test]
fn a_command_without_a_code_is_a_failed_launch() {
    assert_eq!(Server::exit_code(Some(3)), Ok(3));
    assert_eq!(Server::exit_code(Some(-9)), Ok(-9));
    assert_eq!(Server::exit_code(Some(0)), Ok(0));
    let e = Server::exit_code(None).unwrap_err();
    assert_eq!(e.kind, ErrorKind::ChildProcess);
    assert_eq!(e.to_string(), "the command ended without an exit code");
}

#[test]
fn a_server_resolves_against_its_palette() {
    let conf = CmdProxyServerConf::new(
        CmdProxyServerConfFile::default(),
        Some(pairs(&[("sh", "/bin/sh")])),
    );
    let mut server = Server::new(conf);
    assert_eq!(server.conf().command_palette, pairs(&[("sh", "/bin/sh")]));
    let request = RunSpecification::new(Param::cmd_name("sh"), vec![]);
    match server.received(Ok(request), &vec![], &vec![]) {
        ServerStep::Launch(recipe) => assert_eq!(recipe.command, "/bin/sh"),
        other => panic!("{:?}", other),
    }
    assert_eq!(
        server.launched(Ok(0)),
        ServerStep::Answer(RunResponse { return_code: 0, exc: None })
    );
}

#[test]
fn a_request_that_cannot_be_decoded_is_answered() {
    let mut server =
        Server::new(CmdProxyServerConf::new(CmdProxyServerConfFile::default(), None));
    let garbled = Error::new(ErrorKind::Serialization, "expected value at line 1 column 1");
    assert_eq!(
        server.received(Err(garbled), &vec![], &vec![]),
        ServerStep::Answer(RunResponse {
            return_code: -1,
            exc: Some("expected value at line 1 column 1".to_string()),
        })
    );
}

#[test]
fn a_server_out_of_turn_answers_that() {
    let mut server =
        Server::new(CmdProxyServerConf::new(CmdProxyServerConfFile::default(), None));
    let idle = ServerStep::Answer(RunResponse {
        return_code: -1,
        exc: Some("no request is in flight".to_string()),
    });
    assert_eq!(server.stored(Ok(())), idle);
    assert_eq!(server.launched(Ok(0)), idle);
}

#[test]
fn a_client_out_of_turn_reports_that() {
    let mut client = Client::new(CmdProxyClientConf::new(CmdProxyClientConfFile::default()));
    assert_eq!(client.conf().cloud.mongo_dbname, "");
    for step in [
        client.stored(Ok(())),
        client.answered(Ok(RunResponse { return_code: 0, exc: None })),
    ] {
        match step {
            ClientStep::Finished(Err(e)) => {
                assert_eq!(e.kind, ErrorKind::Validation);
                assert_eq!(e.to_string(), "no request is in flight");
            }
            other => panic!("{:?}", other),
        }
    }
}

#[test]
fn a_client_hands_the_rewritten_request_to_its_queue() {
    let mut client = Client::new(CmdProxyClientConf::new(CmdProxyClientConfFile::default()));
    let request = RunSpecification::new(Param::cmd_name("sh"), vec![Param::env("X")]);
    let env = pairs(&[("X", "1")]);
    assert_eq!(
        client.run(request, None, &env),
        ClientStep::Send {
            queue: "sh".to_string(),
            request: RunSpecification::new(Param::cmd_name("sh"), vec![Param::str("1")]),
        }
    );
    assert_eq!(
        client.answered(Ok(RunResponse { return_code: 4, exc: None })),
        ClientStep::Finished(Ok(4))
    );
}

#[test]
fn requests_and_recipes_can_be_copied() {
    let request = RunSpecification::new(
        Param::cmd_name("sh"),
        vec![Param::str("-c"), Param::format("{x}", vec![("x", Param::env("X"))])],
    )
    .cwd("/work".to_string())
    .env(vec![("K".to_string(), Param::remote_env("V"))])
    .stdout(Param::local_output("/o", Some("h".to_string())).unwrap());
    assert_eq!(request.clone(), request);

    let recipe = RunSpecification::new("/bin/sh".to_string(), vec!["-c".to_string()])
        .env(pairs(&[("K", "v")]))
        .stderr("/scratch/e".to_string());
    assert_eq!(recipe.clone(), recipe);

    let response = RunResponse { return_code: 2, exc: Some("why".to_string()) };
    assert_eq!(response.clone(), response);
}

#[test]
fn a_command_that_was_killed_is_not_answered_as_a_success() {
    let conf = CmdProxyServerConf::new(CmdProxyServerConfFile::default(), None);
    let mut server = Server::new(conf);
    let request = RunSpecification::new(Param::cmd_path("/bin/sleep"), vec![Param::str("60")]);
    match server.received(Ok(request), &vec![], &vec![]) {
        ServerStep::Launch(recipe) => assert_eq!(recipe.command, "/bin/sleep"),
        other => panic!("{:?}", other),
    }
    let answer = server.launched(Server::exit_code(None));
    assert_eq!(
        answer,
        ServerStep::Answer(RunResponse {
            return_code: -1,
            exc: Some("the command ended without an exit code".to_string()),
        })
    );
    let lifted = match answer {
        ServerStep::Answer(response) => ClientSerde::new().transform_response(Ok(response)),
        other => panic!("{:?}", other),
    };
    let e = lifted.unwrap_err();
    assert_eq!(e.kind, ErrorKind::Server);
    assert_eq!(e.to_string(), "Server Error: code=-1, the command ended without an exit code");
}
