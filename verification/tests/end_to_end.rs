use std::collections::HashMap;

use cmdproxy::client::{Client, ClientStep};
use cmdproxy::configs::{
    CmdProxyClientConf, CmdProxyClientConfFile, CmdProxyServerConf, CmdProxyServerConfFile,
};
use cmdproxy::error::{Error, ErrorKind};
use cmdproxy::middles::invoke::server_end::MiddleImpl as ServerInvoke;
use cmdproxy::middles::invoke::StoreAction;
use cmdproxy::params::Param;
use cmdproxy::protocol::{RunRecipe, RunRequest, RunResponse, RunSpecification};
use cmdproxy::server::{Server, ServerStep};

/// The object store, the files of the client and the files of the server,
/// in memory.
struct World {
    cloud: HashMap<String, String>,
    client: HashMap<String, String>,
    server: HashMap<String, String>,
    palette: Vec<(String, String)>,
    refuse_uploads: bool,
    sent_to: Vec<String>,
}

fn world(palette: &[(&str, &str)]) -> World {
    World {
        cloud: HashMap::new(),
        client: HashMap::new(),
        server: HashMap::new(),
        palette: palette.iter().map(|(k, v)| (k.to_string(), v.to_string())).collect(),
        refuse_uploads: false,
        sent_to: vec![],
    }
}

fn perform(
    cloud: &mut HashMap<String, String>,
    local: &mut HashMap<String, String>,
    refuse_uploads: bool,
    action: &StoreAction,
) -> Result<(), String> {
    match action {
        StoreAction::Upload { key, path } => {
            if refuse_uploads {
                return Err("the store takes nothing".to_string());
            }
            match local.get(path) {
                Some(content) => {
                    cloud.insert(key.clone(), content.clone());
                    Ok(())
                }
                None => Err(format!("no such file: {}", path)),
            }
        }
        StoreAction::UploadIfPresent { key, path } => {
            if let Some(content) = local.get(path) {
                cloud.insert(key.clone(), content.clone());
            }
            Ok(())
        }
        StoreAction::Download { key, path } => match cloud.get(key) {
            Some(content) => {
                local.insert(path.clone(), content.clone());
                Ok(())
            }
            None => Err(format!("no such key: {}", key)),
        },
        StoreAction::Remove { key } => match cloud.remove(key) {
            Some(_) => Ok(()),
            None => Err(format!("no such key: {}", key)),
        },
    }
}

/// A stand-in for the commands that these tests run: `sh -c <script>` with
/// the few scripts that they use, and `/bin/false`.
fn launch(recipe: &RunRecipe, files: &mut HashMap<String, String>) -> Result<i32, Error> {
    let mut stdout = String::new();
    let code = if recipe.command == "/bin/false" {
        1
    } else if recipe.command == "/bin/sh" && recipe.args.len() == 2 && recipe.args[0] == "-c" {
        let script = &recipe.args[1];
        if let Some(rest) = script.strip_prefix("cat ") {
            let parts: Vec<&str> = rest.split(" > ").collect();
            match files.get(parts[0]).cloned() {
                Some(content) => {
                    files.insert(parts[1].to_string(), content);
                    0
                }
                None => 1,
            }
        } else if let Some(rest) = script.strip_prefix("echo ") {
            stdout = format!("{}\n", rest);
            0
        } else {
            127
        }
    } else {
        return Err(Error::new(ErrorKind::ChildProcess, "No such file or directory"));
    };
    if let Some(path) = &recipe.stdout {
        files.insert(path.clone(), stdout);
    }
    if let Some(path) = &recipe.stderr {
        files.insert(path.clone(), String::new());
    }
    Ok(code)
}

/// What a worker does with a request that reaches it.
fn serve(world: &mut World, request: RunRequest) -> RunResponse {
    let conf =
        CmdProxyServerConf::new(CmdProxyServerConfFile::default(), Some(world.palette.clone()));
    let mut server = Server::new(conf);
    let scratch: Vec<String> = ServerInvoke::scratch_requests(&request)
        .iter()
        .enumerate()
        .map(|(i, _)| format!("/scratch/{}", i))
        .collect();
    let mut step = server.received(Ok(request), &vec![], &scratch);
    loop {
        step = match step {
            ServerStep::Store(action) => {
                let outcome = perform(&mut world.cloud, &mut world.server, false, &action);
                server.stored(outcome)
            }
            ServerStep::Launch(recipe) => {
                let ended = launch(&recipe, &mut world.server);
                server.launched(ended)
            }
            ServerStep::Answer(response) => return response,
        }
    }
}

/// What a client does with a request of its caller.
fn run(world: &mut World, request: RunRequest, queue: Option<String>) -> Result<i32, Error> {
    let mut client = Client::new(CmdProxyClientConf::new(CmdProxyClientConfFile::default()));
    let mut step = client.run(request, queue, &vec![]);
    loop {
        step = match step {
            ClientStep::Store(action) => {
                let outcome =
                    perform(&mut world.cloud, &mut world.client, world.refuse_uploads, &action);
                client.stored(outcome)
            }
            ClientStep::Send { queue, request } => {
                world.sent_to.push(queue);
                let answer = serve(world, request);
                client.answered(Ok(answer))
            }
            ClientStep::Finished(result) => return result,
        }
    }
}

fn input(path: &str) -> Param {
    Param::local_input(path, Some("client".to_string())).unwrap()
}

fn output(path: &str) -> Param {
    Param::local_output(path, Some("client".to_string())).unwrap()
}

const PALETTE: [(&str, &str); 1] = [("sh", "/bin/sh")];

#[test]
fn echo_with_local_input_and_output() {
    let mut world = world(&PALETTE);
    world.client.insert("/tmp/in.txt".to_string(), "hello\n".to_string());
    let request = RunSpecification::new(
        Param::cmd_name("sh"),
        vec![
            Param::str("-c"),
            Param::format(
                "cat {i} > {o}",
                vec![("i", input("/tmp/in.txt")), ("o", output("/tmp/out.txt"))],
            ),
        ],
    );
    let code = run(&mut world, request, None);
    assert_eq!(code, Ok(0));
    assert_eq!(world.sent_to, vec!["sh"]);
    assert_eq!(world.client.get("/tmp/out.txt"), Some(&"hello\n".to_string()));
    assert!(!world.cloud.contains_key("@client:/tmp/in.txt"));
    assert!(!world.cloud.contains_key("@client:/tmp/out.txt"));
    assert!(world.cloud.is_empty());
}

#[test]
fn stdout_capture() {
    let mut world = world(&PALETTE);
    let request =
        RunSpecification::new(Param::cmd_name("sh"), vec![Param::str("-c"), Param::str("echo hi")])
            .stdout(output("/tmp/stdout"));
    let code = run(&mut world, request, None);
    assert_eq!(code, Ok(0));
    assert_eq!(world.client.get("/tmp/stdout"), Some(&"hi\n".to_string()));
    assert!(world.cloud.is_empty());
}

#[test]
fn command_not_in_palette() {
    let mut world = world(&[("sh", "/bin/sh"), ("ls", "/bin/ls")]);
    let request = RunSpecification::new(Param::cmd_name("nonesuch"), vec![]);
    let answer = serve(&mut world, request);
    assert_eq!(answer.return_code, -1);
    let exc = answer.exc.unwrap();
    assert!(exc.contains("nonesuch"));
    assert!(exc.contains("sh") && exc.contains("ls"));

    let request = RunSpecification::new(Param::cmd_name("nonesuch"), vec![]);
    let e = run(&mut world, request, None).unwrap_err();
    assert_eq!(e.kind, ErrorKind::Server);
    assert_eq!(
        e.to_string(),
        "Server Error: code=-1, Command `nonesuch' not found in command-palette: [sh, ls]"
    );
}

#[test]
fn passed_env() {
    // as a worker gets it: the variable is one of the server's side
    let mut world = world(&PALETTE);
    let stdout = output("/tmp/o").as_cloud();
    let request = RunSpecification::new(
        Param::cmd_path("/bin/sh"),
        vec![Param::str("-c"), Param::format("echo {p}", vec![("p", Param::env("PASSWORD"))])],
    )
    .env(vec![("PASSWORD".to_string(), Param::str("secret"))])
    .stdout(stdout);
    let answer = serve(&mut world, request);
    assert_eq!(answer, RunResponse { return_code: 0, exc: None });
    assert_eq!(world.cloud.get("@client:/tmp/o"), Some(&"secret\n".to_string()));
}

#[test]
fn passed_env_from_the_client() {
    // as a caller writes it: the variable is left for the server
    let mut world = world(&PALETTE);
    let request = RunSpecification::new(
        Param::cmd_path("/bin/sh"),
        vec![
            Param::str("-c"),
            Param::format("echo {p}", vec![("p", Param::remote_env("PASSWORD"))]),
        ],
    )
    .env(vec![("PASSWORD".to_string(), Param::str("secret"))])
    .stdout(output("/tmp/o"));
    let code = run(&mut world, request, Some("sh".to_string()));
    assert_eq!(code, Ok(0));
    assert_eq!(world.client.get("/tmp/o"), Some(&"secret\n".to_string()));
    assert!(world.cloud.is_empty());
}

#[test]
fn failed_command_returns_non_zero() {
    let mut world = world(&PALETTE);
    let request = RunSpecification::new(Param::cmd_path("/bin/false"), vec![]);
    let answer = serve(&mut world, request);
    assert_eq!(answer, RunResponse { return_code: 1, exc: None });

    let request = RunSpecification::new(Param::cmd_path("/bin/false"), vec![]);
    assert_eq!(run(&mut world, request, Some("sh".to_string())), Ok(1));
}

#[test]
fn upload_failure_during_request() {
    let mut world = world(&PALETTE);
    world.client.insert("/tmp/in.txt".to_string(), "hello\n".to_string());
    world.refuse_uploads = true;
    let request = RunSpecification::new(
        Param::cmd_name("sh"),
        vec![Param::str("-c"), input("/tmp/in.txt"), output("/tmp/out.txt")],
    );
    let e = run(&mut world, request, None).unwrap_err();
    assert_eq!(e.kind, ErrorKind::Staging);
    assert_eq!(e.to_string(), "the store takes nothing");
    assert!(world.sent_to.is_empty());
    assert!(world.cloud.is_empty());
}

#[test]
fn a_launch_that_fails_reaches_the_caller_as_a_server_error() {
    let mut world = world(&PALETTE);
    let request = RunSpecification::new(Param::cmd_path("/bin/nothing"), vec![]);
    let e = run(&mut world, request, Some("sh".to_string())).unwrap_err();
    assert_eq!(e.kind, ErrorKind::Server);
    assert_eq!(e.to_string(), "Server Error: code=-1, No such file or directory");
}

#[test]
fn a_request_without_a_queue_is_not_sent() {
    let mut world = world(&PALETTE);
    world.client.insert("/in".to_string(), "x".to_string());
    let request = RunSpecification::new(Param::cmd_path("/bin/false"), vec![input("/in")]);
    let e = run(&mut world, request, None).unwrap_err();
    assert_eq!(e.kind, ErrorKind::Validation);
    assert!(world.sent_to.is_empty());
    assert!(world.cloud.is_empty());
}

#[test]
fn an_answer_that_does_not_arrive_still_cleans_the_store() {
    let mut world = world(&PALETTE);
    world.client.insert("/in".to_string(), "x".to_string());
    let mut client = Client::new(CmdProxyClientConf::new(CmdProxyClientConfFile::default()));
    let request = RunSpecification::new(Param::cmd_name("sh"), vec![input("/in")]);
    let mut step = client.run(request, None, &vec![]);
    let lost = Error::new(ErrorKind::Transport, "connection reset");
    let result = loop {
        step = match step {
            ClientStep::Store(action) => {
                let outcome = perform(&mut world.cloud, &mut world.client, false, &action);
                client.stored(outcome)
            }
            ClientStep::Send { .. } => {
                assert!(world.cloud.contains_key("@client:/in"));
                client.answered(Err(lost.clone()))
            }
            ClientStep::Finished(result) => break result,
        }
    };
    assert_eq!(result, Err(lost));
    assert!(world.cloud.is_empty());
}
