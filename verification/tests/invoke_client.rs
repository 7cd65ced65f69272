use std::collections::HashMap;

use cmdproxy::error::{Error, ErrorKind};
use cmdproxy::middles::invoke::client_end::MiddleImpl;
use cmdproxy::middles::invoke::{Progress, StoreAction};
use cmdproxy::params::Param;
use cmdproxy::protocol::{RunRequest, RunResponse, RunSpecification};

/// An object store and the files of one host, in memory.
struct World {
    cloud: HashMap<String, String>,
    local: HashMap<String, String>,
    log: Vec<StoreAction>,
    refuse: Vec<StoreAction>,
}

fn world() -> World {
    World { cloud: HashMap::new(), local: HashMap::new(), log: vec![], refuse: vec![] }
}

fn copy_of(action: &StoreAction) -> StoreAction {
    match action {
        StoreAction::Upload { key, path } => {
            StoreAction::Upload { key: key.clone(), path: path.clone() }
        }
        StoreAction::UploadIfPresent { key, path } => {
            StoreAction::UploadIfPresent { key: key.clone(), path: path.clone() }
        }
        StoreAction::Download { key, path } => {
            StoreAction::Download { key: key.clone(), path: path.clone() }
        }
        StoreAction::Remove { key } => StoreAction::Remove { key: key.clone() },
    }
}

fn perform(world: &mut World, action: &StoreAction) -> Result<(), String> {
    world.log.push(copy_of(action));
    if world.refuse.contains(action) {
        return Err(format!("refused: {:?}", action));
    }
    match action {
        StoreAction::Upload { key, path } => match world.local.get(path) {
            Some(content) => {
                world.cloud.insert(key.clone(), content.clone());
                Ok(())
            }
            None => Err(format!("no such file: {}", path)),
        },
        StoreAction::UploadIfPresent { key, path } => {
            if let Some(content) = world.local.get(path) {
                world.cloud.insert(key.clone(), content.clone());
            }
            Ok(())
        }
        StoreAction::Download { key, path } => match world.cloud.get(key) {
            Some(content) => {
                world.local.insert(path.clone(), content.clone());
                Ok(())
            }
            None => Err(format!("no such key: {}", key)),
        },
        StoreAction::Remove { key } => match world.cloud.remove(key) {
            Some(_) => Ok(()),
            None => Err(format!("no such key: {}", key)),
        },
    }
}

fn send(middle: &mut MiddleImpl, world: &mut World, request: RunRequest, env: &[(&str, &str)])
    -> Result<RunRequest, Error> {
    let env: Vec<(String, String)> =
        env.iter().map(|(k, v)| (k.to_string(), v.to_string())).collect();
    let mut progress = middle.transform_request(request, &env);
    loop {
        match progress {
            Progress::Perform(action) => {
                let outcome = perform(world, &action);
                progress = middle.request_outcome(outcome);
            }
            Progress::Done(result) => return result,
        }
    }
}

fn receive(middle: &mut MiddleImpl, world: &mut World, response: Result<RunResponse, Error>)
    -> Result<RunResponse, Error> {
    let mut progress = middle.transform_response(response);
    loop {
        match progress {
            Progress::Perform(action) => {
                let outcome = perform(world, &action);
                progress = middle.response_outcome(outcome);
            }
            Progress::Done(result) => return result,
        }
    }
}

fn input(path: &str) -> Param {
    Param::local_input(path, Some("client".to_string())).unwrap()
}

fn output(path: &str) -> Param {
    Param::local_output(path, Some("client".to_string())).unwrap()
}

fn upload(path: &str) -> StoreAction {
    StoreAction::Upload { key: format!("@client:{}", path), path: path.to_string() }
}

fn download(path: &str) -> StoreAction {
    StoreAction::Download { key: format!("@client:{}", path), path: path.to_string() }
}

fn remove(path: &str) -> StoreAction {
    StoreAction::Remove { key: format!("@client:{}", path) }
}

fn ok_response() -> RunResponse {
    RunResponse { return_code: 0, exc: None }
}

#[test]
fn a_request_without_files_asks_nothing_of_the_store() {
    let mut world = world();
    let mut middle = MiddleImpl::new();
    let request = RunSpecification::new(
        Param::cmd_name("sh"),
        vec![
            Param::str("-c"),
            Param::env("GREETING"),
            Param::remote_env("HOME"),
            Param::cmd_path("/bin/true"),
            Param::format("{a}-{b}", vec![("a", Param::env("GREETING")), ("b", Param::str("x"))]),
        ],
    )
    .cwd("/work".to_string());
    let wrapped = send(&mut middle, &mut world, request, &[("GREETING", "hello")]).unwrap();

    assert_eq!(wrapped.command, Param::cmd_name("sh"));
    assert_eq!(
        wrapped.args,
        vec![
            Param::str("-c"),
            Param::str("hello"),
            Param::remote_env("HOME"),
            Param::cmd_path("/bin/true"),
            Param::format("{a}-{b}", vec![("a", Param::str("hello")), ("b", Param::str("x"))]),
        ]
    );
    assert_eq!(wrapped.cwd, Some("/work".to_string()));
    assert_eq!(wrapped.env, None);
    assert_eq!(wrapped.stdout, None);
    assert_eq!(wrapped.stderr, None);
    assert!(world.log.is_empty());

    let response = RunResponse { return_code: 3, exc: None };
    let back = receive(&mut middle, &mut world, Ok(response.clone())).unwrap();
    assert_eq!(back, response);
    assert!(world.log.is_empty());
}

#[test]
fn a_variable_that_is_not_set_fails_the_request() {
    let mut world = world();
    world.local.insert("/in".to_string(), "data".to_string());
    let mut middle = MiddleImpl::new();
    let request =
        RunSpecification::new(Param::cmd_name("sh"), vec![input("/in"), Param::env("MISSING")]);
    let e = send(&mut middle, &mut world, request, &[("OTHER", "x")]).unwrap_err();
    assert_eq!(e.kind, ErrorKind::EnvMiss);
    assert_eq!(e.to_string(), "environment variable `MISSING' is not set");
    assert!(world.log.is_empty());
    assert!(world.cloud.is_empty());
}

#[test]
fn the_later_of_two_variables_counts() {
    let mut world = world();
    let mut middle = MiddleImpl::new();
    let request = RunSpecification::new(Param::env("X"), vec![]);
    let wrapped = send(&mut middle, &mut world, request, &[("X", "1"), ("X", "2")]).unwrap();
    assert_eq!(wrapped.command, Param::str("2"));
}

#[test]
fn cloud_files_pass_the_client_untouched() {
    let mut world = world();
    let mut middle = MiddleImpl::new();
    let request = RunSpecification::new(
        Param::cmd_path("/bin/cat"),
        vec![input("/in").as_cloud(), output("/out").as_cloud()],
    );
    let wrapped = send(&mut middle, &mut world, request, &[]).unwrap();
    assert_eq!(wrapped.args, vec![input("/in").as_cloud(), output("/out").as_cloud()]);
    assert!(world.log.is_empty());
    receive(&mut middle, &mut world, Ok(ok_response())).unwrap();
    assert!(world.log.is_empty());
}

#[test]
fn local_files_are_staged_and_fetched() {
    let mut world = world();
    world.local.insert("/in".to_string(), "input content".to_string());
    let mut middle = MiddleImpl::new();
    let request = RunSpecification::new(
        Param::str("/bin/sh"),
        vec![
            Param::str("-c"),
            Param::format(
                "echo '{content}' && cat {input} > {output}",
                vec![
                    ("content", Param::str("said")),
                    ("input", input("/in")),
                    ("output", output("/out")),
                ],
            ),
        ],
    )
    .stdout(output("/stdout"))
    .stderr(output("/stderr"));

    let wrapped = send(&mut middle, &mut world, request, &[]).unwrap();

    assert_eq!(wrapped.command, Param::str("/bin/sh"));
    assert_eq!(wrapped.args[0], Param::str("-c"));
    assert_eq!(
        wrapped.args[1],
        Param::format(
            "echo '{content}' && cat {input} > {output}",
            vec![
                ("content", Param::str("said")),
                ("input", input("/in").as_cloud()),
                ("output", output("/out").as_cloud()),
            ],
        )
    );
    assert_eq!(wrapped.stdout, Some(output("/stdout").as_cloud()));
    assert_eq!(wrapped.stderr, Some(output("/stderr").as_cloud()));
    assert_eq!(world.log, vec![upload("/in")]);
    assert_eq!(world.cloud.get("@client:/in"), Some(&"input content".to_string()));

    // what the server would leave on the store
    world.cloud.insert("@client:/out".to_string(), "input content".to_string());
    world.cloud.insert("@client:/stdout".to_string(), "said\n".to_string());
    world.cloud.insert("@client:/stderr".to_string(), "".to_string());
    world.log.clear();

    let back = receive(&mut middle, &mut world, Ok(ok_response())).unwrap();
    assert_eq!(back, ok_response());

    // the guards are exited in the reverse of the order in which they were
    // entered: stdout, stderr, then the input and the output of the template
    assert_eq!(
        world.log,
        vec![
            download("/out"),
            remove("/out"),
            remove("/in"),
            download("/stderr"),
            remove("/stderr"),
            download("/stdout"),
            remove("/stdout"),
        ]
    );
    assert!(world.cloud.is_empty());
    assert_eq!(world.local.get("/out"), Some(&"input content".to_string()));
    assert_eq!(world.local.get("/stdout"), Some(&"said\n".to_string()));
    assert_eq!(world.local.get("/stderr"), Some(&"".to_string()));
}

#[test]
fn the_request_is_walked_command_streams_arguments_environment() {
    let mut world = world();
    for path in ["/c", "/o", "/e", "/a1", "/a2", "/v1", "/v2"] {
        world.local.insert(path.to_string(), path.to_string());
    }
    let mut middle = MiddleImpl::new();
    let request = RunSpecification::new(input("/c"), vec![input("/a1"), input("/a2")])
        .env(vec![("V1".to_string(), input("/v1")), ("V2".to_string(), input("/v2"))])
        .stderr(input("/e"))
        .stdout(input("/o"));
    let wrapped = send(&mut middle, &mut world, request, &[]).unwrap();
    assert_eq!(
        world.log,
        vec![
            upload("/c"),
            upload("/o"),
            upload("/e"),
            upload("/a1"),
            upload("/a2"),
            upload("/v1"),
            upload("/v2"),
        ]
    );
    assert_eq!(
        wrapped.env,
        Some(vec![
            ("V1".to_string(), input("/v1").as_cloud()),
            ("V2".to_string(), input("/v2").as_cloud()),
        ])
    );
    world.log.clear();
    receive(&mut middle, &mut world, Ok(ok_response())).unwrap();
    assert_eq!(
        world.log,
        vec![
            remove("/v2"),
            remove("/v1"),
            remove("/a2"),
            remove("/a1"),
            remove("/e"),
            remove("/o"),
            remove("/c"),
        ]
    );
    assert!(world.cloud.is_empty());
}

#[test]
fn an_upload_that_fails_ends_the_request_after_cleaning_up() {
    let mut world = world();
    world.local.insert("/first".to_string(), "1".to_string());
    world.local.insert("/second".to_string(), "2".to_string());
    world.local.insert("/third".to_string(), "3".to_string());
    world.refuse.push(upload("/second"));
    let mut middle = MiddleImpl::new();
    let request = RunSpecification::new(
        Param::cmd_name("sh"),
        vec![input("/first"), output("/result"), input("/second"), input("/third")],
    );
    let e = send(&mut middle, &mut world, request, &[]).unwrap_err();
    assert_eq!(e.kind, ErrorKind::Staging);
    assert_eq!(e.to_string(), format!("refused: {:?}", upload("/second")));
    assert_eq!(
        world.log,
        vec![
            upload("/first"),
            upload("/second"),
            remove("/second"),
            download("/result"),
            remove("/first"),
        ]
    );
    assert!(world.cloud.is_empty());
    assert!(!world.local.contains_key("/result"));
}

#[test]
fn a_download_that_fails_overrides_a_response() {
    let mut world = world();
    let mut middle = MiddleImpl::new();
    let request =
        RunSpecification::new(Param::cmd_name("sh"), vec![output("/here"), output("/gone")]);
    send(&mut middle, &mut world, request, &[]).unwrap();
    world.cloud.insert("@client:/here".to_string(), "content".to_string());

    let e = receive(&mut middle, &mut world, Ok(ok_response())).unwrap_err();
    assert_eq!(e.kind, ErrorKind::Staging);
    assert_eq!(e.to_string(), "no such key: @client:/gone");
    // the other output is fetched all the same
    assert_eq!(world.log, vec![download("/gone"), download("/here"), remove("/here")]);
    assert_eq!(world.local.get("/here"), Some(&"content".to_string()));
}

#[test]
fn the_first_download_that_fails_is_the_one_reported() {
    let mut world = world();
    let mut middle = MiddleImpl::new();
    let request = RunSpecification::new(Param::cmd_name("sh"), vec![output("/a"), output("/b")]);
    send(&mut middle, &mut world, request, &[]).unwrap();
    let e = receive(&mut middle, &mut world, Ok(ok_response())).unwrap_err();
    assert_eq!(e.to_string(), "no such key: @client:/b");
}

#[test]
fn a_failure_that_comes_back_stays_as_it_is() {
    let mut world = world();
    world.local.insert("/in".to_string(), "1".to_string());
    let mut middle = MiddleImpl::new();
    let request = RunSpecification::new(Param::cmd_name("sh"), vec![input("/in"), output("/out")]);
    send(&mut middle, &mut world, request, &[]).unwrap();
    world.log.clear();

    let failure = Error::new(ErrorKind::Transport, "broker is down");
    let e = receive(&mut middle, &mut world, Err(failure.clone())).unwrap_err();
    assert_eq!(e, failure);
    assert_eq!(world.log, vec![download("/out"), remove("/in")]);
    assert!(world.cloud.is_empty());
}

#[test]
fn a_deletion_that_fails_is_passed_over() {
    let mut world = world();
    world.local.insert("/in".to_string(), "1".to_string());
    world.refuse.push(remove("/in"));
    world.refuse.push(remove("/out"));
    let mut middle = MiddleImpl::new();
    let request = RunSpecification::new(Param::cmd_name("sh"), vec![input("/in"), output("/out")]);
    send(&mut middle, &mut world, request, &[]).unwrap();
    world.cloud.insert("@client:/out".to_string(), "result".to_string());
    world.log.clear();

    let back = receive(&mut middle, &mut world, Ok(ok_response())).unwrap();
    assert_eq!(back, ok_response());
    assert_eq!(world.log, vec![download("/out"), remove("/out"), remove("/in")]);
    assert_eq!(world.local.get("/out"), Some(&"result".to_string()));
}

#[test]
fn a_stage_without_a_request_reports_that() {
    let mut middle = MiddleImpl::new();
    match middle.request_outcome(Ok(())) {
        Progress::Done(Err(e)) => {
            assert_eq!(e.kind, ErrorKind::Validation);
            assert_eq!(e.to_string(), "no request is in flight");
        }
        other => panic!("{:?}", other),
    }
    match middle.response_outcome(Err("late".to_string())) {
        Progress::Done(Err(e)) => assert_eq!(e.to_string(), "no request is in flight"),
        other => panic!("{:?}", other),
    }
}

#[test]
fn a_new_request_starts_from_an_empty_stack() {
    let mut world = world();
    world.local.insert("/in".to_string(), "1".to_string());
    let mut middle = MiddleImpl::new();
    let first = RunSpecification::new(Param::cmd_name("sh"), vec![input("/in")]);
    send(&mut middle, &mut world, first, &[]).unwrap();
    let second = RunSpecification::new(Param::cmd_name("sh"), vec![output("/out")]);
    send(&mut middle, &mut world, second, &[]).unwrap();
    world.cloud.insert("@client:/out".to_string(), "2".to_string());
    world.log.clear();
    receive(&mut middle, &mut world, Ok(ok_response())).unwrap();
    assert_eq!(world.log, vec![download("/out"), remove("/out")]);
}

#[test]
fn a_failed_request_leaves_the_store_as_it_was() {
    let mut world = world();
    world.local.insert("/first".to_string(), "1".to_string());
    world.local.insert("/third".to_string(), "3".to_string());
    world.cloud.insert("@other:/kept".to_string(), "theirs".to_string());
    world.cloud.insert("@client:/third".to_string(), "old".to_string());
    let before = world.cloud.clone();
    let mut middle = MiddleImpl::new();
    // the file of the second input is not there: its upload fails
    let request = RunSpecification::new(
        Param::cmd_name("sh"),
        vec![input("/first"), input("/second"), input("/third")],
    );
    let e = send(&mut middle, &mut world, request, &[]).unwrap_err();
    assert_eq!(e.kind, ErrorKind::Staging);
    assert_eq!(e.to_string(), "no such file: /second");
    assert_eq!(
        world.log,
        vec![upload("/first"), upload("/second"), remove("/second"), remove("/first")]
    );
    assert_eq!(world.cloud, before);
}
