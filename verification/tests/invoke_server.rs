use std::collections::HashMap;

use cmdproxy::error::{Error, ErrorKind};
use cmdproxy::middles::invoke::server_end::{Config, MiddleImpl};
use cmdproxy::middles::invoke::{Progress, StoreAction};
use cmdproxy::params::Param;
use cmdproxy::protocol::{RunRecipe, RunRequest, RunResponse, RunSpecification};

/// An object store and the files of one host, in memory.
struct World {
    cloud: HashMap<String, String>,
    local: HashMap<String, String>,
    log: Vec<StoreAction>,
    refuse: Vec<StoreAction>,
}

fn world() -> World {
    World { cloud: HashMap::new(), local: HashMap::new(), log: vec![], refuse: vec![] }
}

fn copy_of(action: &StoreAction) -> StoreAction {
    match action {
        StoreAction::Upload { key, path } => {
            StoreAction::Upload { key: key.clone(), path: path.clone() }
        }
        StoreAction::UploadIfPresent { key, path } => {
            StoreAction::UploadIfPresent { key: key.clone(), path: path.clone() }
        }
        StoreAction::Download { key, path } => {
            StoreAction::Download { key: key.clone(), path: path.clone() }
        }
        StoreAction::Remove { key } => StoreAction::Remove { key: key.clone() },
    }
}

fn perform(world: &mut World, action: &StoreAction) -> Result<(), String> {
    world.log.push(copy_of(action));
    if world.refuse.contains(action) {
        return Err(format!("refused: {:?}", action));
    }
    match action {
        StoreAction::Upload { key, path } => match world.local.get(path) {
            Some(content) => {
                world.cloud.insert(key.clone(), content.clone());
                Ok(())
            }
            None => Err(format!("no such file: {}", path)),
        },
        StoreAction::UploadIfPresent { key, path } => {
            if let Some(content) = world.local.get(path) {
                world.cloud.insert(key.clone(), content.clone());
            }
            Ok(())
        }
        StoreAction::Download { key, path } => match world.cloud.get(key) {
            Some(content) => {
                world.local.insert(path.clone(), content.clone());
                Ok(())
            }
            None => Err(format!("no such key: {}", key)),
        },
        StoreAction::Remove { key } => match world.cloud.remove(key) {
            Some(_) => Ok(()),
            None => Err(format!("no such key: {}", key)),
        },
    }
}

fn pairs(entries: &[(&str, &str)]) -> Vec<(String, String)> {
    entries.iter().map(|(k, v)| (k.to_string(), v.to_string())).collect()
}

fn middle(palette: &[(&str, &str)]) -> MiddleImpl {
    MiddleImpl::new(Config { command_palette: pairs(palette) })
}

/// Takes a scratch path for each file of the request, as a server does.
fn scratch_for(request: &RunRequest) -> Vec<String> {
    MiddleImpl::scratch_requests(request)
        .iter()
        .enumerate()
        .map(|(i, path)| {
            let name = path.rsplit('/').next().unwrap_or("");
            format!("/scratch/{}-{}", i, name)
        })
        .collect()
}

fn take_in(middle: &mut MiddleImpl, world: &mut World, request: RunRequest, os_env: &[(&str, &str)])
    -> Result<RunRecipe, Error> {
    let scratch = scratch_for(&request);
    let mut progress = middle.transform_request(request, &pairs(os_env), &scratch);
    loop {
        match progress {
            Progress::Perform(action) => {
                let outcome = perform(world, &action);
                progress = middle.request_outcome(outcome);
            }
            Progress::Done(result) => return result,
        }
    }
}

fn hand_back(middle: &mut MiddleImpl, world: &mut World, result: Result<i32, Error>)
    -> Result<RunResponse, Error> {
    let mut progress = middle.transform_response(result);
    loop {
        match progress {
            Progress::Perform(action) => {
                let outcome = perform(world, &action);
                progress = middle.response_outcome(outcome);
            }
            Progress::Done(result) => return result,
        }
    }
}

fn input(path: &str) -> Param {
    Param::local_input(path, Some("client".to_string())).unwrap().as_cloud()
}

fn output(path: &str) -> Param {
    Param::local_output(path, Some("client".to_string())).unwrap().as_cloud()
}

fn key(path: &str) -> String {
    format!("@client:{}", path)
}

#[test]
fn test_guard_run_args_resolve_passed_env() {
    let mut world = world();
    let fake_password = "fake password";
    let mut middle = middle(&[]);

    let req = RunSpecification::new(Param::str("/bin/sh"), vec![Param::env("PASSWORD")])
        .stdout(Param::env("PASSWORD"))
        .stderr(Param::format("{pwd}", vec![("pwd", Param::env("PASSWORD"))]))
        .env(vec![("PASSWORD".to_owned(), Param::str(fake_password))]);

    let spec = take_in(&mut middle, &mut world, req, &[]);

    assert!(spec.is_ok());
    let spec = spec.unwrap();
    assert_eq!(spec.args, vec![fake_password.to_owned()]);
    assert_eq!(spec.stdout, Some(fake_password.to_owned()));
    assert_eq!(spec.stderr, Some(fake_password.to_owned()));
}

#[test]
fn the_recipe_holds_the_resolved_environment() {
    let mut world = world();
    let mut middle = middle(&[]);
    let req = RunSpecification::new(Param::cmd_path("/bin/sh"), vec![])
        .env(vec![
            ("A".to_string(), Param::str("1")),
            ("B".to_string(), Param::env("A")),
            (
                "C".to_string(),
                Param::format("{a}{b}", vec![("a", Param::env("A")), ("b", Param::env("B"))]),
            ),
        ])
        .cwd("/work".to_string());
    let recipe = take_in(&mut middle, &mut world, req, &[]).unwrap();
    assert_eq!(recipe.command, "/bin/sh");
    assert_eq!(recipe.env, Some(pairs(&[("A", "1"), ("B", "1"), ("C", "11")])));
    assert_eq!(recipe.cwd, Some("/work".to_string()));
    assert_eq!(recipe.stdout, None);
    assert_eq!(recipe.stderr, None);
}

#[test]
fn a_binding_is_passed_only_to_what_comes_behind_it() {
    let mut world = world();
    let mut middle = middle(&[]);
    let req = RunSpecification::new(Param::cmd_path("/bin/sh"), vec![Param::env("LATE")]).env(vec![
        ("EARLY".to_string(), Param::env("LATE")),
        ("LATE".to_string(), Param::str("value")),
    ]);
    let recipe = take_in(&mut middle, &mut world, req, &[]).unwrap();
    assert_eq!(recipe.env, Some(pairs(&[("EARLY", ""), ("LATE", "value")])));
    assert_eq!(recipe.args, vec!["value".to_string()]);
}

#[test]
fn the_servers_own_environment_comes_first() {
    let mut world = world();
    let mut middle = middle(&[]);
    let req = RunSpecification::new(
        Param::cmd_path("/bin/sh"),
        vec![Param::env("PASSWORD"), Param::remote_env("PASSWORD"), Param::env("UNSET")],
    )
    .env(vec![("PASSWORD".to_string(), Param::str("passed"))]);
    let recipe = take_in(&mut middle, &mut world, req, &[("PASSWORD", "own")]).unwrap();
    assert_eq!(recipe.args, vec!["own".to_string(), "own".to_string(), "".to_string()]);
    assert_eq!(recipe.env, Some(pairs(&[("PASSWORD", "passed")])));
}

#[test]
fn a_command_name_is_looked_up_in_the_palette() {
    let mut world = world();
    let mut middle = middle(&[("sh", "/bin/sh"), ("ls", "/bin/ls")]);
    let req = RunSpecification::new(Param::cmd_name("ls"), vec![Param::cmd_name("sh")]);
    let recipe = take_in(&mut middle, &mut world, req, &[]).unwrap();
    assert_eq!(recipe.command, "/bin/ls");
    assert_eq!(recipe.args, vec!["/bin/sh".to_string()]);
}

#[test]
fn a_command_that_the_palette_lacks_is_refused() {
    let mut world = world();
    let mut middle = middle(&[("sh", "/bin/sh"), ("ls", "/bin/ls")]);
    let req = RunSpecification::new(Param::cmd_name("nonesuch"), vec![input("/in")]);
    let e = take_in(&mut middle, &mut world, req, &[]).unwrap_err();
    assert_eq!(e.kind, ErrorKind::PaletteMiss);
    assert_eq!(e.to_string(), "Command `nonesuch' not found in command-palette: [sh, ls]");
    assert!(world.log.is_empty());
}

#[test]
fn a_local_file_does_not_belong_on_the_server() {
    let mut world = world();
    let mut middle = middle(&[]);
    let local = Param::local_input("/in", Some("client".to_string())).unwrap();
    let req = RunSpecification::new(Param::cmd_path("/bin/cat"), vec![local]);
    let e = take_in(&mut middle, &mut world, req, &[]).unwrap_err();
    assert_eq!(e.kind, ErrorKind::Validation);
    assert_eq!(e.to_string(), "Unaccepted local file param for server: @client:/in");
}

#[test]
fn a_template_that_cannot_be_filled_is_refused() {
    let mut world = world();
    let mut middle = middle(&[]);
    let req = RunSpecification::new(
        Param::cmd_path("/bin/sh"),
        vec![Param::format("{a} {b}", vec![("a", Param::str("1"))])],
    );
    let e = take_in(&mut middle, &mut world, req, &[]).unwrap_err();
    assert_eq!(e.kind, ErrorKind::Template);
    assert_eq!(e.to_string(), "cannot render template `{a} {b}': KeyError(Invalid key: b)");
}

#[test]
fn scratch_paths_are_asked_for_in_the_order_of_resolution() {
    let req = RunSpecification::new(
        input("/command"),
        vec![
            Param::str("-c"),
            Param::format("{i} {o}", vec![("i", input("/arg/in")), ("o", output("/arg/out"))]),
            output("/last"),
        ],
    )
    .stdout(output("/stdout"))
    .stderr(output("/stderr"))
    .env(vec![("E".to_string(), input("/env"))]);
    assert_eq!(
        MiddleImpl::scratch_requests(&req),
        vec!["/env", "/command", "/stdout", "/stderr", "/arg/in", "/arg/out", "/last"]
    );
    let plain = RunSpecification::new(Param::str("x"), vec![Param::env("Y")]);
    assert!(MiddleImpl::scratch_requests(&plain).is_empty());
}

#[test]
fn cloud_files_are_brought_to_scratch_paths_and_back() {
    let mut world = world();
    world.cloud.insert(key("/data/in.txt"), "input content".to_string());
    let mut middle = middle(&[]);
    let req = RunSpecification::new(
        Param::str("/bin/sh"),
        vec![
            Param::str("-c"),
            Param::format(
                "echo '{content}' && cat {input} > {output}",
                vec![
                    ("content", Param::str("said")),
                    ("input", input("/data/in.txt")),
                    ("output", output("/data/out.txt")),
                ],
            ),
        ],
    )
    .stdout(output("/data/stdout"))
    .stderr(output("/data/stderr"));

    let recipe = take_in(&mut middle, &mut world, req, &[]).unwrap();

    assert_eq!(recipe.command, "/bin/sh");
    assert_eq!(recipe.args[0], "-c");
    assert_eq!(
        recipe.args[1],
        "echo 'said' && cat /scratch/2-in.txt > /scratch/3-out.txt"
    );
    assert_eq!(recipe.stdout, Some("/scratch/0-stdout".to_string()));
    assert_eq!(recipe.stderr, Some("/scratch/1-stderr".to_string()));
    assert_eq!(
        world.log,
        vec![StoreAction::Download {
            key: key("/data/in.txt"),
            path: "/scratch/2-in.txt".to_string()
        }]
    );
    assert_eq!(world.local.get("/scratch/2-in.txt"), Some(&"input content".to_string()));

    // what the command leaves behind; it writes nothing to its standard error
    world.local.insert("/scratch/3-out.txt".to_string(), "input content".to_string());
    world.local.insert("/scratch/0-stdout".to_string(), "said\n".to_string());
    world.log.clear();

    let response = hand_back(&mut middle, &mut world, Ok(0)).unwrap();
    assert_eq!(response, RunResponse { return_code: 0, exc: None });
    assert_eq!(
        world.log,
        vec![
            StoreAction::UploadIfPresent {
                key: key("/data/out.txt"),
                path: "/scratch/3-out.txt".to_string()
            },
            StoreAction::UploadIfPresent {
                key: key("/data/stderr"),
                path: "/scratch/1-stderr".to_string()
            },
            StoreAction::UploadIfPresent {
                key: key("/data/stdout"),
                path: "/scratch/0-stdout".to_string()
            },
        ]
    );
    assert_eq!(world.cloud.get(&key("/data/out.txt")), Some(&"input content".to_string()));
    assert_eq!(world.cloud.get(&key("/data/stdout")), Some(&"said\n".to_string()));
    assert!(!world.cloud.contains_key(&key("/data/stderr")));
}

#[test]
fn a_download_that_fails_ends_the_request() {
    let mut world = world();
    world.cloud.insert(key("/a"), "a".to_string());
    let mut middle = middle(&[]);
    let req = RunSpecification::new(
        Param::cmd_path("/bin/cat"),
        vec![input("/a"), output("/o"), input("/missing"), input("/never")],
    );
    let e = take_in(&mut middle, &mut world, req, &[]).unwrap_err();
    assert_eq!(e.kind, ErrorKind::Staging);
    assert_eq!(e.to_string(), "no such key: @client:/missing");
    assert_eq!(
        world.log,
        vec![
            StoreAction::Download { key: key("/a"), path: "/scratch/0-a".to_string() },
            StoreAction::Download { key: key("/missing"), path: "/scratch/2-missing".to_string() },
            StoreAction::UploadIfPresent { key: key("/o"), path: "/scratch/1-o".to_string() },
        ]
    );
    assert!(!world.cloud.contains_key(&key("/o")));
}

#[test]
fn an_upload_that_fails_is_what_the_server_answers() {
    let mut world = world();
    let mut middle = middle(&[]);
    let req =
        RunSpecification::new(Param::cmd_path("/bin/touch"), vec![output("/a"), output("/b")]);
    take_in(&mut middle, &mut world, req, &[]).unwrap();
    world.local.insert("/scratch/0-a".to_string(), "a".to_string());
    world.local.insert("/scratch/1-b".to_string(), "b".to_string());
    let first = StoreAction::UploadIfPresent { key: key("/b"), path: "/scratch/1-b".to_string() };
    let second = StoreAction::UploadIfPresent { key: key("/a"), path: "/scratch/0-a".to_string() };
    world.refuse.push(copy_of(&first));
    world.refuse.push(copy_of(&second));

    let e = hand_back(&mut middle, &mut world, Ok(0)).unwrap_err();
    assert_eq!(e.kind, ErrorKind::Staging);
    assert_eq!(e.to_string(), format!("refused: {:?}", first));
    assert_eq!(world.log, vec![copy_of(&first), copy_of(&second)]);
}

#[test]
fn an_upload_that_fails_outweighs_a_failed_launch() {
    let mut world = world();
    let mut middle = middle(&[]);
    let req = RunSpecification::new(Param::cmd_path("/bin/touch"), vec![output("/a")]);
    take_in(&mut middle, &mut world, req, &[]).unwrap();
    let upload = StoreAction::UploadIfPresent { key: key("/a"), path: "/scratch/0-a".to_string() };
    world.refuse.push(copy_of(&upload));
    let launch = Error::new(ErrorKind::ChildProcess, "cannot spawn");
    let e = hand_back(&mut middle, &mut world, Err(launch)).unwrap_err();
    assert_eq!(e.kind, ErrorKind::Staging);
}

#[test]
fn a_failed_launch_is_handed_back_after_the_uploads() {
    let mut world = world();
    let mut middle = middle(&[]);
    let req = RunSpecification::new(Param::cmd_path("/bin/touch"), vec![output("/a")]);
    take_in(&mut middle, &mut world, req, &[]).unwrap();
    world.local.insert("/scratch/0-a".to_string(), "partial".to_string());
    let launch = Error::new(ErrorKind::ChildProcess, "cannot spawn");
    let e = hand_back(&mut middle, &mut world, Err(launch.clone())).unwrap_err();
    assert_eq!(e, launch);
    assert_eq!(world.cloud.get(&key("/a")), Some(&"partial".to_string()));
}

#[test]
fn a_code_other_than_zero_is_no_failure() {
    let mut world = world();
    let mut middle = middle(&[]);
    let req = RunSpecification::new(Param::cmd_path("/bin/false"), vec![]);
    let recipe = take_in(&mut middle, &mut world, req, &[]).unwrap();
    assert_eq!(recipe.command, "/bin/false");
    assert!(recipe.args.is_empty());
    let response = hand_back(&mut middle, &mut world, Ok(1)).unwrap();
    assert_eq!(response, RunResponse { return_code: 1, exc: None });
}

#[test]
fn too_few_scratch_paths_are_refused() {
    let mut middle = middle(&[]);
    let req = RunSpecification::new(Param::cmd_path("/bin/cat"), vec![input("/a"), input("/b")]);
    let scratch = vec!["/scratch/only".to_string()];
    match middle.transform_request(req, &vec![], &scratch) {
        Progress::Done(Err(e)) => {
            assert_eq!(e.kind, ErrorKind::Validation);
            assert_eq!(e.to_string(), "no scratch path for cloud file @client:/b");
        }
        other => panic!("{:?}", other),
    }
}

#[test]
fn a_stage_without_a_request_reports_that_on_the_server() {
    let mut middle = middle(&[]);
    match middle.request_outcome(Ok(())) {
        Progress::Done(Err(e)) => assert_eq!(e.to_string(), "no request is in flight"),
        other => panic!("{:?}", other),
    }
    match middle.response_outcome(Ok(())) {
        Progress::Done(Err(e)) => assert_eq!(e.to_string(), "no request is in flight"),
        other => panic!("{:?}", other),
    }
}

#[test]
fn an_output_that_is_named_twice_holds_what_the_command_wrote() {
    let mut world = world();
    world.cloud.insert(key("/o"), "stale".to_string());
    let mut middle = middle(&[]);
    let req =
        RunSpecification::new(Param::cmd_path("/bin/tee"), vec![output("/o"), output("/o")]);
    let recipe = take_in(&mut middle, &mut world, req, &[]).unwrap();
    assert_eq!(recipe.args, vec!["/scratch/0-o".to_string(), "/scratch/1-o".to_string()]);
    world.local.insert("/scratch/0-o".to_string(), "fresh".to_string());
    world.local.insert("/scratch/1-o".to_string(), "fresh".to_string());
    let response = hand_back(&mut middle, &mut world, Ok(0)).unwrap();
    assert_eq!(response, RunResponse { return_code: 0, exc: None });
    assert_eq!(world.cloud.get(&key("/o")), Some(&"fresh".to_string()));
}
