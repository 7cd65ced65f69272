//! The invoke stage at the server's end.
//!
//! On the way in, every parameter of the request is resolved to the string
//! that the command is launched with: a value, a variable, a command of the
//! palette, a filled template, or, for a file on the object store, a scratch
//! path of this host. Each such file leaves a guard. An input is downloaded
//! to its scratch path when its guard is entered; an output is uploaded from
//! its scratch path, if the command has written it, when its guard is
//! exited.

use crate::assoc::{find, keys, lookup, names, pairs_view, Environment};
use crate::error::{misplaced, palette_miss, Error, ErrorKind, ErrorView};
use crate::middles::invoke::{
    idle_error, idle_failure, outcome_view, staging_failure, with_guards, ArgGuard, GuardKind,
    GuardStack, GuardView, Progress, ProgressView, StackView,
};
use crate::params::{args_view, cloud_key, cloud_key_of, Param, ParamView};
use crate::protocol::{
    param_view, params_view, text_view, ResponseView, RunRecipe, RunRequest, RunResponse,
    RunSpecification, SpecificationView,
};
use crate::template::{render, rendered};
use crate::text::texts;
use vstd::prelude::*;

verus! {

/// What the server is set up with: the palette, which binds the name of each
/// command that it offers to the path of that command.
#[derive(Debug)]
pub struct Config {
    pub command_palette: Vec<(String, String)>,
}

/// What one request is resolved against.
#[derive(Debug)]
pub struct Scene<'a> {
    /// The palette of commands.
    pub palette: &'a Vec<(String, String)>,
    /// The environment of the server's process.
    pub os_env: &'a Vec<(String, String)>,
    /// The scratch paths for the files of the request, in the order of
    /// [`request_files`].
    pub scratch: &'a Vec<String>,
}

pub struct SceneView {
    pub palette: Seq<(Seq<char>, Seq<char>)>,
    pub os_env: Environment,
    pub scratch: Seq<Seq<char>>,
}

impl<'a> View for Scene<'a> {
    type V = SceneView;

    open spec fn view(&self) -> SceneView {
        SceneView {
            palette: pairs_view(self.palette@),
            os_env: pairs_view(self.os_env@),
            scratch: texts(self.scratch@),
        }
    }
}

/// A resolved part of a request, and the guards that it left.
pub struct Resolved<T> {
    pub value: T,
    pub guards: Seq<GuardView>,
}

/// A resolved part that left no guard.
pub open spec fn plain<T>(value: T) -> Resolved<T> {
    Resolved { value, guards: Seq::empty() }
}

/// The value of the variable `name`: what the server's own environment
/// holds, else what the request passed, else nothing.
pub open spec fn env_value(os_env: Environment, passed: Environment, name: Seq<char>) -> Seq<char> {
    match lookup(os_env, name) {
        Some(value) => value,
        None => match lookup(passed, name) {
            Some(value) => value,
            None => Seq::empty(),
        },
    }
}

/// The failure for a file on the store for which no scratch path is left.
pub open spec fn scratch_missing(key: Seq<char>) -> ErrorView {
    ErrorView { kind: ErrorKind::Validation, message: "no scratch path for cloud file "@ + key }
}

/// A file on the store takes the scratch path at `base`, and leaves a guard
/// for it.
pub open spec fn scratch_file(kind: GuardKind, key: Seq<char>, scratch: Seq<Seq<char>>, base: nat)
    -> Result<Resolved<Seq<char>>, ErrorView> {
    if base < scratch.len() {
        Ok(
            Resolved {
                value: scratch[base as int],
                guards: seq![GuardView { kind, key, path: scratch[base as int] }],
            },
        )
    } else {
        Err(scratch_missing(key))
    }
}

/// The string that `param` resolves to and the guards that it leaves, or the
/// failure to resolve it. `passed` is what the request's own environment
/// has bound so far, and `base` the number of scratch paths that are taken
/// already.
pub open spec fn resolved_param(param: ParamView, scene: SceneView, passed: Environment, base: nat)
    -> Result<Resolved<Seq<char>>, ErrorView>
    decreases param, 0nat,
{
    match param {
        ParamView::Str { value } => Ok(plain(value)),
        ParamView::Env { name } => Ok(plain(env_value(scene.os_env, passed, name))),
        ParamView::RemoteEnv { name } => Ok(plain(env_value(scene.os_env, passed, name))),
        ParamView::CmdName { name } => match lookup(scene.palette, name) {
            Some(path) => Ok(plain(path)),
            None => Err(palette_miss(name, names(scene.palette))),
        },
        ParamView::CmdPath { path } => Ok(plain(path)),
        ParamView::InCloudFile { filepath, hostname } => scratch_file(
            GuardKind::InCloudFile,
            cloud_key_of(hostname, filepath),
            scene.scratch,
            base,
        ),
        ParamView::OutCloudFile { filepath, hostname } => scratch_file(
            GuardKind::OutCloudFile,
            cloud_key_of(hostname, filepath),
            scene.scratch,
            base,
        ),
        ParamView::InLocalFile { filepath, hostname } => Err(
            misplaced(cloud_key_of(hostname, filepath)),
        ),
        ParamView::OutLocalFile { filepath, hostname } => Err(
            misplaced(cloud_key_of(hostname, filepath)),
        ),
        ParamView::Format { tmpl, args } => match resolved_bindings(
            args,
            scene,
            passed,
            base,
            args.len(),
        ) {
            Err(e) => Err(e),
            Ok(vars) => match rendered(tmpl, vars.value) {
                Ok(text) => Ok(Resolved { value: text, guards: vars.guards }),
                Err(e) => Err(e),
            },
        },
    }
}

/// The first `n` bindings of `args` with each value resolved, names and
/// positions kept; or the failure of the first value that has one.
pub open spec fn resolved_bindings(
    args: Seq<(Seq<char>, ParamView)>,
    scene: SceneView,
    passed: Environment,
    base: nat,
    n: nat,
) -> Result<Resolved<Seq<(Seq<char>, Seq<char>)>>, ErrorView>
    decreases args, n,
{
    if n == 0 || n > args.len() {
        Ok(plain(Seq::empty()))
    } else {
        match resolved_bindings(args, scene, passed, base, (n - 1) as nat) {
            Err(e) => Err(e),
            Ok(before) => match resolved_param(
                args[n - 1].1,
                scene,
                passed,
                base + before.guards.len(),
            ) {
                Err(e) => Err(e),
                Ok(one) => Ok(
                    Resolved {
                        value: before.value.push((args[n - 1].0, one.value)),
                        guards: before.guards + one.guards,
                    },
                ),
            },
        }
    }
}

/// The first `n` bindings of the request's environment, resolved in order.
/// Each value is resolved against the bindings before it: a binding is
/// passed on as soon as it is resolved.
pub open spec fn resolved_env(
    bindings: Seq<(Seq<char>, ParamView)>,
    scene: SceneView,
    base: nat,
    n: nat,
) -> Result<Resolved<Seq<(Seq<char>, Seq<char>)>>, ErrorView>
    decreases n,
{
    if n == 0 || n > bindings.len() {
        Ok(plain(Seq::empty()))
    } else {
        match resolved_env(bindings, scene, base, (n - 1) as nat) {
            Err(e) => Err(e),
            Ok(before) => match resolved_param(
                bindings[n - 1].1,
                scene,
                before.value,
                base + before.guards.len(),
            ) {
                Err(e) => Err(e),
                Ok(one) => Ok(
                    Resolved {
                        value: before.value.push((bindings[n - 1].0, one.value)),
                        guards: before.guards + one.guards,
                    },
                ),
            },
        }
    }
}

/// The first `n` of `params` resolved, or the first failure among them.
pub open spec fn resolved_list(
    params: Seq<ParamView>,
    scene: SceneView,
    passed: Environment,
    base: nat,
    n: nat,
) -> Result<Resolved<Seq<Seq<char>>>, ErrorView>
    decreases n,
{
    if n == 0 || n > params.len() {
        Ok(plain(Seq::empty()))
    } else {
        match resolved_list(params, scene, passed, base, (n - 1) as nat) {
            Err(e) => Err(e),
            Ok(before) => match resolved_param(
                params[n - 1],
                scene,
                passed,
                base + before.guards.len(),
            ) {
                Err(e) => Err(e),
                Ok(one) => Ok(
                    Resolved {
                        value: before.value.push(one.value),
                        guards: before.guards + one.guards,
                    },
                ),
            },
        }
    }
}

pub open spec fn resolved_slot(
    slot: Option<ParamView>,
    scene: SceneView,
    passed: Environment,
    base: nat,
) -> Result<Resolved<Option<Seq<char>>>, ErrorView> {
    match slot {
        None => Ok(plain(None)),
        Some(param) => match resolved_param(param, scene, passed, base) {
            Ok(one) => Ok(Resolved { value: Some(one.value), guards: one.guards }),
            Err(e) => Err(e),
        },
    }
}

/// The environment of a request, resolved: its bindings, or none.
pub open spec fn resolved_environment(
    env: Option<Seq<(Seq<char>, ParamView)>>,
    scene: SceneView,
) -> Result<Resolved<Option<Seq<(Seq<char>, Seq<char>)>>>, ErrorView> {
    match env {
        None => Ok(plain(None)),
        Some(bindings) => match resolved_env(bindings, scene, 0, bindings.len()) {
            Ok(all) => Ok(Resolved { value: Some(all.value), guards: all.guards }),
            Err(e) => Err(e),
        },
    }
}

/// What the request's environment has passed once it is resolved.
pub open spec fn passed_by(env: Option<Seq<(Seq<char>, Seq<char>)>>) -> Environment {
    match env {
        Some(bindings) => bindings,
        None => Seq::empty(),
    }
}

/// The recipe for a request and the guards that the request leaves: the
/// environment is resolved first, then the command, the two output streams
/// and the arguments, each against what the environment has passed.
pub open spec fn resolved_request(request: SpecificationView<ParamView>, scene: SceneView) -> Result<
    Resolved<SpecificationView<Seq<char>>>,
    ErrorView,
> {
    match resolved_environment(request.env, scene) {
        Err(e) => Err(e),
        Ok(env) => match resolved_param(
            request.command,
            scene,
            passed_by(env.value),
            env.guards.len(),
        ) {
            Err(e) => Err(e),
            Ok(command) => match resolved_slot(
                request.stdout,
                scene,
                passed_by(env.value),
                (env.guards + command.guards).len(),
            ) {
                Err(e) => Err(e),
                Ok(stdout) => match resolved_slot(
                    request.stderr,
                    scene,
                    passed_by(env.value),
                    (env.guards + command.guards + stdout.guards).len(),
                ) {
                    Err(e) => Err(e),
                    Ok(stderr) => match resolved_list(
                        request.args,
                        scene,
                        passed_by(env.value),
                        (env.guards + command.guards + stdout.guards + stderr.guards).len(),
                        request.args.len(),
                    ) {
                        Err(e) => Err(e),
                        Ok(args) => Ok(
                            Resolved {
                                value: SpecificationView {
                                    command: command.value,
                                    args: args.value,
                                    cwd: request.cwd,
                                    env: env.value,
                                    stdout: stdout.value,
                                    stderr: stderr.value,
                                },
                                guards: env.guards + command.guards + stdout.guards
                                    + stderr.guards + args.guards,
                            },
                        ),
                    },
                },
            },
        },
    }
}

fn scratch_guard(kind: GuardKind, filepath: &String, hostname: &String, scene: &Scene, base: usize)
    -> (r: Result<(String, ArgGuard), Error>)
    ensures
        match scratch_file(kind, cloud_key_of(hostname@, filepath@), scene@.scratch, base as nat) {
            Ok(one) => r matches Ok(pair) && pair.0@ == one.value && seq![pair.1@] == one.guards,
            Err(e) => r matches Err(x) && x@ == e,
        },
{
    let key = cloud_key(hostname.as_str(), filepath.as_str());
    if base < scene.scratch.len() {
        let path = scene.scratch[base].clone();
        Ok((path.clone(), ArgGuard { kind, key, path }))
    } else {
        let mut message = "no scratch path for cloud file ".to_owned();
        message.append(key.as_str());
        Err(Error { kind: ErrorKind::Validation, message })
    }
}

fn env_lookup(scene: &Scene, passed: &Vec<(String, String)>, name: &String) -> (r: String)
    ensures
        r@ == env_value(scene@.os_env, pairs_view(passed@), name@),
{
    match find(scene.os_env, name.as_str()) {
        Some(value) => value,
        None => match find(passed, name.as_str()) {
            Some(value) => value,
            None => String::new(),
        },
    }
}

/// Resolves `param` to a string and adds its guards to `stack`. The scratch
/// paths that are taken already are as many as `stack` holds guards.
pub fn guard_param(
    param: &Param,
    scene: &Scene,
    passed: &Vec<(String, String)>,
    stack: &mut GuardStack,
) -> (r: Result<String, Error>)
    ensures
        match resolved_param(param@, scene@, pairs_view(passed@), old(stack)@.guards.len()) {
            Ok(one) => r matches Ok(s) && s@ == one.value && final(stack)@ == with_guards(
                old(stack)@,
                one.guards,
            ),
            Err(e) => r matches Err(x) && x@ == e && final(stack)@.grown_from(old(stack)@),
        },
    decreases param, 0nat,
{
    match param {
        Param::StrParam { value } => Ok(value.clone()),
        Param::EnvParam { name } => Ok(env_lookup(scene, passed, name)),
        Param::RemoteEnvParam { name } => Ok(env_lookup(scene, passed, name)),
        Param::CmdNameParam { name } => match find(scene.palette, name.as_str()) {
            Some(path) => Ok(path),
            None => Err(Error::palette_miss(name.as_str(), &keys(scene.palette))),
        },
        Param::CmdPathParam { path } => Ok(path.clone()),
        Param::InCloudFileParam { filepath, hostname } => {
            match scratch_guard(GuardKind::InCloudFile, filepath, hostname, scene, stack.planned()) {
                Ok((path, guard)) => {
                    stack.push_guard(guard);
                    assert(old(stack)@.guards.push(guard@) =~= old(stack)@.guards + seq![guard@]);
                    Ok(path)
                },
                Err(e) => Err(e),
            }
        },
        Param::OutCloudFileParam { filepath, hostname } => {
            match scratch_guard(GuardKind::OutCloudFile, filepath, hostname, scene, stack.planned()) {
                Ok((path, guard)) => {
                    stack.push_guard(guard);
                    assert(old(stack)@.guards.push(guard@) =~= old(stack)@.guards + seq![guard@]);
                    Ok(path)
                },
                Err(e) => Err(e),
            }
        },
        Param::InLocalFileParam { filepath, hostname } => Err(
            Error::misplaced(cloud_key(hostname.as_str(), filepath.as_str()).as_str()),
        ),
        Param::OutLocalFileParam { filepath, hostname } => Err(
            Error::misplaced(cloud_key(hostname.as_str(), filepath.as_str()).as_str()),
        ),
        Param::FormatParam { tmpl, args } => match guard_hashmap_args(args, scene, passed, stack) {
            Err(e) => Err(e),
            Ok(vars) => render(tmpl.as_str(), &vars),
        },
    }
}

/// Resolves the value of each binding, in order, and adds their guards to
/// `stack`.
pub fn guard_hashmap_args(
    args: &Vec<(String, Param)>,
    scene: &Scene,
    passed: &Vec<(String, String)>,
    stack: &mut GuardStack,
) -> (r: Result<Vec<(String, String)>, Error>)
    ensures
        match resolved_bindings(
            args_view(args@),
            scene@,
            pairs_view(passed@),
            old(stack)@.guards.len(),
            args@.len(),
        ) {
            Ok(all) => r matches Ok(out) && pairs_view(out@) == all.value && final(stack)@
                == with_guards(old(stack)@, all.guards),
            Err(e) => r matches Err(x) && x@ == e && final(stack)@.grown_from(old(stack)@),
        },
    decreases args, 1nat,
{
    let ghost base = stack@.guards.len();
    let mut out: Vec<(String, String)> = Vec::new();
    let mut i: usize = 0;
    assert(pairs_view(out@) =~= Seq::empty());
    while i < args.len()
        invariant
            i <= args.len(),
            base == old(stack)@.guards.len(),
            resolved_bindings(args_view(args@), scene@, pairs_view(passed@), base, i as nat)
                matches Ok(done) && done.value == pairs_view(out@) && stack@ == with_guards(
                old(stack)@,
                done.guards,
            ),
        decreases args.len() - i,
    {
        let ghost out_before = out@;
        let ghost done = resolved_bindings(
            args_view(args@),
            scene@,
            pairs_view(passed@),
            base,
            i as nat,
        )->Ok_0;
        match guard_param(&args[i].1, scene, passed, stack) {
            Err(e) => {
                proof {
                    lemma_bindings_failure(
                        args_view(args@),
                        scene@,
                        pairs_view(passed@),
                        base,
                        (i + 1) as nat,
                        args@.len(),
                    );
                }
                return Err(e);
            },
            Ok(value) => {
                let name = args[i].0.clone();
                out.push((name, value));
                proof {
                    let one = resolved_param(
                        args_view(args@)[i as int].1,
                        scene@,
                        pairs_view(passed@),
                        base + done.guards.len(),
                    )->Ok_0;
                    assert(pairs_view(out@) =~= pairs_view(out_before).push(
                        (args@[i as int].0@, value@),
                    ));
                    assert(stack@.guards =~= old(stack)@.guards + (done.guards + one.guards));
                }
            },
        }
        i += 1;
    }
    Ok(out)
}

/// A failure among the first `n` bindings is the failure of the whole list.
proof fn lemma_bindings_failure(
    args: Seq<(Seq<char>, ParamView)>,
    scene: SceneView,
    passed: Environment,
    base: nat,
    n: nat,
    m: nat,
)
    requires
        n <= m <= args.len(),
        resolved_bindings(args, scene, passed, base, n) is Err,
    ensures
        resolved_bindings(args, scene, passed, base, m) == resolved_bindings(
            args,
            scene,
            passed,
            base,
            n,
        ),
    decreases m - n,
{
    if n < m {
        lemma_bindings_failure(args, scene, passed, base, n, (m - 1) as nat);
    }
}

/// A failure among the first `n` bindings of the environment is the failure
/// of the whole environment.
proof fn lemma_env_failure(
    bindings: Seq<(Seq<char>, ParamView)>,
    scene: SceneView,
    base: nat,
    n: nat,
    m: nat,
)
    requires
        n <= m <= bindings.len(),
        resolved_env(bindings, scene, base, n) is Err,
    ensures
        resolved_env(bindings, scene, base, m) == resolved_env(bindings, scene, base, n),
    decreases m - n,
{
    if n < m {
        lemma_env_failure(bindings, scene, base, n, (m - 1) as nat);
    }
}

/// A failure among the first `n` parameters is the failure of the whole
/// list.
proof fn lemma_list_failure(
    params: Seq<ParamView>,
    scene: SceneView,
    passed: Environment,
    base: nat,
    n: nat,
    m: nat,
)
    requires
        n <= m <= params.len(),
        resolved_list(params, scene, passed, base, n) is Err,
    ensures
        resolved_list(params, scene, passed, base, m) == resolved_list(
            params,
            scene,
            passed,
            base,
            n,
        ),
    decreases m - n,
{
    if n < m {
        lemma_list_failure(params, scene, passed, base, n, (m - 1) as nat);
    }
}

/// Resolves the environment of a request, binding by binding, and adds its
/// guards to `stack`. What a binding resolves to is passed on to the
/// bindings behind it.
fn guard_env(bindings: &Vec<(String, Param)>, scene: &Scene, stack: &mut GuardStack) -> (r: Result<
    Vec<(String, String)>,
    Error,
>)
    requires
        old(stack)@.guards.len() == 0,
    ensures
        match resolved_env(args_view(bindings@), scene@, 0, bindings@.len()) {
            Ok(all) => r matches Ok(out) && pairs_view(out@) == all.value && final(stack)@
                == with_guards(old(stack)@, all.guards),
            Err(e) => r matches Err(x) && x@ == e,
        },
{
    let mut out: Vec<(String, String)> = Vec::new();
    let mut i: usize = 0;
    assert(pairs_view(out@) =~= Seq::empty());
    while i < bindings.len()
        invariant
            i <= bindings.len(),
            old(stack)@.guards.len() == 0,
            resolved_env(args_view(bindings@), scene@, 0, i as nat) matches Ok(done) && done.value
                == pairs_view(out@) && stack@ == with_guards(old(stack)@, done.guards),
        decreases bindings.len() - i,
    {
        let ghost out_before = out@;
        let ghost done = resolved_env(args_view(bindings@), scene@, 0, i as nat)->Ok_0;
        match guard_param(&bindings[i].1, scene, &out, stack) {
            Err(e) => {
                proof {
                    lemma_env_failure(
                        args_view(bindings@),
                        scene@,
                        0,
                        (i + 1) as nat,
                        bindings@.len(),
                    );
                }
                return Err(e);
            },
            Ok(value) => {
                let name = bindings[i].0.clone();
                out.push((name, value));
                proof {
                    let one = resolved_param(
                        args_view(bindings@)[i as int].1,
                        scene@,
                        done.value,
                        0 + done.guards.len(),
                    )->Ok_0;
                    assert(pairs_view(out@) =~= pairs_view(out_before).push(
                        (bindings@[i as int].0@, value@),
                    ));
                    assert(stack@.guards =~= old(stack)@.guards + (done.guards + one.guards));
                }
            },
        }
        i += 1;
    }
    Ok(out)
}

/// Resolves each parameter of `params`, in order, and adds their guards to
/// `stack`.
fn guard_list(
    params: &Vec<Param>,
    scene: &Scene,
    passed: &Vec<(String, String)>,
    stack: &mut GuardStack,
) -> (r: Result<Vec<String>, Error>)
    ensures
        match resolved_list(
            params_view(params@),
            scene@,
            pairs_view(passed@),
            old(stack)@.guards.len(),
            params@.len(),
        ) {
            Ok(all) => r matches Ok(out) && texts(out@) == all.value && final(stack)@
                == with_guards(old(stack)@, all.guards),
            Err(e) => r matches Err(x) && x@ == e,
        },
{
    let ghost base = stack@.guards.len();
    let mut out: Vec<String> = Vec::new();
    let mut i: usize = 0;
    assert(texts(out@) =~= Seq::empty());
    while i < params.len()
        invariant
            i <= params.len(),
            base == old(stack)@.guards.len(),
            resolved_list(params_view(params@), scene@, pairs_view(passed@), base, i as nat)
                matches Ok(done) && done.value == texts(out@) && stack@ == with_guards(
                old(stack)@,
                done.guards,
            ),
        decreases params.len() - i,
    {
        let ghost out_before = out@;
        let ghost done = resolved_list(
            params_view(params@),
            scene@,
            pairs_view(passed@),
            base,
            i as nat,
        )->Ok_0;
        match guard_param(&params[i], scene, passed, stack) {
            Err(e) => {
                proof {
                    lemma_list_failure(
                        params_view(params@),
                        scene@,
                        pairs_view(passed@),
                        base,
                        (i + 1) as nat,
                        params@.len(),
                    );
                }
                return Err(e);
            },
            Ok(value) => {
                out.push(value);
                proof {
                    let one = resolved_param(
                        params_view(params@)[i as int],
                        scene@,
                        pairs_view(passed@),
                        base + done.guards.len(),
                    )->Ok_0;
                    assert(texts(out@) =~= texts(out_before).push(value@));
                    assert(stack@.guards =~= old(stack)@.guards + (done.guards + one.guards));
                }
            },
        }
        i += 1;
    }
    Ok(out)
}

fn guard_slot(
    slot: &Option<Param>,
    scene: &Scene,
    passed: &Vec<(String, String)>,
    stack: &mut GuardStack,
) -> (r: Result<Option<String>, Error>)
    ensures
        match resolved_slot(
            param_view(*slot),
            scene@,
            pairs_view(passed@),
            old(stack)@.guards.len(),
        ) {
            Ok(one) => r matches Ok(out) && text_view(out) == one.value && final(stack)@
                == with_guards(old(stack)@, one.guards),
            Err(e) => r matches Err(x) && x@ == e,
        },
{
    match slot {
        None => {
            Ok(None)
        },
        Some(param) => match guard_param(param, scene, passed, stack) {
            Ok(value) => Ok(Some(value)),
            Err(e) => Err(e),
        },
    }
}

/// Resolves a whole request into the recipe to launch and adds its guards
/// to the empty `stack`: the environment first, then the command, the output
/// streams and the arguments.
fn guard_run_args(request: &RunRequest, scene: &Scene, stack: &mut GuardStack) -> (r: Result<
    RunRecipe,
    Error,
>)
    requires
        old(stack)@.guards.len() == 0,
    ensures
        match resolved_request(request@, scene@) {
            Ok(all) => r matches Ok(out) && out@ == all.value && final(stack)@ == with_guards(
                old(stack)@,
                all.guards,
            ),
            Err(e) => r matches Err(x) && x@ == e,
        },
{
    let env = match &request.env {
        None => {
            None
        },
        Some(bindings) => match guard_env(bindings, scene, stack) {
            Ok(value) => Some(value),
            Err(e) => {
                return Err(e);
            },
        },
    };
    let nothing: Vec<(String, String)> = Vec::new();
    assert(pairs_view(nothing@) =~= Seq::empty());
    let passed = match &env {
        Some(bindings) => bindings,
        None => &nothing,
    };
    let ghost env_guards = resolved_environment(request@.env, scene@)->Ok_0.guards;
    assert(stack@.guards =~= env_guards);
    let command = match guard_param(&request.command, scene, passed, stack) {
        Ok(value) => value,
        Err(e) => {
            return Err(e);
        },
    };
    let ghost command_guards = resolved_param(
        request@.command,
        scene@,
        pairs_view(passed@),
        env_guards.len(),
    )->Ok_0.guards;
    assert(stack@.guards =~= env_guards + command_guards);
    let stdout = match guard_slot(&request.stdout, scene, passed, stack) {
        Ok(value) => value,
        Err(e) => {
            return Err(e);
        },
    };
    let ghost stdout_guards = resolved_slot(
        request@.stdout,
        scene@,
        pairs_view(passed@),
        (env_guards + command_guards).len(),
    )->Ok_0.guards;
    assert(stack@.guards =~= env_guards + command_guards + stdout_guards);
    let stderr = match guard_slot(&request.stderr, scene, passed, stack) {
        Ok(value) => value,
        Err(e) => {
            return Err(e);
        },
    };
    let ghost stderr_guards = resolved_slot(
        request@.stderr,
        scene@,
        pairs_view(passed@),
        (env_guards + command_guards + stdout_guards).len(),
    )->Ok_0.guards;
    assert(stack@.guards =~= env_guards + command_guards + stdout_guards + stderr_guards);
    let args = match guard_list(&request.args, scene, passed, stack) {
        Ok(value) => value,
        Err(e) => {
            return Err(e);
        },
    };
    let ghost args_guards = resolved_list(
        request@.args,
        scene@,
        pairs_view(passed@),
        (env_guards + command_guards + stdout_guards + stderr_guards).len(),
        request@.args.len(),
    )->Ok_0.guards;
    assert(stack@.guards =~= old(stack)@.guards + (env_guards + command_guards + stdout_guards
        + stderr_guards + args_guards));
    let cwd = match &request.cwd {
        Some(dir) => Some(dir.clone()),
        None => None,
    };
    Ok(RunSpecification { command, args, cwd, env, stdout, stderr })
}

/// The paths, on the client, of the files of `param` that lie on the store,
/// in the order in which they take their scratch paths.
pub open spec fn param_files(param: ParamView) -> Seq<Seq<char>>
    decreases param, 0nat,
{
    match param {
        ParamView::InCloudFile { filepath, .. } => seq![filepath],
        ParamView::OutCloudFile { filepath, .. } => seq![filepath],
        ParamView::Format { tmpl, args } => bindings_files(args, args.len()),
        _ => Seq::empty(),
    }
}

pub open spec fn bindings_files(args: Seq<(Seq<char>, ParamView)>, n: nat) -> Seq<Seq<char>>
    decreases args, n,
{
    if n == 0 || n > args.len() {
        Seq::empty()
    } else {
        bindings_files(args, (n - 1) as nat) + param_files(args[n - 1].1)
    }
}

pub open spec fn list_files(params: Seq<ParamView>, n: nat) -> Seq<Seq<char>>
    decreases n,
{
    if n == 0 || n > params.len() {
        Seq::empty()
    } else {
        list_files(params, (n - 1) as nat) + param_files(params[n - 1])
    }
}

pub open spec fn slot_files(slot: Option<ParamView>) -> Seq<Seq<char>> {
    match slot {
        Some(param) => param_files(param),
        None => Seq::empty(),
    }
}

/// The files of a whole request that lie on the store, in the order in which
/// the request is resolved.
pub open spec fn request_files(request: SpecificationView<ParamView>) -> Seq<Seq<char>> {
    (match request.env {
        Some(bindings) => bindings_files(bindings, bindings.len()),
        None => Seq::empty(),
    }) + param_files(request.command) + slot_files(request.stdout) + slot_files(request.stderr)
        + list_files(request.args, request.args.len())
}

fn collect_param(param: &Param, files: &mut Vec<String>)
    ensures
        texts(final(files)@) == texts(old(files)@) + param_files(param@),
    decreases param, 0nat,
{
    match param {
        Param::InCloudFileParam { filepath, .. } => {
            files.push(filepath.clone());
            assert(texts(files@) =~= texts(old(files)@) + seq![filepath@]);
        },
        Param::OutCloudFileParam { filepath, .. } => {
            files.push(filepath.clone());
            assert(texts(files@) =~= texts(old(files)@) + seq![filepath@]);
        },
        Param::FormatParam { tmpl, args } => {
            collect_bindings(args, files);
        },
        _ => {},
    }
}

fn collect_bindings(args: &Vec<(String, Param)>, files: &mut Vec<String>)
    ensures
        texts(final(files)@) == texts(old(files)@) + bindings_files(args_view(args@), args@.len()),
    decreases args, 1nat,
{
    let mut i: usize = 0;
    while i < args.len()
        invariant
            i <= args.len(),
            texts(files@) == texts(old(files)@) + bindings_files(args_view(args@), i as nat),
        decreases args.len() - i,
    {
        collect_param(&args[i].1, files);
        assert(texts(files@) =~= texts(old(files)@) + bindings_files(
            args_view(args@),
            (i + 1) as nat,
        ));
        i += 1;
    }
}

fn collect_list(params: &Vec<Param>, files: &mut Vec<String>)
    ensures
        texts(final(files)@) == texts(old(files)@) + list_files(
            params_view(params@),
            params@.len(),
        ),
{
    let mut i: usize = 0;
    while i < params.len()
        invariant
            i <= params.len(),
            texts(files@) == texts(old(files)@) + list_files(params_view(params@), i as nat),
        decreases params.len() - i,
    {
        collect_param(&params[i], files);
        assert(texts(files@) =~= texts(old(files)@) + list_files(
            params_view(params@),
            (i + 1) as nat,
        ));
        i += 1;
    }
}

fn collect_slot(slot: &Option<Param>, files: &mut Vec<String>)
    ensures
        texts(final(files)@) == texts(old(files)@) + slot_files(param_view(*slot)),
{
    match slot {
        Some(param) => collect_param(param, files),
        None => {},
    }
}

/// The state of the server's invoke stage.
pub struct MiddleView {
    pub palette: Seq<(Seq<char>, Seq<char>)>,
    pub stack: StackView,
    /// The recipe, until it is handed on.
    pub recipe: Option<SpecificationView<Seq<char>>>,
    /// How the launch went, until the response is handed back.
    pub result: Option<Result<int, ErrorView>>,
}

impl MiddleView {
    /// The state before a request and after its response.
    pub open spec fn idle(palette: Seq<(Seq<char>, Seq<char>)>) -> MiddleView {
        MiddleView { palette, stack: StackView::empty(), recipe: None, result: None }
    }

    /// The request stage goes on: either a store operation is due, or the
    /// stage is over. It ends in the first failure of a download, after the
    /// stack has unwound; without one it hands on the recipe.
    pub open spec fn request_progress(self) -> (
        MiddleView,
        ProgressView<SpecificationView<Seq<char>>>,
    ) {
        let stack = self.stack.settled();
        match stack.pending() {
            Some(action) => (MiddleView { stack, ..self }, ProgressView::Perform(action)),
            None => (
                MiddleView { stack, recipe: None, ..self },
                ProgressView::Done(
                    match stack.fault {
                        Some(e) => Err(e),
                        None => match self.recipe {
                            Some(recipe) => Ok(recipe),
                            None => Err(idle_failure()),
                        },
                    },
                ),
            ),
        }
    }

    /// What the stage hands back once every guard is exited: the first
    /// upload that failed; without one, the exit code of the command in a
    /// response without a reason, or the failure of the launch.
    pub open spec fn outcome(self) -> Result<ResponseView, ErrorView> {
        match self.result {
            None => Err(idle_failure()),
            Some(result) => match self.stack.fault {
                Some(e) => Err(e),
                None => match result {
                    Ok(code) => Ok(ResponseView { return_code: code, exc: None }),
                    Err(e) => Err(e),
                },
            },
        }
    }

    /// The response stage goes on: either a store operation is due, or every
    /// guard is exited and the stage is over.
    pub open spec fn response_progress(self) -> (MiddleView, ProgressView<ResponseView>) {
        let stack = self.stack.settled();
        match stack.pending() {
            Some(action) => (MiddleView { stack, ..self }, ProgressView::Perform(action)),
            None => (
                MiddleView { stack, recipe: None, result: None, ..self },
                ProgressView::Done((MiddleView { stack, ..self }).outcome()),
            ),
        }
    }

    /// A request arrives: it is resolved, its guards are laid out, and the
    /// request stage begins. A request that cannot be resolved ends the
    /// stage at once, with nothing staged.
    pub open spec fn begun(
        self,
        request: SpecificationView<ParamView>,
        os_env: Environment,
        scratch: Seq<Seq<char>>,
    ) -> (MiddleView, ProgressView<SpecificationView<Seq<char>>>) {
        match resolved_request(request, SceneView { palette: self.palette, os_env, scratch }) {
            Err(e) => (MiddleView::idle(self.palette), ProgressView::Done(Err(e))),
            Ok(all) => (MiddleView {
                palette: self.palette,
                stack: with_guards(StackView::empty(), all.guards),
                recipe: Some(all.value),
                result: None,
            }).request_progress(),
        }
    }

    /// The result of the launch arrives: the stack unwinds.
    pub open spec fn ended(self, result: Result<int, ErrorView>) -> (
        MiddleView,
        ProgressView<ResponseView>,
    ) {
        (MiddleView {
            stack: self.stack.unwound(),
            recipe: None,
            result: Some(result),
            ..self
        }).response_progress()
    }

    /// The state after the outcome of the store operation that was due.
    pub open spec fn reported(self, outcome: Result<(), Seq<char>>) -> MiddleView {
        MiddleView {
            stack: self.stack.after(
                outcome is Ok,
                match outcome {
                    Ok(_) => staging_failure(Seq::empty()),
                    Err(message) => staging_failure(message),
                },
            ),
            ..self
        }
    }
}

pub open spec fn recipe_view(recipe: Option<RunRecipe>) -> Option<SpecificationView<Seq<char>>> {
    match recipe {
        Some(r) => Some(r@),
        None => None,
    }
}

pub open spec fn launch_view(result: Result<i32, Error>) -> Result<int, ErrorView> {
    match result {
        Ok(code) => Ok(code as int),
        Err(e) => Err(e@),
    }
}

pub open spec fn held_view(held: Option<Result<i32, Error>>) -> Option<Result<int, ErrorView>> {
    match held {
        Some(result) => Some(launch_view(result)),
        None => None,
    }
}

pub open spec fn request_progress_view(progress: Progress<RunRecipe>) -> ProgressView<
    SpecificationView<Seq<char>>,
> {
    match progress {
        Progress::Perform(action) => ProgressView::Perform(action@),
        Progress::Done(Ok(recipe)) => ProgressView::Done(Ok(recipe@)),
        Progress::Done(Err(e)) => ProgressView::Done(Err(e@)),
    }
}

pub open spec fn response_progress_view(progress: Progress<RunResponse>) -> ProgressView<
    ResponseView,
> {
    match progress {
        Progress::Perform(action) => ProgressView::Perform(action@),
        Progress::Done(Ok(response)) => ProgressView::Done(Ok(response@)),
        Progress::Done(Err(e)) => ProgressView::Done(Err(e@)),
    }
}

/// The invoke stage of a server, for one request at a time.
///
/// The files of a request that lie on the store each need a scratch path:
/// [`MiddleImpl::scratch_requests`] lists them. With one fresh path for each,
/// [`MiddleImpl::transform_request`] begins the request stage, and
/// [`MiddleImpl::transform_response`] the response stage once the command
/// has run. Each answers with a [`Progress`]: while it names a store
/// operation, carry the operation out and hand its outcome to
/// [`MiddleImpl::request_outcome`] or [`MiddleImpl::response_outcome`],
/// which answer in the same way.
#[derive(Debug)]
pub struct MiddleImpl {
    conf: Config,
    stack: GuardStack,
    recipe: Option<RunRecipe>,
    result: Option<Result<i32, Error>>,
}

impl View for MiddleImpl {
    type V = MiddleView;

    closed spec fn view(&self) -> MiddleView {
        MiddleView {
            palette: pairs_view(self.conf.command_palette@),
            stack: self.stack@,
            recipe: recipe_view(self.recipe),
            result: held_view(self.result),
        }
    }
}

impl MiddleImpl {
    pub fn new(conf: Config) -> (r: MiddleImpl)
        ensures
            r@ == MiddleView::idle(pairs_view(conf.command_palette@)),
    {
        MiddleImpl { conf, stack: GuardStack::new(), recipe: None, result: None }
    }

    /// The files of `request` that lie on the store, by their paths on the
    /// client, in the order in which `transform_request` takes a scratch
    /// path for each.
    pub fn scratch_requests(request: &RunRequest) -> (r: Vec<String>)
        ensures
            texts(r@) == request_files(request@),
    {
        let mut files: Vec<String> = Vec::new();
        assert(texts(files@) =~= Seq::empty());
        match &request.env {
            Some(bindings) => collect_bindings(bindings, &mut files),
            None => {},
        }
        collect_param(&request.command, &mut files);
        collect_slot(&request.stdout, &mut files);
        collect_slot(&request.stderr, &mut files);
        collect_list(&request.args, &mut files);
        assert(texts(files@) =~= request_files(request@));
        files
    }

    fn proceed_request(&mut self) -> (r: Progress<RunRecipe>)
        ensures
            final(self)@ == old(self)@.request_progress().0,
            request_progress_view(r) == old(self)@.request_progress().1,
    {
        match self.stack.next_action() {
            Some(action) => Progress::Perform(action),
            None => {
                let held = self.recipe.take();
                match self.stack.fault() {
                    Some(e) => Progress::Done(Err(e)),
                    None => match held {
                        Some(recipe) => Progress::Done(Ok(recipe)),
                        None => Progress::Done(Err(idle_error())),
                    },
                }
            },
        }
    }

    fn proceed_response(&mut self) -> (r: Progress<RunResponse>)
        ensures
            final(self)@ == old(self)@.response_progress().0,
            response_progress_view(r) == old(self)@.response_progress().1,
    {
        match self.stack.next_action() {
            Some(action) => Progress::Perform(action),
            None => {
                let held = self.result.take();
                self.recipe = None;
                match held {
                    None => Progress::Done(Err(idle_error())),
                    Some(result) => match self.stack.fault() {
                        Some(e) => Progress::Done(Err(e)),
                        None => match result {
                            Ok(code) => Progress::Done(
                                Ok(RunResponse { return_code: code, exc: None }),
                            ),
                            Err(e) => Progress::Done(Err(e)),
                        },
                    },
                }
            },
        }
    }

    /// Takes a request in: resolves it against the palette, the server's
    /// environment `os_env` and the scratch paths `scratch`, and begins to
    /// enter its guards.
    pub fn transform_request(
        &mut self,
        request: RunRequest,
        os_env: &Vec<(String, String)>,
        scratch: &Vec<String>,
    ) -> (r: Progress<RunRecipe>)
        ensures
            final(self)@ == old(self)@.begun(request@, pairs_view(os_env@), texts(scratch@)).0,
            request_progress_view(r) == old(self)@.begun(
                request@,
                pairs_view(os_env@),
                texts(scratch@),
            ).1,
    {
        self.stack = GuardStack::new();
        self.recipe = None;
        self.result = None;
        let scene = Scene { palette: &self.conf.command_palette, os_env, scratch };
        match guard_run_args(&request, &scene, &mut self.stack) {
            Err(e) => {
                self.stack = GuardStack::new();
                Progress::Done(Err(e))
            },
            Ok(recipe) => {
                self.recipe = Some(recipe);
                proof {
                    let all = resolved_request(request@, scene@)->Ok_0;
                    assert(self.stack@.guards =~= all.guards);
                }
                self.proceed_request()
            },
        }
    }

    /// Takes the outcome of the store operation that the request stage
    /// asked for.
    pub fn request_outcome(&mut self, outcome: Result<(), String>) -> (r: Progress<RunRecipe>)
        ensures
            final(self)@ == old(self)@.reported(outcome_view(outcome)).request_progress().0,
            request_progress_view(r) == old(self)@.reported(
                outcome_view(outcome),
            ).request_progress().1,
    {
        self.stack.record(outcome);
        self.proceed_request()
    }

    /// Takes in how the launch went, an exit code or a failure, and begins
    /// to exit the guards, the last entered first.
    pub fn transform_response(&mut self, result: Result<i32, Error>) -> (r: Progress<RunResponse>)
        ensures
            final(self)@ == old(self)@.ended(launch_view(result)).0,
            response_progress_view(r) == old(self)@.ended(launch_view(result)).1,
    {
        self.stack.pop_all_guards();
        self.recipe = None;
        self.result = Some(result);
        self.proceed_response()
    }

    /// Takes the outcome of the store operation that the response stage
    /// asked for.
    pub fn response_outcome(&mut self, outcome: Result<(), String>) -> (r: Progress<RunResponse>)
        ensures
            final(self)@ == old(self)@.reported(outcome_view(outcome)).response_progress().0,
            response_progress_view(r) == old(self)@.reported(
                outcome_view(outcome),
            ).response_progress().1,
    {
        self.stack.record(outcome);
        self.proceed_response()
    }
}

} // verus!
