//! What holds of the invoke stage at the server's end.

use crate::assoc::{lemma_lookup_bound, lookup, Environment};
use crate::error::ErrorView;
use crate::middles::invoke::laws::{
    occurs_in, occurs_in_bindings, occurs_in_list, occurs_in_request, occurs_in_slot,
};
use crate::middles::invoke::server_end;
use crate::middles::invoke::server_end::{env_value, passed_by, SceneView};
use crate::middles::invoke::store::{
    all_cloud, lemma_server_outputs_hold_what_was_written, lemma_server_outputs_reach_store, run,
    uploads_to, World,
};
use crate::middles::invoke::{with_guards, GuardKind, GuardView, ProgressView, StackView};
use crate::params::ParamView;
use crate::protocol::{ResponseView, SpecificationView};
use crate::template::rendered;
use vstd::prelude::*;

verus! {

/// What the guards of a resolved part are: one for each of its files on the
/// store, in order, each with the scratch path that the file took.
pub open spec fn guards_fit(
    guards: Seq<GuardView>,
    files: Seq<Seq<char>>,
    scratch: Seq<Seq<char>>,
    base: nat,
) -> bool {
    &&& guards.len() == files.len()
    &&& all_cloud(guards)
    &&& guards.len() > 0 ==> base + guards.len() <= scratch.len()
    &&& forall|j: int| 0 <= j < guards.len() ==> (#[trigger] guards[j]).path == scratch[base + j]
}

proof fn lemma_guards_fit_together(
    first: Seq<GuardView>,
    first_files: Seq<Seq<char>>,
    second: Seq<GuardView>,
    second_files: Seq<Seq<char>>,
    scratch: Seq<Seq<char>>,
    base: nat,
)
    requires
        guards_fit(first, first_files, scratch, base),
        guards_fit(second, second_files, scratch, base + first.len()),
    ensures
        guards_fit(first + second, first_files + second_files, scratch, base),
{
    let both = first + second;
    assert forall|j: int| 0 <= j < both.len() implies (#[trigger] both[j]).path == scratch[base
        + j] by {
        if j >= first.len() {
            assert(both[j] == second[j - first.len()]);
        }
    }
    assert forall|j: int| 0 <= j < both.len() implies (#[trigger] both[j]).kind
        == GuardKind::InCloudFile || both[j].kind
        == GuardKind::OutCloudFile by {
        if j >= first.len() {
            assert(both[j] == second[j - first.len()]);
        }
    }
}

/// A parameter that the server resolves leaves one guard for each of its
/// files on the store.
pub proof fn lemma_server_guards(param: ParamView, scene: SceneView, passed: Environment, base: nat)
    requires
        server_end::resolved_param(param, scene, passed, base) is Ok,
    ensures
        guards_fit(
            server_end::resolved_param(param, scene, passed, base)->Ok_0.guards,
            server_end::param_files(param),
            scene.scratch,
            base,
        ),
    decreases param, 0nat,
{
    match param {
        ParamView::Format { tmpl, args } => {
            lemma_server_binding_guards(args, scene, passed, base, args.len());
        },
        _ => {},
    }
}

proof fn lemma_server_binding_guards(
    args: Seq<(Seq<char>, ParamView)>,
    scene: SceneView,
    passed: Environment,
    base: nat,
    n: nat,
)
    requires
        server_end::resolved_bindings(args, scene, passed, base, n) is Ok,
    ensures
        guards_fit(
            server_end::resolved_bindings(args, scene, passed, base, n)->Ok_0.guards,
            server_end::bindings_files(args, n),
            scene.scratch,
            base,
        ),
    decreases args, n,
{
    if n == 0 || n > args.len() {
    } else {
        let before = server_end::resolved_bindings(args, scene, passed, base, (n - 1) as nat)->Ok_0;
        lemma_server_binding_guards(args, scene, passed, base, (n - 1) as nat);
        lemma_server_guards(args[n - 1].1, scene, passed, base + before.guards.len());
        let one = server_end::resolved_param(
            args[n - 1].1,
            scene,
            passed,
            base + before.guards.len(),
        )->Ok_0;
        lemma_guards_fit_together(
            before.guards,
            server_end::bindings_files(args, (n - 1) as nat),
            one.guards,
            server_end::param_files(args[n - 1].1),
            scene.scratch,
            base,
        );
    }
}

proof fn lemma_server_env_guards(
    bindings: Seq<(Seq<char>, ParamView)>,
    scene: SceneView,
    base: nat,
    n: nat,
)
    requires
        server_end::resolved_env(bindings, scene, base, n) is Ok,
    ensures
        guards_fit(
            server_end::resolved_env(bindings, scene, base, n)->Ok_0.guards,
            server_end::bindings_files(bindings, n),
            scene.scratch,
            base,
        ),
    decreases n,
{
    if n == 0 || n > bindings.len() {
    } else {
        let before = server_end::resolved_env(bindings, scene, base, (n - 1) as nat)->Ok_0;
        lemma_server_env_guards(bindings, scene, base, (n - 1) as nat);
        lemma_server_guards(bindings[n - 1].1, scene, before.value, base + before.guards.len());
        let one = server_end::resolved_param(
            bindings[n - 1].1,
            scene,
            before.value,
            base + before.guards.len(),
        )->Ok_0;
        lemma_guards_fit_together(
            before.guards,
            server_end::bindings_files(bindings, (n - 1) as nat),
            one.guards,
            server_end::param_files(bindings[n - 1].1),
            scene.scratch,
            base,
        );
    }
}

proof fn lemma_server_list_guards(
    params: Seq<ParamView>,
    scene: SceneView,
    passed: Environment,
    base: nat,
    n: nat,
)
    requires
        server_end::resolved_list(params, scene, passed, base, n) is Ok,
    ensures
        guards_fit(
            server_end::resolved_list(params, scene, passed, base, n)->Ok_0.guards,
            server_end::list_files(params, n),
            scene.scratch,
            base,
        ),
    decreases n,
{
    if n == 0 || n > params.len() {
    } else {
        let before = server_end::resolved_list(params, scene, passed, base, (n - 1) as nat)->Ok_0;
        lemma_server_list_guards(params, scene, passed, base, (n - 1) as nat);
        lemma_server_guards(params[n - 1], scene, passed, base + before.guards.len());
        let one = server_end::resolved_param(
            params[n - 1],
            scene,
            passed,
            base + before.guards.len(),
        )->Ok_0;
        lemma_guards_fit_together(
            before.guards,
            server_end::list_files(params, (n - 1) as nat),
            one.guards,
            server_end::param_files(params[n - 1]),
            scene.scratch,
            base,
        );
    }
}

/// A request that the server resolves leaves one guard for each of its
/// files on the store, in the order in which the files are listed for their
/// scratch paths, and each guard holds the scratch path of its file.
pub proof fn lemma_server_request_guards(request: SpecificationView<ParamView>, scene: SceneView)
    requires
        server_end::resolved_request(request, scene) is Ok,
    ensures
        guards_fit(
            server_end::resolved_request(request, scene)->Ok_0.guards,
            server_end::request_files(request),
            scene.scratch,
            0,
        ),
{
    let env = server_end::resolved_environment(request.env, scene)->Ok_0;
    let passed = passed_by(env.value);
    let env_files = match request.env {
        Some(bindings) => server_end::bindings_files(bindings, bindings.len()),
        None => Seq::empty(),
    };
    if request.env is Some {
        lemma_server_env_guards(request.env->0, scene, 0, request.env->0.len());
    }
    assert(guards_fit(env.guards, env_files, scene.scratch, 0));
    let command = server_end::resolved_param(request.command, scene, passed, env.guards.len())->Ok_0;
    lemma_server_guards(request.command, scene, passed, env.guards.len());
    let g1 = env.guards + command.guards;
    let f1 = env_files + server_end::param_files(request.command);
    lemma_guards_fit_together(
        env.guards,
        env_files,
        command.guards,
        server_end::param_files(request.command),
        scene.scratch,
        0,
    );
    let stdout = server_end::resolved_slot(request.stdout, scene, passed, g1.len())->Ok_0;
    if request.stdout is Some {
        lemma_server_guards(request.stdout->0, scene, passed, g1.len());
    }
    let g2 = g1 + stdout.guards;
    let f2 = f1 + server_end::slot_files(request.stdout);
    lemma_guards_fit_together(
        g1,
        f1,
        stdout.guards,
        server_end::slot_files(request.stdout),
        scene.scratch,
        0,
    );
    let stderr = server_end::resolved_slot(request.stderr, scene, passed, g2.len())->Ok_0;
    if request.stderr is Some {
        lemma_server_guards(request.stderr->0, scene, passed, g2.len());
    }
    let g3 = g2 + stderr.guards;
    let f3 = f2 + server_end::slot_files(request.stderr);
    lemma_guards_fit_together(
        g2,
        f2,
        stderr.guards,
        server_end::slot_files(request.stderr),
        scene.scratch,
        0,
    );
    let args = server_end::resolved_list(
        request.args,
        scene,
        passed,
        g3.len(),
        request.args.len(),
    )->Ok_0;
    lemma_server_list_guards(request.args, scene, passed, g3.len(), request.args.len());
    lemma_guards_fit_together(
        g3,
        f3,
        args.guards,
        server_end::list_files(request.args, request.args.len()),
        scene.scratch,
        0,
    );
}

/// `param` asks for the variable `name` of the server's side.
pub open spec fn refers_to(param: ParamView, name: Seq<char>) -> bool {
    param == (ParamView::Env { name }) || param == (ParamView::RemoteEnv { name })
}

/// A list that the server resolves keeps its length, and every parameter of
/// it that asks for a variable becomes the value of that variable.
pub proof fn lemma_list_values(
    params: Seq<ParamView>,
    scene: SceneView,
    passed: Environment,
    base: nat,
    n: nat,
    name: Seq<char>,
)
    requires
        n <= params.len(),
        server_end::resolved_list(params, scene, passed, base, n) is Ok,
    ensures
        ({
            let value = server_end::resolved_list(params, scene, passed, base, n)->Ok_0.value;
            &&& value.len() == n
            &&& forall|i: int|
                0 <= i < n && refers_to(#[trigger] params[i], name) ==> value[i] == env_value(
                    scene.os_env,
                    passed,
                    name,
                )
        }),
    decreases n,
{
    if n > 0 {
        lemma_list_values(params, scene, passed, base, (n - 1) as nat, name);
    }
}

/// The bindings of a template that the server resolves keep their names
/// and their order, and every value among them that asks for a variable
/// becomes the value of that variable.
pub proof fn lemma_binding_values(
    args: Seq<(Seq<char>, ParamView)>,
    scene: SceneView,
    passed: Environment,
    base: nat,
    n: nat,
    name: Seq<char>,
)
    requires
        n <= args.len(),
        server_end::resolved_bindings(args, scene, passed, base, n) is Ok,
    ensures
        ({
            let value = server_end::resolved_bindings(args, scene, passed, base, n)->Ok_0.value;
            &&& value.len() == n
            &&& forall|i: int| 0 <= i < n ==> (#[trigger] value[i]).0 == args[i].0
            &&& forall|i: int|
                0 <= i < n && refers_to((#[trigger] args[i]).1, name) ==> value[i].1 == env_value(
                    scene.os_env,
                    passed,
                    name,
                )
        }),
    decreases n,
{
    if n > 0 {
        lemma_binding_values(args, scene, passed, base, (n - 1) as nat, name);
        let before = server_end::resolved_bindings(args, scene, passed, base, (n - 1) as nat)->Ok_0;
        let value = server_end::resolved_bindings(args, scene, passed, base, n)->Ok_0.value;
        assert forall|i: int| 0 <= i < n implies (#[trigger] value[i]).0 == args[i].0 by {
            if i < n - 1 {
                assert(value[i] == before.value[i]);
            }
        }
        assert forall|i: int| 0 <= i < n && refers_to((#[trigger] args[i]).1, name) implies value[i].1
            == env_value(scene.os_env, passed, name) by {
            if i < n - 1 {
                assert(value[i] == before.value[i]);
            } else {
                let one = server_end::resolved_param(
                    args[n - 1].1,
                    scene,
                    passed,
                    base + before.guards.len(),
                );
                assert(one is Ok);
                assert(one->Ok_0.value == env_value(scene.os_env, passed, name));
                assert(value[i] == (args[n - 1].0, one->Ok_0.value));
            }
        }
    }
}

/// The environment of a request keeps its names and their order when the
/// server resolves it.
pub proof fn lemma_env_keeps_names(
    bindings: Seq<(Seq<char>, ParamView)>,
    scene: SceneView,
    base: nat,
    n: nat,
)
    requires
        n <= bindings.len(),
        server_end::resolved_env(bindings, scene, base, n) is Ok,
    ensures
        ({
            let value = server_end::resolved_env(bindings, scene, base, n)->Ok_0.value;
            &&& value.len() == n
            &&& forall|i: int| 0 <= i < n ==> (#[trigger] value[i]).0 == bindings[i].0
        }),
    decreases n,
{
    if n > 0 {
        lemma_env_keeps_names(bindings, scene, base, (n - 1) as nat);
    }
}

/// What the environment of a request binds reaches the rest of the request:
/// where the server's own environment does not hold `name`, every slot of
/// the request that asks for `name`, be it the command, an output stream
/// or an argument, resolves to the string that the request's environment
/// resolved to for `name`; and the request's environment does bind every
/// name that it was given.
pub proof fn lemma_passed_env_reaches(
    request: SpecificationView<ParamView>,
    scene: SceneView,
    name: Seq<char>,
)
    requires
        server_end::resolved_request(request, scene) is Ok,
        lookup(scene.os_env, name) is None,
    ensures
        ({
            let recipe = server_end::resolved_request(request, scene)->Ok_0.value;
            let value = match lookup(passed_by(recipe.env), name) {
                Some(v) => v,
                None => Seq::empty(),
            };
            &&& refers_to(request.command, name) ==> recipe.command == value
            &&& request.stdout matches Some(p) ==> (refers_to(p, name) ==> recipe.stdout == Some(
                value,
            ))
            &&& request.stderr matches Some(p) ==> (refers_to(p, name) ==> recipe.stderr == Some(
                value,
            ))
            &&& recipe.args.len() == request.args.len()
            &&& forall|i: int|
                0 <= i < request.args.len() && refers_to(#[trigger] request.args[i], name)
                    ==> recipe.args[i] == value
            &&& request.env matches Some(bindings) ==> {
                &&& recipe.env matches Some(resolved)
                &&& resolved.len() == bindings.len()
                &&& forall|i: int|
                    0 <= i < bindings.len() ==> (#[trigger] resolved[i]).0 == bindings[i].0
                &&& forall|i: int|
                    0 <= i < bindings.len() && (#[trigger] bindings[i]).0 == name ==> lookup(
                        resolved,
                        name,
                    ) is Some
            }
        }),
{
    let env = server_end::resolved_environment(request.env, scene)->Ok_0;
    let passed = passed_by(env.value);
    let command = server_end::resolved_param(request.command, scene, passed, env.guards.len())->Ok_0;
    let stdout = server_end::resolved_slot(
        request.stdout,
        scene,
        passed,
        (env.guards + command.guards).len(),
    )->Ok_0;
    let stderr = server_end::resolved_slot(
        request.stderr,
        scene,
        passed,
        (env.guards + command.guards + stdout.guards).len(),
    )->Ok_0;
    lemma_list_values(
        request.args,
        scene,
        passed,
        (env.guards + command.guards + stdout.guards + stderr.guards).len(),
        request.args.len(),
        name,
    );
    if request.env is Some {
        let bindings = request.env->0;
        lemma_env_keeps_names(bindings, scene, 0, bindings.len());
        let resolved = env.value->0;
        assert forall|i: int| 0 <= i < bindings.len() && (#[trigger] bindings[i]).0
            == name implies lookup(resolved, name) is Some by {
            assert(resolved[i].0 == bindings[i].0);
            lemma_lookup_bound(resolved, name, i);
        }
    }
}

/// A template that the server resolves is filled from its bindings as they
/// resolve: names and order kept, and every binding that asks for a
/// variable bound to the value of that variable.
pub proof fn lemma_format_sees_passed(
    tmpl: Seq<char>,
    args: Seq<(Seq<char>, ParamView)>,
    scene: SceneView,
    passed: Environment,
    base: nat,
    name: Seq<char>,
)
    requires
        server_end::resolved_param(ParamView::Format { tmpl, args }, scene, passed, base) is Ok,
    ensures
        ({
            let vars = server_end::resolved_bindings(
                args,
                scene,
                passed,
                base,
                args.len(),
            )->Ok_0.value;
            &&& rendered(tmpl, vars) == Ok::<Seq<char>, ErrorView>(
                server_end::resolved_param(
                    ParamView::Format { tmpl, args },
                    scene,
                    passed,
                    base,
                )->Ok_0.value,
            )
            &&& vars.len() == args.len()
            &&& forall|i: int| 0 <= i < args.len() ==> (#[trigger] vars[i]).0 == args[i].0
            &&& forall|i: int|
                0 <= i < args.len() && refers_to((#[trigger] args[i]).1, name) ==> vars[i].1
                    == env_value(scene.os_env, passed, name)
        }),
{
    lemma_binding_values(args, scene, passed, base, args.len(), name);
}

/// The stack of a server when the command has run, after a request stage
/// without failure: every guard of the request is entered.
pub open spec fn server_stack_at_response(guards: Seq<GuardView>) -> StackView {
    StackView { guards, entered: guards.len(), unwinding: true, fetched: false, fault: None }
}

/// After the response stage of a server, every output of the request that
/// the command has written at its scratch path lies on the store under its
/// key; an output that the command has not written is passed over.
pub proof fn lemma_server_run_uploads_outputs(
    request: SpecificationView<ParamView>,
    scene: SceneView,
    world: World,
    failure: ErrorView,
)
    requires
        server_end::resolved_request(request, scene) is Ok,
    ensures
        ({
            let guards = server_end::resolved_request(request, scene)->Ok_0.guards;
            let end = run(server_stack_at_response(guards), world, failure);
            forall|i: int|
                0 <= i < guards.len() && (#[trigger] guards[i]).kind
                    == GuardKind::OutCloudFile
                    && world.local.contains_key(guards[i].path) ==> end.1.cloud.contains_key(
                    guards[i].key,
                )
        }),
{
    lemma_server_request_guards(request, scene);
    let guards = server_end::resolved_request(request, scene)->Ok_0.guards;
    lemma_server_outputs_reach_store(server_stack_at_response(guards), world, failure);
}

/// For a request without a file on the store the invoke stage of the
/// server asks nothing of the store: the request stage is over at once,
/// with the recipe or the failure to resolve the request, and the response
/// stage hands back the exit code of the command in a response without a
/// reason, or the failure of the launch as it is.
pub proof fn lemma_server_passes_through(
    middle: server_end::MiddleView,
    request: SpecificationView<ParamView>,
    os_env: Environment,
    scratch: Seq<Seq<char>>,
    result: Result<int, ErrorView>,
)
    requires
        server_end::request_files(request).len() == 0,
    ensures
        ({
            let scene = SceneView { palette: middle.palette, os_env, scratch };
            &&& middle.begun(request, os_env, scratch).1 == match server_end::resolved_request(
                request,
                scene,
            ) {
                Ok(all) => ProgressView::Done(
                    Ok::<SpecificationView<Seq<char>>, ErrorView>(all.value),
                ),
                Err(e) => ProgressView::Done(Err::<SpecificationView<Seq<char>>, ErrorView>(e)),
            }
            &&& middle.begun(request, os_env, scratch).0.ended(result).1 == ProgressView::Done(
                match result {
                    Ok(code) => Ok::<ResponseView, ErrorView>(
                        ResponseView { return_code: code, exc: None },
                    ),
                    Err(e) => Err::<ResponseView, ErrorView>(e),
                },
            )
        }),
{
    let scene = SceneView { palette: middle.palette, os_env, scratch };
    let none = Seq::<GuardView>::empty();
    if server_end::resolved_request(request, scene) is Ok {
        lemma_server_request_guards(request, scene);
        let guards = server_end::resolved_request(request, scene)->Ok_0.guards;
        assert(guards =~= none);
        assert(with_guards(StackView::empty(), guards).guards =~= none);
    }
}

/// Some guard of `guards` stands for the file `file` of the store: it is of
/// the kind of the file and holds its key.
pub open spec fn guarded(guards: Seq<GuardView>, file: ParamView) -> bool {
    exists|j: int|
        0 <= j < guards.len() && (#[trigger] guards[j]).key == file.cloud_key() && guards[j].kind
            == (if file is InCloudFile {
            GuardKind::InCloudFile
        } else {
            GuardKind::OutCloudFile
        })
}

/// A file that is guarded in one of two lists is guarded in both together.
proof fn lemma_guarded_by_either(first: Seq<GuardView>, second: Seq<GuardView>, file: ParamView)
    requires
        guarded(first, file) || guarded(second, file),
    ensures
        guarded(first + second, file),
{
    let kind = if file is InCloudFile {
        GuardKind::InCloudFile
    } else {
        GuardKind::OutCloudFile
    };
    if guarded(first, file) {
        let j = choose|j: int|
            0 <= j < first.len() && (#[trigger] first[j]).key == file.cloud_key() && first[j].kind
                == kind;
        assert((first + second)[j] == first[j]);
    } else {
        let j = choose|j: int|
            0 <= j < second.len() && (#[trigger] second[j]).key == file.cloud_key()
                && second[j].kind == kind;
        assert((first + second)[first.len() + j] == second[j]);
    }
}

/// Every file of the store that stands in a parameter is guarded once the
/// server has resolved the parameter.
pub proof fn lemma_cloud_file_is_guarded(
    file: ParamView,
    param: ParamView,
    scene: SceneView,
    passed: Environment,
    base: nat,
)
    requires
        file.is_cloud(),
        occurs_in(file, param),
        server_end::resolved_param(param, scene, passed, base) is Ok,
    ensures
        guarded(server_end::resolved_param(param, scene, passed, base)->Ok_0.guards, file),
    decreases param, 0nat,
{
    let guards = server_end::resolved_param(param, scene, passed, base)->Ok_0.guards;
    if file == param {
        assert(guards[0].key == file.cloud_key());
    } else {
        match param {
            ParamView::Format { tmpl, args } => {
                lemma_cloud_file_is_guarded_in_bindings(file, args, scene, passed, base, args.len());
            },
            _ => {},
        }
    }
}

proof fn lemma_cloud_file_is_guarded_in_bindings(
    file: ParamView,
    args: Seq<(Seq<char>, ParamView)>,
    scene: SceneView,
    passed: Environment,
    base: nat,
    n: nat,
)
    requires
        file.is_cloud(),
        occurs_in_bindings(file, args, n),
        server_end::resolved_bindings(args, scene, passed, base, n) is Ok,
    ensures
        guarded(server_end::resolved_bindings(args, scene, passed, base, n)->Ok_0.guards, file),
    decreases args, n,
{
    let before = server_end::resolved_bindings(args, scene, passed, base, (n - 1) as nat)->Ok_0;
    let one = server_end::resolved_param(
        args[n - 1].1,
        scene,
        passed,
        base + before.guards.len(),
    )->Ok_0;
    if occurs_in_bindings(file, args, (n - 1) as nat) {
        lemma_cloud_file_is_guarded_in_bindings(file, args, scene, passed, base, (n - 1) as nat);
    } else {
        lemma_cloud_file_is_guarded(
            file,
            args[n - 1].1,
            scene,
            passed,
            base + before.guards.len(),
        );
    }
    lemma_guarded_by_either(before.guards, one.guards, file);
}

proof fn lemma_cloud_file_is_guarded_in_env(
    file: ParamView,
    bindings: Seq<(Seq<char>, ParamView)>,
    scene: SceneView,
    base: nat,
    n: nat,
)
    requires
        file.is_cloud(),
        occurs_in_bindings(file, bindings, n),
        server_end::resolved_env(bindings, scene, base, n) is Ok,
    ensures
        guarded(server_end::resolved_env(bindings, scene, base, n)->Ok_0.guards, file),
    decreases n,
{
    let before = server_end::resolved_env(bindings, scene, base, (n - 1) as nat)->Ok_0;
    let one = server_end::resolved_param(
        bindings[n - 1].1,
        scene,
        before.value,
        base + before.guards.len(),
    )->Ok_0;
    if occurs_in_bindings(file, bindings, (n - 1) as nat) {
        lemma_cloud_file_is_guarded_in_env(file, bindings, scene, base, (n - 1) as nat);
    } else {
        lemma_cloud_file_is_guarded(
            file,
            bindings[n - 1].1,
            scene,
            before.value,
            base + before.guards.len(),
        );
    }
    lemma_guarded_by_either(before.guards, one.guards, file);
}

proof fn lemma_cloud_file_is_guarded_in_list(
    file: ParamView,
    params: Seq<ParamView>,
    scene: SceneView,
    passed: Environment,
    base: nat,
    n: nat,
)
    requires
        file.is_cloud(),
        occurs_in_list(file, params, n),
        server_end::resolved_list(params, scene, passed, base, n) is Ok,
    ensures
        guarded(server_end::resolved_list(params, scene, passed, base, n)->Ok_0.guards, file),
    decreases n,
{
    let before = server_end::resolved_list(params, scene, passed, base, (n - 1) as nat)->Ok_0;
    let one = server_end::resolved_param(
        params[n - 1],
        scene,
        passed,
        base + before.guards.len(),
    )->Ok_0;
    if occurs_in_list(file, params, (n - 1) as nat) {
        lemma_cloud_file_is_guarded_in_list(file, params, scene, passed, base, (n - 1) as nat);
    } else {
        lemma_cloud_file_is_guarded(file, params[n - 1], scene, passed, base + before.guards.len());
    }
    lemma_guarded_by_either(before.guards, one.guards, file);
}

/// Every file of the store that stands in a request is guarded once the
/// server has resolved the request.
pub proof fn lemma_cloud_file_is_guarded_in_request(
    file: ParamView,
    request: SpecificationView<ParamView>,
    scene: SceneView,
)
    requires
        file.is_cloud(),
        occurs_in_request(file, request),
        server_end::resolved_request(request, scene) is Ok,
    ensures
        guarded(server_end::resolved_request(request, scene)->Ok_0.guards, file),
{
    let env = server_end::resolved_environment(request.env, scene)->Ok_0;
    let passed = passed_by(env.value);
    let command = server_end::resolved_param(request.command, scene, passed, env.guards.len())->Ok_0;
    let g1 = env.guards + command.guards;
    let stdout = server_end::resolved_slot(request.stdout, scene, passed, g1.len())->Ok_0;
    let g2 = g1 + stdout.guards;
    let stderr = server_end::resolved_slot(request.stderr, scene, passed, g2.len())->Ok_0;
    let g3 = g2 + stderr.guards;
    let args = server_end::resolved_list(
        request.args,
        scene,
        passed,
        g3.len(),
        request.args.len(),
    )->Ok_0;
    if occurs_in(file, request.command) {
        lemma_cloud_file_is_guarded(file, request.command, scene, passed, env.guards.len());
    } else if occurs_in_slot(file, request.stdout) {
        lemma_cloud_file_is_guarded(file, request.stdout->0, scene, passed, g1.len());
    } else if occurs_in_slot(file, request.stderr) {
        lemma_cloud_file_is_guarded(file, request.stderr->0, scene, passed, g2.len());
    } else if occurs_in_list(file, request.args, request.args.len()) {
        lemma_cloud_file_is_guarded_in_list(
            file,
            request.args,
            scene,
            passed,
            g3.len(),
            request.args.len(),
        );
    } else {
        lemma_cloud_file_is_guarded_in_env(file, request.env->0, scene, 0, request.env->0.len());
    }
    if guarded(env.guards, file) || guarded(command.guards, file) {
        lemma_guarded_by_either(env.guards, command.guards, file);
    }
    if guarded(g1, file) || guarded(stdout.guards, file) {
        lemma_guarded_by_either(g1, stdout.guards, file);
    }
    if guarded(g2, file) || guarded(stderr.guards, file) {
        lemma_guarded_by_either(g2, stderr.guards, file);
    }
    lemma_guarded_by_either(g3, args.guards, file);
}

/// After the response stage of a server, every output on the store that
/// stands in the request lies on the store under its key, provided that
/// the command has written the scratch paths that stand for it; an output
/// that the command has not written is passed over.
pub proof fn lemma_every_written_output_is_uploaded(
    file: ParamView,
    request: SpecificationView<ParamView>,
    scene: SceneView,
    world: World,
    failure: ErrorView,
)
    requires
        file is OutCloudFile,
        occurs_in_request(file, request),
        server_end::resolved_request(request, scene) is Ok,
        forall|j: int|
            0 <= j < server_end::resolved_request(request, scene)->Ok_0.guards.len() && (
            #[trigger] server_end::resolved_request(request, scene)->Ok_0.guards[j]).key
                == file.cloud_key() ==> world.local.contains_key(
                server_end::resolved_request(request, scene)->Ok_0.guards[j].path,
            ),
    ensures
        run(
            server_stack_at_response(server_end::resolved_request(request, scene)->Ok_0.guards),
            world,
            failure,
        ).1.cloud.contains_key(file.cloud_key()),
{
    let guards = server_end::resolved_request(request, scene)->Ok_0.guards;
    lemma_cloud_file_is_guarded_in_request(file, request, scene);
    lemma_server_run_uploads_outputs(request, scene, world, failure);
    let j = choose|j: int|
        0 <= j < guards.len() && (#[trigger] guards[j]).key == file.cloud_key() && guards[j].kind
            == GuardKind::OutCloudFile;
    assert(world.local.contains_key(guards[j].path));
}

/// After the response stage of a server, every output on the store that
/// stands in the request lies on the store with the bytes that the command
/// has written to the scratch paths that stand for it, whether or not the
/// request names the file more than once.
pub proof fn lemma_every_written_output_holds_its_bytes(
    file: ParamView,
    request: SpecificationView<ParamView>,
    scene: SceneView,
    world: World,
    failure: ErrorView,
    bytes: Seq<u8>,
)
    requires
        file is OutCloudFile,
        occurs_in_request(file, request),
        server_end::resolved_request(request, scene) is Ok,
        forall|j: int|
            0 <= j < server_end::resolved_request(request, scene)->Ok_0.guards.len() && (
            #[trigger] server_end::resolved_request(request, scene)->Ok_0.guards[j]).key
                == file.cloud_key() ==> {
                &&& world.local.contains_key(
                    server_end::resolved_request(request, scene)->Ok_0.guards[j].path,
                )
                &&& world.local[server_end::resolved_request(request, scene)->Ok_0.guards[j].path]
                    == bytes
            },
    ensures
        run(
            server_stack_at_response(server_end::resolved_request(request, scene)->Ok_0.guards),
            world,
            failure,
        ).1.cloud.contains_key(file.cloud_key()),
        run(
            server_stack_at_response(server_end::resolved_request(request, scene)->Ok_0.guards),
            world,
            failure,
        ).1.cloud[file.cloud_key()] == bytes,
{
    let guards = server_end::resolved_request(request, scene)->Ok_0.guards;
    lemma_cloud_file_is_guarded_in_request(file, request, scene);
    lemma_server_request_guards(request, scene);
    let j = choose|j: int|
        0 <= j < guards.len() && (#[trigger] guards[j]).key == file.cloud_key() && guards[j].kind
            == GuardKind::OutCloudFile;
    assert(uploads_to(guards, world.local, j, file.cloud_key()));
    lemma_server_outputs_hold_what_was_written(
        server_stack_at_response(guards),
        world,
        failure,
        file.cloud_key(),
        bytes,
    );
}

} // verus!
