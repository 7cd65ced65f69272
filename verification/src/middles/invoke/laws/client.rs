//! What holds of the invoke stage at the client's end.

use crate::assoc::Environment;
use crate::error::ErrorView;
use crate::middles::invoke::client_end;
use crate::middles::invoke::laws::{
    occurs_in, occurs_in_bindings, occurs_in_list, occurs_in_request, occurs_in_slot,
};
use crate::middles::invoke::store::{
    all_local, lemma_client_leaves_no_residue, lemma_client_outputs_arrive,
    lemma_failed_request_leaves_no_residue, nothing_added, outputs_apart, run, World,
};
use crate::middles::invoke::{with_guards, GuardKind, GuardView, ProgressView, StackView};
use crate::params::ParamView;
use crate::protocol::{ResponseView, SpecificationView};
use vstd::prelude::*;

verus! {

/// No file of the client stands in `param`, however deep.
pub open spec fn without_local_files(param: ParamView) -> bool
    decreases param, 0nat,
{
    match param {
        ParamView::InLocalFile { .. } => false,
        ParamView::OutLocalFile { .. } => false,
        ParamView::Format { tmpl, args } => bindings_without_local_files(args, args.len()),
        _ => true,
    }
}

pub open spec fn bindings_without_local_files(args: Seq<(Seq<char>, ParamView)>, n: nat) -> bool
    decreases args, n,
{
    if n == 0 || n > args.len() {
        true
    } else {
        bindings_without_local_files(args, (n - 1) as nat) && without_local_files(args[n - 1].1)
    }
}

/// No variable of the client's environment stands in `param`, however deep.
pub open spec fn without_env(param: ParamView) -> bool
    decreases param, 0nat,
{
    match param {
        ParamView::Env { .. } => false,
        ParamView::Format { tmpl, args } => bindings_without_env(args, args.len()),
        _ => true,
    }
}

pub open spec fn bindings_without_env(args: Seq<(Seq<char>, ParamView)>, n: nat) -> bool
    decreases args, n,
{
    if n == 0 || n > args.len() {
        true
    } else {
        bindings_without_env(args, (n - 1) as nat) && without_env(args[n - 1].1)
    }
}

/// A parameter without a file of the client leaves no guard at the client.
pub proof fn lemma_no_local_files_no_guards(param: ParamView)
    requires
        without_local_files(param),
    ensures
        client_end::param_guards(param) == Seq::<GuardView>::empty(),
    decreases param, 0nat,
{
    match param {
        ParamView::Format { tmpl, args } => {
            lemma_no_local_files_no_binding_guards(args, args.len());
        },
        _ => {},
    }
}

proof fn lemma_no_local_files_no_binding_guards(args: Seq<(Seq<char>, ParamView)>, n: nat)
    requires
        bindings_without_local_files(args, n),
    ensures
        client_end::bindings_guards(args, n) == Seq::<GuardView>::empty(),
    decreases args, n,
{
    if n == 0 || n > args.len() {
    } else {
        lemma_no_local_files_no_binding_guards(args, (n - 1) as nat);
        lemma_no_local_files_no_guards(args[n - 1].1);
        assert(Seq::<GuardView>::empty() + Seq::<GuardView>::empty() =~= Seq::<
            GuardView,
        >::empty());
    }
}

/// What the client hands on holds no file of the client and no variable of
/// the client's environment any more.
pub proof fn lemma_entered_is_resolved(param: ParamView, env: Environment)
    requires
        client_end::entered_param(param, env) is Ok,
    ensures
        without_local_files(client_end::entered_param(param, env)->Ok_0),
        without_env(client_end::entered_param(param, env)->Ok_0),
    decreases param, 0nat,
{
    match param {
        ParamView::Format { tmpl, args } => {
            lemma_entered_bindings_are_resolved(args, env, args.len());
        },
        _ => {},
    }
}

proof fn lemma_entered_bindings_are_resolved(
    args: Seq<(Seq<char>, ParamView)>,
    env: Environment,
    n: nat,
)
    requires
        client_end::entered_bindings(args, env, n) is Ok,
    ensures
        ({
            let out = client_end::entered_bindings(args, env, n)->Ok_0;
            &&& out.len() == (if n <= args.len() {
                n
            } else {
                0
            })
            &&& bindings_without_local_files(out, out.len())
            &&& bindings_without_env(out, out.len())
            &&& forall|i: int| 0 <= i < out.len() ==> (#[trigger] out[i]).0 == args[i].0
        }),
    decreases args, n,
{
    if n == 0 || n > args.len() {
    } else {
        lemma_entered_bindings_are_resolved(args, env, (n - 1) as nat);
        lemma_entered_is_resolved(args[n - 1].1, env);
        let before = client_end::entered_bindings(args, env, (n - 1) as nat)->Ok_0;
        let out = client_end::entered_bindings(args, env, n)->Ok_0;
        assert(out.drop_last() =~= before);
        lemma_prefix_without(out, before, before.len());
    }
}

/// What holds of the first `n` bindings of a list holds of them in every
/// list that begins with them.
proof fn lemma_prefix_without(
    longer: Seq<(Seq<char>, ParamView)>,
    shorter: Seq<(Seq<char>, ParamView)>,
    n: nat,
)
    requires
        n <= shorter.len() <= longer.len(),
        forall|i: int| 0 <= i < shorter.len() ==> longer[i] == shorter[i],
    ensures
        bindings_without_local_files(longer, n) == bindings_without_local_files(shorter, n),
        bindings_without_env(longer, n) == bindings_without_env(shorter, n),
    decreases n,
{
    if n > 0 {
        lemma_prefix_without(longer, shorter, (n - 1) as nat);
    }
}

/// The client changes nothing in a parameter that holds no file of the
/// client and no variable of the client's environment.
pub proof fn lemma_resolved_stays(param: ParamView, env: Environment)
    requires
        without_local_files(param),
        without_env(param),
    ensures
        client_end::entered_param(param, env) == Ok::<ParamView, ErrorView>(param),
    decreases param, 0nat,
{
    match param {
        ParamView::Format { tmpl, args } => {
            lemma_resolved_bindings_stay(args, env, args.len());
            assert(args.take(args.len() as int) =~= args);
        },
        _ => {},
    }
}

proof fn lemma_resolved_bindings_stay(
    args: Seq<(Seq<char>, ParamView)>,
    env: Environment,
    n: nat,
)
    requires
        n <= args.len(),
        bindings_without_local_files(args, n),
        bindings_without_env(args, n),
    ensures
        client_end::entered_bindings(args, env, n) == Ok::<
            Seq<(Seq<char>, ParamView)>,
            ErrorView,
        >(args.take(n as int)),
    decreases args, n,
{
    if n == 0 {
        assert(args.take(0) =~= Seq::empty());
    } else {
        lemma_resolved_bindings_stay(args, env, (n - 1) as nat);
        lemma_resolved_stays(args[n - 1].1, env);
        assert(args.take(n - 1).push((args[n - 1].0, args[n - 1].1)) =~= args.take(n as int));
    }
}

/// Rewriting at the client is idempotent: what it hands on, it would hand
/// on unchanged.
pub proof fn lemma_entered_twice(param: ParamView, env: Environment, again: Environment)
    requires
        client_end::entered_param(param, env) is Ok,
    ensures
        client_end::entered_param(client_end::entered_param(param, env)->Ok_0, again)
            == client_end::entered_param(param, env),
{
    lemma_entered_is_resolved(param, env);
    lemma_resolved_stays(client_end::entered_param(param, env)->Ok_0, again);
}

/// Every guard that a parameter leaves at the client stands for a file of
/// the client.
pub proof fn lemma_client_guards_are_local(param: ParamView)
    ensures
        all_local(client_end::param_guards(param)),
    decreases param, 0nat,
{
    match param {
        ParamView::Format { tmpl, args } => {
            lemma_client_binding_guards_are_local(args, args.len());
        },
        _ => {},
    }
}

proof fn lemma_client_binding_guards_are_local(args: Seq<(Seq<char>, ParamView)>, n: nat)
    ensures
        all_local(client_end::bindings_guards(args, n)),
    decreases args, n,
{
    if n == 0 || n > args.len() {
    } else {
        lemma_client_binding_guards_are_local(args, (n - 1) as nat);
        lemma_client_guards_are_local(args[n - 1].1);
    }
}

proof fn lemma_client_list_guards_are_local(params: Seq<ParamView>, n: nat)
    ensures
        all_local(client_end::list_guards(params, n)),
    decreases n,
{
    if n == 0 || n > params.len() {
    } else {
        lemma_client_list_guards_are_local(params, (n - 1) as nat);
        lemma_client_guards_are_local(params[n - 1]);
    }
}

/// Every guard of a request at the client stands for a file of the client.
pub proof fn lemma_client_request_guards_are_local(request: SpecificationView<ParamView>)
    ensures
        all_local(client_end::request_guards(request)),
{
    lemma_client_guards_are_local(request.command);
    if request.stdout is Some {
        lemma_client_guards_are_local(request.stdout->0);
    }
    if request.stderr is Some {
        lemma_client_guards_are_local(request.stderr->0);
    }
    lemma_client_list_guards_are_local(request.args, request.args.len());
    if request.env is Some {
        lemma_client_binding_guards_are_local(request.env->0, request.env->0.len());
    }
}

/// The stack of a client when the response arrives, after a request stage
/// without failure: every guard of the request is entered.
pub open spec fn client_stack_at_response(request: SpecificationView<ParamView>) -> StackView {
    StackView {
        guards: client_end::request_guards(request),
        entered: client_end::request_guards(request).len(),
        unwinding: true,
        fetched: false,
        fault: None,
    }
}

/// After the response stage of a client, whatever the store held when the
/// response arrived, nothing lies under the key of any local file of the
/// request, input or output.
pub proof fn lemma_client_run_leaves_no_residue(
    request: SpecificationView<ParamView>,
    world: World,
    failure: ErrorView,
)
    ensures
        forall|i: int|
            0 <= i < client_end::request_guards(request).len() ==> !run(
                client_stack_at_response(request),
                world,
                failure,
            ).1.cloud.contains_key(#[trigger] client_end::request_guards(request)[i].key),
{
    lemma_client_request_guards_are_local(request);
    lemma_client_leaves_no_residue(client_stack_at_response(request), world, failure);
}

/// After a response stage of a client without failure, every output of the
/// request lies at its path with the content that lay under its key when
/// the response arrived, provided that no two outputs of the request share
/// a path.
pub proof fn lemma_client_run_fetches_outputs(
    request: SpecificationView<ParamView>,
    world: World,
    failure: ErrorView,
)
    requires
        outputs_apart(
            client_end::request_guards(request),
            client_end::request_guards(request).len(),
        ),
    ensures
        ({
            let guards = client_end::request_guards(request);
            let end = run(client_stack_at_response(request), world, failure);
            end.0.fault is None ==> forall|i: int|
                0 <= i < guards.len() && (#[trigger] guards[i]).kind
                    == GuardKind::OutLocalFile ==> {
                    &&& world.cloud.contains_key(guards[i].key)
                    &&& end.1.local.contains_key(guards[i].path)
                    &&& end.1.local[guards[i].path] == world.cloud[guards[i].key]
                }
        }),
{
    lemma_client_request_guards_are_local(request);
    lemma_client_outputs_arrive(client_stack_at_response(request), world, failure);
}

/// A request without a file of the client, however deep.
pub open spec fn list_without_local_files(params: Seq<ParamView>, n: nat) -> bool
    decreases n,
{
    if n == 0 || n > params.len() {
        true
    } else {
        list_without_local_files(params, (n - 1) as nat) && without_local_files(params[n - 1])
    }
}

pub open spec fn request_without_local_files(request: SpecificationView<ParamView>) -> bool {
    &&& without_local_files(request.command)
    &&& request.stdout matches Some(p) ==> without_local_files(p)
    &&& request.stderr matches Some(p) ==> without_local_files(p)
    &&& list_without_local_files(request.args, request.args.len())
    &&& request.env matches Some(bindings) ==> bindings_without_local_files(
        bindings,
        bindings.len(),
    )
}

proof fn lemma_no_local_files_no_list_guards(params: Seq<ParamView>, n: nat)
    requires
        list_without_local_files(params, n),
    ensures
        client_end::list_guards(params, n) == Seq::<GuardView>::empty(),
    decreases n,
{
    if n == 0 || n > params.len() {
    } else {
        lemma_no_local_files_no_list_guards(params, (n - 1) as nat);
        lemma_no_local_files_no_guards(params[n - 1]);
        assert(Seq::<GuardView>::empty() + Seq::<GuardView>::empty() =~= Seq::<
            GuardView,
        >::empty());
    }
}

/// For a request without a file of the client the invoke stage of the
/// client asks nothing of the store: the request stage is over at once,
/// with the rewritten request or the failure to rewrite it, and the
/// response stage hands back what came in, response or failure, as it is.
pub proof fn lemma_client_passes_through(
    request: SpecificationView<ParamView>,
    env: Environment,
    response: Result<ResponseView, ErrorView>,
)
    requires
        request_without_local_files(request),
    ensures
        client_end::request_guards(request) == Seq::<GuardView>::empty(),
        client_end::MiddleView::begun(request, env).1 == ProgressView::Done(
            client_end::entered_request(request, env),
        ),
        client_end::MiddleView::begun(request, env).0.ended(response).1 == ProgressView::Done(
            response,
        ),
{
    lemma_no_local_files_no_guards(request.command);
    if request.stdout is Some {
        lemma_no_local_files_no_guards(request.stdout->0);
    }
    if request.stderr is Some {
        lemma_no_local_files_no_guards(request.stderr->0);
    }
    lemma_no_local_files_no_list_guards(request.args, request.args.len());
    if request.env is Some {
        lemma_no_local_files_no_binding_guards(request.env->0, request.env->0.len());
    }
    let none = Seq::<GuardView>::empty();
    assert(none + none =~= none);
    assert(client_end::request_guards(request) =~= none);
    assert(with_guards(StackView::empty(), none).guards =~= none);
}

/// The guard that a file of the client leaves.
pub open spec fn guard_of_local(file: ParamView) -> GuardView {
    client_end::local_guard(
        if file is InLocalFile {
            GuardKind::InLocalFile
        } else {
            GuardKind::OutLocalFile
        },
        file.filepath(),
        file.hostname(),
    )
}

/// What one of two lists holds, both lists together hold.
proof fn lemma_held_by_either<A>(first: Seq<A>, second: Seq<A>, x: A)
    requires
        first.contains(x) || second.contains(x),
    ensures
        (first + second).contains(x),
{
    if first.contains(x) {
        let i = choose|i: int| 0 <= i < first.len() && first[i] == x;
        assert((first + second)[i] == x);
    } else {
        let i = choose|i: int| 0 <= i < second.len() && second[i] == x;
        assert((first + second)[first.len() + i] == x);
    }
}

/// Every file of the client that stands in a parameter has its guard among
/// the guards of the parameter.
pub proof fn lemma_local_file_has_guard(file: ParamView, param: ParamView)
    requires
        file.is_local(),
        occurs_in(file, param),
    ensures
        client_end::param_guards(param).contains(guard_of_local(file)),
    decreases param, 0nat,
{
    if file == param {
        assert(client_end::param_guards(param)[0] == guard_of_local(file));
    } else {
        match param {
            ParamView::Format { tmpl, args } => {
                lemma_local_file_has_binding_guard(file, args, args.len());
            },
            _ => {},
        }
    }
}

proof fn lemma_local_file_has_binding_guard(
    file: ParamView,
    args: Seq<(Seq<char>, ParamView)>,
    n: nat,
)
    requires
        file.is_local(),
        occurs_in_bindings(file, args, n),
    ensures
        client_end::bindings_guards(args, n).contains(guard_of_local(file)),
    decreases args, n,
{
    if occurs_in_bindings(file, args, (n - 1) as nat) {
        lemma_local_file_has_binding_guard(file, args, (n - 1) as nat);
    } else {
        lemma_local_file_has_guard(file, args[n - 1].1);
    }
    lemma_held_by_either(
        client_end::bindings_guards(args, (n - 1) as nat),
        client_end::param_guards(args[n - 1].1),
        guard_of_local(file),
    );
}

proof fn lemma_local_file_has_list_guard(file: ParamView, params: Seq<ParamView>, n: nat)
    requires
        file.is_local(),
        occurs_in_list(file, params, n),
    ensures
        client_end::list_guards(params, n).contains(guard_of_local(file)),
    decreases n,
{
    if occurs_in_list(file, params, (n - 1) as nat) {
        lemma_local_file_has_list_guard(file, params, (n - 1) as nat);
    } else {
        lemma_local_file_has_guard(file, params[n - 1]);
    }
    lemma_held_by_either(
        client_end::list_guards(params, (n - 1) as nat),
        client_end::param_guards(params[n - 1]),
        guard_of_local(file),
    );
}

/// Every file of the client that stands in a request has its guard among
/// the guards of the request.
pub proof fn lemma_local_file_has_request_guard(
    file: ParamView,
    request: SpecificationView<ParamView>,
)
    requires
        file.is_local(),
        occurs_in_request(file, request),
    ensures
        client_end::request_guards(request).contains(guard_of_local(file)),
{
    let command = client_end::param_guards(request.command);
    let stdout = client_end::slot_guards(request.stdout);
    let stderr = client_end::slot_guards(request.stderr);
    let args = client_end::list_guards(request.args, request.args.len());
    let env = match request.env {
        Some(bindings) => client_end::bindings_guards(bindings, bindings.len()),
        None => Seq::empty(),
    };
    let guard = guard_of_local(file);
    if occurs_in(file, request.command) {
        lemma_local_file_has_guard(file, request.command);
    } else if occurs_in_slot(file, request.stdout) {
        lemma_local_file_has_guard(file, request.stdout->0);
    } else if occurs_in_slot(file, request.stderr) {
        lemma_local_file_has_guard(file, request.stderr->0);
    } else if occurs_in_list(file, request.args, request.args.len()) {
        lemma_local_file_has_list_guard(file, request.args, request.args.len());
    } else {
        lemma_local_file_has_binding_guard(file, request.env->0, request.env->0.len());
    }
    if command.contains(guard) || stdout.contains(guard) {
        lemma_held_by_either(command, stdout, guard);
    }
    if (command + stdout).contains(guard) || stderr.contains(guard) {
        lemma_held_by_either(command + stdout, stderr, guard);
    }
    if (command + stdout + stderr).contains(guard) || args.contains(guard) {
        lemma_held_by_either(command + stdout + stderr, args, guard);
    }
    lemma_held_by_either(command + stdout + stderr + args, env, guard);
}

/// After the response stage of a client, whatever the store held when the
/// response arrived, nothing lies on the store under the key of any file
/// of the client that stands in the request.
pub proof fn lemma_no_local_file_stays_on_the_store(
    file: ParamView,
    request: SpecificationView<ParamView>,
    world: World,
    failure: ErrorView,
)
    requires
        file.is_local(),
        occurs_in_request(file, request),
    ensures
        !run(client_stack_at_response(request), world, failure).1.cloud.contains_key(
            file.cloud_key(),
        ),
{
    lemma_local_file_has_request_guard(file, request);
    lemma_client_run_leaves_no_residue(request, world, failure);
    let guards = client_end::request_guards(request);
    let i = choose|i: int| 0 <= i < guards.len() && guards[i] == guard_of_local(file);
    assert(guards[i].key == file.cloud_key());
}

/// After a response stage of a client without failure, every output of the
/// client that stands in the request lies at its path with the content
/// that lay under its key when the response arrived, provided that no two
/// outputs of the request share a path.
pub proof fn lemma_every_output_is_fetched(
    file: ParamView,
    request: SpecificationView<ParamView>,
    world: World,
    failure: ErrorView,
)
    requires
        file is OutLocalFile,
        occurs_in_request(file, request),
        outputs_apart(
            client_end::request_guards(request),
            client_end::request_guards(request).len(),
        ),
        run(client_stack_at_response(request), world, failure).0.fault is None,
    ensures
        world.cloud.contains_key(file.cloud_key()),
        run(client_stack_at_response(request), world, failure).1.local.contains_key(
            file.filepath(),
        ),
        run(client_stack_at_response(request), world, failure).1.local[file.filepath()]
            == world.cloud[file.cloud_key()],
{
    lemma_local_file_has_request_guard(file, request);
    lemma_client_run_fetches_outputs(request, world, failure);
    let guards = client_end::request_guards(request);
    let i = choose|i: int| 0 <= i < guards.len() && guards[i] == guard_of_local(file);
    assert(guards[i].kind == GuardKind::OutLocalFile);
}

/// The stack of a client when a request arrives: every guard of the request
/// is still to be entered.
pub open spec fn client_stack_at_request(request: SpecificationView<ParamView>) -> StackView {
    with_guards(StackView::empty(), client_end::request_guards(request))
}

/// When the request stage of a client ends in a failure, whichever upload
/// it was that failed, nothing of the request is left on the store: what
/// the store holds afterwards it held before the request, with the same
/// content.
pub proof fn lemma_failed_upload_leaves_no_residue(
    request: SpecificationView<ParamView>,
    world: World,
    failure: ErrorView,
)
    ensures
        run(client_stack_at_request(request), world, failure).0.fault is Some ==> nothing_added(
            run(client_stack_at_request(request), world, failure).1.cloud,
            world.cloud,
        ),
{
    lemma_client_request_guards_are_local(request);
    assert(client_stack_at_request(request).guards =~= client_end::request_guards(request));
    lemma_failed_request_leaves_no_residue(client_stack_at_request(request), world, failure);
}

/// What holds of the first `n` bindings of a list holds of them in every
/// list that begins with them.
proof fn lemma_prefix_occurs(
    part: ParamView,
    longer: Seq<(Seq<char>, ParamView)>,
    shorter: Seq<(Seq<char>, ParamView)>,
    n: nat,
)
    requires
        n <= shorter.len() <= longer.len(),
        forall|i: int| 0 <= i < shorter.len() ==> longer[i] == shorter[i],
    ensures
        occurs_in_bindings(part, longer, n) == occurs_in_bindings(part, shorter, n),
    decreases n,
{
    if n > 0 {
        lemma_prefix_occurs(part, longer, shorter, (n - 1) as nat);
    }
}

proof fn lemma_prefix_occurs_in_list(
    part: ParamView,
    longer: Seq<ParamView>,
    shorter: Seq<ParamView>,
    n: nat,
)
    requires
        n <= shorter.len() <= longer.len(),
        forall|i: int| 0 <= i < shorter.len() ==> longer[i] == shorter[i],
    ensures
        occurs_in_list(part, longer, n) == occurs_in_list(part, shorter, n),
    decreases n,
{
    if n > 0 {
        lemma_prefix_occurs_in_list(part, longer, shorter, (n - 1) as nat);
    }
}

/// Where a file of the client stands in a parameter, its counterpart on
/// the store stands in what the client hands on.
pub proof fn lemma_entered_keeps_files(file: ParamView, param: ParamView, env: Environment)
    requires
        file.is_local(),
        occurs_in(file, param),
        client_end::entered_param(param, env) is Ok,
    ensures
        occurs_in(file.as_cloud(), client_end::entered_param(param, env)->Ok_0),
    decreases param, 0nat,
{
    if file != param {
        match param {
            ParamView::Format { tmpl, args } => {
                lemma_entered_bindings_keep_files(file, args, env, args.len());
            },
            _ => {},
        }
    }
}

proof fn lemma_entered_bindings_keep_files(
    file: ParamView,
    args: Seq<(Seq<char>, ParamView)>,
    env: Environment,
    n: nat,
)
    requires
        file.is_local(),
        occurs_in_bindings(file, args, n),
        client_end::entered_bindings(args, env, n) is Ok,
    ensures
        client_end::entered_bindings(args, env, n)->Ok_0.len() == n,
        occurs_in_bindings(file.as_cloud(), client_end::entered_bindings(args, env, n)->Ok_0, n),
    decreases args, n,
{
    let before = client_end::entered_bindings(args, env, (n - 1) as nat)->Ok_0;
    let out = client_end::entered_bindings(args, env, n)->Ok_0;
    lemma_entered_bindings_are_resolved(args, env, (n - 1) as nat);
    if occurs_in_bindings(file, args, (n - 1) as nat) {
        lemma_entered_bindings_keep_files(file, args, env, (n - 1) as nat);
    } else {
        lemma_entered_keeps_files(file, args[n - 1].1, env);
    }
    lemma_prefix_occurs(file.as_cloud(), out, before, (n - 1) as nat);
}

proof fn lemma_entered_list_keeps_files(
    file: ParamView,
    params: Seq<ParamView>,
    env: Environment,
    n: nat,
)
    requires
        file.is_local(),
        n <= params.len(),
        client_end::entered_list(params, env, n) is Ok,
    ensures
        client_end::entered_list(params, env, n)->Ok_0.len() == n,
        occurs_in_list(file, params, n) ==> occurs_in_list(
            file.as_cloud(),
            client_end::entered_list(params, env, n)->Ok_0,
            n,
        ),
    decreases n,
{
    if n > 0 {
        let before = client_end::entered_list(params, env, (n - 1) as nat)->Ok_0;
        let out = client_end::entered_list(params, env, n)->Ok_0;
        lemma_entered_list_keeps_files(file, params, env, (n - 1) as nat);
        if occurs_in_list(file, params, n) {
            if !occurs_in_list(file, params, (n - 1) as nat) {
                lemma_entered_keeps_files(file, params[n - 1], env);
            }
            lemma_prefix_occurs_in_list(file.as_cloud(), out, before, (n - 1) as nat);
        }
    }
}

/// Where a file of the client stands in a request, its counterpart on the
/// store stands in the request that the client hands on.
pub proof fn lemma_entered_request_keeps_files(
    file: ParamView,
    request: SpecificationView<ParamView>,
    env: Environment,
)
    requires
        file.is_local(),
        occurs_in_request(file, request),
        client_end::entered_request(request, env) is Ok,
    ensures
        occurs_in_request(file.as_cloud(), client_end::entered_request(request, env)->Ok_0),
{
    if occurs_in(file, request.command) {
        lemma_entered_keeps_files(file, request.command, env);
    } else if occurs_in_slot(file, request.stdout) {
        lemma_entered_keeps_files(file, request.stdout->0, env);
    } else if occurs_in_slot(file, request.stderr) {
        lemma_entered_keeps_files(file, request.stderr->0, env);
    } else if occurs_in_list(file, request.args, request.args.len()) {
        lemma_entered_list_keeps_files(file, request.args, env, request.args.len());
    } else {
        lemma_entered_bindings_keep_files(file, request.env->0, env, request.env->0.len());
    }
}

} // verus!
