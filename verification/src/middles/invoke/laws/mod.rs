//! What holds of the invoke stage at both ends, whatever the request.
//!
//! The laws of each end stand in a module of their own. They are stated
//! over the views of the requests and over the run of a stack of guards
//! against the model store of [`crate::middles::invoke::store`].

use crate::assoc::Environment;
use crate::error::ErrorView;
use crate::middles::invoke::client_end;
use crate::middles::invoke::server_end;
use crate::middles::invoke::server_end::SceneView;
use crate::middles::invoke::store::{
    all_cloud, all_local, input_keys_apart, input_paths_apart, lemma_client_inputs_are_staged,
    lemma_fault_stays, lemma_server_inputs_are_fetched, outputs_apart, performed, run, World,
};
use crate::middles::invoke::{with_guards, GuardKind, StackView};
use crate::params::{lemma_as_cloud_keeps_key, ParamView};
use crate::protocol::SpecificationView;
use vstd::prelude::*;

pub mod client;
pub mod server;

verus! {

/// A run against the model store is the loop of whoever drives the stack:
/// pass the guards that ask for nothing, carry out what is due, report the
/// outcome, and go on until nothing is due.
pub proof fn lemma_run_is_the_drivers_loop(stack: StackView, world: World, failure: ErrorView)
    ensures
        match stack.settled().pending() {
            None => run(stack, world, failure) == (stack.settled(), world),
            Some(action) => run(stack, world, failure) == run(
                stack.settled().after(performed(action, world).0, failure),
                performed(action, world).1,
                failure,
            ),
        },
    decreases stack.distance(),
{
    if stack.at_end() || stack.pending() is Some {
    } else if stack.unwinding {
        lemma_run_is_the_drivers_loop(stack.popped(), world, failure);
    } else {
        lemma_run_is_the_drivers_loop(stack.pushed(), world, failure);
    }
}

/// `part` stands in `whole`: it is `whole` itself, or it stands in a
/// binding of the template `whole`.
pub open spec fn occurs_in(part: ParamView, whole: ParamView) -> bool
    decreases whole, 0nat,
{
    part == whole || match whole {
        ParamView::Format { tmpl, args } => occurs_in_bindings(part, args, args.len()),
        _ => false,
    }
}

pub open spec fn occurs_in_bindings(
    part: ParamView,
    args: Seq<(Seq<char>, ParamView)>,
    n: nat,
) -> bool
    decreases args, n,
{
    0 < n <= args.len() && (occurs_in_bindings(part, args, (n - 1) as nat) || occurs_in(
        part,
        args[n - 1].1,
    ))
}

pub open spec fn occurs_in_list(part: ParamView, params: Seq<ParamView>, n: nat) -> bool
    decreases n,
{
    0 < n <= params.len() && (occurs_in_list(part, params, (n - 1) as nat) || occurs_in(
        part,
        params[n - 1],
    ))
}

pub open spec fn occurs_in_slot(part: ParamView, slot: Option<ParamView>) -> bool {
    match slot {
        Some(param) => occurs_in(part, param),
        None => false,
    }
}

/// `part` stands somewhere in `request`, however deep.
pub open spec fn occurs_in_request(part: ParamView, request: SpecificationView<ParamView>) -> bool {
    ||| occurs_in(part, request.command)
    ||| occurs_in_slot(part, request.stdout)
    ||| occurs_in_slot(part, request.stderr)
    ||| occurs_in_list(part, request.args, request.args.len())
    ||| match request.env {
        Some(bindings) => occurs_in_bindings(part, bindings, bindings.len()),
        None => false,
    }
}

/// The world of the client once both ends have exited their guards: the
/// server first, on its own files and the store as it was when the command
/// ended, then the client, on its own files and the store as the server
/// left it.
pub open spec fn after_both_ends(
    request: SpecificationView<ParamView>,
    env: Environment,
    scene: SceneView,
    store: Map<Seq<char>, Seq<u8>>,
    servers_files: Map<Seq<char>, Seq<u8>>,
    clients_files: Map<Seq<char>, Seq<u8>>,
    failure: ErrorView,
) -> (StackView, World) {
    let sent = client_end::entered_request(request, env)->Ok_0;
    let at_server = run(
        server::server_stack_at_response(server_end::resolved_request(sent, scene)->Ok_0.guards),
        World { cloud: store, local: servers_files },
        failure,
    );
    run(
        client::client_stack_at_response(request),
        World { cloud: at_server.1.cloud, local: clients_files },
        failure,
    )
}

/// An output arrives as the command wrote it. Take a request that the
/// client hands on and the server resolves, and an output of the client
/// that stands in it. If the command has written `bytes` to the scratch
/// paths that the server gave for the output, and the client exits its
/// guards without a failure, then the file at the path of the output holds
/// exactly `bytes`, provided that no two outputs of the request share a
/// path.
pub proof fn lemma_output_arrives_as_written(
    file: ParamView,
    request: SpecificationView<ParamView>,
    env: Environment,
    scene: SceneView,
    store: Map<Seq<char>, Seq<u8>>,
    servers_files: Map<Seq<char>, Seq<u8>>,
    clients_files: Map<Seq<char>, Seq<u8>>,
    failure: ErrorView,
    bytes: Seq<u8>,
)
    requires
        file is OutLocalFile,
        occurs_in_request(file, request),
        client_end::entered_request(request, env) is Ok,
        server_end::resolved_request(client_end::entered_request(request, env)->Ok_0, scene) is Ok,
        forall|j: int|
            0 <= j < server_end::resolved_request(
                client_end::entered_request(request, env)->Ok_0,
                scene,
            )->Ok_0.guards.len() && (#[trigger] server_end::resolved_request(
                client_end::entered_request(request, env)->Ok_0,
                scene,
            )->Ok_0.guards[j]).key == file.cloud_key() ==> {
                &&& servers_files.contains_key(
                    server_end::resolved_request(
                        client_end::entered_request(request, env)->Ok_0,
                        scene,
                    )->Ok_0.guards[j].path,
                )
                &&& servers_files[server_end::resolved_request(
                    client_end::entered_request(request, env)->Ok_0,
                    scene,
                )->Ok_0.guards[j].path] == bytes
            },
        outputs_apart(
            client_end::request_guards(request),
            client_end::request_guards(request).len(),
        ),
        after_both_ends(
            request,
            env,
            scene,
            store,
            servers_files,
            clients_files,
            failure,
        ).0.fault is None,
    ensures
        after_both_ends(
            request,
            env,
            scene,
            store,
            servers_files,
            clients_files,
            failure,
        ).1.local.contains_key(file.filepath()),
        after_both_ends(
            request,
            env,
            scene,
            store,
            servers_files,
            clients_files,
            failure,
        ).1.local[file.filepath()] == bytes,
{
    let sent = client_end::entered_request(request, env)->Ok_0;
    let guards = server_end::resolved_request(sent, scene)->Ok_0.guards;
    let servers_world = World { cloud: store, local: servers_files };
    let at_server = run(server::server_stack_at_response(guards), servers_world, failure);
    let clients_world = World { cloud: at_server.1.cloud, local: clients_files };
    lemma_as_cloud_keeps_key(file);
    client::lemma_entered_request_keeps_files(file, request, env);
    server::lemma_every_written_output_holds_its_bytes(
        file.as_cloud(),
        sent,
        scene,
        servers_world,
        failure,
        bytes,
    );
    client::lemma_every_output_is_fetched(file, request, clients_world, failure);
}

/// No two of the scratch paths are the same.
pub open spec fn scratch_apart(scratch: Seq<Seq<char>>) -> bool {
    forall|a: int, b: int| 0 <= a < b < scratch.len() ==> scratch[a] != scratch[b]
}

/// The world of the client once it has entered the guards of `request`.
pub open spec fn after_clients_entry(
    request: SpecificationView<ParamView>,
    store: Map<Seq<char>, Seq<u8>>,
    clients_files: Map<Seq<char>, Seq<u8>>,
    failure: ErrorView,
) -> (StackView, World) {
    run(
        client::client_stack_at_request(request),
        World { cloud: store, local: clients_files },
        failure,
    )
}

/// The world of the server once it has entered the guards of the request
/// that the client has handed on: the command is launched in it.
pub open spec fn at_launch(
    request: SpecificationView<ParamView>,
    env: Environment,
    scene: SceneView,
    store: Map<Seq<char>, Seq<u8>>,
    clients_files: Map<Seq<char>, Seq<u8>>,
    servers_files: Map<Seq<char>, Seq<u8>>,
    failure: ErrorView,
) -> (StackView, World) {
    let sent = client_end::entered_request(request, env)->Ok_0;
    run(
        with_guards(StackView::empty(), server_end::resolved_request(sent, scene)->Ok_0.guards),
        World {
            cloud: after_clients_entry(request, store, clients_files, failure).1.cloud,
            local: servers_files,
        },
        failure,
    )
}

/// An input reaches the command as the client has it. Take a request that
/// the client hands on and the server resolves, and an input of the client
/// that stands in it. If both ends enter their guards without a failure,
/// then, when the command is launched, every scratch path that the server
/// gave for the input holds the bytes of the client's file, and the store
/// is as the client left it; provided that no two inputs of the request
/// share a key and that the scratch paths differ from one another.
pub proof fn lemma_input_reaches_the_command(
    file: ParamView,
    request: SpecificationView<ParamView>,
    env: Environment,
    scene: SceneView,
    store: Map<Seq<char>, Seq<u8>>,
    clients_files: Map<Seq<char>, Seq<u8>>,
    servers_files: Map<Seq<char>, Seq<u8>>,
    failure: ErrorView,
)
    requires
        file is InLocalFile,
        occurs_in_request(file, request),
        client_end::entered_request(request, env) is Ok,
        server_end::resolved_request(client_end::entered_request(request, env)->Ok_0, scene) is Ok,
        input_keys_apart(client_end::request_guards(request), 0),
        scratch_apart(scene.scratch),
        after_clients_entry(request, store, clients_files, failure).0.fault is None,
        at_launch(request, env, scene, store, clients_files, servers_files, failure).0.fault
            is None,
    ensures
        clients_files.contains_key(file.filepath()),
        after_clients_entry(request, store, clients_files, failure).1.local == clients_files,
        at_launch(request, env, scene, store, clients_files, servers_files, failure).1.cloud
            == after_clients_entry(request, store, clients_files, failure).1.cloud,
        forall|j: int|
            0 <= j < server_end::resolved_request(
                client_end::entered_request(request, env)->Ok_0,
                scene,
            )->Ok_0.guards.len() && (#[trigger] server_end::resolved_request(
                client_end::entered_request(request, env)->Ok_0,
                scene,
            )->Ok_0.guards[j]).key == file.cloud_key() && server_end::resolved_request(
                client_end::entered_request(request, env)->Ok_0,
                scene,
            )->Ok_0.guards[j].kind == GuardKind::InCloudFile ==> {
                &&& at_launch(
                    request,
                    env,
                    scene,
                    store,
                    clients_files,
                    servers_files,
                    failure,
                ).1.local.contains_key(
                    server_end::resolved_request(
                        client_end::entered_request(request, env)->Ok_0,
                        scene,
                    )->Ok_0.guards[j].path,
                )
                &&& at_launch(
                    request,
                    env,
                    scene,
                    store,
                    clients_files,
                    servers_files,
                    failure,
                ).1.local[server_end::resolved_request(
                    client_end::entered_request(request, env)->Ok_0,
                    scene,
                )->Ok_0.guards[j].path] == clients_files[file.filepath()]
            },
{
    let sent = client_end::entered_request(request, env)->Ok_0;
    let guards = server_end::resolved_request(sent, scene)->Ok_0.guards;
    let clients_stack = client::client_stack_at_request(request);
    let clients_world = World { cloud: store, local: clients_files };
    let entered = run(clients_stack, clients_world, failure);
    let local_guards = client_end::request_guards(request);
    assert(clients_stack.guards =~= local_guards);
    client::lemma_client_request_guards_are_local(request);
    client::lemma_local_file_has_request_guard(file, request);
    let i = choose|i: int|
        0 <= i < local_guards.len() && local_guards[i] == client::guard_of_local(file);
    assert(local_guards[i].kind == GuardKind::InLocalFile);
    lemma_client_inputs_are_staged(clients_stack, clients_world, failure);
    assert(entered.1.cloud[file.cloud_key()] == clients_files[file.filepath()]);
    lemma_clients_files_stay(clients_stack, clients_world, failure);

    let servers_stack = with_guards(StackView::empty(), guards);
    let servers_world = World { cloud: entered.1.cloud, local: servers_files };
    assert(servers_stack.guards =~= guards);
    server::lemma_server_request_guards(sent, scene);
    assert(input_paths_apart(guards, 0)) by {
        assert forall|a: int, b: int|
            0 <= a < b < guards.len() && (#[trigger] guards[a]).kind == GuardKind::InCloudFile && (
            #[trigger] guards[b]).kind == GuardKind::InCloudFile implies guards[a].path
            != guards[b].path by {
            assert(guards[a].path == scene.scratch[a]);
            assert(guards[b].path == scene.scratch[b]);
        }
    }
    lemma_server_inputs_are_fetched(servers_stack, servers_world, failure);
    lemma_store_stays_at_entry(servers_stack, servers_world, failure);
}

/// While the client's guards are entered without a failure, no file of the
/// client changes.
pub proof fn lemma_clients_files_stay(stack: StackView, world: World, failure: ErrorView)
    requires
        stack.wf(),
        !stack.unwinding,
        stack.fault is None,
        all_local(stack.guards),
    ensures
        run(stack, world, failure).0.fault is None ==> run(stack, world, failure).1.local
            == world.local,
    decreases stack.distance(),
{
    if !stack.at_end() {
        match stack.pending() {
            None => {
                lemma_clients_files_stay(stack.pushed(), world, failure);
            },
            Some(action) => {
                let (ok, next) = performed(action, world);
                if ok {
                    lemma_clients_files_stay(stack.after(ok, failure), next, failure);
                } else {
                    lemma_fault_stays(
                        stack.after(ok, failure),
                        next,
                        failure,
                    );
                }
            },
        }
    }
}

/// While the server's guards are entered without a failure, nothing on the
/// store changes.
pub proof fn lemma_store_stays_at_entry(stack: StackView, world: World, failure: ErrorView)
    requires
        stack.wf(),
        !stack.unwinding,
        stack.fault is None,
        all_cloud(stack.guards),
    ensures
        run(stack, world, failure).0.fault is None ==> run(stack, world, failure).1.cloud
            == world.cloud,
    decreases stack.distance(),
{
    if !stack.at_end() {
        match stack.pending() {
            None => {
                lemma_store_stays_at_entry(stack.pushed(), world, failure);
            },
            Some(action) => {
                let (ok, next) = performed(action, world);
                if ok {
                    lemma_store_stays_at_entry(stack.after(ok, failure), next, failure);
                } else {
                    lemma_fault_stays(
                        stack.after(ok, failure),
                        next,
                        failure,
                    );
                }
            },
        }
    }
}

/// What a command copies comes back. Take a request that the client hands
/// on and the server resolves, with an input and an output of the client
/// in it. Let both ends enter their guards without a failure, let the
/// command leave, at the scratch paths given for the output, what it found
/// at the scratch paths given for the input, and let the client exit its
/// guards without a failure. Then the file at the path of the output holds
/// the bytes of the input, and nothing lies on the store under the key of
/// either; provided that no two inputs of the request share a key, no two
/// outputs a path, and that the scratch paths differ from one another.
pub proof fn lemma_copy_comes_back(
    input: ParamView,
    output: ParamView,
    request: SpecificationView<ParamView>,
    env: Environment,
    scene: SceneView,
    store: Map<Seq<char>, Seq<u8>>,
    clients_files: Map<Seq<char>, Seq<u8>>,
    servers_files: Map<Seq<char>, Seq<u8>>,
    written: Map<Seq<char>, Seq<u8>>,
    failure: ErrorView,
)
    requires
        input is InLocalFile,
        output is OutLocalFile,
        occurs_in_request(input, request),
        occurs_in_request(output, request),
        client_end::entered_request(request, env) is Ok,
        server_end::resolved_request(client_end::entered_request(request, env)->Ok_0, scene) is Ok,
        input_keys_apart(client_end::request_guards(request), 0),
        outputs_apart(
            client_end::request_guards(request),
            client_end::request_guards(request).len(),
        ),
        scratch_apart(scene.scratch),
        after_clients_entry(request, store, clients_files, failure).0.fault is None,
        at_launch(request, env, scene, store, clients_files, servers_files, failure).0.fault
            is None,
        ({
            let guards = server_end::resolved_request(
                client_end::entered_request(request, env)->Ok_0,
                scene,
            )->Ok_0.guards;
            let found = at_launch(
                request,
                env,
                scene,
                store,
                clients_files,
                servers_files,
                failure,
            ).1.local;
            forall|o: int, i: int|
                0 <= o < guards.len() && 0 <= i < guards.len() && (#[trigger] guards[o]).key
                    == output.cloud_key() && (#[trigger] guards[i]).key == input.cloud_key()
                    && guards[i].kind == GuardKind::InCloudFile ==> written.contains_key(
                    guards[o].path,
                ) && written[guards[o].path] == found[guards[i].path]
        }),
        after_both_ends(
            request,
            env,
            scene,
            at_launch(request, env, scene, store, clients_files, servers_files, failure).1.cloud,
            written,
            clients_files,
            failure,
        ).0.fault is None,
    ensures
        ({
            let end = after_both_ends(
                request,
                env,
                scene,
                at_launch(
                    request,
                    env,
                    scene,
                    store,
                    clients_files,
                    servers_files,
                    failure,
                ).1.cloud,
                written,
                clients_files,
                failure,
            ).1;
            &&& clients_files.contains_key(input.filepath())
            &&& end.local.contains_key(output.filepath())
            &&& end.local[output.filepath()] == clients_files[input.filepath()]
            &&& !end.cloud.contains_key(input.cloud_key())
            &&& !end.cloud.contains_key(output.cloud_key())
        }),
{
    let sent = client_end::entered_request(request, env)->Ok_0;
    let guards = server_end::resolved_request(sent, scene)->Ok_0.guards;
    let launch = at_launch(request, env, scene, store, clients_files, servers_files, failure);
    let bytes = clients_files[input.filepath()];
    lemma_input_reaches_the_command(
        input,
        request,
        env,
        scene,
        store,
        clients_files,
        servers_files,
        failure,
    );
    lemma_as_cloud_keeps_key(input);
    client::lemma_entered_request_keeps_files(input, request, env);
    server::lemma_cloud_file_is_guarded_in_request(input.as_cloud(), sent, scene);
    let i = choose|i: int|
        0 <= i < guards.len() && (#[trigger] guards[i]).key == input.as_cloud().cloud_key()
            && guards[i].kind == GuardKind::InCloudFile;
    assert(launch.1.local[guards[i].path] == bytes);
    assert forall|o: int|
        0 <= o < guards.len() && (#[trigger] guards[o]).key == output.cloud_key() implies {
        &&& written.contains_key(guards[o].path)
        &&& written[guards[o].path] == bytes
    } by {
        assert(guards[i].key == input.cloud_key());
    }
    lemma_output_arrives_as_written(
        output,
        request,
        env,
        scene,
        launch.1.cloud,
        written,
        clients_files,
        failure,
        bytes,
    );
    let at_server = run(
        server::server_stack_at_response(guards),
        World { cloud: launch.1.cloud, local: written },
        failure,
    );
    let clients_world = World { cloud: at_server.1.cloud, local: clients_files };
    client::lemma_no_local_file_stays_on_the_store(input, request, clients_world, failure);
    client::lemma_no_local_file_stays_on_the_store(output, request, clients_world, failure);
}

} // verus!
