//! What staging achieves, shown on a store that behaves.
//!
//! The guards ask for operations and never see the store. To say what the
//! operations add up to, this module lets a stack of guards run against a
//! model of the two places that the operations touch: the object store, a
//! map from keys to contents, and the files of this host, a map from paths
//! to contents. In the model an operation fails only where it has nothing
//! to work on: an upload without its file, a download or a deletion without
//! its key.

use crate::error::ErrorView;
use crate::middles::invoke::{ActionView, GuardKind, GuardView, StackView};
use vstd::prelude::*;

verus! {

/// The object store and the files of this host.
pub struct World {
    pub cloud: Map<Seq<char>, Seq<u8>>,
    pub local: Map<Seq<char>, Seq<u8>>,
}

/// Whether `action` succeeds in `world`, and the world after it.
pub open spec fn performed(action: ActionView, world: World) -> (bool, World) {
    match action {
        ActionView::Upload { key, path } => if world.local.contains_key(path) {
            (true, World { cloud: world.cloud.insert(key, world.local[path]), ..world })
        } else {
            (false, world)
        },
        ActionView::UploadIfPresent { key, path } => if world.local.contains_key(path) {
            (true, World { cloud: world.cloud.insert(key, world.local[path]), ..world })
        } else {
            (true, world)
        },
        ActionView::Download { key, path } => if world.cloud.contains_key(key) {
            (true, World { local: world.local.insert(path, world.cloud[key]), ..world })
        } else {
            (false, world)
        },
        ActionView::Remove { key } => if world.cloud.contains_key(key) {
            (true, World { cloud: world.cloud.remove(key), ..world })
        } else {
            (false, world)
        },
    }
}

/// The stack and the world once the stack has come to its end: every
/// operation that fell due was carried out in the world, and its outcome
/// reported. `failure` stands for what a failed operation reports.
pub open spec fn run(stack: StackView, world: World, failure: ErrorView) -> (StackView, World)
    decreases stack.distance(),
{
    if stack.at_end() {
        (stack, world)
    } else {
        match stack.pending() {
            None => if stack.unwinding {
                run(stack.popped(), world, failure)
            } else {
                run(stack.pushed(), world, failure)
            },
            Some(action) => {
                let (ok, next) = performed(action, world);
                run(stack.after(ok, failure), next, failure)
            },
        }
    }
}

/// Every guard of `guards` stands for a file of the client.
pub open spec fn all_local(guards: Seq<GuardView>) -> bool {
    forall|i: int|
        0 <= i < guards.len() ==> (#[trigger] guards[i]).kind == GuardKind::InLocalFile
            || guards[i].kind == GuardKind::OutLocalFile
}

/// Every guard of `guards` stands for a file on the store, as a server sees
/// it.
pub open spec fn all_cloud(guards: Seq<GuardView>) -> bool {
    forall|i: int|
        0 <= i < guards.len() ==> (#[trigger] guards[i]).kind == GuardKind::InCloudFile
            || guards[i].kind == GuardKind::OutCloudFile
}

/// No two outputs among the first `n` guards share a path.
pub open spec fn outputs_apart(guards: Seq<GuardView>, n: nat) -> bool {
    forall|i: int, j: int|
        0 <= i < j < n && j < guards.len() && (#[trigger] guards[i]).kind
            == GuardKind::OutLocalFile && (#[trigger] guards[j]).kind == GuardKind::OutLocalFile
            ==> guards[i].path != guards[j].path
}

/// A run ends: nothing is due any more. A stack that unwinds ends empty.
pub proof fn lemma_run_ends(stack: StackView, world: World, failure: ErrorView)
    requires
        stack.wf(),
    ensures
        run(stack, world, failure).0.wf(),
        run(stack, world, failure).0.at_end(),
        run(stack, world, failure).0.pending() is None,
        run(stack, world, failure).0.guards == stack.guards,
        run(stack, world, failure).0.unwinding ==> run(stack, world, failure).0.entered == 0,
        stack.unwinding ==> run(stack, world, failure).0.unwinding,
        !run(stack, world, failure).0.unwinding ==> run(stack, world, failure).0.fault
            == stack.fault,
    decreases stack.distance(),
{
    if stack.at_end() {
    } else {
        match stack.pending() {
            None => {
                if stack.unwinding {
                    lemma_run_ends(stack.popped(), world, failure);
                } else {
                    lemma_run_ends(stack.pushed(), world, failure);
                }
            },
            Some(action) => {
                let (ok, next) = performed(action, world);
                lemma_run_ends(stack.after(ok, failure), next, failure);
            },
        }
    }
}

/// While the client's guards are exited, nothing is added to the store, and
/// nothing is left under the key of any guard that was entered: the inputs
/// are deleted, and so is every output that was fetched; an output that
/// could not be fetched was not there.
pub proof fn lemma_client_leaves_no_residue(stack: StackView, world: World, failure: ErrorView)
    requires
        stack.wf(),
        stack.unwinding,
        all_local(stack.guards),
    ensures
        run(stack, world, failure).1.cloud.dom().subset_of(world.cloud.dom()),
        forall|k: Seq<char>|
            run(stack, world, failure).1.cloud.contains_key(k) ==> run(
                stack,
                world,
                failure,
            ).1.cloud[k] == world.cloud[k],
        forall|i: int|
            0 <= i < stack.entered ==> !run(stack, world, failure).1.cloud.contains_key(
                #[trigger] stack.guards[i].key,
            ),
    decreases stack.distance(),
{
    if stack.at_end() {
    } else {
        let top = stack.guards[stack.entered - 1];
        assert(top.kind == GuardKind::InLocalFile || top.kind == GuardKind::OutLocalFile);
        match stack.pending() {
            None => {
                assert(false);
            },
            Some(action) => {
                let (ok, next) = performed(action, world);
                let after = stack.after(ok, failure);
                lemma_client_leaves_no_residue(after, next, failure);
                let end = run(stack, world, failure).1;
                assert(end == run(after, next, failure).1);
                assert forall|k: Seq<char>| end.cloud.contains_key(k) implies end.cloud[k]
                    == world.cloud[k] by {
                    assert(next.cloud.contains_key(k));
                    assert(next.cloud[k] == world.cloud[k]);
                }
                assert forall|i: int| 0 <= i < stack.entered implies !end.cloud.contains_key(
                    #[trigger] stack.guards[i].key,
                ) by {
                    if i < after.entered {
                    } else {
                        assert(i == stack.entered - 1);
                        assert(!next.cloud.contains_key(top.key));
                    }
                }
            },
        }
    }
}

/// A failure that is kept stays: the first one is the one that the run
/// ends with.
pub proof fn lemma_fault_stays(stack: StackView, world: World, failure: ErrorView)
    requires
        stack.fault is Some,
    ensures
        run(stack, world, failure).0.fault == stack.fault,
    decreases stack.distance(),
{
    if stack.at_end() {
    } else {
        match stack.pending() {
            None => {
                if stack.unwinding {
                    lemma_fault_stays(stack.popped(), world, failure);
                } else {
                    lemma_fault_stays(stack.pushed(), world, failure);
                }
            },
            Some(action) => {
                let (ok, next) = performed(action, world);
                lemma_fault_stays(stack.after(ok, failure), next, failure);
            },
        }
    }
}

/// How the request stage ends: either every guard is entered and nothing
/// has failed, or an operation has failed and every guard that was entered
/// is exited again.
pub proof fn lemma_request_stage_ends(stack: StackView, world: World, failure: ErrorView)
    requires
        stack.wf(),
        !stack.unwinding,
        stack.fault is None,
    ensures
        ({
            let end = run(stack, world, failure).0;
            if end.fault is None {
                !end.unwinding && end.entered == stack.guards.len()
            } else {
                end.unwinding && end.entered == 0
            }
        }),
    decreases stack.distance(),
{
    lemma_run_ends(stack, world, failure);
    if stack.at_end() {
    } else {
        match stack.pending() {
            None => {
                lemma_request_stage_ends(stack.pushed(), world, failure);
            },
            Some(action) => {
                let (ok, next) = performed(action, world);
                let after = stack.after(ok, failure);
                if ok {
                    lemma_request_stage_ends(after, next, failure);
                } else {
                    lemma_fault_stays(after, next, failure);
                    lemma_run_ends(after, next, failure);
                }
            },
        }
    }
}

/// How many guards of the stack still have their exit before them as a
/// whole: all that are entered, but for an output on top that is fetched
/// already.
pub open spec fn unfetched(stack: StackView) -> int {
    if stack.fetched {
        stack.entered - 1
    } else {
        stack.entered as int
    }
}

/// While the client's guards are exited, a file of this host stays as it
/// is unless it is the path of an output that is still to be fetched.
pub proof fn lemma_client_keeps_other_files(
    stack: StackView,
    world: World,
    failure: ErrorView,
    path: Seq<char>,
)
    requires
        stack.wf(),
        stack.unwinding,
        all_local(stack.guards),
        forall|i: int|
            0 <= i < unfetched(stack) && (#[trigger] stack.guards[i]).kind
                == GuardKind::OutLocalFile ==> stack.guards[i].path != path,
    ensures
        run(stack, world, failure).1.local.contains_key(path) == world.local.contains_key(path),
        run(stack, world, failure).1.local[path] == world.local[path],
    decreases stack.distance(),
{
    if stack.at_end() {
    } else {
        let top = stack.guards[stack.entered - 1];
        assert(top.kind == GuardKind::InLocalFile || top.kind == GuardKind::OutLocalFile);
        match stack.pending() {
            None => {
                assert(false);
            },
            Some(action) => {
                let (ok, next) = performed(action, world);
                lemma_client_keeps_other_files(stack.after(ok, failure), next, failure, path);
            },
        }
    }
}

/// After the client's guards are exited without a failure, every output
/// lies at its path on this host with the content that lay under its key
/// on the store when the response arrived, provided that no two outputs
/// share a path.
pub proof fn lemma_client_outputs_arrive(stack: StackView, world: World, failure: ErrorView)
    requires
        stack.wf(),
        stack.unwinding,
        stack.fault is None,
        all_local(stack.guards),
        outputs_apart(stack.guards, stack.entered),
    ensures
        run(stack, world, failure).0.fault is None ==> forall|i: int|
            0 <= i < unfetched(stack) && (#[trigger] stack.guards[i]).kind
                == GuardKind::OutLocalFile ==> {
                &&& world.cloud.contains_key(stack.guards[i].key)
                &&& run(stack, world, failure).1.local.contains_key(stack.guards[i].path)
                &&& run(stack, world, failure).1.local[stack.guards[i].path]
                    == world.cloud[stack.guards[i].key]
            },
    decreases stack.distance(),
{
    if stack.at_end() {
    } else {
        let top = stack.guards[stack.entered - 1];
        assert(top.kind == GuardKind::InLocalFile || top.kind == GuardKind::OutLocalFile);
        match stack.pending() {
            None => {
                assert(false);
            },
            Some(action) => {
                let (ok, next) = performed(action, world);
                let after = stack.after(ok, failure);
                let end = run(stack, world, failure);
                assert(end == run(after, next, failure));
                if after.fault is Some {
                    lemma_fault_stays(after, next, failure);
                } else {
                    lemma_client_outputs_arrive(after, next, failure);
                    if end.0.fault is None {
                        assert forall|i: int|
                            0 <= i < unfetched(stack) && (#[trigger] stack.guards[i]).kind
                                == GuardKind::OutLocalFile implies {
                            &&& world.cloud.contains_key(stack.guards[i].key)
                            &&& end.1.local.contains_key(stack.guards[i].path)
                            &&& end.1.local[stack.guards[i].path] == world.cloud[stack.guards[i].key]
                        } by {
                            if i < unfetched(after) {
                                assert(next.cloud.contains_key(stack.guards[i].key));
                            } else {
                                assert(i == stack.entered - 1);
                                assert(!stack.fetched && ok);
                                lemma_client_keeps_other_files(after, next, failure, top.path);
                            }
                        }
                    }
                }
            },
        }
    }
}

/// While the server's guards are exited, no file of this host changes,
/// nothing leaves the store, and every output that the command has written
/// at its scratch path lies on the store under its key.
pub proof fn lemma_server_outputs_reach_store(stack: StackView, world: World, failure: ErrorView)
    requires
        stack.wf(),
        stack.unwinding,
        all_cloud(stack.guards),
    ensures
        run(stack, world, failure).1.local == world.local,
        world.cloud.dom().subset_of(run(stack, world, failure).1.cloud.dom()),
        forall|i: int|
            0 <= i < stack.entered && (#[trigger] stack.guards[i]).kind == GuardKind::OutCloudFile
                && world.local.contains_key(stack.guards[i].path) ==> run(
                stack,
                world,
                failure,
            ).1.cloud.contains_key(stack.guards[i].key),
    decreases stack.distance(),
{
    if stack.at_end() {
    } else {
        let top = stack.guards[stack.entered - 1];
        assert(top.kind == GuardKind::InCloudFile || top.kind == GuardKind::OutCloudFile);
        match stack.pending() {
            None => {
                lemma_server_outputs_reach_store(stack.popped(), world, failure);
            },
            Some(action) => {
                let (ok, next) = performed(action, world);
                lemma_server_outputs_reach_store(stack.after(ok, failure), next, failure);
            },
        }
    }
}

/// No two inputs of the client among the guards from `from` on share a key.
pub open spec fn input_keys_apart(guards: Seq<GuardView>, from: nat) -> bool {
    forall|i: int, j: int|
        from <= i < j < guards.len() && (#[trigger] guards[i]).kind == GuardKind::InLocalFile && (
        #[trigger] guards[j]).kind == GuardKind::InLocalFile ==> guards[i].key != guards[j].key
}

/// No two inputs of the server among the guards from `from` on share a
/// scratch path.
pub open spec fn input_paths_apart(guards: Seq<GuardView>, from: nat) -> bool {
    forall|i: int, j: int|
        from <= i < j < guards.len() && (#[trigger] guards[i]).kind == GuardKind::InCloudFile && (
        #[trigger] guards[j]).kind == GuardKind::InCloudFile ==> guards[i].path != guards[j].path
}

/// While the client's guards are entered without a failure, no file of
/// this host changes, and what lies under a key stays unless the key is
/// that of an input still to be entered.
pub proof fn lemma_client_enters_by_uploads(
    stack: StackView,
    world: World,
    failure: ErrorView,
    key: Seq<char>,
)
    requires
        stack.wf(),
        !stack.unwinding,
        stack.fault is None,
        all_local(stack.guards),
        forall|i: int|
            stack.entered <= i < stack.guards.len() && (#[trigger] stack.guards[i]).kind
                == GuardKind::InLocalFile ==> stack.guards[i].key != key,
    ensures
        run(stack, world, failure).0.fault is None ==> {
            &&& run(stack, world, failure).1.local == world.local
            &&& run(stack, world, failure).1.cloud.contains_key(key) == world.cloud.contains_key(
                key,
            )
            &&& run(stack, world, failure).1.cloud[key] == world.cloud[key]
        },
    decreases stack.distance(),
{
    if stack.at_end() {
    } else {
        let next_guard = stack.guards[stack.entered as int];
        match stack.pending() {
            None => {
                lemma_client_enters_by_uploads(stack.pushed(), world, failure, key);
            },
            Some(action) => {
                let (ok, next) = performed(action, world);
                let after = stack.after(ok, failure);
                if ok {
                    lemma_client_enters_by_uploads(after, next, failure, key);
                } else {
                    lemma_fault_stays(after, next, failure);
                }
            },
        }
    }
}

/// After the client's guards are entered without a failure, every input
/// lies on the store under its key with the content of its file, provided
/// that no two inputs share a key.
pub proof fn lemma_client_inputs_are_staged(stack: StackView, world: World, failure: ErrorView)
    requires
        stack.wf(),
        !stack.unwinding,
        stack.fault is None,
        all_local(stack.guards),
        input_keys_apart(stack.guards, stack.entered),
    ensures
        run(stack, world, failure).0.fault is None ==> forall|i: int|
            stack.entered <= i < stack.guards.len() && (#[trigger] stack.guards[i]).kind
                == GuardKind::InLocalFile ==> {
                &&& world.local.contains_key(stack.guards[i].path)
                &&& run(stack, world, failure).1.cloud.contains_key(stack.guards[i].key)
                &&& run(stack, world, failure).1.cloud[stack.guards[i].key]
                    == world.local[stack.guards[i].path]
            },
    decreases stack.distance(),
{
    if stack.at_end() {
    } else {
        let first = stack.guards[stack.entered as int];
        match stack.pending() {
            None => {
                lemma_client_inputs_are_staged(stack.pushed(), world, failure);
            },
            Some(action) => {
                let (ok, next) = performed(action, world);
                let after = stack.after(ok, failure);
                let end = run(stack, world, failure);
                assert(end == run(after, next, failure));
                if ok {
                    lemma_client_inputs_are_staged(after, next, failure);
                    lemma_client_enters_by_uploads(after, next, failure, first.key);
                    if end.0.fault is None {
                        assert forall|i: int|
                            stack.entered <= i < stack.guards.len() && (
                            #[trigger] stack.guards[i]).kind == GuardKind::InLocalFile implies {
                            &&& world.local.contains_key(stack.guards[i].path)
                            &&& end.1.cloud.contains_key(stack.guards[i].key)
                            &&& end.1.cloud[stack.guards[i].key] == world.local[stack.guards[i].path]
                        } by {
                            if i > stack.entered {
                                assert(next.local == world.local);
                            }
                        }
                    }
                } else {
                    lemma_fault_stays(after, next, failure);
                }
            },
        }
    }
}

/// While the server's guards are entered without a failure, nothing on the
/// store changes, and a file of this host stays as it is unless its path
/// is the scratch path of an input still to be entered.
pub proof fn lemma_server_enters_by_downloads(
    stack: StackView,
    world: World,
    failure: ErrorView,
    path: Seq<char>,
)
    requires
        stack.wf(),
        !stack.unwinding,
        stack.fault is None,
        all_cloud(stack.guards),
        forall|i: int|
            stack.entered <= i < stack.guards.len() && (#[trigger] stack.guards[i]).kind
                == GuardKind::InCloudFile ==> stack.guards[i].path != path,
    ensures
        run(stack, world, failure).0.fault is None ==> {
            &&& run(stack, world, failure).1.cloud == world.cloud
            &&& run(stack, world, failure).1.local.contains_key(path) == world.local.contains_key(
                path,
            )
            &&& run(stack, world, failure).1.local[path] == world.local[path]
        },
    decreases stack.distance(),
{
    if stack.at_end() {
    } else {
        match stack.pending() {
            None => {
                lemma_server_enters_by_downloads(stack.pushed(), world, failure, path);
            },
            Some(action) => {
                let (ok, next) = performed(action, world);
                let after = stack.after(ok, failure);
                if ok {
                    lemma_server_enters_by_downloads(after, next, failure, path);
                } else {
                    lemma_fault_stays(after, next, failure);
                }
            },
        }
    }
}

/// After the server's guards are entered without a failure, every input
/// lies at its scratch path with the content that lies under its key,
/// provided that no two inputs share a scratch path: the command finds all
/// its inputs when it is launched.
pub proof fn lemma_server_inputs_are_fetched(stack: StackView, world: World, failure: ErrorView)
    requires
        stack.wf(),
        !stack.unwinding,
        stack.fault is None,
        all_cloud(stack.guards),
        input_paths_apart(stack.guards, stack.entered),
    ensures
        run(stack, world, failure).0.fault is None ==> forall|i: int|
            stack.entered <= i < stack.guards.len() && (#[trigger] stack.guards[i]).kind
                == GuardKind::InCloudFile ==> {
                &&& world.cloud.contains_key(stack.guards[i].key)
                &&& run(stack, world, failure).1.local.contains_key(stack.guards[i].path)
                &&& run(stack, world, failure).1.local[stack.guards[i].path]
                    == world.cloud[stack.guards[i].key]
            },
    decreases stack.distance(),
{
    if stack.at_end() {
    } else {
        let first = stack.guards[stack.entered as int];
        match stack.pending() {
            None => {
                lemma_server_inputs_are_fetched(stack.pushed(), world, failure);
            },
            Some(action) => {
                let (ok, next) = performed(action, world);
                let after = stack.after(ok, failure);
                let end = run(stack, world, failure);
                assert(end == run(after, next, failure));
                if ok {
                    lemma_server_inputs_are_fetched(after, next, failure);
                    lemma_server_enters_by_downloads(after, next, failure, first.path);
                    if end.0.fault is None {
                        assert forall|i: int|
                            stack.entered <= i < stack.guards.len() && (
                            #[trigger] stack.guards[i]).kind == GuardKind::InCloudFile implies {
                            &&& world.cloud.contains_key(stack.guards[i].key)
                            &&& end.1.local.contains_key(stack.guards[i].path)
                            &&& end.1.local[stack.guards[i].path] == world.cloud[stack.guards[i].key]
                        } by {
                            if i > stack.entered {
                                assert(next.cloud == world.cloud);
                            }
                        }
                    }
                } else {
                    lemma_fault_stays(after, next, failure);
                }
            },
        }
    }
}

/// Whatever `after` holds, `before` held already, with the same content.
pub open spec fn nothing_added(
    after: Map<Seq<char>, Seq<u8>>,
    before: Map<Seq<char>, Seq<u8>>,
) -> bool {
    forall|k: Seq<char>| #[trigger]
        after.contains_key(k) ==> before.contains_key(k) && after[k] == before[k]
}

/// `key` is the key of one of the first `n` guards.
pub open spec fn key_among(guards: Seq<GuardView>, n: nat, key: Seq<char>) -> bool {
    exists|i: int| 0 <= i < n && i < guards.len() && (#[trigger] guards[i]).key == key
}

proof fn lemma_failed_entering(
    stack: StackView,
    world: World,
    failure: ErrorView,
    before: Map<Seq<char>, Seq<u8>>,
)
    requires
        stack.wf(),
        !stack.unwinding,
        stack.fault is None,
        all_local(stack.guards),
        forall|k: Seq<char>| #[trigger]
            world.cloud.contains_key(k) ==> (before.contains_key(k) && world.cloud[k]
                == before[k]) || key_among(stack.guards, stack.entered, k),
    ensures
        run(stack, world, failure).0.fault is Some ==> nothing_added(
            run(stack, world, failure).1.cloud,
            before,
        ),
    decreases stack.distance(),
{
    if stack.at_end() {
    } else {
        let first = stack.guards[stack.entered as int];
        assert forall|k: Seq<char>| key_among(stack.guards, stack.entered, k) implies key_among(
            stack.guards,
            stack.entered + 1,
            k,
        ) by {
            let i = choose|i: int|
                0 <= i < stack.entered && i < stack.guards.len() && (#[trigger] stack.guards[i]).key
                    == k;
            assert(stack.guards[i].key == k);
        }
        assert(key_among(stack.guards, stack.entered + 1, first.key));
        match stack.pending() {
            None => {
                lemma_failed_entering(stack.pushed(), world, failure, before);
            },
            Some(action) => {
                let (ok, next) = performed(action, world);
                let after = stack.after(ok, failure);
                if ok {
                    lemma_failed_entering(after, next, failure, before);
                } else {
                    lemma_fault_stays(after, next, failure);
                    lemma_client_leaves_no_residue(after, next, failure);
                    let end = run(stack, world, failure).1;
                    assert forall|k: Seq<char>| #[trigger] end.cloud.contains_key(k) implies (
                    before.contains_key(k) && end.cloud[k] == before[k]) by {
                        assert(world.cloud.contains_key(k));
                        if key_among(stack.guards, stack.entered, k) {
                            let i = choose|i: int|
                                0 <= i < stack.entered && i < stack.guards.len() && (
                                #[trigger] stack.guards[i]).key == k;
                            assert(!end.cloud.contains_key(stack.guards[i].key));
                        }
                    }
                }
            },
        }
    }
}

/// A request stage of the client that ends in a failure leaves nothing on
/// the store that was not there before the request, with the content that
/// it had: every input that was uploaded is deleted again, whichever upload
/// it was that failed.
pub proof fn lemma_failed_request_leaves_no_residue(
    stack: StackView,
    world: World,
    failure: ErrorView,
)
    requires
        stack.wf(),
        !stack.unwinding,
        stack.fault is None,
        stack.entered == 0,
        all_local(stack.guards),
    ensures
        run(stack, world, failure).0.fault is Some ==> nothing_added(
            run(stack, world, failure).1.cloud,
            world.cloud,
        ),
{
    lemma_failed_entering(stack, world, failure, world.cloud);
}

/// Guard `i` is an output of the server under `key` whose scratch file is
/// there: its exit uploads the file.
pub open spec fn uploads_to(
    guards: Seq<GuardView>,
    files: Map<Seq<char>, Seq<u8>>,
    i: int,
    key: Seq<char>,
) -> bool {
    &&& 0 <= i < guards.len()
    &&& guards[i].kind == GuardKind::OutCloudFile
    &&& guards[i].key == key
    &&& files.contains_key(guards[i].path)
}

/// One of the first `n` guards uploads to `key`.
pub open spec fn written_among(
    guards: Seq<GuardView>,
    files: Map<Seq<char>, Seq<u8>>,
    n: nat,
    key: Seq<char>,
) -> bool {
    exists|i: int| 0 <= i < n && #[trigger] uploads_to(guards, files, i, key)
}

/// After the server's guards are exited, an output that the command has
/// written lies on the store with the bytes that the command has left for
/// it, whether or not other outputs share its key: it is enough that every
/// scratch file that is uploaded under the key holds these bytes. A key
/// under which nothing is uploaded holds what it held.
pub proof fn lemma_server_outputs_hold_what_was_written(
    stack: StackView,
    world: World,
    failure: ErrorView,
    key: Seq<char>,
    bytes: Seq<u8>,
)
    requires
        stack.wf(),
        stack.unwinding,
        all_cloud(stack.guards),
        forall|i: int|
            0 <= i < stack.entered && #[trigger] uploads_to(stack.guards, world.local, i, key)
                ==> world.local[stack.guards[i].path] == bytes,
    ensures
        written_among(stack.guards, world.local, stack.entered, key) ==> {
            &&& run(stack, world, failure).1.cloud.contains_key(key)
            &&& run(stack, world, failure).1.cloud[key] == bytes
        },
        !written_among(stack.guards, world.local, stack.entered, key) ==> {
            &&& run(stack, world, failure).1.cloud.contains_key(key) == world.cloud.contains_key(
                key,
            )
            &&& run(stack, world, failure).1.cloud[key] == world.cloud[key]
        },
    decreases stack.distance(),
{
    if stack.at_end() {
        if written_among(stack.guards, world.local, stack.entered, key) {
            let i = choose|i: int|
                0 <= i < stack.entered && #[trigger] uploads_to(stack.guards, world.local, i, key);
            assert(false);
        }
    } else {
        let top = stack.entered - 1;
        let top_guard = stack.guards[top];
        assert(top_guard.kind == GuardKind::InCloudFile || top_guard.kind
            == GuardKind::OutCloudFile);
        let (after, next) = match stack.pending() {
            None => (stack.popped(), world),
            Some(action) => {
                let (ok, next) = performed(action, world);
                (stack.after(ok, failure), next)
            },
        };
        assert(run(stack, world, failure) == run(after, next, failure));
        assert(next.local == world.local);
        assert(after.entered == top);
        lemma_server_outputs_hold_what_was_written(after, next, failure, key, bytes);
        let rest = written_among(stack.guards, world.local, top as nat, key);
        let all = written_among(stack.guards, world.local, stack.entered, key);
        if rest {
            let i = choose|i: int|
                0 <= i < top && #[trigger] uploads_to(stack.guards, world.local, i, key);
            assert(uploads_to(stack.guards, world.local, i, key));
        }
        if uploads_to(stack.guards, world.local, top, key) {
            assert(all);
            assert(next.cloud.contains_key(key) && next.cloud[key] == bytes);
        } else {
            if all {
                let i = choose|i: int|
                    0 <= i < stack.entered && #[trigger] uploads_to(
                        stack.guards,
                        world.local,
                        i,
                        key,
                    );
                assert(i < top);
                assert(rest);
            }
            assert(next.cloud.contains_key(key) == world.cloud.contains_key(key));
            assert(next.cloud[key] == world.cloud[key]);
        }
    }
}

} // verus!
