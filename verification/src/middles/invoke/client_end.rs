//! The invoke stage at the client's end.
//!
//! On the way out, every parameter of the request is rewritten into the form
//! that the server takes: a variable of the client's environment becomes its
//! value, and a local file becomes its counterpart on the object store. Each
//! local file leaves a guard. An input is uploaded when its guard is entered
//! and deleted from the store when it is exited; an output is downloaded to
//! its path and then deleted from the store when its guard is exited.

use crate::assoc::{find, lookup, pairs_view, Environment};
use crate::error::{env_miss, Error, ErrorView};
use crate::middles::invoke::{
    idle_error, idle_failure, outcome_view, staging_failure, with_guards, ArgGuard, GuardKind,
    GuardStack, GuardView, Progress, ProgressView, StackView,
};
use crate::params::{args_view, cloud_key, cloud_key_of, Param, ParamView};
use crate::protocol::{
    param_view, params_view, result_view, ResponseView, RunRequest, RunResponse,
    RunSpecification, SpecificationView,
};
use vstd::prelude::*;

verus! {

/// What the client hands on in place of `param`, or the failure for which it
/// hands on nothing: a variable that the environment `env` does not hold.
pub open spec fn entered_param(param: ParamView, env: Environment) -> Result<ParamView, ErrorView>
    decreases param, 0nat,
{
    match param {
        ParamView::Env { name } => match lookup(env, name) {
            Some(value) => Ok(ParamView::Str { value }),
            None => Err(env_miss(name)),
        },
        ParamView::InLocalFile { .. } => Ok(param.as_cloud()),
        ParamView::OutLocalFile { .. } => Ok(param.as_cloud()),
        ParamView::Format { tmpl, args } => match entered_bindings(args, env, args.len()) {
            Ok(entered) => Ok(ParamView::Format { tmpl, args: entered }),
            Err(e) => Err(e),
        },
        _ => Ok(param),
    }
}

/// The first `n` bindings of `args` with each value rewritten, names and
/// positions kept; or the failure of the first value that has one.
pub open spec fn entered_bindings(
    args: Seq<(Seq<char>, ParamView)>,
    env: Environment,
    n: nat,
) -> Result<Seq<(Seq<char>, ParamView)>, ErrorView>
    decreases args, n,
{
    if n == 0 || n > args.len() {
        Ok(Seq::empty())
    } else {
        match entered_bindings(args, env, (n - 1) as nat) {
            Err(e) => Err(e),
            Ok(before) => match entered_param(args[n - 1].1, env) {
                Err(e) => Err(e),
                Ok(value) => Ok(before.push((args[n - 1].0, value))),
            },
        }
    }
}

/// The first `n` of `params` rewritten, or the first failure among them.
pub open spec fn entered_list(params: Seq<ParamView>, env: Environment, n: nat) -> Result<
    Seq<ParamView>,
    ErrorView,
>
    decreases n,
{
    if n == 0 || n > params.len() {
        Ok(Seq::empty())
    } else {
        match entered_list(params, env, (n - 1) as nat) {
            Err(e) => Err(e),
            Ok(before) => match entered_param(params[n - 1], env) {
                Err(e) => Err(e),
                Ok(value) => Ok(before.push(value)),
            },
        }
    }
}

pub open spec fn entered_slot(slot: Option<ParamView>, env: Environment) -> Result<
    Option<ParamView>,
    ErrorView,
> {
    match slot {
        None => Ok(None),
        Some(param) => match entered_param(param, env) {
            Ok(value) => Ok(Some(value)),
            Err(e) => Err(e),
        },
    }
}

/// The request as the client hands it on: the command, then the two output
/// streams, then the arguments, then the environment, each rewritten in its
/// place; or the failure of the first of them that has one.
pub open spec fn entered_request(
    request: SpecificationView<ParamView>,
    env: Environment,
) -> Result<SpecificationView<ParamView>, ErrorView> {
    match entered_param(request.command, env) {
        Err(e) => Err(e),
        Ok(command) => match entered_slot(request.stdout, env) {
            Err(e) => Err(e),
            Ok(stdout) => match entered_slot(request.stderr, env) {
                Err(e) => Err(e),
                Ok(stderr) => match entered_list(request.args, env, request.args.len()) {
                    Err(e) => Err(e),
                    Ok(args) => match request.env {
                        None => Ok(
                            SpecificationView {
                                command,
                                args,
                                cwd: request.cwd,
                                env: None,
                                stdout,
                                stderr,
                            },
                        ),
                        Some(bindings) => match entered_bindings(bindings, env, bindings.len()) {
                            Err(e) => Err(e),
                            Ok(entered) => Ok(
                                SpecificationView {
                                    command,
                                    args,
                                    cwd: request.cwd,
                                    env: Some(entered),
                                    stdout,
                                    stderr,
                                },
                            ),
                        },
                    },
                },
            },
        },
    }
}

/// The guard of a local file: its key on the store and its own path.
pub open spec fn local_guard(kind: GuardKind, filepath: Seq<char>, hostname: Seq<char>)
    -> GuardView {
    GuardView { kind, key: cloud_key_of(hostname, filepath), path: filepath }
}

/// The guards that `param` leaves at the client, in the order in which they
/// are entered.
pub open spec fn param_guards(param: ParamView) -> Seq<GuardView>
    decreases param, 0nat,
{
    match param {
        ParamView::InLocalFile { filepath, hostname } => seq![
            local_guard(GuardKind::InLocalFile, filepath, hostname),
        ],
        ParamView::OutLocalFile { filepath, hostname } => seq![
            local_guard(GuardKind::OutLocalFile, filepath, hostname),
        ],
        ParamView::Format { tmpl, args } => bindings_guards(args, args.len()),
        _ => Seq::empty(),
    }
}

pub open spec fn bindings_guards(args: Seq<(Seq<char>, ParamView)>, n: nat) -> Seq<GuardView>
    decreases args, n,
{
    if n == 0 || n > args.len() {
        Seq::empty()
    } else {
        bindings_guards(args, (n - 1) as nat) + param_guards(args[n - 1].1)
    }
}

pub open spec fn list_guards(params: Seq<ParamView>, n: nat) -> Seq<GuardView>
    decreases n,
{
    if n == 0 || n > params.len() {
        Seq::empty()
    } else {
        list_guards(params, (n - 1) as nat) + param_guards(params[n - 1])
    }
}

pub open spec fn slot_guards(slot: Option<ParamView>) -> Seq<GuardView> {
    match slot {
        Some(param) => param_guards(param),
        None => Seq::empty(),
    }
}

/// The guards of a whole request, in the order of [`entered_request`].
pub open spec fn request_guards(request: SpecificationView<ParamView>) -> Seq<GuardView> {
    param_guards(request.command) + slot_guards(request.stdout) + slot_guards(request.stderr)
        + list_guards(request.args, request.args.len()) + match request.env {
        Some(bindings) => bindings_guards(bindings, bindings.len()),
        None => Seq::empty(),
    }
}

fn local_file_guard(kind: GuardKind, filepath: &String, hostname: &String) -> (r: ArgGuard)
    ensures
        r@ == local_guard(kind, filepath@, hostname@),
{
    ArgGuard {
        kind,
        key: cloud_key(hostname.as_str(), filepath.as_str()),
        path: filepath.clone(),
    }
}

/// Rewrites `param` for the server and adds its guards to `stack`.
pub fn guard_param(param: &Param, env: &Vec<(String, String)>, stack: &mut GuardStack) -> (r:
    Result<Param, Error>)
    ensures
        match entered_param(param@, pairs_view(env@)) {
            Ok(entered) => r matches Ok(p) && p@ == entered && final(stack)@ == with_guards(
                old(stack)@,
                param_guards(param@),
            ),
            Err(e) => r matches Err(x) && x@ == e && final(stack)@.grown_from(old(stack)@),
        },
    decreases param, 0nat,
{
    match param {
        Param::EnvParam { name } => {
            match find(env, name.as_str()) {
                Some(value) => Ok(Param::StrParam { value }),
                None => Err(Error::env_miss(name.as_str())),
            }
        },
        Param::InLocalFileParam { filepath, hostname } => {
            stack.push_guard(local_file_guard(GuardKind::InLocalFile, filepath, hostname));
            assert(old(stack)@.guards.push(local_guard(GuardKind::InLocalFile, filepath@, hostname@))
                =~= old(stack)@.guards + param_guards(param@));
            Ok(param.as_cloud())
        },
        Param::OutLocalFileParam { filepath, hostname } => {
            stack.push_guard(local_file_guard(GuardKind::OutLocalFile, filepath, hostname));
            assert(old(stack)@.guards.push(
                local_guard(GuardKind::OutLocalFile, filepath@, hostname@),
            ) =~= old(stack)@.guards + param_guards(param@));
            Ok(param.as_cloud())
        },
        Param::FormatParam { tmpl, args } => {
            match guard_hashmap_args(args, env, stack) {
                Ok(entered) => Ok(Param::FormatParam { tmpl: tmpl.clone(), args: entered }),
                Err(e) => Err(e),
            }
        },
        _ => {
            Ok(param.clone())
        },
    }
}

/// Rewrites the value of each binding, in order, and adds their guards to
/// `stack`.
pub fn guard_hashmap_args(
    args: &Vec<(String, Param)>,
    env: &Vec<(String, String)>,
    stack: &mut GuardStack,
) -> (r: Result<Vec<(String, Param)>, Error>)
    ensures
        match entered_bindings(args_view(args@), pairs_view(env@), args@.len()) {
            Ok(entered) => r matches Ok(out) && args_view(out@) == entered && final(stack)@
                == with_guards(old(stack)@, bindings_guards(args_view(args@), args@.len())),
            Err(e) => r matches Err(x) && x@ == e && final(stack)@.grown_from(old(stack)@),
        },
    decreases args, 1nat,
{
    let mut out: Vec<(String, Param)> = Vec::new();
    let mut i: usize = 0;
    assert(args_view(out@) =~= Seq::empty());
    while i < args.len()
        invariant
            i <= args.len(),
            entered_bindings(args_view(args@), pairs_view(env@), i as nat) == Ok::<
                Seq<(Seq<char>, ParamView)>,
                ErrorView,
            >(args_view(out@)),
            stack@ == with_guards(old(stack)@, bindings_guards(args_view(args@), i as nat)),
        decreases args.len() - i,
    {
        let ghost out_before = out@;
        match guard_param(&args[i].1, env, stack) {
            Err(e) => {
                proof {
                    lemma_bindings_failure(
                        args_view(args@),
                        pairs_view(env@),
                        (i + 1) as nat,
                        args@.len(),
                    );
                }
                return Err(e);
            },
            Ok(value) => {
                let name = args[i].0.clone();
                out.push((name, value));
                assert(args_view(out@) =~= args_view(out_before).push(
                    (args@[i as int].0@, value@),
                ));
                assert(stack@.guards =~= old(stack)@.guards + bindings_guards(
                    args_view(args@),
                    (i + 1) as nat,
                ));
            },
        }
        i += 1;
    }
    Ok(out)
}

/// A failure among the first `n` bindings is the failure of the whole list.
proof fn lemma_bindings_failure(
    args: Seq<(Seq<char>, ParamView)>,
    env: Environment,
    n: nat,
    m: nat,
)
    requires
        n <= m <= args.len(),
        entered_bindings(args, env, n) is Err,
    ensures
        entered_bindings(args, env, m) == entered_bindings(args, env, n),
    decreases m - n,
{
    if n < m {
        lemma_bindings_failure(args, env, n, (m - 1) as nat);
    }
}

/// A failure among the first `n` parameters is the failure of the whole
/// list.
proof fn lemma_list_failure(params: Seq<ParamView>, env: Environment, n: nat, m: nat)
    requires
        n <= m <= params.len(),
        entered_list(params, env, n) is Err,
    ensures
        entered_list(params, env, m) == entered_list(params, env, n),
    decreases m - n,
{
    if n < m {
        lemma_list_failure(params, env, n, (m - 1) as nat);
    }
}

/// Rewrites each parameter of `params`, in order, and adds their guards to
/// `stack`.
fn guard_list(params: &Vec<Param>, env: &Vec<(String, String)>, stack: &mut GuardStack) -> (r:
    Result<Vec<Param>, Error>)
    ensures
        match entered_list(params_view(params@), pairs_view(env@), params@.len()) {
            Ok(entered) => r matches Ok(out) && params_view(out@) == entered && final(stack)@
                == with_guards(old(stack)@, list_guards(params_view(params@), params@.len())),
            Err(e) => r matches Err(x) && x@ == e,
        },
{
    let mut out: Vec<Param> = Vec::new();
    let mut i: usize = 0;
    assert(params_view(out@) =~= Seq::empty());
    while i < params.len()
        invariant
            i <= params.len(),
            entered_list(params_view(params@), pairs_view(env@), i as nat) == Ok::<
                Seq<ParamView>,
                ErrorView,
            >(params_view(out@)),
            stack@ == with_guards(old(stack)@, list_guards(params_view(params@), i as nat)),
        decreases params.len() - i,
    {
        let ghost out_before = out@;
        match guard_param(&params[i], env, stack) {
            Err(e) => {
                proof {
                    lemma_list_failure(
                        params_view(params@),
                        pairs_view(env@),
                        (i + 1) as nat,
                        params@.len(),
                    );
                }
                return Err(e);
            },
            Ok(value) => {
                out.push(value);
                assert(params_view(out@) =~= params_view(out_before).push(value@));
                assert(stack@.guards =~= old(stack)@.guards + list_guards(
                    params_view(params@),
                    (i + 1) as nat,
                ));
            },
        }
        i += 1;
    }
    Ok(out)
}

fn guard_slot(slot: &Option<Param>, env: &Vec<(String, String)>, stack: &mut GuardStack) -> (r:
    Result<Option<Param>, Error>)
    ensures
        match entered_slot(param_view(*slot), pairs_view(env@)) {
            Ok(entered) => r matches Ok(out) && param_view(out) == entered && final(stack)@
                == with_guards(old(stack)@, slot_guards(param_view(*slot))),
            Err(e) => r matches Err(x) && x@ == e,
        },
{
    match slot {
        None => {
            Ok(None)
        },
        Some(param) => match guard_param(param, env, stack) {
            Ok(value) => Ok(Some(value)),
            Err(e) => Err(e),
        },
    }
}

/// Rewrites a whole request for the server and adds its guards to `stack`:
/// the command first, then the output streams, the arguments and the
/// environment.
fn guard_run_args(request: &RunRequest, env: &Vec<(String, String)>, stack: &mut GuardStack)
    -> (r: Result<RunRequest, Error>)
    ensures
        match entered_request(request@, pairs_view(env@)) {
            Ok(entered) => r matches Ok(out) && out@ == entered && final(stack)@ == with_guards(
                old(stack)@,
                request_guards(request@),
            ),
            Err(e) => r matches Err(x) && x@ == e,
        },
{
    let command = match guard_param(&request.command, env, stack) {
        Ok(value) => value,
        Err(e) => {
            return Err(e);
        },
    };
    let stdout = match guard_slot(&request.stdout, env, stack) {
        Ok(value) => value,
        Err(e) => {
            return Err(e);
        },
    };
    let stderr = match guard_slot(&request.stderr, env, stack) {
        Ok(value) => value,
        Err(e) => {
            return Err(e);
        },
    };
    let args = match guard_list(&request.args, env, stack) {
        Ok(value) => value,
        Err(e) => {
            return Err(e);
        },
    };
    let bindings = match &request.env {
        None => {
            None
        },
        Some(entries) => match guard_hashmap_args(entries, env, stack) {
            Ok(value) => Some(value),
            Err(e) => {
                return Err(e);
            },
        },
    };
    let cwd = match &request.cwd {
        Some(dir) => Some(dir.clone()),
        None => None,
    };
    assert(stack@.guards =~= old(stack)@.guards + request_guards(request@));
    Ok(RunSpecification { command, args, cwd, env: bindings, stdout, stderr })
}

/// The state of the client's invoke stage.
pub struct MiddleView {
    pub stack: StackView,
    /// The rewritten request, until it is handed on.
    pub request: Option<SpecificationView<ParamView>>,
    /// What came back for the request, until it is handed back.
    pub response: Option<Result<ResponseView, ErrorView>>,
}

impl MiddleView {
    /// The state before a request and after its response.
    pub open spec fn idle() -> MiddleView {
        MiddleView { stack: StackView::empty(), request: None, response: None }
    }

    /// The request stage goes on: either a store operation is due, or the
    /// stage is over. It ends in the first failure of an upload, after the
    /// stack has unwound; without one it hands on the rewritten request.
    pub open spec fn request_progress(self) -> (
        MiddleView,
        ProgressView<SpecificationView<ParamView>>,
    ) {
        let stack = self.stack.settled();
        match stack.pending() {
            Some(action) => (MiddleView { stack, ..self }, ProgressView::Perform(action)),
            None => (
                MiddleView { stack, request: None, ..self },
                ProgressView::Done(
                    match stack.fault {
                        Some(e) => Err(e),
                        None => match self.request {
                            Some(request) => Ok(request),
                            None => Err(idle_failure()),
                        },
                    },
                ),
            ),
        }
    }

    /// What the stage hands back once every guard is exited: a failure that
    /// came back stays as it is; a response that came back gives way to the
    /// first download that failed.
    pub open spec fn outcome(self) -> Result<ResponseView, ErrorView> {
        match self.response {
            None => Err(idle_failure()),
            Some(Err(e)) => Err(e),
            Some(Ok(response)) => match self.stack.fault {
                Some(e) => Err(e),
                None => Ok(response),
            },
        }
    }

    /// The response stage goes on: either a store operation is due, or every
    /// guard is exited and the stage is over.
    pub open spec fn response_progress(self) -> (MiddleView, ProgressView<ResponseView>) {
        let stack = self.stack.settled();
        match stack.pending() {
            Some(action) => (MiddleView { stack, ..self }, ProgressView::Perform(action)),
            None => (
                MiddleView { stack, request: None, response: None },
                ProgressView::Done((MiddleView { stack, ..self }).outcome()),
            ),
        }
    }

    /// A request arrives: it is rewritten, its guards are laid out, and the
    /// request stage begins. A request that cannot be rewritten ends the
    /// stage at once, with nothing staged.
    pub open spec fn begun(request: SpecificationView<ParamView>, env: Environment) -> (
        MiddleView,
        ProgressView<SpecificationView<ParamView>>,
    ) {
        match entered_request(request, env) {
            Err(e) => (MiddleView::idle(), ProgressView::Done(Err(e))),
            Ok(entered) => (MiddleView {
                stack: with_guards(StackView::empty(), request_guards(request)),
                request: Some(entered),
                response: None,
            }).request_progress(),
        }
    }

    /// The result of the request arrives: the stack unwinds.
    pub open spec fn ended(self, response: Result<ResponseView, ErrorView>) -> (
        MiddleView,
        ProgressView<ResponseView>,
    ) {
        (MiddleView {
            stack: self.stack.unwound(),
            request: None,
            response: Some(response),
        }).response_progress()
    }

    /// The state after the outcome of the store operation that was due.
    pub open spec fn reported(self, outcome: Result<(), Seq<char>>) -> MiddleView {
        MiddleView {
            stack: self.stack.after(
                outcome is Ok,
                match outcome {
                    Ok(_) => staging_failure(Seq::empty()),
                    Err(message) => staging_failure(message),
                },
            ),
            ..self
        }
    }
}

pub open spec fn request_view(request: Option<RunRequest>) -> Option<SpecificationView<ParamView>> {
    match request {
        Some(r) => Some(r@),
        None => None,
    }
}

pub open spec fn held_view(held: Option<Result<RunResponse, Error>>) -> Option<
    Result<ResponseView, ErrorView>,
> {
    match held {
        Some(result) => Some(result_view(result)),
        None => None,
    }
}

pub open spec fn request_progress_view(progress: Progress<RunRequest>) -> ProgressView<
    SpecificationView<ParamView>,
> {
    match progress {
        Progress::Perform(action) => ProgressView::Perform(action@),
        Progress::Done(Ok(request)) => ProgressView::Done(Ok(request@)),
        Progress::Done(Err(e)) => ProgressView::Done(Err(e@)),
    }
}

pub open spec fn response_progress_view(progress: Progress<RunResponse>) -> ProgressView<
    ResponseView,
> {
    match progress {
        Progress::Perform(action) => ProgressView::Perform(action@),
        Progress::Done(result) => ProgressView::Done(result_view(result)),
    }
}

/// The invoke stage of a client, for one request at a time.
///
/// [`MiddleImpl::transform_request`] begins the request stage and
/// [`MiddleImpl::transform_response`] the response stage. Each answers with
/// a [`Progress`]: while it names a store operation, carry the operation out
/// and hand its outcome to [`MiddleImpl::request_outcome`] or
/// [`MiddleImpl::response_outcome`], which answer in the same way.
#[derive(Debug)]
pub struct MiddleImpl {
    stack: GuardStack,
    request: Option<RunRequest>,
    response: Option<Result<RunResponse, Error>>,
}

impl View for MiddleImpl {
    type V = MiddleView;

    closed spec fn view(&self) -> MiddleView {
        MiddleView {
            stack: self.stack@,
            request: request_view(self.request),
            response: held_view(self.response),
        }
    }
}

impl MiddleImpl {
    pub fn new() -> (r: MiddleImpl)
        ensures
            r@ == MiddleView::idle(),
    {
        MiddleImpl { stack: GuardStack::new(), request: None, response: None }
    }

    fn proceed_request(&mut self) -> (r: Progress<RunRequest>)
        ensures
            final(self)@ == old(self)@.request_progress().0,
            request_progress_view(r) == old(self)@.request_progress().1,
    {
        match self.stack.next_action() {
            Some(action) => Progress::Perform(action),
            None => {
                let held = self.request.take();
                match self.stack.fault() {
                    Some(e) => Progress::Done(Err(e)),
                    None => match held {
                        Some(request) => Progress::Done(Ok(request)),
                        None => Progress::Done(Err(idle_error())),
                    },
                }
            },
        }
    }

    fn proceed_response(&mut self) -> (r: Progress<RunResponse>)
        ensures
            final(self)@ == old(self)@.response_progress().0,
            response_progress_view(r) == old(self)@.response_progress().1,
    {
        match self.stack.next_action() {
            Some(action) => Progress::Perform(action),
            None => {
                let held = self.response.take();
                self.request = None;
                match held {
                    None => Progress::Done(Err(idle_error())),
                    Some(Err(e)) => Progress::Done(Err(e)),
                    Some(Ok(response)) => match self.stack.fault() {
                        Some(e) => Progress::Done(Err(e)),
                        None => Progress::Done(Ok(response)),
                    },
                }
            },
        }
    }

    /// Takes a request in: rewrites it against the client's environment
    /// `env` and begins to enter its guards.
    pub fn transform_request(&mut self, request: RunRequest, env: &Vec<(String, String)>) -> (r:
        Progress<RunRequest>)
        ensures
            final(self)@ == MiddleView::begun(request@, pairs_view(env@)).0,
            request_progress_view(r) == MiddleView::begun(request@, pairs_view(env@)).1,
    {
        self.stack = GuardStack::new();
        self.request = None;
        self.response = None;
        match guard_run_args(&request, env, &mut self.stack) {
            Err(e) => {
                self.stack = GuardStack::new();
                Progress::Done(Err(e))
            },
            Ok(entered) => {
                self.request = Some(entered);
                assert(self.stack@.guards =~= request_guards(request@));
                self.proceed_request()
            },
        }
    }

    /// Takes the outcome of the store operation that the request stage
    /// asked for.
    pub fn request_outcome(&mut self, outcome: Result<(), String>) -> (r: Progress<RunRequest>)
        ensures
            final(self)@ == old(self)@.reported(outcome_view(outcome)).request_progress().0,
            request_progress_view(r) == old(self)@.reported(
                outcome_view(outcome),
            ).request_progress().1,
    {
        self.stack.record(outcome);
        self.proceed_request()
    }

    /// Takes in what came back for the request, a response or a failure, and
    /// begins to exit the guards, the last entered first.
    pub fn transform_response(&mut self, response: Result<RunResponse, Error>) -> (r: Progress<
        RunResponse,
    >)
        ensures
            final(self)@ == old(self)@.ended(result_view(response)).0,
            response_progress_view(r) == old(self)@.ended(result_view(response)).1,
    {
        self.stack.pop_all_guards();
        self.request = None;
        self.response = Some(response);
        self.proceed_response()
    }

    /// Takes the outcome of the store operation that the response stage
    /// asked for.
    pub fn response_outcome(&mut self, outcome: Result<(), String>) -> (r: Progress<RunResponse>)
        ensures
            final(self)@ == old(self)@.reported(outcome_view(outcome)).response_progress().0,
            response_progress_view(r) == old(self)@.reported(
                outcome_view(outcome),
            ).response_progress().1,
    {
        self.stack.record(outcome);
        self.proceed_response()
    }
}

} // verus!
