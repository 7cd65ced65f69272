//! The client's side of a run.
//!
//! A [`Client`] takes a request through its stages: it picks the queue,
//! rewrites the request and stages its local files, hands the request out
//! to be sent, takes the answer in, fetches the outputs and cleans the
//! store, and ends with the exit code of the command. It neither touches
//! the store nor the broker: each [`ClientStep`] says what is to be done
//! next, and whoever drives the client does it and reports back.

use crate::assoc::{pairs_view, Environment};
use crate::configs::CmdProxyClientConf;
use crate::error::{Error, ErrorKind, ErrorView};
use crate::middles::invoke::client_end::{
    request_progress_view, response_progress_view, MiddleImpl, MiddleView,
};
use crate::middles::invoke::{
    idle_error, idle_failure, outcome_view, ActionView, Progress, ProgressView, StoreAction,
};
use crate::middles::serde;
use crate::middles::serde::client_end::lifted;
use crate::params::{Param, ParamView};
use crate::protocol::{
    result_view, text_view, ResponseView, RunRequest, RunResponse, SpecificationView,
};
use vstd::prelude::*;

verus! {

/// The failure for a request that names no queue.
pub open spec fn queue_missing() -> ErrorView {
    ErrorView {
        kind: ErrorKind::Validation,
        message: "Queue should be specified when command is not an instance of CmdNameParam"@,
    }
}

/// The queue that a request goes to: the one that the caller names; else
/// the name of the command, where the command is given by its name.
pub open spec fn queue_of(command: ParamView, queue: Option<Seq<char>>) -> Result<
    Seq<char>,
    ErrorView,
> {
    match queue {
        Some(q) => Ok(q),
        None => match command {
            ParamView::CmdName { name } => Ok(name),
            _ => Err(queue_missing()),
        },
    }
}

/// Picks the queue for a request with the command `command`.
pub fn select_queue(command: &Param, queue: Option<String>) -> (r: Result<String, Error>)
    ensures
        match queue_of(command@, text_view(queue)) {
            Ok(q) => r matches Ok(s) && s@ == q,
            Err(e) => r matches Err(x) && x@ == e,
        },
{
    match queue {
        Some(q) => Ok(q),
        None => match command {
            Param::CmdNameParam { name } => Ok(name.clone()),
            _ => Err(
                Error::new(
                    ErrorKind::Validation,
                    "Queue should be specified when command is not an instance of CmdNameParam",
                ),
            ),
        },
    }
}

/// What the caller of a run gets: the exit code of the command, or the
/// failure.
pub open spec fn code_of(response: Result<ResponseView, ErrorView>) -> Result<int, ErrorView> {
    match response {
        Ok(done) => Ok(done.return_code),
        Err(e) => Err(e),
    }
}

pub open spec fn code_view(result: Result<i32, Error>) -> Result<int, ErrorView> {
    match result {
        Ok(code) => Ok(code as int),
        Err(e) => Err(e@),
    }
}

/// Reads the exit code from what came back.
pub fn return_code(response: Result<RunResponse, Error>) -> (r: Result<i32, Error>)
    ensures
        code_view(r) == code_of(result_view(response)),
{
    match response {
        Ok(done) => Ok(done.return_code),
        Err(e) => Err(e),
    }
}

/// Where a client stands with its request.
#[derive(Clone, Copy, Debug, PartialEq, Eq, Structural)]
pub enum Phase {
    /// No request is in flight.
    Idle,
    /// The local inputs of the request are being uploaded.
    Entering,
    /// The request is with the broker.
    Waiting,
    /// The outputs are being fetched and the store is being cleaned.
    Exiting,
}

/// What is to be done next for a request.
#[derive(Debug, PartialEq, Eq)]
pub enum ClientStep {
    /// Carry this operation out on the store and report how it went.
    Store(StoreAction),
    /// Send this request to this queue and report what came back.
    Send { queue: String, request: RunRequest },
    /// The run is over: the exit code of the command, or the failure.
    Finished(Result<i32, Error>),
}

pub enum ClientStepView {
    Store(ActionView),
    Send { queue: Seq<char>, request: SpecificationView<ParamView> },
    Finished(Result<int, ErrorView>),
}

impl View for ClientStep {
    type V = ClientStepView;

    open spec fn view(&self) -> ClientStepView {
        match self {
            ClientStep::Store(action) => ClientStepView::Store(action@),
            ClientStep::Send { queue, request } => ClientStepView::Send {
                queue: queue@,
                request: request@,
            },
            ClientStep::Finished(result) => ClientStepView::Finished(code_view(*result)),
        }
    }
}

/// The state of a client.
pub struct ClientView {
    pub invoke: MiddleView,
    /// The queue of the request, until the request is handed out.
    pub queue: Option<Seq<char>>,
    pub phase: Phase,
}

impl ClientView {
    pub open spec fn idle() -> ClientView {
        ClientView { invoke: MiddleView::idle(), queue: None, phase: Phase::Idle }
    }

    /// The request stage has moved: a store operation is due, or the
    /// request is ready to be sent, or the run is over with a failure and
    /// nothing is sent.
    pub open spec fn requested(
        self,
        moved: (MiddleView, ProgressView<SpecificationView<ParamView>>),
    ) -> (ClientView, ClientStepView) {
        match moved.1 {
            ProgressView::Perform(action) => (
                ClientView { invoke: moved.0, phase: Phase::Entering, ..self },
                ClientStepView::Store(action),
            ),
            ProgressView::Done(Ok(request)) => match self.queue {
                Some(queue) => (
                    ClientView { invoke: moved.0, queue: None, phase: Phase::Waiting },
                    ClientStepView::Send { queue, request },
                ),
                None => (
                    ClientView { invoke: moved.0, queue: None, phase: Phase::Idle },
                    ClientStepView::Finished(Err(idle_failure())),
                ),
            },
            ProgressView::Done(Err(e)) => (
                ClientView { invoke: moved.0, queue: None, phase: Phase::Idle },
                ClientStepView::Finished(Err(e)),
            ),
        }
    }

    /// The response stage has moved: a store operation is due, or the run
    /// is over.
    pub open spec fn responded(self, moved: (MiddleView, ProgressView<ResponseView>)) -> (
        ClientView,
        ClientStepView,
    ) {
        match moved.1 {
            ProgressView::Perform(action) => (
                ClientView { invoke: moved.0, queue: None, phase: Phase::Exiting },
                ClientStepView::Store(action),
            ),
            ProgressView::Done(result) => (
                ClientView { invoke: moved.0, queue: None, phase: Phase::Idle },
                ClientStepView::Finished(code_of(result)),
            ),
        }
    }

    /// A run begins. Without a queue nothing is staged and nothing is sent.
    pub open spec fn run(
        request: SpecificationView<ParamView>,
        queue: Option<Seq<char>>,
        env: Environment,
    ) -> (ClientView, ClientStepView) {
        match queue_of(request.command, queue) {
            Err(e) => (ClientView::idle(), ClientStepView::Finished(Err(e))),
            Ok(q) => (ClientView {
                invoke: MiddleView::idle(),
                queue: Some(q),
                phase: Phase::Entering,
            }).requested(MiddleView::begun(request, env)),
        }
    }

    /// The store operation that was due is reported.
    pub open spec fn stored(self, outcome: Result<(), Seq<char>>) -> (ClientView, ClientStepView) {
        match self.phase {
            Phase::Entering => self.requested(self.invoke.reported(outcome).request_progress()),
            Phase::Exiting => self.responded(self.invoke.reported(outcome).response_progress()),
            _ => (self, ClientStepView::Finished(Err(idle_failure()))),
        }
    }

    /// What came back for the request is reported: the decoded response, or
    /// the failure to send the request or to get or decode a response. A
    /// response that carries a reason counts as a failure of the server.
    /// Either way the guards of the request are exited.
    pub open spec fn answered(self, answer: Result<ResponseView, ErrorView>) -> (
        ClientView,
        ClientStepView,
    ) {
        if self.phase == Phase::Waiting {
            self.responded(self.invoke.ended(lifted(answer)))
        } else {
            (self, ClientStepView::Finished(Err(idle_failure())))
        }
    }
}

/// A client, for one run at a time.
///
/// [`Client::run`] begins a run, and every call answers with the step that
/// is due: after a [`ClientStep::Store`] call [`Client::stored`], after a
/// [`ClientStep::Send`] call [`Client::answered`].
#[derive(Debug)]
pub struct Client {
    conf: CmdProxyClientConf,
    invoke: MiddleImpl,
    serde: serde::client_end::MiddleImpl,
    queue: Option<String>,
    phase: Phase,
}

impl View for Client {
    type V = ClientView;

    closed spec fn view(&self) -> ClientView {
        ClientView { invoke: self.invoke@, queue: text_view(self.queue), phase: self.phase }
    }
}

impl Client {
    /// What this client is set up with.
    pub closed spec fn settings(&self) -> CmdProxyClientConf {
        self.conf
    }

    pub fn new(conf: CmdProxyClientConf) -> (r: Client)
        ensures
            r@ == ClientView::idle(),
            r.settings() == conf,
    {
        Client {
            conf,
            invoke: MiddleImpl::new(),
            serde: serde::client_end::MiddleImpl::new(),
            queue: None,
            phase: Phase::Idle,
        }
    }

    /// What this client is set up with.
    pub fn conf(&self) -> (r: &CmdProxyClientConf)
        ensures
            *r == self.settings(),
    {
        &self.conf
    }

    fn requested(&mut self, moved: Progress<RunRequest>) -> (r: ClientStep)
        ensures
            (final(self)@, r@) == old(self)@.requested(
                (final(self)@.invoke, request_progress_view(moved)),
            ),
            final(self).invoke == old(self).invoke,
            final(self).conf == old(self).conf,
    {
        match moved {
            Progress::Perform(action) => {
                self.phase = Phase::Entering;
                ClientStep::Store(action)
            },
            Progress::Done(Ok(request)) => match self.queue.take() {
                Some(queue) => {
                    self.phase = Phase::Waiting;
                    ClientStep::Send { queue, request }
                },
                None => {
                    self.phase = Phase::Idle;
                    ClientStep::Finished(Err(idle_error()))
                },
            },
            Progress::Done(Err(e)) => {
                self.queue = None;
                self.phase = Phase::Idle;
                ClientStep::Finished(Err(e))
            },
        }
    }

    fn responded(&mut self, moved: Progress<RunResponse>) -> (r: ClientStep)
        ensures
            (final(self)@, r@) == old(self)@.responded(
                (final(self)@.invoke, response_progress_view(moved)),
            ),
            final(self).invoke == old(self).invoke,
            final(self).conf == old(self).conf,
    {
        self.queue = None;
        match moved {
            Progress::Perform(action) => {
                self.phase = Phase::Exiting;
                ClientStep::Store(action)
            },
            Progress::Done(result) => {
                self.phase = Phase::Idle;
                ClientStep::Finished(return_code(result))
            },
        }
    }

    /// Begins the run of `request`, for the queue `queue` if one is given,
    /// with `env` as the environment of this process.
    pub fn run(&mut self, request: RunRequest, queue: Option<String>, env: &Vec<(String, String)>)
        -> (r: ClientStep)
        ensures
            (final(self)@, r@) == ClientView::run(request@, text_view(queue), pairs_view(env@)),
            final(self).settings() == old(self).settings(),
    {
        match select_queue(&request.command, queue) {
            Err(e) => {
                self.invoke = MiddleImpl::new();
                self.queue = None;
                self.phase = Phase::Idle;
                ClientStep::Finished(Err(e))
            },
            Ok(q) => {
                self.queue = Some(q);
                self.phase = Phase::Entering;
                let moved = self.invoke.transform_request(request, env);
                self.requested(moved)
            },
        }
    }

    /// Takes the outcome of the store operation that was due.
    pub fn stored(&mut self, outcome: Result<(), String>) -> (r: ClientStep)
        ensures
            (final(self)@, r@) == old(self)@.stored(outcome_view(outcome)),
            final(self).settings() == old(self).settings(),
    {
        match self.phase {
            Phase::Entering => {
                let moved = self.invoke.request_outcome(outcome);
                self.requested(moved)
            },
            Phase::Exiting => {
                let moved = self.invoke.response_outcome(outcome);
                self.responded(moved)
            },
            _ => ClientStep::Finished(Err(idle_error())),
        }
    }

    /// Takes in what came back for the request that was handed out.
    pub fn answered(&mut self, answer: Result<RunResponse, Error>) -> (r: ClientStep)
        ensures
            (final(self)@, r@) == old(self)@.answered(result_view(answer)),
            final(self).settings() == old(self).settings(),
    {
        match self.phase {
            Phase::Waiting => {
                let lifted = self.serde.transform_response(answer);
                let moved = self.invoke.transform_response(lifted);
                self.responded(moved)
            },
            _ => ClientStep::Finished(Err(idle_error())),
        }
    }
}

/// A request is handed out to be sent only when its stage of uploads has
/// ended without a failure: a run that begins with a failure, or with an
/// upload that fails, is over before anything is sent.
pub proof fn lemma_nothing_sent_after_failure(
    client: ClientView,
    moved: (MiddleView, ProgressView<SpecificationView<ParamView>>),
)
    ensures
        client.requested(moved).1 is Send ==> moved.1 matches ProgressView::Done(Ok(_)),
        moved.1 matches ProgressView::Done(Err(e)) ==> client.requested(moved).1
            == ClientStepView::Finished(Err(e)),
{
}

} // verus!
