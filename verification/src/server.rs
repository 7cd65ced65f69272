//! The server's side of a run.
//!
//! A [`Server`] takes a request through its stages: it resolves the request
//! into a recipe and brings the inputs to their scratch paths, hands the
//! recipe out to be launched, takes the exit code in, uploads the outputs,
//! and ends with the response to send back. It neither touches the store
//! nor launches anything: each [`ServerStep`] says what is to be done next,
//! and whoever drives the server does it and reports back. Whatever fails
//! on the way, the run ends in a response: a failure is embedded into it.

use crate::assoc::{duplicate, pairs_view, Environment};
use crate::configs::CmdProxyServerConf;
use crate::error::{Error, ErrorKind, ErrorView};
use crate::middles::invoke::server_end::{
    launch_view, request_progress_view, response_progress_view, Config, MiddleImpl, MiddleView,
};
use crate::middles::invoke::{
    idle_error, idle_failure, outcome_view, ActionView, Progress, ProgressView, StoreAction,
};
use crate::middles::serde;
use crate::middles::serde::server_end::embedded;
use crate::params::ParamView;
use crate::protocol::{ResponseView, RunRecipe, RunRequest, RunResponse, SpecificationView};
use crate::text::texts;
use vstd::prelude::*;

verus! {

/// Where a server stands with its request.
#[derive(Clone, Copy, Debug, PartialEq, Eq, Structural)]
pub enum Phase {
    /// No request is in flight.
    Idle,
    /// The inputs of the request are being downloaded.
    Entering,
    /// The command is running.
    Running,
    /// The outputs are being uploaded.
    Exiting,
}

/// What is to be done next for a request.
#[derive(Debug, PartialEq, Eq)]
pub enum ServerStep {
    /// Carry this operation out on the store and report how it went.
    Store(StoreAction),
    /// Launch this recipe and report how it ended.
    Launch(RunRecipe),
    /// The run is over: send this response back.
    Answer(RunResponse),
}

pub enum ServerStepView {
    Store(ActionView),
    Launch(SpecificationView<Seq<char>>),
    Answer(ResponseView),
}

impl View for ServerStep {
    type V = ServerStepView;

    open spec fn view(&self) -> ServerStepView {
        match self {
            ServerStep::Store(action) => ServerStepView::Store(action@),
            ServerStep::Launch(recipe) => ServerStepView::Launch(recipe@),
            ServerStep::Answer(response) => ServerStepView::Answer(response@),
        }
    }
}

/// The failure for a command that ended without an exit code.
pub open spec fn no_exit_code() -> ErrorView {
    ErrorView {
        kind: ErrorKind::ChildProcess,
        message: "the command ended without an exit code"@,
    }
}

/// How a command that has ended is reported: with its exit code, or, where
/// it ended without one, as a launch that failed.
pub open spec fn ended_with(code: Option<i32>) -> Result<int, ErrorView> {
    match code {
        Some(c) => Ok(c as int),
        None => Err(no_exit_code()),
    }
}

/// The state of a server.
pub struct ServerView {
    pub invoke: MiddleView,
    pub phase: Phase,
}

pub open spec fn decoded_view(decoded: Result<RunRequest, Error>) -> Result<
    SpecificationView<ParamView>,
    ErrorView,
> {
    match decoded {
        Ok(request) => Ok(request@),
        Err(e) => Err(e@),
    }
}

impl ServerView {
    pub open spec fn idle(palette: Seq<(Seq<char>, Seq<char>)>) -> ServerView {
        ServerView { invoke: MiddleView::idle(palette), phase: Phase::Idle }
    }

    /// The answer for a run that is asked to go on while no request is in
    /// flight.
    pub open spec fn out_of_turn(self) -> (ServerView, ServerStepView) {
        (self, ServerStepView::Answer(embedded(Err(idle_failure()))))
    }

    /// The request stage has moved: a store operation is due, or the recipe
    /// is ready to be launched, or the run is over with a failure.
    pub open spec fn requested(
        self,
        moved: (MiddleView, ProgressView<SpecificationView<Seq<char>>>),
    ) -> (ServerView, ServerStepView) {
        match moved.1 {
            ProgressView::Perform(action) => (
                ServerView { invoke: moved.0, phase: Phase::Entering },
                ServerStepView::Store(action),
            ),
            ProgressView::Done(Ok(recipe)) => (
                ServerView { invoke: moved.0, phase: Phase::Running },
                ServerStepView::Launch(recipe),
            ),
            ProgressView::Done(Err(e)) => (
                ServerView { invoke: moved.0, phase: Phase::Idle },
                ServerStepView::Answer(embedded(Err(e))),
            ),
        }
    }

    /// The response stage has moved: a store operation is due, or the run
    /// is over.
    pub open spec fn responded(self, moved: (MiddleView, ProgressView<ResponseView>)) -> (
        ServerView,
        ServerStepView,
    ) {
        match moved.1 {
            ProgressView::Perform(action) => (
                ServerView { invoke: moved.0, phase: Phase::Exiting },
                ServerStepView::Store(action),
            ),
            ProgressView::Done(result) => (
                ServerView { invoke: moved.0, phase: Phase::Idle },
                ServerStepView::Answer(embedded(result)),
            ),
        }
    }

    /// A request arrives, decoded or not. One that could not be decoded is
    /// answered at once.
    pub open spec fn received(
        self,
        decoded: Result<SpecificationView<ParamView>, ErrorView>,
        os_env: Environment,
        scratch: Seq<Seq<char>>,
    ) -> (ServerView, ServerStepView) {
        match decoded {
            Err(e) => (
                ServerView { phase: Phase::Idle, ..self },
                ServerStepView::Answer(embedded(Err(e))),
            ),
            Ok(request) => self.requested(self.invoke.begun(request, os_env, scratch)),
        }
    }

    /// The store operation that was due is reported.
    pub open spec fn stored(self, outcome: Result<(), Seq<char>>) -> (ServerView, ServerStepView) {
        match self.phase {
            Phase::Entering => self.requested(self.invoke.reported(outcome).request_progress()),
            Phase::Exiting => self.responded(self.invoke.reported(outcome).response_progress()),
            _ => self.out_of_turn(),
        }
    }

    /// The end of the command is reported: its exit code, or the failure to
    /// launch it. Either way the guards of the request are exited.
    pub open spec fn launched(self, result: Result<int, ErrorView>) -> (
        ServerView,
        ServerStepView,
    ) {
        if self.phase == Phase::Running {
            self.responded(self.invoke.ended(result))
        } else {
            self.out_of_turn()
        }
    }
}

/// A worker that runs the commands of its palette, for one request at a
/// time.
///
/// [`Server::received`] begins a run, and every call answers with the step
/// that is due: after a [`ServerStep::Store`] call [`Server::stored`],
/// after a [`ServerStep::Launch`] call [`Server::launched`].
#[derive(Debug)]
pub struct Server {
    conf: CmdProxyServerConf,
    invoke: MiddleImpl,
    serde: serde::server_end::MiddleImpl,
    phase: Phase,
}

impl View for Server {
    type V = ServerView;

    closed spec fn view(&self) -> ServerView {
        ServerView { invoke: self.invoke@, phase: self.phase }
    }
}

impl Server {
    /// What this server is set up with.
    pub closed spec fn settings(&self) -> CmdProxyServerConf {
        self.conf
    }

    pub fn new(conf: CmdProxyServerConf) -> (r: Server)
        ensures
            r@ == ServerView::idle(pairs_view(conf.command_palette@)),
            r.settings() == conf,
    {
        let invoke = MiddleImpl::new(Config { command_palette: duplicate(&conf.command_palette) });
        Server { conf, invoke, serde: serde::server_end::MiddleImpl::new(), phase: Phase::Idle }
    }

    /// What this server is set up with.
    pub fn conf(&self) -> (r: &CmdProxyServerConf)
        ensures
            *r == self.settings(),
    {
        &self.conf
    }

    /// The directory in which the command of `recipe` runs: the one that the
    /// recipe names, else the current one.
    pub fn working_dir(recipe: &RunRecipe) -> (r: String)
        ensures
            r@ == match recipe.cwd {
                Some(dir) => dir@,
                None => "."@,
            },
    {
        match &recipe.cwd {
            Some(dir) => dir.clone(),
            None => ".".to_owned(),
        }
    }

    /// How a command that has ended is reported: with its exit code, or,
    /// where it ended without one, as a launch that failed. A command that
    /// was killed has no code, and the server has none to give for it.
    pub fn exit_code(code: Option<i32>) -> (r: Result<i32, Error>)
        ensures
            launch_view(r) == ended_with(code),
    {
        match code {
            Some(c) => Ok(c),
            None => Err(
                Error::new(ErrorKind::ChildProcess, "the command ended without an exit code"),
            ),
        }
    }

    fn out_of_turn(&self) -> (r: ServerStep)
        ensures
            r@ == self@.out_of_turn().1,
    {
        ServerStep::Answer(self.serde.transform_response(Err(idle_error())))
    }

    fn requested(&mut self, moved: Progress<RunRecipe>) -> (r: ServerStep)
        ensures
            (final(self)@, r@) == old(self)@.requested(
                (final(self)@.invoke, request_progress_view(moved)),
            ),
            final(self).invoke == old(self).invoke,
            final(self).conf == old(self).conf,
    {
        match moved {
            Progress::Perform(action) => {
                self.phase = Phase::Entering;
                ServerStep::Store(action)
            },
            Progress::Done(Ok(recipe)) => {
                self.phase = Phase::Running;
                ServerStep::Launch(recipe)
            },
            Progress::Done(Err(e)) => {
                self.phase = Phase::Idle;
                ServerStep::Answer(self.serde.transform_response(Err(e)))
            },
        }
    }

    fn responded(&mut self, moved: Progress<RunResponse>) -> (r: ServerStep)
        ensures
            (final(self)@, r@) == old(self)@.responded(
                (final(self)@.invoke, response_progress_view(moved)),
            ),
            final(self).invoke == old(self).invoke,
            final(self).conf == old(self).conf,
    {
        match moved {
            Progress::Perform(action) => {
                self.phase = Phase::Exiting;
                ServerStep::Store(action)
            },
            Progress::Done(result) => {
                self.phase = Phase::Idle;
                ServerStep::Answer(self.serde.transform_response(result))
            },
        }
    }

    /// Begins the run of the request `decoded`, with `os_env` as the
    /// environment of this process and with `scratch` as the scratch paths
    /// for the files of the request that lie on the store: one fresh path
    /// for each file that [`MiddleImpl::scratch_requests`] lists, in the
    /// same order.
    pub fn received(
        &mut self,
        decoded: Result<RunRequest, Error>,
        os_env: &Vec<(String, String)>,
        scratch: &Vec<String>,
    ) -> (r: ServerStep)
        ensures
            (final(self)@, r@) == old(self)@.received(
                decoded_view(decoded),
                pairs_view(os_env@),
                texts(scratch@),
            ),
            final(self).settings() == old(self).settings(),
    {
        match decoded {
            Err(e) => {
                self.phase = Phase::Idle;
                ServerStep::Answer(self.serde.transform_response(Err(e)))
            },
            Ok(request) => {
                let moved = self.invoke.transform_request(request, os_env, scratch);
                self.requested(moved)
            },
        }
    }

    /// Takes the outcome of the store operation that was due.
    pub fn stored(&mut self, outcome: Result<(), String>) -> (r: ServerStep)
        ensures
            (final(self)@, r@) == old(self)@.stored(outcome_view(outcome)),
            final(self).settings() == old(self).settings(),
    {
        match self.phase {
            Phase::Entering => {
                let moved = self.invoke.request_outcome(outcome);
                self.requested(moved)
            },
            Phase::Exiting => {
                let moved = self.invoke.response_outcome(outcome);
                self.responded(moved)
            },
            _ => self.out_of_turn(),
        }
    }

    /// Takes in how the launch of the recipe that was handed out ended.
    pub fn launched(&mut self, result: Result<i32, Error>) -> (r: ServerStep)
        ensures
            (final(self)@, r@) == old(self)@.launched(launch_view(result)),
            final(self).settings() == old(self).settings(),
    {
        match self.phase {
            Phase::Running => {
                let moved = self.invoke.transform_response(result);
                self.responded(moved)
            },
            _ => self.out_of_turn(),
        }
    }
}

/// The step either answers with the code `-1` and a reason, or it asks for
/// a store operation and leaves the server exiting with the failed launch
/// still in its hands.
pub open spec fn on_the_way_to_a_failure(moved: (ServerView, ServerStepView)) -> bool {
    match moved.1 {
        ServerStepView::Answer(response) => response.return_code == -1 && response.exc is Some,
        ServerStepView::Store(_) => moved.0.phase == Phase::Exiting && (moved.0.invoke.result
            matches Some(Err(_))),
        ServerStepView::Launch(_) => false,
    }
}

/// A command that ended without an exit code is never answered as a
/// success. When its end is reported, and after every store operation on
/// the way back, however that went, the server either asks for the next
/// store operation or answers with the code `-1` and a reason.
pub proof fn lemma_no_code_is_no_success(server: ServerView, outcome: Result<(), Seq<char>>)
    ensures
        server.phase == Phase::Running ==> on_the_way_to_a_failure(
            server.launched(ended_with(None)),
        ),
        server.phase == Phase::Exiting && (server.invoke.result matches Some(Err(_)))
            ==> on_the_way_to_a_failure(server.stored(outcome)),
{
}

/// A failure of the server never leaves it as a failure: when the request
/// stage or the response stage ends in a failure, the run ends in a
/// response with the code `-1` and the message of the failure.
pub proof fn lemma_failures_are_answered(
    server: ServerView,
    entering: (MiddleView, ProgressView<SpecificationView<Seq<char>>>),
    exiting: (MiddleView, ProgressView<ResponseView>),
)
    ensures
        entering.1 matches ProgressView::Done(Err(e)) ==> server.requested(entering).1
            == ServerStepView::Answer(ResponseView { return_code: -1, exc: Some(e.message) }),
        exiting.1 matches ProgressView::Done(Err(e)) ==> server.responded(exiting).1
            == ServerStepView::Answer(ResponseView { return_code: -1, exc: Some(e.message) }),
        exiting.1 matches ProgressView::Done(Ok(response)) ==> server.responded(exiting).1
            == ServerStepView::Answer(response),
{
}

} // verus!
