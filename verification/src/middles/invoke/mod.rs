//! The guards that both ends of the invoke stage share.
//!
//! A guard stands for one file that is staged through the object store. It
//! is entered when the request passes and exited, last entered first, when
//! the response comes back. Neither end touches the store itself: the stack
//! names the operation that is due, whoever drives it carries the operation
//! out and reports how it went, and the stack moves on.

use crate::error::{Error, ErrorKind, ErrorView};
use vstd::prelude::*;

pub mod client_end;
pub mod laws;
pub mod server_end;
pub mod store;

verus! {

/// Which file a guard stands for.
#[derive(Clone, Copy, Debug, PartialEq, Eq, Structural)]
pub enum GuardKind {
    /// A file of the client that the command reads.
    InLocalFile,
    /// A file of the client that the command writes.
    OutLocalFile,
    /// A file on the store that the command reads from a scratch path.
    InCloudFile,
    /// A file on the store that the command writes at a scratch path.
    OutCloudFile,
}

/// One staged file: its key on the store and its path on this host.
#[derive(Debug, PartialEq, Eq)]
pub struct ArgGuard {
    pub kind: GuardKind,
    pub key: String,
    pub path: String,
}

pub struct GuardView {
    pub kind: GuardKind,
    pub key: Seq<char>,
    pub path: Seq<char>,
}

impl View for ArgGuard {
    type V = GuardView;

    open spec fn view(&self) -> GuardView {
        GuardView { kind: self.kind, key: self.key@, path: self.path@ }
    }
}

/// One operation on the object store.
#[derive(Debug, PartialEq, Eq)]
pub enum StoreAction {
    /// Put the file at `path` under `key`, in place of what is there.
    Upload { key: String, path: String },
    /// Put the file at `path` under `key` if there is such a file; if there
    /// is none, do nothing and report success.
    UploadIfPresent { key: String, path: String },
    /// Write what lies under `key` to `path`.
    Download { key: String, path: String },
    /// Delete what lies under `key`.
    Remove { key: String },
}

pub enum ActionView {
    Upload { key: Seq<char>, path: Seq<char> },
    UploadIfPresent { key: Seq<char>, path: Seq<char> },
    Download { key: Seq<char>, path: Seq<char> },
    Remove { key: Seq<char> },
}

impl View for StoreAction {
    type V = ActionView;

    open spec fn view(&self) -> ActionView {
        match self {
            StoreAction::Upload { key, path } => ActionView::Upload { key: key@, path: path@ },
            StoreAction::UploadIfPresent { key, path } => ActionView::UploadIfPresent {
                key: key@,
                path: path@,
            },
            StoreAction::Download { key, path } => ActionView::Download {
                key: key@,
                path: path@,
            },
            StoreAction::Remove { key } => ActionView::Remove { key: key@ },
        }
    }
}

/// Where a stage of the invoke middleware stands: it waits for a store
/// operation to be carried out, or it is over.
#[derive(Debug, PartialEq, Eq)]
pub enum Progress<T> {
    /// Carry this operation out and report how it went.
    Perform(StoreAction),
    /// The stage is over, with this result.
    Done(Result<T, Error>),
}

pub enum ProgressView<T> {
    Perform(ActionView),
    Done(Result<T, ErrorView>),
}

/// The failure of a stage that is asked to go on while no request is in
/// flight.
pub open spec fn idle_failure() -> ErrorView {
    ErrorView { kind: ErrorKind::Validation, message: "no request is in flight"@ }
}

pub fn idle_error() -> (r: Error)
    ensures
        r@ == idle_failure(),
{
    Error::new(ErrorKind::Validation, "no request is in flight")
}

/// What entering `guard` asks of the store, if anything.
pub open spec fn enter_action(guard: GuardView) -> Option<ActionView> {
    match guard.kind {
        GuardKind::InLocalFile => Some(ActionView::Upload { key: guard.key, path: guard.path }),
        GuardKind::InCloudFile => Some(ActionView::Download { key: guard.key, path: guard.path }),
        GuardKind::OutLocalFile => None,
        GuardKind::OutCloudFile => None,
    }
}

/// What the exit of `guard` asks of the store next, if anything. An output
/// of the client is fetched first and deleted from the store afterwards:
/// `fetched` says that the first of the two is done.
pub open spec fn exit_action(guard: GuardView, fetched: bool) -> Option<ActionView> {
    match guard.kind {
        GuardKind::InLocalFile => Some(ActionView::Remove { key: guard.key }),
        GuardKind::OutLocalFile => if fetched {
            Some(ActionView::Remove { key: guard.key })
        } else {
            Some(ActionView::Download { key: guard.key, path: guard.path })
        },
        GuardKind::InCloudFile => None,
        GuardKind::OutCloudFile => Some(
            ActionView::UploadIfPresent { key: guard.key, path: guard.path },
        ),
    }
}

/// The failure that a store operation reported with `message`.
pub open spec fn staging_failure(message: Seq<char>) -> ErrorView {
    ErrorView { kind: ErrorKind::Staging, message }
}

/// The first failure stays: `fault` if there is one, else `later`.
pub open spec fn first_fault(fault: Option<ErrorView>, later: ErrorView) -> Option<ErrorView> {
    match fault {
        Some(_) => fault,
        None => Some(later),
    }
}

/// What a [`GuardStack`] stands for.
///
/// The first `entered` of `guards` are on the stack, the last of them on
/// top; the others are still to be entered. While `unwinding`, guards are
/// exited from the top down and none is entered any more.
pub struct StackView {
    pub guards: Seq<GuardView>,
    pub entered: nat,
    pub unwinding: bool,
    pub fetched: bool,
    pub fault: Option<ErrorView>,
}

impl StackView {
    pub open spec fn wf(self) -> bool {
        self.entered <= self.guards.len()
    }

    /// A stack without guards, ready for a request.
    pub open spec fn empty() -> StackView {
        StackView {
            guards: Seq::empty(),
            entered: 0,
            unwinding: false,
            fetched: false,
            fault: None,
        }
    }

    /// The store operation that is due, if any.
    pub open spec fn pending(self) -> Option<ActionView> {
        if self.unwinding {
            if 0 < self.entered <= self.guards.len() {
                exit_action(self.guards[self.entered - 1], self.fetched)
            } else {
                None
            }
        } else {
            if self.entered < self.guards.len() {
                enter_action(self.guards[self.entered as int])
            } else {
                None
            }
        }
    }

    /// No guard is left to enter, or none to exit.
    pub open spec fn at_end(self) -> bool {
        if self.unwinding {
            self.entered == 0 || self.entered > self.guards.len()
        } else {
            self.entered >= self.guards.len()
        }
    }

    /// The top guard leaves the stack.
    pub open spec fn popped(self) -> StackView {
        StackView { entered: (self.entered - 1) as nat, fetched: false, ..self }
    }

    /// The next guard goes onto the stack.
    pub open spec fn pushed(self) -> StackView {
        StackView { entered: self.entered + 1, ..self }
    }

    /// How far the stack is from its end; every step brings it closer.
    pub open spec fn distance(self) -> nat {
        if self.unwinding {
            (2 * self.entered + (if self.fetched { 0nat } else { 1nat })) as nat
        } else {
            (3 * self.guards.len() + 2 - self.entered) as nat
        }
    }

    /// The stack after the guards that ask nothing of the store have been
    /// passed: entered while the request passes, exited while unwinding.
    pub open spec fn settled(self) -> StackView
        decreases self.distance(),
    {
        if self.at_end() || self.pending() is Some {
            self
        } else if self.unwinding {
            self.popped().settled()
        } else {
            self.pushed().settled()
        }
    }

    /// The stack after the operation that was due has been carried out, with
    /// success (`ok`) or with the failure `failure`.
    ///
    /// While the request passes, a success enters the guard, and a failure
    /// ends the request: it is kept as the fault, and the stack unwinds from
    /// the guard that failed, so that what it left on the store is deleted
    /// too. While unwinding, a failed deletion is passed over; a failed
    /// download or upload is kept as the fault unless there is one already,
    /// and the output that could not be fetched stays on the store.
    pub open spec fn after(self, ok: bool, failure: ErrorView) -> StackView {
        if self.pending() is None {
            self
        } else if !self.unwinding {
            if ok {
                self.pushed()
            } else {
                StackView {
                    unwinding: true,
                    fetched: false,
                    fault: first_fault(self.fault, failure),
                    ..self.pushed()
                }
            }
        } else {
            match self.guards[self.entered - 1].kind {
                GuardKind::InLocalFile => self.popped(),
                GuardKind::InCloudFile => self.popped(),
                GuardKind::OutLocalFile => if self.fetched {
                    self.popped()
                } else if ok {
                    StackView { fetched: true, ..self }
                } else {
                    StackView { fault: first_fault(self.fault, failure), ..self.popped() }
                },
                GuardKind::OutCloudFile => if ok {
                    self.popped()
                } else {
                    StackView { fault: first_fault(self.fault, failure), ..self.popped() }
                },
            }
        }
    }

    /// This stack is `before` with guards added behind its own, or `before`
    /// itself.
    pub open spec fn grown_from(self, before: StackView) -> bool {
        &&& self.entered == before.entered
        &&& self.unwinding == before.unwinding
        &&& self.fetched == before.fetched
        &&& self.fault == before.fault
        &&& before.guards.len() <= self.guards.len()
        &&& forall|i: int| 0 <= i < before.guards.len() ==> self.guards[i] == before.guards[i]
    }

    /// The stack when the response arrives: it unwinds from the guards that
    /// are entered.
    pub open spec fn unwound(self) -> StackView {
        StackView { unwinding: true, fetched: false, ..self }
    }
}

/// A stack stays well formed, whatever is done with it.
pub proof fn lemma_stack_stays_well_formed(
    stack: StackView,
    guards: Seq<GuardView>,
    ok: bool,
    failure: ErrorView,
)
    requires
        stack.wf(),
    ensures
        stack.settled().wf(),
        stack.after(ok, failure).wf(),
        stack.unwound().wf(),
        with_guards(stack, guards).wf(),
        StackView::empty().wf(),
    decreases stack.distance(),
{
    if stack.at_end() || stack.pending() is Some {
    } else if stack.unwinding {
        lemma_stack_stays_well_formed(stack.popped(), guards, ok, failure);
    } else {
        lemma_stack_stays_well_formed(stack.pushed(), guards, ok, failure);
    }
}

/// `stack` with `guards` added behind its own.
pub open spec fn with_guards(stack: StackView, guards: Seq<GuardView>) -> StackView {
    StackView { guards: stack.guards + guards, ..stack }
}

/// The outcome of a store operation, with the words of a failure by their
/// view.
pub open spec fn outcome_view(outcome: Result<(), String>) -> Result<(), Seq<char>> {
    match outcome {
        Ok(_) => Ok(()),
        Err(message) => Err(message@),
    }
}

/// The views of a list of guards.
pub open spec fn guards_view(guards: Seq<ArgGuard>) -> Seq<GuardView> {
    guards.map_values(|g: ArgGuard| g@)
}

/// The guards of one request, and how far their staging has come.
#[derive(Debug)]
pub struct GuardStack {
    guards: Vec<ArgGuard>,
    entered: usize,
    unwinding: bool,
    fetched: bool,
    fault: Option<Error>,
}

pub open spec fn fault_view(fault: Option<Error>) -> Option<ErrorView> {
    match fault {
        Some(e) => Some(e@),
        None => None,
    }
}

impl View for GuardStack {
    type V = StackView;

    closed spec fn view(&self) -> StackView {
        StackView {
            guards: guards_view(self.guards@),
            entered: self.entered as nat,
            unwinding: self.unwinding,
            fetched: self.fetched,
            fault: fault_view(self.fault),
        }
    }
}

impl GuardStack {
    /// A stack without guards.
    pub fn new() -> (r: GuardStack)
        ensures
            r@ == StackView::empty(),
            r@.wf(),
    {
        let r = GuardStack {
            guards: Vec::new(),
            entered: 0,
            unwinding: false,
            fetched: false,
            fault: None,
        };
        assert(guards_view(r.guards@) =~= Seq::empty());
        r
    }

    /// Adds `guard` behind the guards that are still to be entered.
    pub fn push_guard(&mut self, guard: ArgGuard)
        ensures
            final(self)@ == (StackView { guards: old(self)@.guards.push(guard@), ..old(self)@ }),
            old(self)@.wf() ==> final(self)@.wf(),
    {
        self.guards.push(guard);
        assert(guards_view(self.guards@) =~= guards_view(old(self).guards@).push(guard@));
    }

    /// Begins to unwind: from now on guards are exited, the last entered
    /// first, and none is entered any more.
    pub fn pop_all_guards(&mut self)
        ensures
            final(self)@ == old(self)@.unwound(),
            old(self)@.wf() ==> final(self)@.wf(),
    {
        self.unwinding = true;
        self.fetched = false;
    }

    /// How many guards the stack holds, entered or not.
    pub fn planned(&self) -> (r: usize)
        ensures
            r == self@.guards.len(),
    {
        self.guards.len()
    }

    /// The first failure of a store operation that was not passed over.
    pub fn fault(&self) -> (r: Option<Error>)
        ensures
            fault_view(r) == self@.fault,
    {
        match &self.fault {
            Some(e) => Some(e.clone()),
            None => None,
        }
    }

    fn due(&self) -> (r: Option<StoreAction>)
        ensures
            match r {
                Some(action) => self@.pending() == Some(action@),
                None => self@.pending() is None,
            },
    {
        if self.unwinding {
            if 0 < self.entered && self.entered <= self.guards.len() {
                let guard = &self.guards[self.entered - 1];
                match guard.kind {
                    GuardKind::InLocalFile => Some(StoreAction::Remove { key: guard.key.clone() }),
                    GuardKind::OutLocalFile => if self.fetched {
                        Some(StoreAction::Remove { key: guard.key.clone() })
                    } else {
                        Some(
                            StoreAction::Download {
                                key: guard.key.clone(),
                                path: guard.path.clone(),
                            },
                        )
                    },
                    GuardKind::InCloudFile => None,
                    GuardKind::OutCloudFile => Some(
                        StoreAction::UploadIfPresent {
                            key: guard.key.clone(),
                            path: guard.path.clone(),
                        },
                    ),
                }
            } else {
                None
            }
        } else {
            if self.entered < self.guards.len() {
                let guard = &self.guards[self.entered];
                match guard.kind {
                    GuardKind::InLocalFile => Some(
                        StoreAction::Upload { key: guard.key.clone(), path: guard.path.clone() },
                    ),
                    GuardKind::InCloudFile => Some(
                        StoreAction::Download { key: guard.key.clone(), path: guard.path.clone() },
                    ),
                    GuardKind::OutLocalFile => None,
                    GuardKind::OutCloudFile => None,
                }
            } else {
                None
            }
        }
    }

    /// Passes the guards that ask nothing of the store and names the store
    /// operation that is due. `None` says that the stack is at its end:
    /// every guard is entered, or, while unwinding, every guard is exited.
    pub fn next_action(&mut self) -> (r: Option<StoreAction>)
        ensures
            final(self)@ == old(self)@.settled(),
            match r {
                Some(action) => final(self)@.pending() == Some(action@),
                None => final(self)@.pending() is None && final(self)@.at_end(),
            },
            old(self)@.wf() ==> final(self)@.wf(),
    {
        loop
            invariant
                self@.settled() == old(self)@.settled(),
                old(self)@.wf() ==> self@.wf(),
            decreases self@.distance(),
        {
            let at_end = if self.unwinding {
                self.entered == 0 || self.entered > self.guards.len()
            } else {
                self.entered >= self.guards.len()
            };
            let due = self.due();
            if at_end || due.is_some() {
                return due;
            }
            if self.unwinding {
                self.entered = self.entered - 1;
                self.fetched = false;
            } else {
                self.entered = self.entered + 1;
            }
        }
    }

    /// Takes the outcome of the store operation that was due. Where none was
    /// due, nothing changes.
    pub fn record(&mut self, outcome: Result<(), String>)
        ensures
            final(self)@ == old(self)@.after(
                outcome is Ok,
                match outcome {
                    Ok(_) => staging_failure(Seq::empty()),
                    Err(message) => staging_failure(message@),
                },
            ),
            old(self)@.wf() ==> final(self)@.wf(),
    {
        let due = self.due();
        if due.is_none() {
            return ;
        }
        let failure = match outcome {
            Ok(_) => None,
            Err(message) => Some(Error { kind: ErrorKind::Staging, message }),
        };
        if !self.unwinding {
            assert(self.entered < self.guards.len());
            self.entered = self.entered + 1;
            match failure {
                Some(e) => {
                    self.unwinding = true;
                    self.fetched = false;
                    if self.fault.is_none() {
                        self.fault = Some(e);
                    }
                },
                None => {},
            }
        } else {
            let kind = self.guards[self.entered - 1].kind;
            match kind {
                GuardKind::InLocalFile => {
                    self.entered = self.entered - 1;
                    self.fetched = false;
                },
                GuardKind::InCloudFile => {
                    self.entered = self.entered - 1;
                    self.fetched = false;
                },
                GuardKind::OutLocalFile => {
                    if self.fetched {
                        self.entered = self.entered - 1;
                        self.fetched = false;
                    } else {
                        match failure {
                            None => {
                                self.fetched = true;
                            },
                            Some(e) => {
                                self.entered = self.entered - 1;
                                self.fetched = false;
                                if self.fault.is_none() {
                                    self.fault = Some(e);
                                }
                            },
                        }
                    }
                },
                GuardKind::OutCloudFile => {
                    self.entered = self.entered - 1;
                    self.fetched = false;
                    match failure {
                        None => {},
                        Some(e) => {
                            if self.fault.is_none() {
                                self.fault = Some(e);
                            }
                        },
                    }
                },
            }
        }
    }
}

} // verus!
