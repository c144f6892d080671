//! Cooperative operation state machine: shared pause/resume/abort signalling
//! consumed by long-running sequences of dispatcher calls.
//!
//! The three flags live here as plain booleans with exact transition
//! contracts; an embedding runtime holds them behind atomics and a notify
//! primitive and re-checks `wait_blocked` after every wake-up.

use vstd::prelude::*;

verus! {

/// Read-only snapshot of the operation flags, for external polling.
#[derive(Clone, Copy, Debug, PartialEq, Eq, Structural)]
pub struct OperationStatus {
    pub is_running: bool,
    pub is_paused: bool,
    pub should_abort: bool,
}

/// The shared flags of one long-running workflow.
pub struct OperationState {
    pub running: bool,
    pub paused: bool,
    pub abort_requested: bool,
}

/// The state every workflow starts from and returns to.
pub open spec fn clean_state() -> OperationState {
    OperationState { running: false, paused: false, abort_requested: false }
}

/// Transition taken by `start`.
pub open spec fn started(s: OperationState) -> OperationState {
    OperationState { running: true, ..s }
}

/// Transition taken by `pause`.
pub open spec fn paused_state(s: OperationState) -> OperationState {
    OperationState { paused: true, ..s }
}

/// Transition taken by `resume`.
pub open spec fn resumed(s: OperationState) -> OperationState {
    OperationState { paused: false, ..s }
}

/// Transition taken by `request_abort`: raises the abort flag and clears
/// `paused`, so a blocked waiter wakes up and observes the abort.
pub open spec fn abort_requested_state(s: OperationState) -> OperationState {
    OperationState { paused: false, abort_requested: true, ..s }
}

impl OperationState {
    /// A fresh state machine: all flags false.
    pub fn new() -> (s: OperationState)
        ensures
            s == clean_state(),
    {
        OperationState { running: false, paused: false, abort_requested: false }
    }

    /// Begin a workflow.
    pub fn start(&mut self)
        ensures
            *final(self) == started(*old(self)),
    {
        self.running = true;
    }

    /// Request a temporary pause.
    pub fn pause(&mut self)
        ensures
            *final(self) == paused_state(*old(self)),
    {
        self.paused = true;
    }

    /// Resume a paused workflow; the runtime must wake all waiters after
    /// calling this.
    pub fn resume(&mut self)
        ensures
            *final(self) == resumed(*old(self)),
    {
        self.paused = false;
    }

    /// Request termination of the workflow. Also clears `paused`, so a
    /// caller parked in the pause wait is released rather than staying
    /// parked forever; the runtime must wake all waiters after calling this.
    pub fn request_abort(&mut self)
        ensures
            *final(self) == abort_requested_state(*old(self)),
    {
        self.paused = false;
        self.abort_requested = true;
    }

    /// Return all three flags to their initial false state. Invoked on every
    /// exit path of a workflow so a subsequent one starts clean.
    pub fn reset(&mut self)
        ensures
            *final(self) == clean_state(),
    {
        self.running = false;
        self.paused = false;
        self.abort_requested = false;
    }

    /// Non-blocking abort check; bulk workflows consult this at every
    /// natural checkpoint.
    pub fn should_abort(&self) -> (b: bool)
        ensures
            b == self.abort_requested,
    {
        self.abort_requested
    }

    /// The wait-if-paused decision: a caller suspends exactly while this
    /// returns true, re-checking after every wake-up. `paused == false`
    /// means the caller returns immediately, with no spurious suspension.
    pub fn wait_blocked(&self) -> (b: bool)
        ensures
            b == self.paused,
    {
        self.paused
    }

    /// Snapshot of the three flags.
    pub fn status(&self) -> (st: OperationStatus)
        ensures
            st.is_running == self.running,
            st.is_paused == self.paused,
            st.should_abort == self.abort_requested,
    {
        OperationStatus {
            is_running: self.running,
            is_paused: self.paused,
            should_abort: self.abort_requested,
        }
    }
}

/// A waiter inside the pause wait is released by a resume: after `resume`,
/// `wait_blocked` is false, whatever came before.
pub proof fn lemma_resume_releases_waiter(s: OperationState)
    ensures
        !resumed(s).paused,
{
}

/// A waiter inside the pause wait is never left parked by an abort: after
/// `request_abort`, `wait_blocked` is false, whatever came before — in
/// particular even if a `pause` was never followed by a `resume`.
pub proof fn lemma_abort_releases_waiter(s: OperationState)
    ensures
        !abort_requested_state(s).paused,
{
}

/// `reset` leaves all three flags false after any history, and a `start`
/// right after a `reset` begins from a clean running state regardless of
/// prior pause/abort activity.
pub proof fn lemma_reset_is_clean(s: OperationState)
    ensures
        !clean_state().running,
        !clean_state().paused,
        !clean_state().abort_requested,
        started(clean_state()) == (OperationState {
            running: true,
            paused: false,
            abort_requested: false,
        }),
{
}

} // verus!
