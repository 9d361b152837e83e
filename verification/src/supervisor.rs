//! The supervisor of a running chain: it owns the stages' process
//! identifiers, waits for every stage in pipeline order, and carries out
//! graceful shutdown.
//!
//! Graceful shutdown means: when the one-way shutdown flag is observed
//! set, a termination signal goes to the head stage — and only to the
//! head, exactly once.  Downstream stages see the head's output pipe
//! close, drain what is still buffered, and exit on their own; the
//! supervisor keeps waiting until every stage has been reaped.
//!
//! The embedding program performs the actual wait and kill system calls;
//! this type decides, and its contracts pin the decisions down.

use vstd::prelude::*;

verus! {

/// The lifecycle of a supervised chain, derived from the supervisor's
/// bookkeeping.
pub enum SupervisorState {
    /// All stages spawned, none of them reaped, no shutdown asked for.
    Running,
    /// The shutdown flag is set but the head has not been signalled yet.
    ShutdownRequested,
    /// The head has been signalled; the chain is draining.
    Draining,
    /// Every stage's exit has been collected.
    Terminated,
}

/// The supervisor's bookkeeping: the chain's process identifiers in
/// pipeline order, how many of them have been reaped (always the first
/// `waited` ones), and the two one-way flags of the shutdown protocol.
pub struct Supervisor {
    pub pids: Vec<u32>,
    pub waited: usize,
    pub shutdown_requested: bool,
    pub head_signaled: bool,
}

impl Supervisor {
    pub open spec fn pids_view(self) -> Seq<u32> {
        self.pids@
    }

    pub open spec fn waited_count(self) -> int {
        self.waited as int
    }

    /// The one-way shutdown flag.
    pub open spec fn shutdown_requested(self) -> bool {
        self.shutdown_requested
    }

    /// Whether the head has already been sent its termination signal.
    pub open spec fn head_signaled(self) -> bool {
        self.head_signaled
    }

    /// The identifier of the head stage: the only process a shutdown
    /// ever signals.
    pub open spec fn head_pid(self) -> u32 {
        self.pids_view()[0]
    }

    pub open spec fn wf(self) -> bool {
        &&& 0 < self.pids_view().len() <= usize::MAX
        &&& 0 <= self.waited_count() <= self.pids_view().len()
        &&& (self.head_signaled() ==> self.shutdown_requested())
    }

    /// A supervisor only terminates once every stage has been reaped.
    pub open spec fn terminated(self) -> bool {
        self.waited_count() == self.pids_view().len()
    }

    pub open spec fn state(self) -> SupervisorState {
        if self.terminated() {
            SupervisorState::Terminated
        } else if self.head_signaled() {
            SupervisorState::Draining
        } else if self.shutdown_requested() {
            SupervisorState::ShutdownRequested
        } else {
            SupervisorState::Running
        }
    }

    /// What setting the shutdown flag does: nothing but the flag moves,
    /// and it only ever moves to `true`.
    pub open spec fn spec_request_shutdown(s: Supervisor) -> Supervisor {
        Supervisor { shutdown_requested: true, ..s }
    }

    /// What one observation of the flag does: the pending signal, aimed
    /// at the head, is yielded exactly when the flag is set and the head
    /// has not been signalled before; yielding it marks the head
    /// signalled.
    pub open spec fn spec_poll(s: Supervisor) -> (Supervisor, Option<u32>) {
        if s.shutdown_requested && !s.head_signaled {
            (Supervisor { head_signaled: true, ..s }, Some(s.head_pid()))
        } else {
            (s, None)
        }
    }

    /// What reaping one stage does.
    pub open spec fn spec_record_exit(s: Supervisor) -> Supervisor {
        Supervisor { waited: (s.waited + 1) as usize, ..s }
    }

    /// Takes over a fully spawned chain, head first.
    pub fn new(pids: Vec<u32>) -> (s: Supervisor)
        requires
            pids@.len() > 0,
        ensures
            s.wf(),
            s.pids_view() == pids@,
            s.waited_count() == 0,
            !s.shutdown_requested(),
            !s.head_signaled(),
            s.state() is Running,
    {
        // Binding the length teaches the verifier that it fits a usize.
        let _n = pids.len();
        Supervisor { pids, waited: 0, shutdown_requested: false, head_signaled: false }
    }

    /// Sets the one-way shutdown flag.  Idempotent: a second request
    /// changes nothing.
    pub fn request_shutdown(&mut self)
        requires
            old(self).wf(),
        ensures
            final(self).wf(),
            *final(self) == Supervisor::spec_request_shutdown(*old(self)),
            final(self).shutdown_requested(),
            final(self).pids_view() == old(self).pids_view(),
            final(self).waited_count() == old(self).waited_count(),
            final(self).head_signaled() == old(self).head_signaled(),
    {
        self.shutdown_requested = true;
    }

    /// Observes the shutdown flag and yields the termination signal the
    /// protocol owes: `Some` carries the head stage's identifier, and is
    /// yielded exactly once per pipeline run, on the first observation
    /// after the flag was set.
    pub fn poll_shutdown(&mut self) -> (signal: Option<u32>)
        requires
            old(self).wf(),
        ensures
            final(self).wf(),
            (*final(self), signal) == Supervisor::spec_poll(*old(self)),
            signal is Some <==> old(self).shutdown_requested() && !old(self).head_signaled(),
            signal matches Some(p) ==> p == old(self).head_pid(),
            final(self).pids_view() == old(self).pids_view(),
            final(self).waited_count() == old(self).waited_count(),
            final(self).shutdown_requested() == old(self).shutdown_requested(),
            signal is Some ==> final(self).head_signaled(),
            signal is None ==> *final(self) == *old(self),
    {
        if self.shutdown_requested && !self.head_signaled {
            self.head_signaled = true;
            Some(self.pids[0])
        } else {
            None
        }
    }

    /// The stage to wait on next, in pipeline order; `None` once every
    /// stage has been reaped.
    pub fn next_wait(&self) -> (r: Option<(usize, u32)>)
        requires
            self.wf(),
        ensures
            r is Some <==> !self.terminated(),
            r matches Some((i, p)) ==> i == self.waited_count() && p == self.pids_view()[
                self.waited_count()
            ],
    {
        if self.waited < self.pids.len() {
            Some((self.waited, self.pids[self.waited]))
        } else {
            None
        }
    }

    /// Records that the stage handed out by `next_wait` has been reaped.
    pub fn record_exit(&mut self)
        requires
            old(self).wf(),
            !old(self).terminated(),
        ensures
            final(self).wf(),
            *final(self) == Supervisor::spec_record_exit(*old(self)),
            final(self).waited_count() == old(self).waited_count() + 1,
            final(self).pids_view() == old(self).pids_view(),
            final(self).shutdown_requested() == old(self).shutdown_requested(),
            final(self).head_signaled() == old(self).head_signaled(),
    {
        self.waited = self.waited + 1;
    }

    /// Whether every stage has been reaped: only then may the run
    /// return, and only then is the head-pid record removed.
    pub fn is_terminated(&self) -> (r: bool)
        requires
            self.wf(),
        ensures
            r == self.terminated(),
            r == (self.state() is Terminated),
    {
        self.waited == self.pids.len()
    }
}

/// Graceful shutdown signals the head stage and nothing else: whenever a
/// poll yields a signal, the signal names the head's process identifier.
pub proof fn lemma_signal_aims_at_head(s: Supervisor)
    requires
        s.wf(),
    ensures
        Supervisor::spec_poll(s).1 matches Some(p) ==> p == s.head_pid(),
{
}

/// Graceful shutdown signals at most once: a poll that yields the signal
/// leaves the supervisor in a state from which no poll ever yields
/// again, whatever shutdown requests and stage exits happen in between —
/// none of the other transitions clears the head-signalled mark.
pub proof fn lemma_signal_at_most_once(s: Supervisor)
    requires
        s.wf(),
    ensures
        Supervisor::spec_poll(s).1 is Some ==> Supervisor::spec_poll(s).0.head_signaled(),
        s.head_signaled() ==> Supervisor::spec_poll(s).1 is None,
        s.head_signaled() ==> Supervisor::spec_poll(s).0.head_signaled(),
        s.head_signaled() ==> Supervisor::spec_request_shutdown(s).head_signaled(),
        s.head_signaled() ==> Supervisor::spec_record_exit(s).head_signaled(),
{
}

/// The run only ends when the whole chain has: the supervisor is
/// terminated exactly when as many exits have been collected as stages
/// were spawned, and collecting exits one by one reaches that bound and
/// never passes it.
pub proof fn lemma_run_waits_for_all(s: Supervisor)
    requires
        s.wf(),
    ensures
        s.terminated() <==> s.waited_count() == s.pids_view().len(),
        !s.terminated() ==> Supervisor::spec_record_exit(s).waited_count() == s.waited_count()
            + 1,
        s.terminated() ==> s.state() is Terminated,
        !s.terminated() ==> Supervisor::spec_record_exit(s).wf(),
{
}

} // verus!
