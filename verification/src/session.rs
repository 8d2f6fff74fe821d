//! The ingestion session: owns the receiving end of one progress channel and
//! the cumulative counters, and is polled cooperatively by the caller's own
//! loop. Polling never blocks; the session completes exactly when a received
//! signal's completed count has reached its total.

use vstd::prelude::*;
use crate::progress::ProgressSignal;
use crate::progress::try_recv_progress;

verus! {

/// Where a session stands: before any batch, inside one, or after one.
#[derive(Clone, Copy, Debug, PartialEq, Eq)]
pub enum SessionState {
    Idle,
    InProgress,
    Completed,
}

/// What one poll step reports to the caller.
#[derive(Clone, Copy, Debug, PartialEq, Eq)]
pub enum PollResult {
    /// The batch has not been observed to finish; the counters are the
    /// session's cumulative ones. The caller should poll again.
    Pending { completed: usize, total: usize },
    /// A signal with `completed >= total` has been observed: the batch is
    /// done and the caller should refresh its view of the stored records.
    Done,
}

/// Mathematical model of a session: its state and cumulative counters.
#[verifier::ext_equal]
pub ghost struct SessionV {
    pub state: SessionState,
    pub completed: usize,
    pub total: usize,
}

/// The session after an in-progress poll that received `signal` (`None` when
/// the channel was empty): counters follow the received signal, and the
/// session completes exactly when the signal's completed count has reached
/// its total.
pub open spec fn poll_step(pre: SessionV, signal: Option<ProgressSignal>) -> SessionV {
    match signal {
        Option::None => pre,
        Option::Some(sig) => SessionV {
            state: if sig.completed >= sig.total {
                SessionState::Completed
            } else {
                SessionState::InProgress
            },
            completed: sig.completed,
            total: sig.total,
        },
    }
}

/// What an in-progress poll that received `signal` reports.
pub open spec fn poll_report(pre: SessionV, signal: Option<ProgressSignal>) -> PollResult {
    match signal {
        Option::None => PollResult::Pending { completed: pre.completed, total: pre.total },
        Option::Some(sig) => if sig.completed >= sig.total {
            PollResult::Done
        } else {
            PollResult::Pending { completed: sig.completed, total: sig.total }
        },
    }
}

/// One ingestion session. It holds the receiver of the batch's progress
/// channel once a batch has been started.
pub struct IngestionSession {
    state: SessionState,
    completed: usize,
    total: usize,
    rx: Option<futures::channel::mpsc::Receiver<ProgressSignal>>,
}

impl View for IngestionSession {
    type V = SessionV;

    closed spec fn view(&self) -> SessionV {
        SessionV { state: self.state, completed: self.completed, total: self.total }
    }
}

impl IngestionSession {
    /// A fresh session: no batch has been started.
    pub fn new() -> (s: Self)
        ensures
            s@ == (SessionV { state: SessionState::Idle, completed: 0, total: 0 }),
    {
        IngestionSession { state: SessionState::Idle, completed: 0, total: 0, rx: None }
    }

    /// Starts a new batch: the session moves to `InProgress` with fresh
    /// counters, takes ownership of a fresh progress channel's receiving end,
    /// and hands the sending end back for the worker.
    pub fn start(&mut self) -> (tx: futures::channel::mpsc::Sender<ProgressSignal>)
        ensures
            final(self)@ == (SessionV {
                state: SessionState::InProgress,
                completed: 0,
                total: 0,
            }),
    {
        let (tx, rx) = crate::progress::progress_channel();
        self.state = SessionState::InProgress;
        self.completed = 0;
        self.total = 0;
        self.rx = Some(rx);
        tx
    }

    /// The session's current state.
    pub fn state(&self) -> (r: SessionState)
        ensures
            r == self@.state,
    {
        self.state
    }

    /// The cumulative completed count last received.
    pub fn completed(&self) -> (r: usize)
        ensures
            r == self@.completed,
    {
        self.completed
    }

    /// The batch total last received.
    pub fn total(&self) -> (r: usize)
        ensures
            r == self@.total,
    {
        self.total
    }

    /// One cooperative poll step. It never blocks and never waits: a completed
    /// session stays completed and reports `Done`; an in-progress session
    /// takes at most one pending signal from the channel and follows
    /// `poll_step`, reporting `poll_report` of whatever was received.
    pub fn poll(&mut self) -> (r: PollResult)
        requires
            !(old(self)@.state is Idle),
        ensures
            old(self)@.state is Completed ==> final(self)@ == old(self)@ && r == PollResult::Done,
            old(self)@.state is InProgress ==> exists|signal: Option<ProgressSignal>|
                final(self)@ == poll_step(old(self)@, signal) && r == poll_report(
                    old(self)@,
                    signal,
                ),
    {
        match self.state {
            SessionState::Completed => PollResult::Done,
            SessionState::InProgress => {
                let signal = match &mut self.rx {
                    Some(rx) => try_recv_progress(rx),
                    None => None,
                };
                let ghost received = signal;
                let r = match signal {
                    None => PollResult::Pending { completed: self.completed, total: self.total },
                    Some(sig) => {
                        self.completed = sig.completed;
                        self.total = sig.total;
                        if sig.completed >= sig.total {
                            self.state = SessionState::Completed;
                            PollResult::Done
                        } else {
                            PollResult::Pending { completed: sig.completed, total: sig.total }
                        }
                    },
                };
                proof {
                    assert(self@ == poll_step(old(self)@, received) && r == poll_report(
                        old(self)@,
                        received,
                    ));
                    assert(exists|signal: Option<ProgressSignal>|
                        self@ == poll_step(old(self)@, signal) && r == poll_report(
                            old(self)@,
                            signal,
                        ));
                }
                r
            },
            SessionState::Idle => {
                proof {
                    assert(false);
                }
                PollResult::Done
            },
        }
    }
}

/// Completion: an in-progress session that receives a signal whose completed
/// count has reached its total moves to `Completed` in that very poll step,
/// with the signal's counters as its own.
pub proof fn lemma_completion(pre: SessionV, sig: ProgressSignal)
    requires
        pre.state is InProgress,
        sig.completed >= sig.total,
    ensures
        poll_step(pre, Some(sig)).state is Completed,
        poll_step(pre, Some(sig)).completed == sig.completed,
        poll_step(pre, Some(sig)).total == sig.total,
        poll_report(pre, Some(sig)) == PollResult::Done,
{
}

} // verus!
