//! The backend process and its watcher.
//!
//! The server starts the backend and waits until it is ready: the backend
//! says so with a signal, and because a signal can be missed its socket is
//! probed as well. Once ready, the backend stays ready for as long as it
//! runs. The watcher does not start, probe or stop anything itself: it
//! says what its caller has to do.

use vstd::prelude::*;

use crate::arbiter::Signal;

verus! {

/// The identifier of the first worker; the others count up from it.
pub const INITIAL_WORKER_ID: usize = 1000;

/// The signal that ends a process.
#[derive(Clone, Copy, Debug, PartialEq, Eq, Structural)]
pub enum TerminationSignal {
    /// Asks the process to finish its work and end.
    Terminate,
    /// Asks the process to end now.
    Interrupt,
}

/// What the watcher of a process is told.
#[derive(Clone, Copy, Debug, PartialEq, Eq, Structural)]
pub enum WatchEvent {
    /// A signal was handed on by the arbiter.
    Signal(Signal),
    /// The time between two probes has passed.
    ProbeDue,
    /// The socket was probed: whether it took the connection.
    Probed(bool),
    /// The process was looked at: whether it runs.
    Checked(bool),
    FastShutdown,
    GracefulShutdown,
}

/// What the watcher has its caller do.
#[derive(Clone, Copy, Debug, PartialEq, Eq, Structural)]
pub enum WatchAction {
    /// Go on watching.
    Continue,
    /// The process has just become ready: requests can be sent to it, and
    /// what waits for it can start. Go on watching.
    Ready,
    /// Try to connect to the socket of the process and come back with the
    /// outcome.
    Probe,
    /// Send the signal to the process, wait for its end, and stop
    /// watching.
    Stop(TerminationSignal),
    /// The process has ended though no one asked it to: stop watching
    /// with an error.
    Fail,
}

/// The process as its watcher knows it.
#[derive(Clone, Copy, Debug, PartialEq, Eq, Structural)]
pub struct BackendProcess {
    /// The signal with which the process says that it is ready.
    pub ready_signal: Signal,
    /// Whether the process was seen ready.
    pub ready: bool,
}

/// What an event does to what the watcher knows, and has the caller do.
pub open spec fn spec_watch(process: BackendProcess, event: WatchEvent) -> (
    BackendProcess,
    WatchAction,
) {
    match event {
        WatchEvent::Signal(s) => if s == process.ready_signal && !process.ready {
            (BackendProcess { ready: true, ..process }, WatchAction::Ready)
        } else {
            (process, WatchAction::Continue)
        },
        WatchEvent::ProbeDue => if process.ready {
            (process, WatchAction::Continue)
        } else {
            (process, WatchAction::Probe)
        },
        WatchEvent::Probed(reachable) => if reachable && !process.ready {
            (BackendProcess { ready: true, ..process }, WatchAction::Ready)
        } else {
            (process, WatchAction::Continue)
        },
        WatchEvent::Checked(alive) => if alive {
            (process, WatchAction::Continue)
        } else {
            (process, WatchAction::Fail)
        },
        WatchEvent::FastShutdown => (process, WatchAction::Stop(TerminationSignal::Interrupt)),
        WatchEvent::GracefulShutdown => (process, WatchAction::Stop(TerminationSignal::Terminate)),
    }
}

impl BackendProcess {
    /// A process that was started and not seen ready yet.
    pub fn new(ready_signal: Signal) -> (r: BackendProcess)
        ensures
            r == (BackendProcess { ready_signal, ready: false }),
    {
        BackendProcess { ready_signal, ready: false }
    }

    /// Whether the process was seen ready.
    pub fn is_ready(&self) -> (r: bool)
        ensures
            r == self.ready,
    {
        self.ready
    }

    /// Takes in an event and says what to do about it. A process that was
    /// seen ready stays so.
    pub fn on_event(&mut self, event: WatchEvent) -> (r: WatchAction)
        ensures
            (*final(self), r) == spec_watch(*old(self), event),
            old(self).ready ==> final(self).ready,
            final(self).ready_signal == old(self).ready_signal,
            r == WatchAction::Ready ==> final(self).ready && !old(self).ready,
    {
        match event {
            WatchEvent::Signal(s) => {
                if s == self.ready_signal && !self.ready {
                    self.ready = true;
                    WatchAction::Ready
                } else {
                    WatchAction::Continue
                }
            },
            WatchEvent::ProbeDue => {
                if self.ready {
                    WatchAction::Continue
                } else {
                    WatchAction::Probe
                }
            },
            WatchEvent::Probed(reachable) => {
                if reachable && !self.ready {
                    self.ready = true;
                    WatchAction::Ready
                } else {
                    WatchAction::Continue
                }
            },
            WatchEvent::Checked(alive) => {
                if alive {
                    WatchAction::Continue
                } else {
                    WatchAction::Fail
                }
            },
            WatchEvent::FastShutdown => WatchAction::Stop(TerminationSignal::Interrupt),
            WatchEvent::GracefulShutdown => WatchAction::Stop(TerminationSignal::Terminate),
        }
    }
}

/// The identifiers of the workers that are started once the first one is
/// ready: one for each process but the first, counting up from the
/// identifier of the first.
pub open spec fn spec_other_worker_ids(processes: nat) -> Seq<usize> {
    if processes <= 1 {
        Seq::empty()
    } else {
        Seq::new((processes - 1) as nat, |i: int| (INITIAL_WORKER_ID + 1 + i) as usize)
    }
}

/// Lists the identifiers of the workers that are started once the first
/// one is ready.
pub fn other_worker_ids(processes: usize) -> (r: Vec<usize>)
    requires
        INITIAL_WORKER_ID + processes <= usize::MAX,
    ensures
        r@ == spec_other_worker_ids(processes as nat),
{
    let mut ids: Vec<usize> = Vec::new();
    let mut i: usize = 1;
    while i < processes
        invariant
            1 <= i,
            i <= processes || i == 1,
            INITIAL_WORKER_ID + processes <= usize::MAX,
            ids@.len() == i - 1,
            forall|j: int| 0 <= j < ids@.len() ==> ids@[j] == (INITIAL_WORKER_ID + 1 + j) as usize,
        decreases processes - i,
    {
        ids.push(INITIAL_WORKER_ID + i);
        i += 1;
    }
    proof {
        let want = spec_other_worker_ids(processes as nat);
        if processes <= 1 {
            assert(ids@.len() == 0);
        } else {
            assert(ids@.len() == want.len());
            assert forall|j: int| 0 <= j < ids@.len() implies ids@[j] == want[j] by {}
        }
        assert(ids@ =~= want);
    }
    ids
}

/// What looking at a process gave.
#[derive(Clone, Copy, Debug, PartialEq, Eq, Structural)]
pub enum ProcessStatus {
    /// The process has ended.
    Exited,
    /// The process runs.
    Running,
    /// The look itself failed.
    Unknown,
}

/// Says whether a process counts as running: it does unless it was seen
/// to have ended. A look that failed tells nothing, and is no reason to
/// give the process up.
pub fn is_alive(status: ProcessStatus) -> (r: bool)
    ensures
        r == (status != ProcessStatus::Exited),
{
    match status {
        ProcessStatus::Exited => false,
        ProcessStatus::Running => true,
        ProcessStatus::Unknown => true,
    }
}

/// Whether every one of some processes counts as running.
pub open spec fn spec_all_alive(statuses: Seq<ProcessStatus>) -> bool {
    forall|i: int| 0 <= i < statuses.len() ==> #[trigger] statuses[i] != ProcessStatus::Exited
}

/// Says whether every one of some processes counts as running.
pub fn are_alive(statuses: &[ProcessStatus]) -> (r: bool)
    ensures
        r == spec_all_alive(statuses@),
{
    let mut i: usize = 0;
    while i < statuses.len()
        invariant
            i <= statuses.len(),
            forall|j: int| 0 <= j < i ==> #[trigger] statuses@[j] != ProcessStatus::Exited,
        decreases statuses.len() - i,
    {
        if !is_alive(statuses[i]) {
            return false;
        }
        i += 1;
    }
    true
}

/// The position of the first failure among some outcomes.
pub open spec fn first_failure_from<E>(outcomes: Seq<Result<(), E>>, from: int) -> Option<int>
    decreases outcomes.len() - from,
{
    if from < 0 || from >= outcomes.len() {
        None
    } else if outcomes[from] is Err {
        Some(from)
    } else {
        first_failure_from(outcomes, from + 1)
    }
}

/// The outcome of ending several processes: that of the first that
/// failed to end, and success where all ended.
pub fn first_failure<E>(outcomes: Vec<Result<(), E>>) -> (r: Result<(), E>)
    ensures
        match first_failure_from(outcomes@, 0) {
            Some(i) => r == outcomes@[i],
            None => r is Ok,
        },
{
    let ghost all = outcomes@;
    let mut rest = outcomes;
    let mut i: usize = 0;
    while i < rest.len()
        invariant
            i <= rest.len(),
            rest@ == all,
            all == outcomes@,
            first_failure_from(all, 0) == first_failure_from(all, i as int),
        decreases rest.len() - i,
    {
        if rest[i].is_err() {
            return rest.swap_remove(i);
        }
        i += 1;
    }
    Ok(())
}

} // verus!
