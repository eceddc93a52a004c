//! How long-running tasks such as servers and watchers are brought down,
//! and what the signals sent to the process mean.
//!
//! There are three shutdown signals: `fast`, `graceful`, and `any`, which
//! stands for either. Each fires once and stays fired. The arbiter does not
//! wake the waiters or stop the listeners itself: it says, step by step and
//! in order, what its caller has to do.

use vstd::prelude::*;

verus! {

/// The time that listeners are given to finish their connections when no
/// other is set.
pub const DEFAULT_GRACE_SECONDS: u64 = 30;

/// A signal sent to the process.
#[derive(Clone, Copy, Debug, PartialEq, Eq, Structural)]
pub enum Signal {
    Hangup,
    Interrupt,
    Quit,
    User1,
    User2,
    Terminate,
}

/// What a signal asks for.
#[derive(Clone, Copy, Debug, PartialEq, Eq, Structural)]
pub enum SignalAction {
    FastShutdown,
    GracefulShutdown,
    /// Hand the signal on to whoever subscribed to signals.
    Broadcast(Signal),
}

/// One of the three shutdown signals.
#[derive(Clone, Copy, Debug, PartialEq, Eq, Structural)]
pub enum Token {
    Fast,
    Graceful,
    Any,
}

/// What the listeners are told.
#[derive(Clone, Copy, Debug, PartialEq, Eq, Structural)]
pub enum ListenerCommand {
    /// Stop now.
    Stop,
    /// Take no new connection, and give those that are open this long.
    Drain { grace_seconds: u64 },
}

/// One thing for the caller to do.
#[derive(Clone, Copy, Debug, PartialEq, Eq, Structural)]
pub enum Step {
    /// Wake the waiters on the signal.
    Fire(Token),
    /// Give the command to every registered listener.
    TellListeners(ListenerCommand),
}

/// Which of the shutdown signals have fired.
#[derive(Clone, Copy, Debug, PartialEq, Eq, Structural)]
pub struct ShutdownState {
    pub fast: bool,
    pub graceful: bool,
    pub any: bool,
}

impl ShutdownState {
    /// `any` has fired if `fast` or `graceful` has.
    pub open spec fn wf(&self) -> bool {
        (self.fast || self.graceful) ==> self.any
    }

    /// Whether every signal that has fired in `self` has fired in `later`.
    pub open spec fn stays_fired(&self, later: ShutdownState) -> bool {
        (self.fast ==> later.fast) && (self.graceful ==> later.graceful) && (self.any ==> later.any)
    }
}

/// What a signal sent to the process asks for: hang-up, interrupt and
/// quit a fast shutdown, terminate a graceful one; the two user signals
/// are handed on.
pub open spec fn spec_signal_action(signal: Signal) -> SignalAction {
    match signal {
        Signal::Hangup | Signal::Interrupt | Signal::Quit => SignalAction::FastShutdown,
        Signal::Terminate => SignalAction::GracefulShutdown,
        Signal::User1 | Signal::User2 => SignalAction::Broadcast(signal),
    }
}

/// Says what a signal sent to the process asks for.
pub fn signal_action(signal: Signal) -> (r: SignalAction)
    ensures
        r == spec_signal_action(signal),
{
    match signal {
        Signal::Hangup => SignalAction::FastShutdown,
        Signal::Interrupt => SignalAction::FastShutdown,
        Signal::Quit => SignalAction::FastShutdown,
        Signal::Terminate => SignalAction::GracefulShutdown,
        Signal::User1 => SignalAction::Broadcast(signal),
        Signal::User2 => SignalAction::Broadcast(signal),
    }
}

/// `any`, unless it has fired.
pub open spec fn fire_any(state: ShutdownState) -> Seq<Step> {
    if state.any {
        Seq::empty()
    } else {
        seq![Step::Fire(Token::Any)]
    }
}

/// What a fast shutdown does to the state, and has the caller do: fire
/// `fast`, stop the listeners, fire `any`. Once `fast` has fired, nothing.
pub open spec fn spec_fast_shutdown(state: ShutdownState) -> (ShutdownState, Seq<Step>) {
    if state.fast {
        (state, Seq::empty())
    } else {
        (
            ShutdownState { fast: true, any: true, ..state },
            seq![Step::Fire(Token::Fast), Step::TellListeners(ListenerCommand::Stop)] + fire_any(
                state,
            ),
        )
    }
}

/// What a graceful shutdown does to the state, and has the caller do:
/// fire `graceful`, have the listeners drain unless a fast shutdown has
/// stopped them, fire `any`. Once `graceful` has fired, nothing.
pub open spec fn spec_graceful_shutdown(state: ShutdownState, grace_seconds: u64) -> (
    ShutdownState,
    Seq<Step>,
) {
    if state.graceful {
        (state, Seq::empty())
    } else {
        (
            ShutdownState { graceful: true, any: true, ..state },
            seq![Step::Fire(Token::Graceful)] + (if state.fast {
                Seq::<Step>::empty()
            } else {
                seq![Step::TellListeners(ListenerCommand::Drain { grace_seconds })]
            }) + fire_any(state),
        )
    }
}

/// The shutdown signals, and the handles of the listeners that a shutdown
/// has to reach.
pub struct Arbiter<H> {
    state: ShutdownState,
    handles: Vec<H>,
    grace_seconds: u64,
}

impl<H> Arbiter<H> {
    /// Which signals have fired.
    pub closed spec fn state(&self) -> ShutdownState {
        self.state
    }

    /// The handles that were registered, oldest first.
    pub closed spec fn registered(&self) -> Seq<H> {
        self.handles@
    }

    /// The time that listeners are given to drain.
    pub closed spec fn grace(&self) -> u64 {
        self.grace_seconds
    }

    /// `any` has fired if another signal has.
    pub open spec fn wf(&self) -> bool {
        self.state().wf()
    }

    /// An arbiter with no listener, of which no signal has fired.
    pub fn new(grace_seconds: u64) -> (r: Self)
        ensures
            r.wf(),
            r.state() == (ShutdownState { fast: false, graceful: false, any: false }),
            r.registered().len() == 0,
            r.grace() == grace_seconds,
    {
        Arbiter {
            state: ShutdownState { fast: false, graceful: false, any: false },
            handles: Vec::new(),
            grace_seconds,
        }
    }

    /// Registers the handle of a listener that has started. Handles are
    /// never taken out again.
    pub fn add_handle(&mut self, handle: H)
        ensures
            final(self).registered() == old(self).registered().push(handle),
            final(self).state() == old(self).state(),
            final(self).grace() == old(self).grace(),
    {
        self.handles.push(handle);
    }

    /// The handles of the listeners, for the caller to carry out a
    /// `Step::TellListeners`.
    pub fn handles(&self) -> (r: &[H])
        ensures
            r@ == self.registered(),
    {
        self.handles.as_slice()
    }

    /// Whether the application has to shut down immediately.
    pub fn fast_shutdown(&self) -> (r: bool)
        ensures
            r == self.state().fast,
    {
        self.state.fast
    }

    /// Whether the application has to shut down gracefully.
    pub fn graceful_shutdown(&self) -> (r: bool)
        ensures
            r == self.state().graceful,
    {
        self.state.graceful
    }

    /// Whether the application has to shut down, in either way.
    pub fn shutdown(&self) -> (r: bool)
        ensures
            r == self.state().any,
    {
        self.state.any
    }

    fn any_step(&self, steps: &mut Vec<Step>)
        ensures
            final(steps)@ == old(steps)@ + fire_any(self.state()),
    {
        if !self.state.any {
            steps.push(Step::Fire(Token::Any));
            assert(final(steps)@ =~= old(steps)@ + fire_any(self.state()));
        } else {
            assert(final(steps)@ =~= old(steps)@ + fire_any(self.state()));
        }
    }

    /// Shuts the application down immediately. The result lists what the
    /// caller has to do, in order; a second call changes nothing and
    /// lists nothing.
    pub fn do_fast_shutdown(&mut self) -> (steps: Vec<Step>)
        requires
            old(self).wf(),
        ensures
            (final(self).state(), steps@) == spec_fast_shutdown(old(self).state()),
            final(self).wf(),
            final(self).state().fast && final(self).state().any,
            old(self).state().stays_fired(final(self).state()),
            final(self).registered() == old(self).registered(),
            final(self).grace() == old(self).grace(),
    {
        let mut steps: Vec<Step> = Vec::new();
        if self.state.fast {
            return steps;
        }
        steps.push(Step::Fire(Token::Fast));
        steps.push(Step::TellListeners(ListenerCommand::Stop));
        self.any_step(&mut steps);
        self.state.fast = true;
        self.state.any = true;
        steps
    }

    /// Shuts the application down gracefully. The result lists what the
    /// caller has to do, in order; a second call changes nothing and
    /// lists nothing.
    pub fn do_graceful_shutdown(&mut self) -> (steps: Vec<Step>)
        requires
            old(self).wf(),
        ensures
            (final(self).state(), steps@) == spec_graceful_shutdown(
                old(self).state(),
                old(self).grace(),
            ),
            final(self).wf(),
            final(self).state().graceful && final(self).state().any,
            old(self).state().stays_fired(final(self).state()),
            final(self).registered() == old(self).registered(),
            final(self).grace() == old(self).grace(),
    {
        let mut steps: Vec<Step> = Vec::new();
        if self.state.graceful {
            return steps;
        }
        steps.push(Step::Fire(Token::Graceful));
        if !self.state.fast {
            steps.push(
                Step::TellListeners(ListenerCommand::Drain { grace_seconds: self.grace_seconds }),
            );
        }
        self.any_step(&mut steps);
        self.state.graceful = true;
        self.state.any = true;
        steps
    }

    /// Does what a signal sent to the process asks for. A signal that
    /// asks for no shutdown comes back, to be handed on to whoever
    /// subscribed.
    pub fn on_signal(&mut self, signal: Signal) -> (r: (Vec<Step>, Option<Signal>))
        requires
            old(self).wf(),
        ensures
            final(self).wf(),
            old(self).state().stays_fired(final(self).state()),
            final(self).registered() == old(self).registered(),
            final(self).grace() == old(self).grace(),
            match spec_signal_action(signal) {
                SignalAction::FastShutdown => (final(self).state(), r.0@) == spec_fast_shutdown(
                    old(self).state(),
                ) && r.1 is None,
                SignalAction::GracefulShutdown => (final(self).state(), r.0@)
                    == spec_graceful_shutdown(old(self).state(), old(self).grace()) && r.1 is None,
                SignalAction::Broadcast(s) => final(self).state() == old(self).state() && r.0@.len()
                    == 0 && r.1 == Some(s),
            },
    {
        match signal_action(signal) {
            SignalAction::FastShutdown => (self.do_fast_shutdown(), None),
            SignalAction::GracefulShutdown => (self.do_graceful_shutdown(), None),
            SignalAction::Broadcast(s) => (Vec::new(), Some(s)),
        }
    }
}

/// The tasks of the application and how they ended.
pub struct Tasks<H, E> {
    arbiter: Arbiter<H>,
    errors: Vec<E>,
    ended: bool,
}

/// What the end of a task does to the shutdown state, and has the caller
/// do. The first task to end brings on a graceful shutdown of all others,
/// and a fast one on top where it failed. Later ends bring on nothing.
pub open spec fn spec_task_ended(
    state: ShutdownState,
    grace_seconds: u64,
    first: bool,
    failed: bool,
) -> (ShutdownState, Seq<Step>) {
    if !first {
        (state, Seq::empty())
    } else {
        let (drained, steps) = spec_graceful_shutdown(state, grace_seconds);
        if failed {
            let (stopped, more) = spec_fast_shutdown(drained);
            (stopped, steps + more)
        } else {
            (drained, steps)
        }
    }
}

impl<H, E> Tasks<H, E> {
    /// The arbiter of the tasks.
    pub closed spec fn spec_arbiter(&self) -> Arbiter<H> {
        self.arbiter
    }

    /// The errors that tasks ended with, oldest first.
    pub closed spec fn errors(&self) -> Seq<E> {
        self.errors@
    }

    /// Whether a task has ended.
    pub closed spec fn ended(&self) -> bool {
        self.ended
    }

    /// The arbiter is well formed, and a task has ended only if a
    /// shutdown is on.
    pub open spec fn wf(&self) -> bool {
        self.spec_arbiter().wf() && (self.ended() ==> self.spec_arbiter().state().graceful)
    }

    /// No task yet, and an arbiter of which no signal has fired.
    pub fn new(grace_seconds: u64) -> (r: Self)
        ensures
            r.wf(),
            r.errors().len() == 0,
            !r.ended(),
            r.spec_arbiter().state() == (ShutdownState {
                fast: false,
                graceful: false,
                any: false,
            }),
            r.spec_arbiter().registered().len() == 0,
            r.spec_arbiter().grace() == grace_seconds,
    {
        Tasks { arbiter: Arbiter::new(grace_seconds), errors: Vec::new(), ended: false }
    }

    /// The arbiter, to ask.
    pub fn arbiter(&self) -> (r: &Arbiter<H>)
        ensures
            *r == self.spec_arbiter(),
    {
        &self.arbiter
    }

    /// The arbiter, to register listeners with and to hand signals to.
    pub fn arbiter_mut(&mut self) -> (r: &mut Arbiter<H>)
        ensures
            *r == old(self).spec_arbiter(),
            final(self).spec_arbiter() == *final(r),
            final(self).errors() == old(self).errors(),
            final(self).ended() == old(self).ended(),
    {
        &mut self.arbiter
    }

    /// Takes note that a task has ended, with the error it ended with if
    /// it failed, and lists what the caller has to do about it.
    pub fn task_ended(&mut self, outcome: Result<(), E>) -> (steps: Vec<Step>)
        requires
            old(self).wf(),
        ensures
            final(self).wf(),
            final(self).ended(),
            final(self).errors() == match outcome {
                Ok(_) => old(self).errors(),
                Err(e) => old(self).errors().push(e),
            },
            (final(self).spec_arbiter().state(), steps@) == spec_task_ended(
                old(self).spec_arbiter().state(),
                old(self).spec_arbiter().grace(),
                !old(self).ended(),
                outcome is Err,
            ),
            final(self).spec_arbiter().registered() == old(self).spec_arbiter().registered(),
            final(self).spec_arbiter().grace() == old(self).spec_arbiter().grace(),
            final(self).spec_arbiter().state().any,
    {
        let first = !self.ended;
        self.ended = true;
        let mut steps: Vec<Step> = Vec::new();
        if first {
            steps = self.arbiter.do_graceful_shutdown();
        }
        match outcome {
            Ok(_) => {},
            Err(e) => {
                if first {
                    let mut more = self.arbiter.do_fast_shutdown();
                    steps.append(&mut more);
                }
                self.errors.push(e);
            },
        }
        steps
    }

    /// Ends the run: the errors that tasks ended with. None means a
    /// clean exit.
    pub fn run(self) -> (r: Vec<E>)
        ensures
            r@ == self.errors(),
    {
        self.errors
    }
}

/// A fast shutdown fires `any` with `fast`, and a second one is a no-op.
pub proof fn lemma_fast_shutdown_once(state: ShutdownState)
    requires
        state.wf(),
    ensures
        spec_fast_shutdown(state).0.fast,
        spec_fast_shutdown(state).0.any,
        spec_fast_shutdown(state).0.wf(),
        spec_fast_shutdown(spec_fast_shutdown(state).0) == (
            spec_fast_shutdown(state).0,
            Seq::<Step>::empty(),
        ),
        !state.any ==> spec_fast_shutdown(state).1.last() == Step::Fire(Token::Any),
{
}

/// A graceful shutdown fires `any` with `graceful`, and a second one is a
/// no-op.
pub proof fn lemma_graceful_shutdown_once(state: ShutdownState, grace_seconds: u64)
    requires
        state.wf(),
    ensures
        spec_graceful_shutdown(state, grace_seconds).0.graceful,
        spec_graceful_shutdown(state, grace_seconds).0.any,
        spec_graceful_shutdown(state, grace_seconds).0.wf(),
        spec_graceful_shutdown(spec_graceful_shutdown(state, grace_seconds).0, grace_seconds) == (
            spec_graceful_shutdown(state, grace_seconds).0,
            Seq::<Step>::empty(),
        ),
{
}

} // verus!
