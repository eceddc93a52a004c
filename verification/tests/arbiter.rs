use authentik::arbiter::{
    signal_action, Arbiter, ListenerCommand, Signal, SignalAction, Step, Tasks, Token,
    DEFAULT_GRACE_SECONDS,
};
use authentik::backend::{
    are_alive, first_failure, is_alive, other_worker_ids, BackendProcess, ProcessStatus,
    TerminationSignal, WatchAction, WatchEvent,
};

#[test]
fn fast_shutdown_fires_any_and_is_a_no_op_the_second_time() {
    let mut arbiter: Arbiter<&str> = Arbiter::new(DEFAULT_GRACE_SECONDS);
    arbiter.add_handle("http");
    arbiter.add_handle("https");
    assert!(!arbiter.fast_shutdown() && !arbiter.graceful_shutdown() && !arbiter.shutdown());

    let steps = arbiter.do_fast_shutdown();
    assert_eq!(
        steps,
        vec![
            Step::Fire(Token::Fast),
            Step::TellListeners(ListenerCommand::Stop),
            Step::Fire(Token::Any)
        ]
    );
    assert!(arbiter.fast_shutdown());
    assert!(arbiter.shutdown());
    assert!(!arbiter.graceful_shutdown());
    assert_eq!(arbiter.handles(), ["http", "https"]);

    assert_eq!(arbiter.do_fast_shutdown(), vec![]);
    assert!(arbiter.fast_shutdown() && arbiter.shutdown() && !arbiter.graceful_shutdown());
}

#[test]
fn graceful_shutdown_drains_listeners() {
    let mut arbiter: Arbiter<u8> = Arbiter::new(30);
    let steps = arbiter.do_graceful_shutdown();
    assert_eq!(
        steps,
        vec![
            Step::Fire(Token::Graceful),
            Step::TellListeners(ListenerCommand::Drain { grace_seconds: 30 }),
            Step::Fire(Token::Any)
        ]
    );
    assert!(arbiter.graceful_shutdown() && arbiter.shutdown() && !arbiter.fast_shutdown());
    assert_eq!(arbiter.do_graceful_shutdown(), vec![]);

    // A fast shutdown on top stops the listeners, and `any` is not fired again.
    assert_eq!(
        arbiter.do_fast_shutdown(),
        vec![Step::Fire(Token::Fast), Step::TellListeners(ListenerCommand::Stop)]
    );
    assert!(arbiter.graceful_shutdown() && arbiter.shutdown() && arbiter.fast_shutdown());
}

#[test]
fn graceful_after_fast_leaves_the_listeners_alone() {
    let mut arbiter: Arbiter<u8> = Arbiter::new(5);
    arbiter.do_fast_shutdown();
    assert_eq!(arbiter.do_graceful_shutdown(), vec![Step::Fire(Token::Graceful)]);
}

#[test]
fn signals_ask_for_what_they_mean() {
    assert_eq!(signal_action(Signal::Hangup), SignalAction::FastShutdown);
    assert_eq!(signal_action(Signal::Interrupt), SignalAction::FastShutdown);
    assert_eq!(signal_action(Signal::Quit), SignalAction::FastShutdown);
    assert_eq!(signal_action(Signal::Terminate), SignalAction::GracefulShutdown);
    assert_eq!(signal_action(Signal::User1), SignalAction::Broadcast(Signal::User1));
    assert_eq!(signal_action(Signal::User2), SignalAction::Broadcast(Signal::User2));

    let mut arbiter: Arbiter<u8> = Arbiter::new(30);
    assert_eq!(arbiter.on_signal(Signal::User1), (vec![], Some(Signal::User1)));
    assert!(!arbiter.shutdown());
    let (steps, handed_on) = arbiter.on_signal(Signal::Terminate);
    assert_eq!(steps.len(), 3);
    assert_eq!(handed_on, None);
    assert!(arbiter.graceful_shutdown());
    let (steps, _) = arbiter.on_signal(Signal::Interrupt);
    assert_eq!(steps.len(), 2);
    assert!(arbiter.fast_shutdown());
    assert_eq!(arbiter.on_signal(Signal::Quit), (vec![], None));
}

#[test]
fn first_task_to_end_brings_the_others_down() {
    let mut tasks: Tasks<u8, &str> = Tasks::new(30);
    tasks.arbiter_mut().add_handle(1);
    assert_eq!(tasks.arbiter().handles(), [1]);
    let steps = tasks.task_ended(Ok(()));
    assert_eq!(
        steps,
        vec![
            Step::Fire(Token::Graceful),
            Step::TellListeners(ListenerCommand::Drain { grace_seconds: 30 }),
            Step::Fire(Token::Any)
        ]
    );
    assert_eq!(tasks.task_ended(Err("late failure")), vec![]);
    assert_eq!(tasks.task_ended(Ok(())), vec![]);
    assert!(!tasks.arbiter().fast_shutdown());
    assert_eq!(tasks.run(), vec!["late failure"]);
}

#[test]
fn first_task_that_fails_escalates_to_a_fast_shutdown() {
    let mut tasks: Tasks<u8, String> = Tasks::new(10);
    let steps = tasks.task_ended(Err("bind failed".to_owned()));
    assert_eq!(
        steps,
        vec![
            Step::Fire(Token::Graceful),
            Step::TellListeners(ListenerCommand::Drain { grace_seconds: 10 }),
            Step::Fire(Token::Any),
            Step::Fire(Token::Fast),
            Step::TellListeners(ListenerCommand::Stop),
        ]
    );
    assert!(tasks.arbiter().fast_shutdown() && tasks.arbiter().shutdown());
    assert_eq!(tasks.task_ended(Err("second".to_owned())), vec![]);
    assert_eq!(tasks.run(), vec!["bind failed".to_owned(), "second".to_owned()]);

    let clean: Tasks<u8, String> = Tasks::new(10);
    assert!(clean.run().is_empty());
}

#[test]
fn backend_becomes_ready_once_and_stays_ready() {
    let mut backend = BackendProcess::new(Signal::User1);
    assert!(!backend.is_ready());
    assert_eq!(backend.on_event(WatchEvent::ProbeDue), WatchAction::Probe);
    assert_eq!(backend.on_event(WatchEvent::Probed(false)), WatchAction::Continue);
    assert_eq!(backend.on_event(WatchEvent::Signal(Signal::User2)), WatchAction::Continue);
    assert!(!backend.is_ready());
    assert_eq!(backend.on_event(WatchEvent::Signal(Signal::User1)), WatchAction::Ready);
    assert!(backend.is_ready());
    assert_eq!(backend.on_event(WatchEvent::Signal(Signal::User1)), WatchAction::Continue);
    assert_eq!(backend.on_event(WatchEvent::ProbeDue), WatchAction::Continue);
    assert_eq!(backend.on_event(WatchEvent::Probed(false)), WatchAction::Continue);
    assert_eq!(backend.on_event(WatchEvent::Probed(true)), WatchAction::Continue);
    assert_eq!(backend.on_event(WatchEvent::Checked(true)), WatchAction::Continue);
    assert!(backend.is_ready());
    assert_eq!(backend.on_event(WatchEvent::Checked(false)), WatchAction::Fail);
    assert!(backend.is_ready());

    let mut probed = BackendProcess::new(Signal::User2);
    assert_eq!(probed.on_event(WatchEvent::Probed(true)), WatchAction::Ready);
    assert!(probed.is_ready());
}

#[test]
fn backend_is_ended_by_the_signal_of_the_shutdown() {
    let mut backend = BackendProcess::new(Signal::User1);
    assert_eq!(
        backend.on_event(WatchEvent::GracefulShutdown),
        WatchAction::Stop(TerminationSignal::Terminate)
    );
    assert_eq!(
        backend.on_event(WatchEvent::FastShutdown),
        WatchAction::Stop(TerminationSignal::Interrupt)
    );
}

#[test]
fn other_workers_count_up_from_the_first() {
    assert_eq!(other_worker_ids(0), Vec::<usize>::new());
    assert_eq!(other_worker_ids(1), Vec::<usize>::new());
    assert_eq!(other_worker_ids(2), vec![1001]);
    assert_eq!(other_worker_ids(4), vec![1001, 1002, 1003]);
}

#[test]
fn process_counts_as_running_unless_it_was_seen_to_end() {
    assert!(is_alive(ProcessStatus::Running));
    assert!(is_alive(ProcessStatus::Unknown));
    assert!(!is_alive(ProcessStatus::Exited));
    assert!(are_alive(&[]));
    assert!(are_alive(&[ProcessStatus::Running, ProcessStatus::Unknown]));
    assert!(!are_alive(&[ProcessStatus::Running, ProcessStatus::Exited, ProcessStatus::Running]));
}

#[test]
fn ending_several_processes_reports_the_first_failure() {
    assert_eq!(first_failure::<&str>(vec![]), Ok(()));
    assert_eq!(first_failure::<&str>(vec![Ok(()), Ok(())]), Ok(()));
    assert_eq!(first_failure(vec![Ok(()), Err("second"), Err("third")]), Err("second"));
    assert_eq!(first_failure(vec![Err("first"), Ok(())]), Err("first"));
}
