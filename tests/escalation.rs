use gracekill::{Command, Escalation, EscalationPolicy, Event, KillError, Signal, Stage};
use nix::sys::signal::Signal as NixSignal;

fn signal(s: NixSignal) -> Signal {
    Signal::from_number(s as i32).expect("listed signal")
}

fn policy(wait_millis: Option<u64>, force_kill: bool, dry_run: bool) -> EscalationPolicy {
    EscalationPolicy {
        terminate_signal: signal(NixSignal::SIGTERM),
        kill_signal: signal(NixSignal::SIGKILL),
        wait_millis,
        force_kill,
        dry_run,
    }
}

#[test]
fn dry_run_reports_all_and_sends_nothing() {
    let p = policy(Some(5000), true, true);
    let mut run = Escalation::new(p, 3);
    match run.advance(Event::Begin) {
        Command::ReportDryRun { processes, signal: s } => {
            assert_eq!(processes, vec![0, 1, 2]);
            assert_eq!(s, signal(NixSignal::SIGTERM));
        }
        other => panic!("unexpected {:?}", other),
    }
    assert_eq!(run.stage(), Stage::Done);
    assert!(!run.expects(&Event::Sent { outcomes: vec![] }));
    assert!(!run.expects(&Event::Begin));
}

#[test]
fn without_wait_the_run_ends_after_terminating() {
    for wait in [None, Some(0)] {
        let mut run = Escalation::new(policy(wait, true, false), 2);
        match run.advance(Event::Begin) {
            Command::Send { processes, signal: s } => {
                assert_eq!(processes, vec![0, 1]);
                assert_eq!(s, signal(NixSignal::SIGTERM));
            }
            other => panic!("unexpected {:?}", other),
        }
        match run.advance(Event::Sent { outcomes: vec![Ok(()), Ok(())] }) {
            Command::Finish { success, still_alive } => {
                assert!(success);
                assert!(still_alive.is_empty());
            }
            other => panic!("unexpected {:?}", other),
        }
        assert_eq!(run.stage(), Stage::Done);
    }
}

#[test]
fn vanished_process_does_not_fail_the_run() {
    let mut run = Escalation::new(policy(Some(1000), true, false), 2);
    run.advance(Event::Begin);
    let next = run.advance(Event::Sent { outcomes: vec![Err(KillError::DoesNotExist), Ok(())] });
    assert!(matches!(next, Command::ReadClock));
    match run.advance(Event::Elapsed { millis: 0 }) {
        Command::Poll { processes } => assert_eq!(processes, vec![1]),
        other => panic!("unexpected {:?}", other),
    }
    match run.advance(Event::Alive { alive: vec![false] }) {
        Command::Finish { success, still_alive } => {
            assert!(success);
            assert!(still_alive.is_empty());
        }
        other => panic!("unexpected {:?}", other),
    }
}

#[test]
fn failed_send_fails_the_run_and_drops_the_process() {
    let mut run = Escalation::new(policy(Some(1000), true, false), 3);
    run.advance(Event::Begin);
    let outcomes = vec![
        Ok(()),
        Err(KillError::NoPermission),
        Err(KillError::UnexpectedError { message: String::from("errno 5") }),
    ];
    assert!(matches!(run.advance(Event::Sent { outcomes }), Command::ReadClock));
    match run.advance(Event::Elapsed { millis: 10 }) {
        Command::Poll { processes } => assert_eq!(processes, vec![0]),
        other => panic!("unexpected {:?}", other),
    }
    match run.advance(Event::Alive { alive: vec![false] }) {
        Command::Finish { success, .. } => assert!(!success),
        other => panic!("unexpected {:?}", other),
    }
}

#[test]
fn timeout_without_force_gives_up() {
    let mut run = Escalation::new(policy(Some(100), false, false), 2);
    run.advance(Event::Begin);
    run.advance(Event::Sent { outcomes: vec![Ok(()), Ok(())] });
    match run.advance(Event::Elapsed { millis: 50 }) {
        Command::Poll { processes } => assert_eq!(processes, vec![0, 1]),
        other => panic!("unexpected {:?}", other),
    }
    assert!(matches!(run.advance(Event::Alive { alive: vec![true, false] }), Command::ReadClock));
    match run.advance(Event::Elapsed { millis: 100 }) {
        Command::Finish { success, still_alive } => {
            assert!(!success);
            assert_eq!(still_alive, vec![0]);
        }
        other => panic!("unexpected {:?}", other),
    }
    assert_eq!(run.stage(), Stage::Done);
    assert!(!run.expects(&Event::Sent { outcomes: vec![Ok(())] }));
}

#[test]
fn timeout_with_force_sends_the_kill_signal() {
    let mut run = Escalation::new(policy(Some(100), true, false), 2);
    run.advance(Event::Begin);
    run.advance(Event::Sent { outcomes: vec![Ok(()), Ok(())] });
    match run.advance(Event::Elapsed { millis: 250 }) {
        Command::Send { processes, signal: s } => {
            assert_eq!(processes, vec![0, 1]);
            assert_eq!(s, signal(NixSignal::SIGKILL));
        }
        other => panic!("unexpected {:?}", other),
    }
    match run.advance(Event::Sent { outcomes: vec![Ok(()), Err(KillError::DoesNotExist)] }) {
        Command::Finish { success, still_alive } => {
            assert!(success);
            assert!(still_alive.is_empty());
        }
        other => panic!("unexpected {:?}", other),
    }
}

#[test]
fn kill_failure_fails_the_run() {
    let mut run = Escalation::new(policy(Some(100), true, false), 1);
    run.advance(Event::Begin);
    run.advance(Event::Sent { outcomes: vec![Ok(())] });
    run.advance(Event::Elapsed { millis: 100 });
    match run.advance(Event::Sent { outcomes: vec![Err(KillError::InvalidSignal)] }) {
        Command::Finish { success, .. } => assert!(!success),
        other => panic!("unexpected {:?}", other),
    }
}

#[test]
fn no_processes_finishes_at_once() {
    let mut run = Escalation::new(policy(Some(100), true, false), 0);
    match run.advance(Event::Begin) {
        Command::Send { processes, .. } => assert!(processes.is_empty()),
        other => panic!("unexpected {:?}", other),
    }
    match run.advance(Event::Sent { outcomes: vec![] }) {
        Command::Finish { success, .. } => assert!(success),
        other => panic!("unexpected {:?}", other),
    }
}

#[test]
fn unexpected_events_are_refused() {
    let run = Escalation::new(policy(Some(100), true, false), 2);
    assert!(run.expects(&Event::Begin));
    assert!(!run.expects(&Event::Elapsed { millis: 0 }));
    assert!(!run.expects(&Event::Alive { alive: vec![true, true] }));
}
