use gracekill::{has_numeric_name, send_result, KillError, Process, Signal, SignalFailure};
use nix::sys::signal::Signal as NixSignal;

#[test]
fn numeric_names() {
    assert!(has_numeric_name("1234"));
    assert!(has_numeric_name(""));
    assert!(!has_numeric_name("12a"));
    assert!(!has_numeric_name("self"));
}

#[test]
fn entry_becomes_a_process() {
    let p = Process::from_entry("42", String::from("bash"), "/bin/bash\0-l\0", 1000).expect("valid entry");
    assert_eq!(p.pid(), 42);
    assert_eq!(p.user_id(), 1000);
    assert_eq!(p.name(), "bash");
    assert_eq!(p.commandline(), "/bin/bash -l");
}

#[test]
fn entries_that_are_not_pids_are_skipped() {
    assert!(Process::from_entry("self", String::from("x"), "", 0).is_none());
    assert!(Process::from_entry("0", String::from("x"), "", 0).is_none());
    assert!(Process::from_entry("", String::from("x"), "", 0).is_none());
    assert!(Process::from_entry("+5", String::from("x"), "", 0).is_none());
    assert!(Process::from_entry("99999999999", String::from("x"), "", 0).is_none());
}

#[test]
fn signalling_a_missing_process() {
    let term = Signal::from_number(NixSignal::SIGTERM as i32).expect("SIGTERM is listed");
    let p = Process::new(i32::MAX, 0, String::from("ghost"), String::new());
    assert_eq!(p.send(term), Err(KillError::DoesNotExist));
}

#[test]
fn send_outcomes_map_to_errors() {
    assert_eq!(send_result(Ok(())), Ok(()));
    assert_eq!(send_result(Err(SignalFailure::InvalidArgument)), Err(KillError::InvalidSignal));
    assert_eq!(send_result(Err(SignalFailure::PermissionDenied)), Err(KillError::NoPermission));
    assert_eq!(send_result(Err(SignalFailure::NoSuchProcess)), Err(KillError::DoesNotExist));
    assert_eq!(
        send_result(Err(SignalFailure::Other { errno: nix::errno::Errno::EIO as i32 })),
        Err(KillError::UnexpectedError { message: String::from("errno EIO: I/O error") })
    );
}
