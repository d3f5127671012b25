use gracekill::{ParseError, Signal};
use nix::sys::signal::Signal as NixSignal;

fn kill_signal() -> Signal {
    Signal::from_number(NixSignal::SIGKILL as i32).expect("SIGKILL is listed")
}

#[test]
fn it_parses_strings_with_basename() {
    let sig: Signal = "kiLL".parse().expect("Failed to parse");
    assert_eq!(sig, kill_signal());
}

#[test]
fn it_parses_strings_with_name() {
    let sig: Signal = "SiGkiLL".parse().expect("Failed to parse");
    assert_eq!(sig, kill_signal());
}

#[test]
fn it_parses_strings_with_signal_number() {
    let string = kill_signal().number().to_string();
    let sig: Signal = string.parse().expect("Failed to parse");
    assert_eq!(sig, kill_signal());
}

#[test]
fn it_does_not_parse_invalid_strings() {
    assert_eq!(
        "foobar".parse::<Signal>(),
        Err(ParseError::UnknownSignalName)
    );
    assert_eq!(
        "sigfoo".parse::<Signal>(),
        Err(ParseError::UnknownSignalName)
    );
    assert_eq!(
        "31337".parse::<Signal>(),
        Err(ParseError::UnknownSignalName)
    );
}

#[test]
fn it_roundtrips_all_signals_parsing() {
    for signal in Signal::iterator() {
        assert_eq!(signal.basename().parse(), Ok(signal));
        assert_eq!(signal.name().parse(), Ok(signal));
        assert_eq!(signal.number().to_string().parse(), Ok(signal));
    }
}

#[test]
fn kill_signal_names() {
    let sig = kill_signal();
    assert_eq!(sig.number(), 9);
    assert_eq!(sig.name(), "SIGKILL");
    assert_eq!(sig.basename(), "KILL");
}

#[test]
fn catalog_lists_term() {
    let all = Signal::iterator();
    assert!(!all.is_empty());
    assert!(all.iter().any(|s| s.name() == "SIGTERM" && s.number() == 15));
}

#[test]
fn numbers_with_sign_parse() {
    assert_eq!("+9".parse::<Signal>(), Ok(kill_signal()));
    assert_eq!("-9".parse::<Signal>(), Err(ParseError::UnknownSignalName));
    assert_eq!("".parse::<Signal>(), Err(ParseError::UnknownSignalName));
    assert_eq!("99999999999".parse::<Signal>(), Err(ParseError::UnknownSignalName));
}

#[test]
fn unknown_number_gives_none() {
    assert_eq!(Signal::from_number(0), None);
    assert_eq!(Signal::from_number(31337), None);
}

#[test]
fn parse_among_takes_the_first_match() {
    let catalog = vec![kill_signal(), kill_signal()];
    assert_eq!(Signal::parse_among(&catalog, "kill"), Ok(kill_signal()));
    assert_eq!(Signal::parse_among(&Vec::new(), "kill"), Err(ParseError::UnknownSignalName));
}
