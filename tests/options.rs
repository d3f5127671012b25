use gracekill::{
    human_process_description, Colors, KillError, MatchMode, Options, OutputMode, Process, Signal,
    UserError, UserMode,
};
use nix::sys::signal::Signal as NixSignal;

fn options(match_mode: MatchMode, colors: bool) -> Options {
    Options {
        dry_run: false,
        kill: true,
        kill_signal: Signal::from_number(NixSignal::SIGKILL as i32).unwrap(),
        match_mode,
        output_mode: OutputMode::Normal,
        terminate_signal: Signal::from_number(NixSignal::SIGTERM as i32).unwrap(),
        colors: Colors::new(colors),
        user_mode: UserMode::Everybody,
        wait_millis: Some(5000),
    }
}

#[test]
fn output_mode_levels() {
    assert!(OutputMode::Normal.is_normal());
    assert!(OutputMode::Verbose.is_normal());
    assert!(!OutputMode::Quiet.is_normal());
    assert!(OutputMode::Verbose.is_verbose());
    assert!(!OutputMode::Normal.is_verbose());
    assert!(!OutputMode::Quiet.is_verbose());
}

#[test]
fn output_mode_from_flags() {
    assert_eq!(OutputMode::from_flags(true, false, true), OutputMode::Verbose);
    assert_eq!(OutputMode::from_flags(false, false, false), OutputMode::Normal);
    assert_eq!(OutputMode::from_flags(false, true, false), OutputMode::Verbose);
    assert_eq!(OutputMode::from_flags(false, false, true), OutputMode::Quiet);
}

#[test]
fn user_mode_from_flags() {
    assert_eq!(UserMode::from_flags(Some(String::from("bob")), false), UserMode::Only(String::from("bob")));
    assert_eq!(UserMode::from_flags(None, true), UserMode::OnlyMe);
    assert_eq!(UserMode::from_flags(None, false), UserMode::Everybody);
    assert_eq!(MatchMode::from_flag(true), MatchMode::Commandline);
    assert_eq!(MatchMode::from_flag(false), MatchMode::Basename);
}

#[test]
fn colors_when_enabled() {
    let c = Colors::new(true);
    // termion writes no foreground color when NO_COLOR is set.
    let colored = !c.red().is_empty();
    let expect = |code: &'static str| if colored { code } else { "" };
    assert_eq!(c.red(), expect("\x1b[38;5;1m"));
    assert_eq!(c.yellow(), expect("\x1b[38;5;3m"));
    assert_eq!(c.green(), expect("\x1b[38;5;2m"));
    assert_eq!(c.faded(), "\x1b[2m");
    assert_eq!(c.reset(), "\x1b[39m\x1b[m");
}

#[test]
fn no_colors_when_disabled() {
    let c = Colors::new(false);
    assert_eq!(c.red(), "");
    assert_eq!(c.yellow(), "");
    assert_eq!(c.green(), "");
    assert_eq!(c.faded(), "");
    assert_eq!(c.reset(), "");
}

#[test]
fn describes_processes() {
    let p = Process::new(4242, 0, String::from("foo"), String::from("foo --bar"));
    assert_eq!(human_process_description(&options(MatchMode::Basename, false), &p), "4242 (foo)");
    assert_eq!(
        human_process_description(&options(MatchMode::Commandline, false), &p),
        "4242 (foo): foo --bar"
    );
    let green = Colors::new(true).green();
    assert!(green == "\x1b[38;5;2m" || green.is_empty());
    assert_eq!(
        human_process_description(&options(MatchMode::Basename, true), &p),
        format!("{green}4242\x1b[39m\x1b[m ({green}foo\x1b[39m\x1b[m)")
    );
    let q = Process::new(7, 0, String::from("x"), String::new());
    assert_eq!(human_process_description(&options(MatchMode::Basename, false), &q), "7 (x)");
}

#[test]
fn policy_follows_options() {
    let o = options(MatchMode::Basename, false);
    let p = o.policy();
    assert_eq!(p.wait_millis, Some(5000));
    assert!(p.force_kill);
    assert!(!p.dry_run);
    assert_eq!(p.kill_signal.name(), "SIGKILL");
}

#[test]
fn error_messages() {
    assert_eq!(
        UserError::NotFound(String::from("nobody2")).message(),
        "Could not find user with name \"nobody2\""
    );
    assert_eq!(KillError::InvalidSignal.message(), "Invalid signal");
    assert_eq!(
        KillError::NoPermission.message(),
        "Insufficient permission to send signal to this process"
    );
    assert_eq!(KillError::DoesNotExist.message(), "Cannot find process");
    assert_eq!(
        KillError::UnexpectedError { message: String::from("errno 5") }.message(),
        "Unexpected error: errno 5"
    );
}
