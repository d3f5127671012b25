use vstd::prelude::*;

use crate::escalation::EscalationPolicy;
use crate::matcher::MatchMode;
use crate::process::{KillError, Process};
use crate::signal::Signal;
use crate::text::{integer_text, push_integer};

verus! {

/// How much the tool reports.
#[derive(Debug, Clone, Copy, PartialEq, Eq, Structural)]
pub enum OutputMode {
    Normal,
    Verbose,
    Quiet,
}

/// Whose processes are considered.
#[derive(Debug, PartialEq, Eq)]
pub enum UserMode {
    Everybody,
    OnlyMe,
    Only(String),
}

/// A user name that names no user.
#[derive(Debug, PartialEq, Eq)]
pub enum UserError {
    NotFound(String),
}

/// Whether output is decorated with terminal colors.
#[derive(Debug, Clone, Copy, PartialEq, Eq, Structural)]
pub struct Colors {
    enabled: bool,
}

/// Everything a run is told to do.
#[derive(Debug)]
pub struct Options {
    pub dry_run: bool,
    pub kill: bool,
    pub kill_signal: Signal,
    pub match_mode: MatchMode,
    pub output_mode: OutputMode,
    pub terminate_signal: Signal,
    pub colors: Colors,
    pub user_mode: UserMode,
    /// How long to wait for processes to exit; `None` means not to wait.
    pub wait_millis: Option<u64>,
}

impl OutputMode {
    /// Whether ordinary messages are shown.
    pub fn is_normal(self) -> (r: bool)
        ensures
            r == (self != OutputMode::Quiet),
    {
        match self {
            OutputMode::Verbose | OutputMode::Normal => true,
            OutputMode::Quiet => false,
        }
    }

    /// Whether detailed messages are shown.
    pub fn is_verbose(self) -> (r: bool)
        ensures
            r == (self == OutputMode::Verbose),
    {
        match self {
            OutputMode::Verbose => true,
            OutputMode::Normal | OutputMode::Quiet => false,
        }
    }

    /// The mode that the command-line flags ask for; a dry run is always
    /// verbose. Asking for both verbose and quiet output is contradictory
    /// unless the run is dry.
    pub fn from_flags(dry_run: bool, verbose: bool, quiet: bool) -> (r: OutputMode)
        requires
            dry_run || !(verbose && quiet),
        ensures
            r == (if dry_run || verbose {
                OutputMode::Verbose
            } else if quiet {
                OutputMode::Quiet
            } else {
                OutputMode::Normal
            }),
    {
        if dry_run || verbose {
            OutputMode::Verbose
        } else if quiet {
            OutputMode::Quiet
        } else {
            OutputMode::Normal
        }
    }
}

impl UserMode {
    /// The scope that the command-line flags ask for: a named user, the
    /// caller, or everybody. A user name and `mine` exclude each other.
    pub fn from_flags(user: Option<String>, mine: bool) -> (r: UserMode)
        requires
            !(user is Some && mine),
        ensures
            match user {
                Some(name) => r == UserMode::Only(name),
                None => r == if mine {
                    UserMode::OnlyMe
                } else {
                    UserMode::Everybody
                },
            },
    {
        match user {
            Some(name) => UserMode::Only(name),
            None => if mine {
                UserMode::OnlyMe
            } else {
                UserMode::Everybody
            },
        }
    }
}

impl MatchMode {
    /// Whole command lines when `whole` holds, base names otherwise.
    pub fn from_flag(whole: bool) -> (r: MatchMode)
        ensures
            r == (if whole {
                MatchMode::Commandline
            } else {
                MatchMode::Basename
            }),
    {
        if whole {
            MatchMode::Commandline
        } else {
            MatchMode::Basename
        }
    }
}

impl UserError {
    /// A sentence that describes the error.
    pub fn message(&self) -> (r: String)
        ensures
            match self {
                UserError::NotFound(name) => r@ == "Could not find user with name \""@ + name@ + "\""@,
            },
    {
        match self {
            UserError::NotFound(name) => {
                let mut r = String::from_str("Could not find user with name \"");
                r.append(name.as_str());
                r.append("\"");
                r
            },
        }
    }
}

impl KillError {
    /// A sentence that describes the error.
    pub fn message(&self) -> (r: String)
        ensures
            r@ == match self {
                KillError::InvalidSignal => "Invalid signal"@,
                KillError::NoPermission => "Insufficient permission to send signal to this process"@,
                KillError::DoesNotExist => "Cannot find process"@,
                KillError::UnexpectedError { message } => "Unexpected error: "@ + message@,
            },
    {
        match self {
            KillError::InvalidSignal => String::from_str("Invalid signal"),
            KillError::NoPermission => String::from_str("Insufficient permission to send signal to this process"),
            KillError::DoesNotExist => String::from_str("Cannot find process"),
            KillError::UnexpectedError { message } => {
                let mut r = String::from_str("Unexpected error: ");
                r.append(message.as_str());
                r
            },
        }
    }
}

pub open spec fn red_code() -> Seq<char> {
    "\x1b[38;5;1m"@
}

pub open spec fn yellow_code() -> Seq<char> {
    "\x1b[38;5;3m"@
}

pub open spec fn green_code() -> Seq<char> {
    "\x1b[38;5;2m"@
}

pub open spec fn faint_code() -> Seq<char> {
    "\x1b[2m"@
}

/// Resets the foreground color, then every text attribute.
pub open spec fn reset_code() -> Seq<char> {
    "\x1b[39m"@ + "\x1b[m"@
}

/// Relies on termion's `Fg(Red)`, which displays as `ESC [38;5;1m`, or as
/// nothing when the `NO_COLOR` environment variable is set and not empty.
#[verifier::external_body]
fn termion_red() -> (r: String)
    ensures
        r@ == red_code() || r@.len() == 0,
{
    termion::color::Fg(termion::color::Red).to_string()
}

/// Relies on termion's `Fg(Yellow)`, which displays as `ESC [38;5;3m`, or as
/// nothing when the `NO_COLOR` environment variable is set and not empty.
#[verifier::external_body]
fn termion_yellow() -> (r: String)
    ensures
        r@ == yellow_code() || r@.len() == 0,
{
    termion::color::Fg(termion::color::Yellow).to_string()
}

/// Relies on termion's `Fg(Green)`, which displays as `ESC [38;5;2m`, or as
/// nothing when the `NO_COLOR` environment variable is set and not empty.
#[verifier::external_body]
fn termion_green() -> (r: String)
    ensures
        r@ == green_code() || r@.len() == 0,
{
    termion::color::Fg(termion::color::Green).to_string()
}

/// Relies on termion's `style::Faint`, which displays as `ESC [2m`.
#[verifier::external_body]
fn termion_faint() -> (r: String)
    ensures
        r@ == faint_code(),
{
    termion::style::Faint.to_string()
}

/// Relies on termion's `Fg(Reset)`, which displays as `ESC [39m`.
#[verifier::external_body]
fn termion_reset_color() -> (r: String)
    ensures
        r@ == "\x1b[39m"@,
{
    termion::color::Fg(termion::color::Reset).to_string()
}

/// Relies on termion's `style::Reset`, which displays as `ESC [m`.
#[verifier::external_body]
fn termion_reset_style() -> (r: String)
    ensures
        r@ == "\x1b[m"@,
{
    termion::style::Reset.to_string()
}

impl Colors {
    pub closed spec fn spec_enabled(&self) -> bool {
        self.enabled
    }

    pub fn new(enabled: bool) -> (r: Colors)
        ensures
            r.spec_enabled() == enabled,
    {
        Colors { enabled }
    }

    /// Whether colors are shown.
    pub fn enabled(&self) -> (r: bool)
        ensures
            r == self.spec_enabled(),
    {
        self.enabled
    }

    /// `code` when colors are shown, else nothing.
    pub open spec fn shown(&self, code: Seq<char>) -> Seq<char> {
        if self.spec_enabled() {
            code
        } else {
            Seq::empty()
        }
    }

    /// Ends any color or style.
    pub fn reset(&self) -> (r: String)
        ensures
            r@ == self.shown(reset_code()),
    {
        if self.enabled {
            let mut r = termion_reset_color();
            let style = termion_reset_style();
            r.append(style.as_str());
            r
        } else {
            String::new()
        }
    }

    /// The red foreground color; termion leaves it out when the
    /// environment asks for no color.
    pub fn red(&self) -> (r: String)
        ensures
            !self.spec_enabled() ==> r@.len() == 0,
            self.spec_enabled() ==> (r@ == red_code() || r@.len() == 0),
    {
        if self.enabled {
            termion_red()
        } else {
            String::new()
        }
    }

    /// The yellow foreground color; termion leaves it out when the
    /// environment asks for no color.
    pub fn yellow(&self) -> (r: String)
        ensures
            !self.spec_enabled() ==> r@.len() == 0,
            self.spec_enabled() ==> (r@ == yellow_code() || r@.len() == 0),
    {
        if self.enabled {
            termion_yellow()
        } else {
            String::new()
        }
    }

    /// The green foreground color; termion leaves it out when the
    /// environment asks for no color.
    pub fn green(&self) -> (r: String)
        ensures
            !self.spec_enabled() ==> r@.len() == 0,
            self.spec_enabled() ==> (r@ == green_code() || r@.len() == 0),
    {
        if self.enabled {
            termion_green()
        } else {
            String::new()
        }
    }

    pub fn faded(&self) -> (r: String)
        ensures
            r@ == self.shown(faint_code()),
    {
        if self.enabled {
            termion_faint()
        } else {
            String::new()
        }
    }
}

impl Options {
    /// The escalation policy that these options describe: force-kill unless
    /// told not to, and no wait when the wait is absent.
    pub fn policy(&self) -> (r: EscalationPolicy)
        ensures
            r.terminate_signal == self.terminate_signal,
            r.kill_signal == self.kill_signal,
            r.wait_millis == self.wait_millis,
            r.force_kill == self.kill,
            r.dry_run == self.dry_run,
    {
        EscalationPolicy {
            terminate_signal: self.terminate_signal,
            kill_signal: self.kill_signal,
            wait_millis: self.wait_millis,
            force_kill: self.kill,
            dry_run: self.dry_run,
        }
    }
}

/// How a process is shown to the user: its id and name, and with whole
/// command-line matching also its command line, decorated with colors.
/// `green_shown` says whether the green color code is written; without it
/// the id and name stand undecorated before their resets.
pub open spec fn process_description(mode: MatchMode, colors: Colors, process: &Process, green_shown: bool) -> Seq<
    char,
> {
    let green = if green_shown {
        colors.shown(green_code())
    } else {
        Seq::empty()
    };
    let reset = colors.shown(reset_code());
    let head = green + integer_text(process.spec_pid() as int) + reset + " ("@ + green + process.spec_name() + reset;
    match mode {
        MatchMode::Basename => head + ")"@,
        MatchMode::Commandline => head + "): "@ + colors.shown(faint_code()) + process.spec_commandline() + reset,
    }
}

/// Describes `process` for messages, as the options' match mode and colors
/// say. The green color is missing when termion leaves it out.
pub fn human_process_description(options: &Options, process: &Process) -> (r: String)
    ensures
        r@ == process_description(options.match_mode, options.colors, process, true) || r@
            == process_description(options.match_mode, options.colors, process, false),
{
    let green = options.colors.green();
    let ghost green_shown = green@.len() != 0;
    assert(green_shown ==> green@ == options.colors.shown(green_code()));
    let reset = options.colors.reset();
    let mut r = String::new();
    r.append(green.as_str());
    push_integer(&mut r, process.pid() as i64);
    r.append(reset.as_str());
    r.append(" (");
    r.append(green.as_str());
    r.append(process.name());
    r.append(reset.as_str());
    match options.match_mode {
        MatchMode::Basename => {
            r.append(")");
        },
        MatchMode::Commandline => {
            r.append("): ");
            let faded = options.colors.faded();
            r.append(faded.as_str());
            r.append(process.commandline());
            r.append(reset.as_str());
        },
    }
    r
}

} // verus!
