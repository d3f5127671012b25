use vstd::prelude::*;

use crate::signal::Signal;
use crate::text::{all_digits, is_digit, chars_of, cmdline_text, decimal_i32, parse_cmdline, parse_i32};

verus! {

/// One running process, as found in the process table: its id, the id of the
/// user that owns it, the base name of its executable and its command line.
#[derive(Debug)]
pub struct Process {
    pid: i32,
    user_id: u32,
    name: String,
    cmdline: String,
}

/// Why a signal could not be delivered to a process.
#[derive(Debug, Clone, PartialEq, Eq)]
pub enum KillError {
    /// The OS does not accept the signal.
    InvalidSignal,
    /// The caller may not signal this process.
    NoPermission,
    /// The process no longer exists.
    DoesNotExist,
    /// Any other failure, with a diagnostic.
    UnexpectedError { message: String },
}

/// Whether a directory entry's name is made only of decimal digits.
pub fn has_numeric_name(name: &str) -> (r: bool)
    ensures
        r == all_digits(name@),
{
    let chars = chars_of(name);
    let mut i: usize = 0;
    while i < chars.len()
        invariant
            i <= chars@.len(),
            chars@ == name@,
            forall|j: int| 0 <= j < i ==> is_digit(#[trigger] chars@[j]),
        decreases chars.len() - i,
    {
        if !('0' <= chars[i] && chars[i] <= '9') {
            return false;
        }
        i = i + 1;
    }
    true
}

/// The process id that a process-table entry of this name stands for: its
/// digits read as a positive `i32`.
pub open spec fn entry_pid(entry_name: Seq<char>) -> Option<i32> {
    match decimal_i32(entry_name) {
        Some(n) => if all_digits(entry_name) && n > 0 {
            Some(n)
        } else {
            None
        },
        None => None,
    }
}

/// How `kill(2)` failed, as nix reports it.
#[derive(Debug, Clone, Copy, PartialEq, Eq, Structural)]
pub enum SignalFailure {
    /// `EINVAL`: the signal is not valid.
    InvalidArgument,
    /// `EPERM`: the caller may not signal the process.
    PermissionDenied,
    /// `ESRCH`: there is no such process.
    NoSuchProcess,
    /// Any other errno, by number.
    Other { errno: i32 },
}

/// How nix's `Errno` displays an errno number: its name and its description.
pub uninterp spec fn errno_display(errno: i32) -> Seq<char>;

/// The error that a failed `kill(2)` stands for.
pub open spec fn is_kill_error(failure: SignalFailure, e: KillError) -> bool {
    match failure {
        SignalFailure::InvalidArgument => e == KillError::InvalidSignal,
        SignalFailure::PermissionDenied => e == KillError::NoPermission,
        SignalFailure::NoSuchProcess => e == KillError::DoesNotExist,
        SignalFailure::Other { errno } => e matches KillError::UnexpectedError { message } && message@
            == "errno "@ + errno_display(errno),
    }
}

/// The result of a send, given what `kill(2)` answered.
pub open spec fn is_send_result(outcome: Result<(), SignalFailure>, r: Result<(), KillError>) -> bool {
    match outcome {
        Ok(()) => r is Ok,
        Err(failure) => r matches Err(e) && is_kill_error(failure, e),
    }
}

/// Relies on nix's `kill`: asks the OS to deliver the signal numbered `signal`
/// to process `pid`, and tells apart the errno variants of a failure. A
/// number that nix does not list as a signal is refused by nix's
/// `Signal::try_from` with `EINVAL` before any call.
#[verifier::external_body]
fn deliver_signal(pid: i32, signal: i32) -> (r: Result<(), SignalFailure>) {
    let sent = match nix::sys::signal::Signal::try_from(signal) {
        Ok(sig) => nix::sys::signal::kill(nix::unistd::Pid::from_raw(pid), sig),
        Err(errno) => Err(errno),
    };
    match sent {
        Ok(()) => Ok(()),
        Err(nix::errno::Errno::EINVAL) => Err(SignalFailure::InvalidArgument),
        Err(nix::errno::Errno::EPERM) => Err(SignalFailure::PermissionDenied),
        Err(nix::errno::Errno::ESRCH) => Err(SignalFailure::NoSuchProcess),
        Err(errno) => Err(SignalFailure::Other { errno: errno as i32 }),
    }
}

/// Relies on the `Display` impl of nix's `Errno`: the errno's name and its
/// description (`"EIO: I/O error"`), which depend on the number alone.
#[verifier::external_body]
fn errno_text(errno: i32) -> (r: String)
    ensures
        r@ == errno_display(errno),
{
    nix::errno::Errno::from_raw(errno).to_string()
}

/// Turns what `kill(2)` answered into the result of a send: an invalid
/// signal, a missing permission and a missing process each have their own
/// error; any other errno is unexpected and described in the message.
pub fn send_result(outcome: Result<(), SignalFailure>) -> (r: Result<(), KillError>)
    ensures
        is_send_result(outcome, r),
{
    match outcome {
        Ok(()) => Ok(()),
        Err(SignalFailure::InvalidArgument) => Err(KillError::InvalidSignal),
        Err(SignalFailure::PermissionDenied) => Err(KillError::NoPermission),
        Err(SignalFailure::NoSuchProcess) => Err(KillError::DoesNotExist),
        Err(SignalFailure::Other { errno }) => {
            let mut message = String::from_str("errno ");
            let text = errno_text(errno);
            message.append(text.as_str());
            Err(KillError::UnexpectedError { message })
        },
    }
}

impl Process {
    pub closed spec fn spec_pid(&self) -> i32 {
        self.pid
    }

    pub closed spec fn spec_user_id(&self) -> u32 {
        self.user_id
    }

    pub closed spec fn spec_name(&self) -> Seq<char> {
        self.name@
    }

    pub closed spec fn spec_commandline(&self) -> Seq<char> {
        self.cmdline@
    }

    /// A process record from its parts.
    pub fn new(pid: i32, user_id: u32, name: String, cmdline: String) -> (r: Process)
        ensures
            r.spec_pid() == pid,
            r.spec_user_id() == user_id,
            r.spec_name() == name@,
            r.spec_commandline() == cmdline@,
    {
        Process { pid, user_id, name, cmdline }
    }

    /// Builds the record of a process-table entry from what was read of it:
    /// the entry's name (the process id in decimal), the base name of its
    /// executable, the raw contents of its argument vector and its owner.
    /// Returns `None` when the entry's name is not a positive process id.
    pub fn from_entry(entry_name: &str, executable_name: String, raw_cmdline: &str, user_id: u32) -> (r:
        Option<Process>)
        ensures
            match r {
                Some(p) => entry_pid(entry_name@) == Some(p.spec_pid()) && p.spec_user_id() == user_id
                    && p.spec_name() == executable_name@ && p.spec_commandline() == cmdline_text(
                    raw_cmdline@,
                ),
                None => entry_pid(entry_name@) is None,
            },
    {
        if !has_numeric_name(entry_name) {
            return None;
        }
        match parse_i32(&chars_of(entry_name)) {
            Some(pid) => {
                if pid > 0 {
                    Some(Process::new(pid, user_id, executable_name, parse_cmdline(raw_cmdline)))
                } else {
                    None
                }
            },
            None => None,
        }
    }

    /// The base name of the process's executable.
    pub fn name(&self) -> (r: &str)
        ensures
            r@ == self.spec_name(),
    {
        self.name.as_str()
    }

    /// The process's command line, arguments separated by spaces.
    pub fn commandline(&self) -> (r: &str)
        ensures
            r@ == self.spec_commandline(),
    {
        self.cmdline.as_str()
    }

    /// The process id.
    pub fn pid(&self) -> (r: i32)
        ensures
            r == self.spec_pid(),
    {
        self.pid
    }

    /// The id of the user that owned the process when it was found.
    pub fn user_id(&self) -> (r: u32)
        ensures
            r == self.spec_user_id(),
    {
        self.user_id
    }

    /// Sends `signal` to the process. What the OS answers is not known in
    /// advance; success means the signal was accepted, not that the process
    /// has exited. Whatever it answers is reported as `send_result` says.
    pub fn send(&self, signal: Signal) -> (r: Result<(), KillError>)
        ensures
            exists|outcome: Result<(), SignalFailure>| #[trigger] is_send_result(outcome, r),
    {
        let outcome = deliver_signal(self.pid, signal.number());
        let r = send_result(outcome);
        assert(is_send_result(outcome, r));
        r
    }
}

} // verus!
