//! Locates running processes by name or command line, asks them to terminate,
//! waits a bounded time for them to exit and optionally forces the survivors.
//!
//! The library holds the parts that decide: pattern handling and matching,
//! the process records, the signal catalog and the escalation state machine.
//! A driver performs the side effects that the state machine asks for.

pub mod escalation;
pub mod matcher;
pub mod options;
pub mod process;
pub mod signal;
pub mod text;

pub use escalation::{Command, Escalation, EscalationPolicy, Event, Stage};
pub use matcher::{load_patterns, select_processes, MatchMode, Matcher, PatternError};
pub use options::{human_process_description, Colors, Options, OutputMode, UserError, UserMode};
pub use process::{has_numeric_name, send_result, KillError, Process, SignalFailure};
pub use signal::{ParseError, Signal};
pub use text::{parse_cmdline, strip_comment};
