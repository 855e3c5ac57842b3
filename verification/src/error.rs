//! The errors that stop a terminal reset.

use vstd::prelude::*;
use vstd::string::StringExecFns;

use crate::platform::os_error_text;

verus! {

/// The OS error number of a system call that a signal interrupted (`EINTR`
/// on Linux and macOS).
pub const EINTR: i32 = 4;

/// The number of an OS error, as a failed system call reports it.
#[derive(Clone, Copy, Debug, PartialEq, Eq, Structural)]
pub struct OsError {
    code: i32,
}

impl View for OsError {
    type V = i32;

    closed spec fn view(&self) -> i32 {
        self.code
    }
}

impl OsError {
    /// OS error numbers run from 1 to 4095.
    #[verifier::type_invariant]
    closed spec fn in_range(&self) -> bool {
        1 <= self.code <= 4095
    }

    /// The OS error with number `code`; `None` when no OS error has that
    /// number.
    pub fn new(code: i32) -> (r: Option<OsError>)
        ensures
            (1 <= code <= 4095) == (r is Some),
            r matches Some(e) ==> e@ == code,
    {
        if 1 <= code && code <= 4095 {
            Some(OsError { code })
        } else {
            None
        }
    }

    /// The number of the error.
    pub fn code(&self) -> (c: i32)
        ensures
            c == self@,
            1 <= c <= 4095,
    {
        proof {
            use_type_invariant(self);
        }
        self.code
    }
}

/// An error that stopped the terminal reset. The failures of system calls
/// carry their OS error.
#[derive(Clone, Copy, Debug, PartialEq, Eq, Structural)]
#[non_exhaustive]
pub enum Error {
    /// No usable terminal was attached to standard input, output, error, or `/dev/tty`.
    NoTerminal,
    /// The process is in a background job and must not change another job's terminal.
    NotForegroundProcess,
    /// The process could not prove that it owns the terminal foreground.
    GetForegroundProcess(OsError),
    /// The terminal output queue could not be resumed.
    ResumeOutput(OsError),
    /// The current terminal driver state could not be read.
    GetTerminalState(OsError),
    /// The repaired terminal driver state could not be applied.
    SetTerminalState(OsError),
    /// `TERM` is absent from the process environment.
    TermNotSet,
    /// `TERM` contains characters that cannot name a terminfo entry safely.
    InvalidTermName,
    /// No compiled terminfo entry was found for `TERM`.
    TerminfoNotFound,
    /// A compiled terminfo entry could not be read.
    TerminfoUnreadable,
    /// A compiled terminfo entry was structurally invalid.
    InvalidTerminfo,
    /// A write to the terminal failed.
    TerminalWrite(OsError),
    /// A terminal write returned zero bytes before all reset data was sent.
    TerminalWriteMadeNoProgress,
}

impl Error {
    /// An error after which a diagnostic could violate terminal job control:
    /// the process may not own the terminal.
    pub open spec fn spec_requires_silent_exit(&self) -> bool {
        self is NotForegroundProcess || self is GetForegroundProcess
    }

    /// Returns whether writing a diagnostic could violate terminal job control.
    #[must_use]
    pub fn requires_silent_exit(&self) -> (r: bool)
        ensures
            r == self.spec_requires_silent_exit(),
    {
        match self {
            Error::NotForegroundProcess | Error::GetForegroundProcess(_) => true,
            _ => false,
        }
    }
}

/// An error that reports the OS error of a failed system call.
pub open spec fn has_os_error(error: Error) -> bool {
    error is GetForegroundProcess || error is ResumeOutput || error is GetTerminalState
        || error is SetTerminalState || error is TerminalWrite
}

/// The message of an error; for one that reports an OS error, the part of
/// the message before the system's description of that error.
pub open spec fn message_text(error: Error) -> Seq<char> {
    match error {
        Error::NoTerminal => "no terminal found"@,
        Error::NotForegroundProcess => "the process is not in the terminal's foreground process group"@,
        Error::GetForegroundProcess(_) => "failed to read the terminal's foreground process group: "@,
        Error::ResumeOutput(_) => "failed to resume terminal output: "@,
        Error::GetTerminalState(_) => "failed to read terminal state: "@,
        Error::SetTerminalState(_) => "failed to set terminal state: "@,
        Error::TermNotSet => "TERM is not set"@,
        Error::InvalidTermName => "TERM is not a valid terminal name"@,
        Error::TerminfoNotFound => "no terminfo entry was found for TERM"@,
        Error::TerminfoUnreadable => "the terminfo entry for TERM could not be read"@,
        Error::InvalidTerminfo => "the terminfo entry for TERM is invalid"@,
        Error::TerminalWrite(_) => "failed to write terminal reset data: "@,
        Error::TerminalWriteMadeNoProgress => "a terminal write made no progress"@,
    }
}

fn with_os_error(prefix: &str, error: OsError) -> (r: String)
    ensures
        r@.len() >= prefix@.len(),
        r@.take(prefix@.len() as int) == prefix@,
{
    let mut message = prefix.to_owned();
    let detail = os_error_text(error.code());
    message.append(detail.as_str());
    assert(message@.take(prefix@.len() as int) =~= prefix@);
    message
}

impl Error {
    /// The diagnostic that reports the error.
    pub fn message(&self) -> (r: String)
        ensures
            !has_os_error(*self) ==> r@ == message_text(*self),
            has_os_error(*self) ==> r@.len() >= message_text(*self).len() && r@.take(
                message_text(*self).len() as int,
            ) == message_text(*self),
    {
        match self {
            Error::NoTerminal => "no terminal found".to_owned(),
            Error::NotForegroundProcess => "the process is not in the terminal's foreground process group".to_owned(),
            Error::GetForegroundProcess(code) => with_os_error(
                "failed to read the terminal's foreground process group: ",
                *code,
            ),
            Error::ResumeOutput(code) => with_os_error("failed to resume terminal output: ", *code),
            Error::GetTerminalState(code) => with_os_error("failed to read terminal state: ", *code),
            Error::SetTerminalState(code) => with_os_error("failed to set terminal state: ", *code),
            Error::TermNotSet => "TERM is not set".to_owned(),
            Error::InvalidTermName => "TERM is not a valid terminal name".to_owned(),
            Error::TerminfoNotFound => "no terminfo entry was found for TERM".to_owned(),
            Error::TerminfoUnreadable => "the terminfo entry for TERM could not be read".to_owned(),
            Error::InvalidTerminfo => "the terminfo entry for TERM is invalid".to_owned(),
            Error::TerminalWrite(code) => with_os_error("failed to write terminal reset data: ", *code),
            Error::TerminalWriteMadeNoProgress => "a terminal write made no progress".to_owned(),
        }
    }
}

} // verus!
