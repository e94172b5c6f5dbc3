//! The failures that session operations report to their caller.

use vstd::prelude::*;

verus! {

/// The step of a transfer at which the operating system reported a failure.
#[derive(Clone, Copy, Debug, PartialEq, Eq, Structural)]
pub enum IoStage {
    /// Writing a line to the standard input of the attached process.
    SendInput,
    /// Flushing the standard input of the attached process.
    FlushInput,
    /// Waiting for a command to exit and collecting what it wrote.
    Execute,
    /// Writing to the input side of a pseudo-terminal.
    WriteTerminal,
}

/// Why a session operation did not succeed.
///
/// Teardown never fails: signalling a process that is already gone is not an
/// error, so none of these arises from closing or cleaning up.
#[derive(Debug)]
pub enum SessionError {
    /// No session is registered under the given identifier.
    NotFound,
    /// Input was sent to a session that has no process listening.
    NoActiveProcess,
    /// A command was started on a session that still has a process attached.
    ProcessAttached,
    /// The operation needs a backend that the session was not created with.
    BackendMismatch,
    /// A session is already registered under the identifier.
    IdInUse,
    /// The operating system could not start the process; holds its reason.
    Spawn(String),
    /// A transfer on an existing transport failed; holds the stage and the
    /// operating system's reason. The session stays registered.
    Io(IoStage, String),
}

/// The reason given when input is written to a terminal whose input side
/// is closed.
pub open spec fn closed_terminal_reason() -> Seq<char> {
    "terminal is closed"@
}

/// The words that introduce the reason of a transfer failure.
pub open spec fn io_stage_text(stage: IoStage) -> Seq<char> {
    match stage {
        IoStage::SendInput => "Failed to send input: "@,
        IoStage::FlushInput => "Failed to flush input: "@,
        IoStage::Execute => "Failed to execute command: "@,
        IoStage::WriteTerminal => "Failed to write to terminal: "@,
    }
}

impl SessionError {
    /// The message shown to the caller for this failure.
    pub open spec fn text(self) -> Seq<char> {
        match self {
            SessionError::NotFound => "Terminal session not found"@,
            SessionError::NoActiveProcess => "No active process to send input to"@,
            SessionError::ProcessAttached => "A process is already running in this session"@,
            SessionError::BackendMismatch => "Operation not supported by this session"@,
            SessionError::IdInUse => "Terminal session already exists"@,
            SessionError::Spawn(reason) => "Failed to spawn command: "@ + reason@,
            SessionError::Io(stage, reason) => io_stage_text(stage) + reason@,
        }
    }

    /// Renders the failure as the message shown to the caller.
    pub fn message(&self) -> (m: String)
        ensures
            m@ == self.text(),
    {
        match self {
            SessionError::NotFound => String::from_str("Terminal session not found"),
            SessionError::NoActiveProcess => String::from_str("No active process to send input to"),
            SessionError::ProcessAttached => String::from_str(
                "A process is already running in this session",
            ),
            SessionError::BackendMismatch => String::from_str(
                "Operation not supported by this session",
            ),
            SessionError::IdInUse => String::from_str("Terminal session already exists"),
            SessionError::Spawn(reason) => String::from_str("Failed to spawn command: ").concat(
                reason.as_str(),
            ),
            SessionError::Io(stage, reason) => {
                let head = match stage {
                    IoStage::SendInput => "Failed to send input: ",
                    IoStage::FlushInput => "Failed to flush input: ",
                    IoStage::Execute => "Failed to execute command: ",
                    IoStage::WriteTerminal => "Failed to write to terminal: ",
                };
                String::from_str(head).concat(reason.as_str())
            },
        }
    }
}

} // verus!
