//! What each operation does to one session, whichever backend it has. The
//! backend is looked at first: an operation that belongs to the other
//! backend fails or does nothing, and never changes which backend it is.

use crate::error::{closed_terminal_reason, IoStage, SessionError};
use crate::platform::Platform;
use crate::process::{
    build_shell_command, shell_command, ChildStatus, CommandModel, CommandSpec, PollModel,
    PollOutcome,
};
use crate::session::{
    Backend, BackendModel, OutputInfo, PtyState, SessionModel, TerminalOutput, TerminalSessionData,
};
use crate::terminate::{attached_plan, KillAction};
use vstd::prelude::*;

verus! {

/// What the reader of a session's output reports after one read.
#[derive(Debug)]
pub enum ReadEvent {
    /// The read gave this text. An empty text is the end of the stream.
    Text(String),
    /// The stream has ended.
    Closed,
    /// The read failed; holds the operating system's reason.
    Failed(String),
}

/// What the reader of a session's output does after one read.
#[derive(Debug)]
pub struct ReaderStep {
    /// The event to publish to the listener, if any. It is published once,
    /// and the reader does not wait for the listener.
    pub publish: Option<TerminalOutput>,
    /// Whether the reader goes on to the next read.
    pub keep_reading: bool,
}

/// What the reader does after one read, as plain values.
pub struct ReaderStepModel {
    pub publish: Option<OutputInfo>,
    pub keep_reading: bool,
}

impl View for ReaderStep {
    type V = ReaderStepModel;

    open spec fn view(&self) -> ReaderStepModel {
        ReaderStepModel {
            publish: match self.publish {
                Some(event) => Some(event@),
                None => None,
            },
            keep_reading: self.keep_reading,
        }
    }
}

/// What a read reported, as plain values.
pub enum ReadEventModel {
    Text(Seq<char>),
    Closed,
    Failed(Seq<char>),
}

impl View for ReadEvent {
    type V = ReadEventModel;

    open spec fn view(&self) -> ReadEventModel {
        match self {
            ReadEvent::Text(text) => ReadEventModel::Text(text@),
            ReadEvent::Closed => ReadEventModel::Closed,
            ReadEvent::Failed(reason) => ReadEventModel::Failed(reason@),
        }
    }
}

impl ReadEventModel {
    /// Whether the read delivered output to pass on.
    pub open spec fn has_text(self) -> bool {
        self matches ReadEventModel::Text(text) && text.len() > 0
    }
}

/// The words that introduce the reason of a failed read in the diagnostic
/// event.
pub open spec fn read_failure_prefix() -> Seq<char> {
    "Read error: "@
}

impl SessionModel {
    /// How a command is launched in the session, or why it cannot be: a
    /// terminal-backed session runs no commands of its own, and a session
    /// takes no second process while one is attached.
    pub open spec fn launch(self, platform: Platform, command: Seq<char>, interactive: bool)
        -> Result<CommandModel, SessionError> {
        match self.backend {
            BackendModel::Pty(_) => Err(SessionError::BackendMismatch),
            BackendModel::Process(state) => if state.current is Some {
                Err(SessionError::ProcessAttached)
            } else {
                Ok(shell_command(platform, self.info.working_directory, command, interactive))
            },
        }
    }

    /// The session after a child with id `pid` was spawned for it.
    pub open spec fn spawned(self, pid: u32) -> SessionModel {
        match self.backend {
            BackendModel::Pty(_) => self,
            BackendModel::Process(state) => SessionModel {
                backend: BackendModel::Process(state.spawned(pid)),
                ..self
            },
        }
    }

    /// Whether an interactive child can be attached, and if not, why.
    pub open spec fn attach_result(self) -> Result<(), SessionError> {
        match self.backend {
            BackendModel::Pty(_) => Err(SessionError::BackendMismatch),
            BackendModel::Process(state) => if state.current is Some {
                Err(SessionError::ProcessAttached)
            } else {
                Ok(())
            },
        }
    }

    /// The session after an attempt to attach an interactive child.
    pub open spec fn attached(self, pid: Option<u32>, has_stdin: bool) -> SessionModel {
        match self.backend {
            BackendModel::Process(state) if state.current is None => SessionModel {
                backend: BackendModel::Process(state.attached(pid, has_stdin)),
                ..self
            },
            _ => self,
        }
    }

    /// Whether a line of input can be delivered to an attached process.
    pub open spec fn accepts_input(self) -> bool {
        self.backend matches BackendModel::Process(state) && state.accepts_input()
    }

    /// Whether raw input can be written to the session's terminal.
    pub open spec fn accepts_raw_input(self) -> bool {
        self.backend matches BackendModel::Pty(pty) && pty.writer_open
    }

    /// Whether `r` is what writing `text` to the session's terminal gives:
    /// the text as it is while the input side is open, a failed transfer
    /// once it is closed, and a mismatch where the session has no terminal.
    pub open spec fn raw_input_gives(self, text: Seq<char>, r: Result<String, SessionError>) -> bool {
        match self.backend {
            BackendModel::Pty(pty) => if pty.writer_open {
                r matches Ok(raw) && raw@ == text
            } else {
                r matches Err(SessionError::Io(stage, reason)) && stage == IoStage::WriteTerminal
                    && reason@ == closed_terminal_reason()
            },
            BackendModel::Process(_) => r matches Err(e) && e == SessionError::BackendMismatch,
        }
    }

    /// What a poll of the session gives.
    pub open spec fn poll_outcome(self, status: ChildStatus) -> PollModel {
        match self.backend {
            BackendModel::Pty(_) => PollModel::Idle,
            BackendModel::Process(state) => state.poll_outcome(status),
        }
    }

    /// The session after a poll.
    pub open spec fn polled(self, status: ChildStatus) -> SessionModel {
        match self.backend {
            BackendModel::Pty(_) => self,
            BackendModel::Process(state) => SessionModel {
                backend: BackendModel::Process(state.polled(status)),
                ..self
            },
        }
    }

    /// How the session's current process is ended by an interrupt.
    pub open spec fn interrupt_plan(self, platform: Platform) -> Seq<KillAction> {
        match self.backend {
            BackendModel::Pty(_) => Seq::empty(),
            BackendModel::Process(state) => attached_plan(platform, state.current),
        }
    }

    /// The session after an interrupt.
    pub open spec fn interrupted(self) -> SessionModel {
        match self.backend {
            BackendModel::Pty(_) => self,
            BackendModel::Process(state) => SessionModel {
                backend: BackendModel::Process(state.interrupted()),
                ..self
            },
        }
    }

    /// What the reader does with what one read reported: output of a
    /// terminal is published at once, output of a process is left in the
    /// buffer, a failure is published as a diagnostic, and anything but
    /// output ends the reader.
    pub open spec fn reader_step(self, event: ReadEventModel) -> ReaderStepModel {
        match event {
            ReadEventModel::Text(text) if text.len() > 0 => ReaderStepModel {
                publish: match self.backend {
                    BackendModel::Pty(_) => Some(
                        OutputInfo { session_id: self.info.id, output: text, exit_code: None },
                    ),
                    BackendModel::Process(_) => None,
                },
                keep_reading: true,
            },
            ReadEventModel::Failed(reason) => ReaderStepModel {
                publish: Some(
                    OutputInfo {
                        session_id: self.info.id,
                        output: read_failure_prefix() + reason,
                        exit_code: None,
                    },
                ),
                keep_reading: false,
            },
            _ => ReaderStepModel { publish: None, keep_reading: false },
        }
    }

    /// The session after the reader handled what one read reported: output
    /// of a process has joined the buffer, and a terminal whose stream ended
    /// takes no more input.
    pub open spec fn after_read(self, event: ReadEventModel) -> SessionModel {
        match self.backend {
            BackendModel::Pty(pty) => if event.has_text() {
                self
            } else {
                SessionModel { backend: BackendModel::Pty(PtyState { writer_open: false }), ..self }
            },
            BackendModel::Process(state) => match event {
                ReadEventModel::Text(text) => SessionModel {
                    backend: BackendModel::Process(state.appended(text)),
                    ..self
                },
                _ => self,
            },
        }
    }
}

impl TerminalSessionData {
    /// Prepares the launch of a command in the session's directory. Fails
    /// on a terminal-backed session, and while a process is attached.
    pub fn launch(&self, platform: Platform, command: &str, interactive: bool) -> (r: Result<
        CommandSpec,
        SessionError,
    >)
        ensures
            match self@.launch(platform, command@, interactive) {
                Ok(model) => r matches Ok(spec) && spec@ == model,
                Err(e) => r matches Err(x) && x == e,
            },
    {
        match &self.backend {
            Backend::Pty(_) => Err(SessionError::BackendMismatch),
            Backend::Process(state) => {
                if state.current_process.is_some() {
                    Err(SessionError::ProcessAttached)
                } else {
                    Ok(
                        build_shell_command(
                            platform,
                            self.session.working_directory(),
                            command,
                            interactive,
                        ),
                    )
                }
            },
        }
    }

    /// Records that a child with id `pid` was spawned for the session.
    pub fn record_spawn(&mut self, pid: u32)
        ensures
            final(self)@ == old(self)@.spawned(pid),
    {
        match &mut self.backend {
            Backend::Pty(_) => {},
            Backend::Process(state) => {
                state.record_spawn(pid);
            },
        }
    }

    /// Attaches an interactive child to the session.
    pub fn attach(&mut self, pid: Option<u32>, has_stdin: bool) -> (r: Result<(), SessionError>)
        ensures
            r == old(self)@.attach_result(),
            final(self)@ == old(self)@.attached(pid, has_stdin),
    {
        match &mut self.backend {
            Backend::Pty(_) => Err(SessionError::BackendMismatch),
            Backend::Process(state) => state.attach(pid, has_stdin),
        }
    }

    /// The text to write to the attached process for a line of input.
    pub fn input_line(&self, text: &str) -> (r: Result<String, SessionError>)
        ensures
            match r {
                Ok(line) => self@.accepts_input() && line@ == text@ + "\n"@,
                Err(e) => !self@.accepts_input() && e == SessionError::NoActiveProcess,
            },
    {
        match &self.backend {
            Backend::Pty(_) => Err(SessionError::NoActiveProcess),
            Backend::Process(state) => state.input_line(text),
        }
    }

    /// The text to write to the session's terminal, unchanged.
    pub fn raw_input(&self, text: &str) -> (r: Result<String, SessionError>)
        ensures
            self@.raw_input_gives(text@, r),
    {
        match &self.backend {
            Backend::Pty(pty) => {
                if pty.writer_open {
                    Ok(String::from_str(text))
                } else {
                    Err(SessionError::Io(IoStage::WriteTerminal, String::from_str("terminal is closed")))
                }
            },
            Backend::Process(_) => Err(SessionError::BackendMismatch),
        }
    }

    /// Hands out the output gathered since the last poll.
    pub fn poll(&mut self, status: ChildStatus) -> (outcome: PollOutcome)
        ensures
            outcome@ == old(self)@.poll_outcome(status),
            final(self)@ == old(self)@.polled(status),
    {
        match &mut self.backend {
            Backend::Pty(_) => PollOutcome::Idle,
            Backend::Process(state) => state.poll(status),
        }
    }

    /// Detaches the current process and plans its termination.
    pub fn interrupt(&mut self, platform: Platform) -> (plan: Vec<KillAction>)
        ensures
            plan@ == old(self)@.interrupt_plan(platform),
            final(self)@ == old(self)@.interrupted(),
    {
        match &mut self.backend {
            Backend::Pty(_) => Vec::new(),
            Backend::Process(state) => state.interrupt(platform),
        }
    }

    /// Handles what one read of the session's output reported.
    pub fn handle_read(&mut self, event: ReadEvent) -> (step: ReaderStep)
        ensures
            step@ == old(self)@.reader_step(event@),
            final(self)@ == old(self)@.after_read(event@),
    {
        match event {
            ReadEvent::Text(text) => {
                if text.as_str().unicode_len() > 0 {
                    match &mut self.backend {
                        Backend::Pty(_) => {
                            let id = String::from_str(self.session.id());
                            ReaderStep {
                                publish: Some(TerminalOutput::new(id, text, None)),
                                keep_reading: true,
                            }
                        },
                        Backend::Process(state) => {
                            state.append_output(text.as_str());
                            ReaderStep { publish: None, keep_reading: true }
                        },
                    }
                } else {
                    self.end_of_stream();
                    proof {
                        assert(old(self)@.backend matches BackendModel::Process(state)
                            ==> state.appended(text@).buffer =~= state.buffer);
                    }
                    ReaderStep { publish: None, keep_reading: false }
                }
            },
            ReadEvent::Closed => {
                self.end_of_stream();
                ReaderStep { publish: None, keep_reading: false }
            },
            ReadEvent::Failed(reason) => {
                self.end_of_stream();
                let id = String::from_str(self.session.id());
                let output = String::from_str("Read error: ").concat(reason.as_str());
                ReaderStep {
                    publish: Some(TerminalOutput::new(id, output, None)),
                    keep_reading: false,
                }
            },
        }
    }

    fn end_of_stream(&mut self)
        ensures
            final(self)@.info == old(self)@.info,
            final(self)@.backend == (match old(self)@.backend {
                BackendModel::Pty(_) => BackendModel::Pty(PtyState { writer_open: false }),
                BackendModel::Process(state) => BackendModel::Process(state),
            }),
    {
        match &mut self.backend {
            Backend::Pty(pty) => {
                pty.writer_open = false;
            },
            Backend::Process(_) => {},
        }
    }
}

} // verus!
