//! The records that describe a session and the state kept for each one.

use vstd::prelude::*;

verus! {

/// What a session is called when it is created.
pub open spec fn default_session_name() -> Seq<char> {
    "Terminal"@
}

/// What a caller sees of a session, as plain text.
pub struct SessionInfo {
    pub id: Seq<char>,
    pub name: Seq<char>,
    pub working_directory: Seq<char>,
}

/// The handle by which a caller knows a session.
#[derive(Debug)]
pub struct TerminalSession {
    id: String,
    name: String,
    working_directory: String,
}

impl View for TerminalSession {
    type V = SessionInfo;

    closed spec fn view(&self) -> SessionInfo {
        SessionInfo {
            id: self.id@,
            name: self.name@,
            working_directory: self.working_directory@,
        }
    }
}

impl TerminalSession {
    /// A session record with the given identifier, label and directory.
    pub fn new(id: String, name: String, working_directory: String) -> (s: Self)
        ensures
            s@ == (SessionInfo { id: id@, name: name@, working_directory: working_directory@ }),
    {
        TerminalSession { id, name, working_directory }
    }

    /// The identifier, which never changes.
    pub fn id(&self) -> (r: &str)
        ensures
            r@ == self@.id,
    {
        self.id.as_str()
    }

    /// The display label.
    pub fn name(&self) -> (r: &str)
        ensures
            r@ == self@.name,
    {
        self.name.as_str()
    }

    /// The directory in which the session's processes start.
    pub fn working_directory(&self) -> (r: &str)
        ensures
            r@ == self@.working_directory,
    {
        self.working_directory.as_str()
    }

}

impl Clone for TerminalSession {
    fn clone(&self) -> (s: Self)
        ensures
            s@ == self@,
    {
        TerminalSession {
            id: self.id.clone(),
            name: self.name.clone(),
            working_directory: self.working_directory.clone(),
        }
    }
}

/// A piece of session output, as plain text.
pub struct OutputInfo {
    pub session_id: Seq<char>,
    pub output: Seq<char>,
    pub exit_code: Option<i32>,
}

/// A piece of output tagged with the session it came from. `exit_code` is
/// present only on the piece that reports the end of a process.
#[derive(Debug)]
pub struct TerminalOutput {
    session_id: String,
    output: String,
    exit_code: Option<i32>,
}

impl View for TerminalOutput {
    type V = OutputInfo;

    closed spec fn view(&self) -> OutputInfo {
        OutputInfo { session_id: self.session_id@, output: self.output@, exit_code: self.exit_code }
    }
}

impl TerminalOutput {
    /// A piece of output of the given session.
    pub fn new(session_id: String, output: String, exit_code: Option<i32>) -> (o: Self)
        ensures
            o@ == (OutputInfo { session_id: session_id@, output: output@, exit_code }),
    {
        TerminalOutput { session_id, output, exit_code }
    }

    /// The session that produced the output.
    pub fn session_id(&self) -> (r: &str)
        ensures
            r@ == self@.session_id,
    {
        self.session_id.as_str()
    }

    /// The text.
    pub fn output(&self) -> (r: &str)
        ensures
            r@ == self@.output,
    {
        self.output.as_str()
    }

    /// The exit code, on the piece that reports the end of a process.
    pub fn exit_code(&self) -> (r: Option<i32>)
        ensures
            r == self@.exit_code,
    {
        self.exit_code
    }
}

/// The transport a session is created with.
#[derive(Clone, Copy, Debug, PartialEq, Eq, Structural)]
pub enum BackendKind {
    /// A shell attached to a pseudo-terminal, streamed as it writes.
    Pty,
    /// Commands run as child processes with piped streams, polled for output.
    Process,
}

/// What command dispatch knows of the child process attached to a session.
#[derive(Clone, Copy, Debug, PartialEq, Eq, Structural)]
pub struct AttachedProcess {
    /// The operating system's id of the child, while it has one.
    pub pid: Option<u32>,
    /// Whether the child's standard input is held open for the session.
    pub has_stdin: bool,
}

/// The state of a process-backed session, as plain values.
pub struct ProcessModel {
    /// Ids of the processes spawned for the session and still tracked.
    pub running: Seq<u32>,
    /// The process group recorded at the last spawn.
    pub group: Option<i32>,
    /// The process currently attached, if any.
    pub current: Option<AttachedProcess>,
    /// Output gathered since the last poll.
    pub buffer: Seq<char>,
    /// Whether the session has run an interactive command.
    pub interactive: bool,
}

/// The state of a process-backed session.
#[derive(Debug)]
pub struct ProcessState {
    pub running_processes: Vec<u32>,
    pub process_group_id: Option<i32>,
    pub current_process: Option<AttachedProcess>,
    pub output_buffer: String,
    pub is_interactive: bool,
}

impl View for ProcessState {
    type V = ProcessModel;

    open spec fn view(&self) -> ProcessModel {
        ProcessModel {
            running: self.running_processes@,
            group: self.process_group_id,
            current: self.current_process,
            buffer: self.output_buffer@,
            interactive: self.is_interactive,
        }
    }
}

/// The state of a terminal-backed session.
#[derive(Clone, Copy, Debug, PartialEq, Eq, Structural)]
pub struct PtyState {
    /// Whether the input side of the terminal is still open.
    pub writer_open: bool,
}

/// The backend of a session, as plain values.
pub enum BackendModel {
    Pty(PtyState),
    Process(ProcessModel),
}

/// The backend of a session. Which of the two it is never changes.
#[derive(Debug)]
pub enum Backend {
    Pty(PtyState),
    Process(ProcessState),
}

impl View for Backend {
    type V = BackendModel;

    open spec fn view(&self) -> BackendModel {
        match self {
            Backend::Pty(p) => BackendModel::Pty(*p),
            Backend::Process(p) => BackendModel::Process(p@),
        }
    }
}

impl BackendModel {
    /// The transport this backend was created as.
    pub open spec fn kind(self) -> BackendKind {
        match self {
            BackendModel::Pty(_) => BackendKind::Pty,
            BackendModel::Process(_) => BackendKind::Process,
        }
    }
}

/// A session and its state, as plain values.
pub struct SessionModel {
    pub info: SessionInfo,
    pub backend: BackendModel,
}

/// A session together with the state kept for it.
#[derive(Debug)]
pub struct TerminalSessionData {
    pub session: TerminalSession,
    pub backend: Backend,
}

impl View for TerminalSessionData {
    type V = SessionModel;

    open spec fn view(&self) -> SessionModel {
        SessionModel { info: self.session@, backend: self.backend@ }
    }
}

/// The state a session of the given kind starts in: nothing spawned, nothing
/// buffered, the terminal open.
pub open spec fn initial_backend(kind: BackendKind) -> BackendModel {
    match kind {
        BackendKind::Pty => BackendModel::Pty(PtyState { writer_open: true }),
        BackendKind::Process => BackendModel::Process(
            ProcessModel {
                running: Seq::empty(),
                group: None,
                current: None,
                buffer: Seq::empty(),
                interactive: false,
            },
        ),
    }
}

/// The session that creation registers for an identifier and a directory.
pub open spec fn initial_session(
    id: Seq<char>,
    working_directory: Seq<char>,
    kind: BackendKind,
) -> SessionModel {
    SessionModel {
        info: SessionInfo { id, name: default_session_name(), working_directory },
        backend: initial_backend(kind),
    }
}

impl TerminalSessionData {
    /// The state of a session that has just been created.
    pub fn new(id: String, working_directory: String, kind: BackendKind) -> (data: Self)
        ensures
            data@ == initial_session(id@, working_directory@, kind),
    {
        let session = TerminalSession::new(id, String::from_str("Terminal"), working_directory);
        let backend = match kind {
            BackendKind::Pty => Backend::Pty(PtyState { writer_open: true }),
            BackendKind::Process => Backend::Process(
                ProcessState {
                    running_processes: Vec::new(),
                    process_group_id: None,
                    current_process: None,
                    output_buffer: String::new(),
                    is_interactive: false,
                },
            ),
        };
        TerminalSessionData { session, backend }
    }

    /// The transport the session was created with.
    pub fn kind(&self) -> (k: BackendKind)
        ensures
            k == self@.backend.kind(),
    {
        match &self.backend {
            Backend::Pty(_) => BackendKind::Pty,
            Backend::Process(_) => BackendKind::Process,
        }
    }
}

} // verus!
