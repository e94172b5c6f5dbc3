//! The process-pipe backend: how commands are launched, what is kept about
//! the child attached to a session, and what each poll of its output gives.

use crate::error::SessionError;
use crate::platform::Platform;
use crate::session::{AttachedProcess, ProcessModel, ProcessState};
use crate::terminate::{
    attached_plan, plan_attached, process_target, target_of_process, KillAction,
};
use crate::text::{push_signed_decimal, signed_decimal};
use vstd::prelude::*;

verus! {

/// How a command is to be launched, as plain values.
pub struct CommandModel {
    pub program: Seq<char>,
    pub args: Seq<Seq<char>>,
    pub working_directory: Seq<char>,
    pub new_process_group: bool,
    pub pipe_stdin: bool,
}

/// How a command is to be launched. Standard output and standard error are
/// always piped.
#[derive(Debug)]
pub struct CommandSpec {
    /// The program to run.
    pub program: String,
    /// Its arguments, in order.
    pub args: Vec<String>,
    /// The directory to start it in.
    pub working_directory: String,
    /// Whether the child leads a process group of its own.
    pub new_process_group: bool,
    /// Whether the child's standard input is piped and kept open.
    pub pipe_stdin: bool,
}

impl View for CommandSpec {
    type V = CommandModel;

    open spec fn view(&self) -> CommandModel {
        CommandModel {
            program: self.program@,
            args: self.args.deep_view(),
            working_directory: self.working_directory@,
            new_process_group: self.new_process_group,
            pipe_stdin: self.pipe_stdin,
        }
    }
}

/// The launch of `command` under the platform's command interpreter, in the
/// given directory. Where process groups exist the child gets its own, so
/// that it and its descendants can be ended together.
pub open spec fn shell_command(
    platform: Platform,
    working_directory: Seq<char>,
    command: Seq<char>,
    interactive: bool,
) -> CommandModel {
    match platform {
        Platform::Posix => CommandModel {
            program: "sh"@,
            args: seq!["-c"@, command],
            working_directory,
            new_process_group: true,
            pipe_stdin: interactive,
        },
        Platform::Windows => CommandModel {
            program: "cmd"@,
            args: seq!["/C"@, command],
            working_directory,
            new_process_group: false,
            pipe_stdin: interactive,
        },
    }
}

/// Builds the launch of `command` under the platform's command interpreter.
pub fn build_shell_command(
    platform: Platform,
    working_directory: &str,
    command: &str,
    interactive: bool,
) -> (spec: CommandSpec)
    ensures
        spec@ == shell_command(platform, working_directory@, command@, interactive),
{
    let (program, flag, new_process_group) = match platform {
        Platform::Posix => ("sh", "-c", true),
        Platform::Windows => ("cmd", "/C", false),
    };
    let mut args: Vec<String> = Vec::new();
    args.push(String::from_str(flag));
    args.push(String::from_str(command));
    let spec = CommandSpec {
        program: String::from_str(program),
        args,
        working_directory: String::from_str(working_directory),
        new_process_group,
        pipe_stdin: interactive,
    };
    assert(spec.args.deep_view() =~= seq![flag@, command@]);
    spec
}

/// What the operating system says of the attached child when asked without
/// waiting.
#[derive(Clone, Copy, Debug, PartialEq, Eq, Structural)]
pub enum ChildStatus {
    /// The child has not exited.
    Running,
    /// The child has exited; holds its exit code unless a signal ended it.
    Exited(Option<i32>),
    /// The state of the child could not be determined.
    Unknown,
}

/// What a poll gives, as plain values.
pub enum PollModel {
    Idle,
    NoData,
    Data(Seq<char>),
    Exited { output: Seq<char>, code: Option<i32> },
    Failed,
}

/// What a poll of a session's output gives.
#[derive(Debug)]
pub enum PollOutcome {
    /// No process is attached to the session.
    Idle,
    /// The process is running and has written nothing since the last poll.
    NoData,
    /// The process is running; holds what it wrote since the last poll.
    Data(String),
    /// The process has just exited; holds what had not yet been read and the
    /// exit code, which is absent when a signal ended the process.
    Exited { output: String, code: Option<i32> },
    /// The state of the process could not be determined.
    Failed,
}

impl View for PollOutcome {
    type V = PollModel;

    open spec fn view(&self) -> PollModel {
        match self {
            PollOutcome::Idle => PollModel::Idle,
            PollOutcome::NoData => PollModel::NoData,
            PollOutcome::Data(text) => PollModel::Data(text@),
            PollOutcome::Exited { output, code } => PollModel::Exited {
                output: output@,
                code: *code,
            },
            PollOutcome::Failed => PollModel::Failed,
        }
    }
}

/// The text that stands for "no process attached".
pub open spec fn idle_marker() -> Seq<char> {
    "__NO_PROCESS__"@
}

/// The text that stands for "state of the process unknown".
pub open spec fn failure_marker() -> Seq<char> {
    "__PROCESS_ERROR__"@
}

/// The words that introduce the exit code in the text of a poll.
pub open spec fn exit_marker() -> Seq<char> {
    "__PROCESS_EXITED__:"@
}

/// How an exit code is written after the exit marker.
pub open spec fn exit_code_text(code: Option<i32>) -> Seq<char> {
    match code {
        Some(value) => "Some("@ + signed_decimal(value as int) + ")"@,
        None => "None"@,
    }
}

impl PollModel {
    /// The single text in which a poll is handed to a caller that takes
    /// text only. Remaining output goes before the exit marker, on a line of
    /// its own.
    pub open spec fn wire_text(self) -> Seq<char> {
        match self {
            PollModel::Idle => idle_marker(),
            PollModel::NoData => Seq::empty(),
            PollModel::Data(text) => text,
            PollModel::Exited { output, code } => {
                if output.len() > 0 {
                    output + "\n"@ + exit_marker() + exit_code_text(code)
                } else {
                    exit_marker() + exit_code_text(code)
                }
            },
            PollModel::Failed => failure_marker(),
        }
    }
}

impl PollOutcome {
    /// Renders the outcome as a single text.
    pub fn to_wire(&self) -> (text: String)
        ensures
            text@ == self@.wire_text(),
    {
        match self {
            PollOutcome::Idle => String::from_str("__NO_PROCESS__"),
            PollOutcome::NoData => String::new(),
            PollOutcome::Data(data) => data.clone(),
            PollOutcome::Exited { output, code } => {
                let mut text = String::new();
                if output.as_str().unicode_len() > 0 {
                    text.append(output.as_str());
                    text.append("\n");
                }
                text.append("__PROCESS_EXITED__:");
                match code {
                    Some(value) => {
                        text.append("Some(");
                        push_signed_decimal(&mut text, *value);
                        text.append(")");
                    },
                    None => {
                        text.append("None");
                    },
                }
                assert(text@ =~= self@.wire_text());
                text
            },
            PollOutcome::Failed => String::from_str("__PROCESS_ERROR__"),
        }
    }
}

/// The predicate that keeps every process id but `pid`.
pub open spec fn other_than(pid: u32) -> spec_fn(u32) -> bool {
    |p: u32| p != pid
}

impl ProcessModel {
    /// The state after a child with id `pid` was spawned: the id is tracked
    /// and names the process group, unless no process can have that id.
    pub open spec fn spawned(self, pid: u32) -> ProcessModel {
        ProcessModel { running: self.running.push(pid), group: process_target(pid), ..self }
    }

    /// The state after an interactive child was attached.
    pub open spec fn attached(self, pid: Option<u32>, has_stdin: bool) -> ProcessModel {
        let recorded = match pid {
            Some(id) => self.spawned(id),
            None => self,
        };
        ProcessModel {
            current: Some(AttachedProcess { pid, has_stdin }),
            interactive: true,
            ..recorded
        }
    }

    /// Whether a line of input can be delivered.
    pub open spec fn accepts_input(self) -> bool {
        self.current matches Some(process) && process.has_stdin
    }

    /// The state after the reader appended a piece of output.
    pub open spec fn appended(self, text: Seq<char>) -> ProcessModel {
        ProcessModel { buffer: self.buffer + text, ..self }
    }

    /// What a poll gives when the operating system reports `status`.
    pub open spec fn poll_outcome(self, status: ChildStatus) -> PollModel {
        if self.current is None {
            PollModel::Idle
        } else {
            match status {
                ChildStatus::Exited(code) => PollModel::Exited { output: self.buffer, code },
                ChildStatus::Running => if self.buffer.len() > 0 {
                    PollModel::Data(self.buffer)
                } else {
                    PollModel::NoData
                },
                ChildStatus::Unknown => PollModel::Failed,
            }
        }
    }

    /// The state after a poll: what was handed out has left the buffer, and a
    /// process that has exited is no longer attached.
    pub open spec fn polled(self, status: ChildStatus) -> ProcessModel {
        if self.current is None {
            self
        } else {
            match status {
                ChildStatus::Exited(_) => ProcessModel {
                    current: None,
                    buffer: Seq::empty(),
                    ..self
                },
                ChildStatus::Running => ProcessModel { buffer: Seq::empty(), ..self },
                ChildStatus::Unknown => self,
            }
        }
    }

    /// The state after an interrupt: nothing attached, no group, nothing
    /// buffered, and the interrupted process no longer tracked.
    pub open spec fn interrupted(self) -> ProcessModel {
        let running = match self.current {
            Some(AttachedProcess { pid: Some(pid), .. }) => self.running.filter(other_than(pid)),
            _ => self.running,
        };
        ProcessModel { running, group: None, current: None, buffer: Seq::empty(), ..self }
    }
}

fn remove_pid(running: &Vec<u32>, pid: u32) -> (kept: Vec<u32>)
    ensures
        kept@ == running@.filter(other_than(pid)),
{
    let mut kept: Vec<u32> = Vec::new();
    let mut i: usize = 0;
    proof {
        reveal(Seq::filter);
        assert(running@.take(0) =~= Seq::empty());
    }
    while i < running.len()
        invariant
            i <= running@.len(),
            kept@ == running@.take(i as int).filter(other_than(pid)),
        decreases running.len() - i,
    {
        if running[i] != pid {
            kept.push(running[i]);
        }
        proof {
            let next = running@.take(i + 1);
            assert(next.drop_last() =~= running@.take(i as int));
            assert(next.last() == running@[i as int]);
            reveal(Seq::filter);
            assert(kept@ =~= next.filter(other_than(pid)));
        }
        i += 1;
    }
    assert(running@.take(i as int) =~= running@);
    kept
}

impl ProcessState {
    /// Records that a child with id `pid` was spawned for the session.
    pub fn record_spawn(&mut self, pid: u32)
        ensures
            final(self)@ == old(self)@.spawned(pid),
    {
        self.running_processes.push(pid);
        self.process_group_id = target_of_process(pid);
    }

    /// Attaches an interactive child to the session, unless one is attached
    /// already.
    pub fn attach(&mut self, pid: Option<u32>, has_stdin: bool) -> (r: Result<(), SessionError>)
        ensures
            old(self)@.current is None ==> r == Ok::<(), SessionError>(()) && final(self)@ == old(
                self,
            )@.attached(pid, has_stdin),
            old(self)@.current is Some ==> r == Err::<(), SessionError>(
                SessionError::ProcessAttached,
            ) && final(self)@ == old(self)@,
    {
        if self.current_process.is_some() {
            return Err(SessionError::ProcessAttached);
        }
        match pid {
            Some(id) => {
                self.record_spawn(id);
            },
            None => {},
        }
        self.current_process = Some(AttachedProcess { pid, has_stdin });
        self.is_interactive = true;
        Ok(())
    }

    /// The bytes to write to the attached child for a line of input: the
    /// text and a line feed.
    pub fn input_line(&self, text: &str) -> (r: Result<String, SessionError>)
        ensures
            match r {
                Ok(line) => self@.accepts_input() && line@ == text@ + "\n"@,
                Err(e) => !self@.accepts_input() && e == SessionError::NoActiveProcess,
            },
    {
        match self.current_process {
            Some(process) if process.has_stdin => Ok(String::from_str(text).concat("\n")),
            _ => Err(SessionError::NoActiveProcess),
        }
    }

    /// Appends a piece of output to the buffer.
    pub fn append_output(&mut self, text: &str)
        ensures
            final(self)@ == old(self)@.appended(text@),
    {
        self.output_buffer.append(text);
    }

    /// Hands out what the buffer holds and follows the attached child's
    /// status.
    pub fn poll(&mut self, status: ChildStatus) -> (outcome: PollOutcome)
        ensures
            outcome@ == old(self)@.poll_outcome(status),
            final(self)@ == old(self)@.polled(status),
    {
        if self.current_process.is_none() {
            return PollOutcome::Idle;
        }
        match status {
            ChildStatus::Exited(code) => {
                let mut output = String::new();
                core::mem::swap(&mut self.output_buffer, &mut output);
                self.current_process = None;
                PollOutcome::Exited { output, code }
            },
            ChildStatus::Running => {
                let mut output = String::new();
                core::mem::swap(&mut self.output_buffer, &mut output);
                if output.as_str().unicode_len() > 0 {
                    PollOutcome::Data(output)
                } else {
                    PollOutcome::NoData
                }
            },
            ChildStatus::Unknown => PollOutcome::Failed,
        }
    }

    /// Detaches the current process and plans its termination.
    pub fn interrupt(&mut self, platform: Platform) -> (plan: Vec<KillAction>)
        ensures
            plan@ == attached_plan(platform, old(self)@.current),
            final(self)@ == old(self)@.interrupted(),
    {
        let plan = plan_attached(platform, self.current_process);
        match self.current_process {
            Some(AttachedProcess { pid: Some(pid), .. }) => {
                self.running_processes = remove_pid(&self.running_processes, pid);
            },
            _ => {},
        }
        self.current_process = None;
        self.process_group_id = None;
        self.output_buffer = String::new();
        plan
    }
}

} // verus!
