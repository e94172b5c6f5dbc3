use terminal_sessions::error::{IoStage, SessionError};
use terminal_sessions::operations::ReadEvent;
use terminal_sessions::output::{combine_output, command_output, decode_chunk};
use terminal_sessions::platform::Platform;
use terminal_sessions::process::{ChildStatus, PollOutcome};
use terminal_sessions::registry::AppState;
use terminal_sessions::session::{Backend, BackendKind};
use terminal_sessions::terminate::{KillAction, Signal};

fn posix_with(id: &str, cwd: &str, kind: BackendKind) -> AppState {
    let mut state = AppState::new(Platform::Posix);
    let session = state
        .register_session(id.to_string(), cwd.to_string(), kind)
        .expect("a fresh identifier registers");
    assert_eq!(session.id(), id);
    state
}

fn terminate(target: i32) -> KillAction {
    KillAction::Signal { target, signal: Signal::Terminate }
}

fn kill(target: i32) -> KillAction {
    KillAction::Signal { target, signal: Signal::Kill }
}

fn pause(millis: u64) -> KillAction {
    KillAction::Pause { millis }
}

#[test]
fn new_registry_is_empty() {
    let state = AppState::new(Platform::Posix);
    assert_eq!(state.len(), 0);
    assert!(state.is_empty());
    assert_eq!(state.platform(), Platform::Posix);
    assert!(!state.contains("anything"));
}

#[test]
fn create_draws_a_version_4_uuid() {
    let mut state = AppState::new(Platform::Posix);
    let session = state
        .create_terminal_session("/tmp".to_string(), BackendKind::Process, Ok(()))
        .expect("a random identifier does not collide in an empty registry");
    let id: Vec<char> = session.id().chars().collect();
    assert_eq!(id.len(), 36);
    for (i, c) in id.iter().enumerate() {
        if i == 8 || i == 13 || i == 18 || i == 23 {
            assert_eq!(*c, '-');
        } else {
            assert!(c.is_ascii_digit() || ('a'..='f').contains(c));
        }
    }
    assert_eq!(id[14], '4');
    assert!(matches!(id[19], '8' | '9' | 'a' | 'b'));
    assert_eq!(session.name(), "Terminal");
    assert_eq!(session.working_directory(), "/tmp");
    assert_eq!(state.len(), 1);
    assert!(state.contains(session.id()));
}

#[test]
fn create_draws_different_identifiers() {
    let mut state = AppState::new(Platform::Posix);
    let a = state.create_terminal_session("/a".to_string(), BackendKind::Process, Ok(())).unwrap();
    let b = state.create_terminal_session("/b".to_string(), BackendKind::Pty, Ok(())).unwrap();
    assert_ne!(a.id(), b.id());
    assert_eq!(state.len(), 2);
    assert_eq!(state.session(a.id()).unwrap().working_directory(), "/a");
    assert_eq!(state.session(b.id()).unwrap().working_directory(), "/b");
}

#[test]
fn register_rejects_a_taken_identifier() {
    let mut state = posix_with("s1", "/tmp", BackendKind::Process);
    let again = state.register_session("s1".to_string(), "/other".to_string(), BackendKind::Pty);
    assert!(matches!(again, Err(SessionError::IdInUse)));
    assert_eq!(state.len(), 1);
    assert_eq!(state.session("s1").unwrap().working_directory(), "/tmp");
}

#[test]
fn lookup_of_unknown_session_is_not_found() {
    let mut state = posix_with("s1", "/tmp", BackendKind::Process);
    assert!(matches!(state.session("nope"), Err(SessionError::NotFound)));
    assert!(matches!(state.get("nope"), Err(SessionError::NotFound)));
    assert!(matches!(state.send_input_to_process("nope", "x"), Err(SessionError::NotFound)));
    assert!(matches!(state.write_input("nope", "x"), Err(SessionError::NotFound)));
    assert!(matches!(state.prepare_command("nope", "ls", false), Err(SessionError::NotFound)));
    assert!(matches!(state.prepare_terminal("nope", "/bin/sh"), Err(SessionError::NotFound)));
    assert!(matches!(state.record_spawn("nope", 1), Err(SessionError::NotFound)));
    assert!(matches!(state.attach_process("nope", Some(1), true), Err(SessionError::NotFound)));
    assert!(matches!(
        state.get_process_output("nope", ChildStatus::Running),
        Err(SessionError::NotFound)
    ));
    assert!(matches!(state.kill_current_process("nope"), Err(SessionError::NotFound)));
    assert_eq!(state.len(), 1);
}

#[test]
fn scenario_echo_hello() {
    let mut state = AppState::new(Platform::Posix);
    let session =
        state.create_terminal_session("/tmp".to_string(), BackendKind::Process, Ok(())).unwrap();
    let id = session.id().to_string();

    let spec = state.prepare_command(&id, "echo hello", false).unwrap();
    assert_eq!(spec.program, "sh");
    assert_eq!(spec.args, vec!["-c".to_string(), "echo hello".to_string()]);
    assert_eq!(spec.working_directory, "/tmp");
    assert!(spec.new_process_group);
    assert!(!spec.pipe_stdin);

    state.record_spawn(&id, 4321).unwrap();
    let result = command_output(b"hello\n", b"");
    assert_eq!(result, "hello\n");

    let poll = state.get_process_output(&id, ChildStatus::Running).unwrap();
    assert!(matches!(poll, PollOutcome::Idle));
    assert_eq!(poll.to_wire(), "__NO_PROCESS__");
}

#[test]
fn command_output_puts_stderr_after_stdout() {
    assert_eq!(command_output(b"out\n", b"err\n"), "out\nerr\n");
    assert_eq!(command_output(b"", b"only err"), "only err");
    assert_eq!(command_output(b"", b""), "");
    assert_eq!(combine_output("a", "b"), "ab");
}

#[test]
fn command_output_replaces_invalid_bytes() {
    assert_eq!(command_output(&[b'a', 0xff, b'b'], b""), "a\u{fffd}b");
    assert_eq!(command_output("h\u{e9}llo".as_bytes(), b""), "h\u{e9}llo");
}

#[test]
fn windows_commands_run_under_cmd() {
    let mut state = AppState::new(Platform::Windows);
    state.register_session("w".to_string(), "C:\\work".to_string(), BackendKind::Process).unwrap();
    let spec = state.prepare_command("w", "dir", true).unwrap();
    assert_eq!(spec.program, "cmd");
    assert_eq!(spec.args, vec!["/C".to_string(), "dir".to_string()]);
    assert_eq!(spec.working_directory, "C:\\work");
    assert!(!spec.new_process_group);
    assert!(spec.pipe_stdin);
}

#[test]
fn poll_without_process_is_idle_not_empty() {
    let mut state = posix_with("s", "/tmp", BackendKind::Process);
    for status in [ChildStatus::Running, ChildStatus::Exited(Some(0)), ChildStatus::Unknown] {
        let poll = state.get_process_output("s", status).unwrap();
        assert!(matches!(poll, PollOutcome::Idle));
        assert_eq!(poll.to_wire(), "__NO_PROCESS__");
        assert_ne!(poll.to_wire(), "");
    }
}

#[test]
fn poll_of_terminal_session_is_idle() {
    let mut state = posix_with("t", "/tmp", BackendKind::Pty);
    let poll = state.get_process_output("t", ChildStatus::Running).unwrap();
    assert!(matches!(poll, PollOutcome::Idle));
}

#[test]
fn interactive_poll_walks_through_its_states() {
    let mut state = posix_with("s", "/tmp", BackendKind::Process);
    let spec = state.prepare_command("s", "cat", true).unwrap();
    assert!(spec.pipe_stdin);
    state.attach_process("s", Some(500), true).unwrap();

    let poll = state.get_process_output("s", ChildStatus::Running).unwrap();
    assert!(matches!(poll, PollOutcome::NoData));
    assert_eq!(poll.to_wire(), "");

    let step = state.handle_read("s", decode_chunk(b"one\n"));
    assert!(step.keep_reading);
    assert!(step.publish.is_none());
    let step = state.handle_read("s", decode_chunk(b"two\n"));
    assert!(step.keep_reading);

    let poll = state.get_process_output("s", ChildStatus::Running).unwrap();
    match &poll {
        PollOutcome::Data(text) => assert_eq!(text, "one\ntwo\n"),
        other => panic!("expected data, got {:?}", other),
    }
    assert_eq!(poll.to_wire(), "one\ntwo\n");

    let poll = state.get_process_output("s", ChildStatus::Running).unwrap();
    assert!(matches!(poll, PollOutcome::NoData));

    state.handle_read("s", decode_chunk(b"bye"));
    let poll = state.get_process_output("s", ChildStatus::Exited(Some(0))).unwrap();
    match &poll {
        PollOutcome::Exited { output, code } => {
            assert_eq!(output, "bye");
            assert_eq!(*code, Some(0));
        },
        other => panic!("expected exit, got {:?}", other),
    }
    assert_eq!(poll.to_wire(), "bye\n__PROCESS_EXITED__:Some(0)");

    let poll = state.get_process_output("s", ChildStatus::Running).unwrap();
    assert!(matches!(poll, PollOutcome::Idle));
}

#[test]
fn exit_marker_carries_the_exit_code() {
    let exited = |code: Option<i32>| PollOutcome::Exited { output: String::new(), code };
    assert_eq!(exited(Some(0)).to_wire(), "__PROCESS_EXITED__:Some(0)");
    assert_eq!(exited(Some(1)).to_wire(), "__PROCESS_EXITED__:Some(1)");
    assert_eq!(exited(Some(127)).to_wire(), "__PROCESS_EXITED__:Some(127)");
    assert_eq!(exited(Some(-1)).to_wire(), "__PROCESS_EXITED__:Some(-1)");
    assert_eq!(exited(Some(i32::MAX)).to_wire(), "__PROCESS_EXITED__:Some(2147483647)");
    assert_eq!(exited(Some(i32::MIN)).to_wire(), "__PROCESS_EXITED__:Some(-2147483648)");
    assert_eq!(exited(None).to_wire(), "__PROCESS_EXITED__:None");
    assert_eq!(exited(Some(3)).to_wire(), format!("__PROCESS_EXITED__:{:?}", Some(3)));
    let with_output = PollOutcome::Exited { output: "tail".to_string(), code: None };
    assert_eq!(with_output.to_wire(), "tail\n__PROCESS_EXITED__:None");
    assert_eq!(PollOutcome::Failed.to_wire(), "__PROCESS_ERROR__");
    assert_eq!(PollOutcome::Data("x".to_string()).to_wire(), "x");
}

#[test]
fn poll_with_unknown_status_reports_failure_and_keeps_output() {
    let mut state = posix_with("s", "/tmp", BackendKind::Process);
    state.attach_process("s", Some(9), true).unwrap();
    state.handle_read("s", decode_chunk(b"kept"));
    let poll = state.get_process_output("s", ChildStatus::Unknown).unwrap();
    assert!(matches!(poll, PollOutcome::Failed));
    let poll = state.get_process_output("s", ChildStatus::Running).unwrap();
    assert_eq!(poll.to_wire(), "kept");
}

#[test]
fn send_input_appends_a_line_feed() {
    let mut state = posix_with("s", "/tmp", BackendKind::Process);
    assert!(matches!(
        state.send_input_to_process("s", "ls"),
        Err(SessionError::NoActiveProcess)
    ));
    state.attach_process("s", Some(77), true).unwrap();
    assert_eq!(state.send_input_to_process("s", "ls -la").unwrap(), "ls -la\n");
    assert_eq!(state.send_input_to_process("s", "").unwrap(), "\n");
}

#[test]
fn send_input_needs_an_open_stdin() {
    let mut state = posix_with("s", "/tmp", BackendKind::Process);
    state.attach_process("s", Some(77), false).unwrap();
    assert!(matches!(
        state.send_input_to_process("s", "ls"),
        Err(SessionError::NoActiveProcess)
    ));
    let state = posix_with("t", "/tmp", BackendKind::Pty);
    assert!(matches!(
        state.send_input_to_process("t", "ls"),
        Err(SessionError::NoActiveProcess)
    ));
}

#[test]
fn second_process_is_rejected_while_one_is_attached() {
    let mut state = posix_with("s", "/tmp", BackendKind::Process);
    state.attach_process("s", Some(10), true).unwrap();
    assert!(matches!(
        state.prepare_command("s", "ls", false),
        Err(SessionError::ProcessAttached)
    ));
    assert!(matches!(
        state.attach_process("s", Some(11), true),
        Err(SessionError::ProcessAttached)
    ));
    match &state.get("s").unwrap().backend {
        Backend::Process(p) => {
            assert_eq!(p.running_processes, vec![10]);
            assert_eq!(p.process_group_id, Some(10));
            assert!(p.is_interactive);
        },
        Backend::Pty(_) => panic!("a process session"),
    }
}

#[test]
fn terminal_session_runs_no_commands() {
    let mut state = posix_with("t", "/tmp", BackendKind::Pty);
    assert!(matches!(
        state.prepare_command("t", "ls", false),
        Err(SessionError::BackendMismatch)
    ));
    assert!(matches!(
        state.attach_process("t", Some(1), true),
        Err(SessionError::BackendMismatch)
    ));
    state.record_spawn("t", 5).unwrap();
    assert!(matches!(state.get("t").unwrap().backend, Backend::Pty(_)));
}

#[test]
fn interrupt_escalates_on_the_process_group() {
    let mut state = posix_with("s", "/tmp", BackendKind::Process);
    state.record_spawn("s", 200).unwrap();
    state.attach_process("s", Some(300), true).unwrap();
    state.handle_read("s", decode_chunk(b"pending"));

    let plan = state.kill_current_process("s").unwrap();
    assert_eq!(plan, vec![terminate(-300), pause(100), kill(-300), KillAction::KillChild]);

    match &state.get("s").unwrap().backend {
        Backend::Process(p) => {
            assert_eq!(p.running_processes, vec![200]);
            assert_eq!(p.process_group_id, None);
            assert!(p.current_process.is_none());
            assert_eq!(p.output_buffer, "");
        },
        Backend::Pty(_) => panic!("a process session"),
    }
    let poll = state.get_process_output("s", ChildStatus::Running).unwrap();
    assert!(matches!(poll, PollOutcome::Idle));
}

#[test]
fn interrupt_without_process_is_a_successful_no_op() {
    let mut state = posix_with("s", "/tmp", BackendKind::Process);
    assert_eq!(state.kill_current_process("s").unwrap(), vec![]);
    assert_eq!(state.kill_current_process("s").unwrap(), vec![]);
    let mut state = posix_with("t", "/tmp", BackendKind::Pty);
    assert_eq!(state.kill_current_process("t").unwrap(), vec![]);
}

#[test]
fn interrupt_of_process_without_id_kills_through_the_handle() {
    let mut state = posix_with("s", "/tmp", BackendKind::Process);
    state.attach_process("s", None, true).unwrap();
    assert_eq!(state.kill_current_process("s").unwrap(), vec![KillAction::KillChild]);
}

#[test]
fn interrupt_on_windows_kills_the_tree() {
    let mut state = AppState::new(Platform::Windows);
    state.register_session("w".to_string(), "C:\\".to_string(), BackendKind::Process).unwrap();
    state.attach_process("w", Some(42), true).unwrap();
    assert_eq!(
        state.kill_current_process("w").unwrap(),
        vec![KillAction::KillTree { pid: 42, recursive: true }, KillAction::KillChild]
    );
}

#[test]
fn close_runs_the_three_phases_in_order() {
    let mut state = posix_with("s", "/tmp", BackendKind::Process);
    state.record_spawn("s", 100).unwrap();
    state.attach_process("s", Some(101), true).unwrap();
    let plan = state.close_terminal_session("s");
    assert_eq!(
        plan,
        vec![
            terminate(-101),
            pause(100),
            kill(-101),
            KillAction::KillChild,
            terminate(-101),
            pause(100),
            kill(-101),
            terminate(100),
            pause(50),
            kill(100),
            terminate(101),
            pause(50),
            kill(101),
        ]
    );
    assert!(state.is_empty());
    assert!(!state.contains("s"));
}

#[test]
fn close_is_idempotent() {
    let mut state = posix_with("s", "/tmp", BackendKind::Process);
    assert_eq!(state.close_terminal_session("missing"), vec![]);
    assert_eq!(state.len(), 1);
    assert_eq!(state.close_terminal_session("s"), vec![]);
    assert_eq!(state.close_terminal_session("s"), vec![]);
    assert!(state.is_empty());
}

#[test]
fn create_then_close_leaves_nothing() {
    let mut state = AppState::new(Platform::Posix);
    let a = state.create_terminal_session("/tmp".to_string(), BackendKind::Process, Ok(())).unwrap();
    assert_eq!(state.close_terminal_session(a.id()), vec![]);
    let b = state.create_terminal_session("/tmp".to_string(), BackendKind::Pty, Ok(())).unwrap();
    assert_eq!(state.close_terminal_session(b.id()), vec![KillAction::ReleaseTerminal]);
    assert!(state.is_empty());
}

#[test]
fn close_on_windows_kills_each_tracked_process() {
    let mut state = AppState::new(Platform::Windows);
    state.register_session("w".to_string(), "C:\\".to_string(), BackendKind::Process).unwrap();
    state.record_spawn("w", 7).unwrap();
    state.attach_process("w", Some(8), false).unwrap();
    assert_eq!(
        state.close_terminal_session("w"),
        vec![
            KillAction::KillTree { pid: 8, recursive: true },
            KillAction::KillChild,
            KillAction::KillTree { pid: 7, recursive: false },
            KillAction::KillTree { pid: 8, recursive: false },
        ]
    );
}

#[test]
fn cleanup_all_tears_down_every_session() {
    let mut state = AppState::new(Platform::Posix);
    for (id, pid) in [("a", 10u32), ("b", 20), ("c", 30)] {
        state.register_session(id.to_string(), "/tmp".to_string(), BackendKind::Process).unwrap();
        state.attach_process(id, Some(pid), true).unwrap();
    }
    state.register_session("t".to_string(), "/tmp".to_string(), BackendKind::Pty).unwrap();
    state.register_session("idle".to_string(), "/tmp".to_string(), BackendKind::Process).unwrap();

    let plan = state.cleanup_all_terminals();
    assert!(state.is_empty());
    assert_eq!(plan.sessions.len(), 5);
    let ids: Vec<&str> = plan.sessions.iter().map(|t| t.session_id.as_str()).collect();
    assert_eq!(ids, vec!["a", "b", "c", "t", "idle"]);
    assert_eq!(
        plan.sessions[1].actions,
        vec![
            terminate(-20),
            pause(100),
            kill(-20),
            KillAction::KillChild,
            terminate(-20),
            pause(100),
            kill(-20),
            terminate(20),
            pause(50),
            kill(20),
        ]
    );
    assert_eq!(plan.sessions[3].actions, vec![KillAction::ReleaseTerminal]);
    assert_eq!(plan.sessions[4].actions, vec![]);
    assert_eq!(plan.ports, vec![1420, 1421, 1422, 1423, 3000, 5173, 8080]);

    let again = state.cleanup_all_terminals();
    assert!(again.sessions.is_empty());
    assert_eq!(again.ports, vec![1420, 1421, 1422, 1423, 3000, 5173, 8080]);
}

#[test]
fn terminal_input_is_passed_unchanged() {
    let state = posix_with("t", "/tmp", BackendKind::Pty);
    assert_eq!(state.write_input("t", "ls\r").unwrap(), "ls\r");
    assert_eq!(state.write_input("t", "").unwrap(), "");
    let state = posix_with("s", "/tmp", BackendKind::Process);
    assert!(matches!(state.write_input("s", "ls"), Err(SessionError::BackendMismatch)));
}

#[test]
fn terminal_round_trip_publishes_what_was_written() {
    let mut state = posix_with("t", "/tmp", BackendKind::Pty);
    let written = state.write_input("t", "echo h\u{e9}\n").unwrap();
    let step = state.handle_read("t", decode_chunk(written.as_bytes()));
    assert!(step.keep_reading);
    let event = step.publish.expect("terminal output is published");
    assert_eq!(event.session_id(), "t");
    assert_eq!(event.output(), "echo h\u{e9}\n");
    assert_eq!(event.exit_code(), None);
}

#[test]
fn terminal_stream_end_closes_the_writer() {
    let mut state = posix_with("t", "/tmp", BackendKind::Pty);
    let step = state.handle_read("t", decode_chunk(b""));
    assert!(!step.keep_reading);
    assert!(step.publish.is_none());
    match state.write_input("t", "x") {
        Err(SessionError::Io(IoStage::WriteTerminal, reason)) => {
            assert_eq!(reason, "terminal is closed");
        },
        other => panic!("expected a failed transfer, got {:?}", other),
    }
    assert_eq!(
        state.write_input("t", "x").unwrap_err().message(),
        "Failed to write to terminal: terminal is closed"
    );
    assert_eq!(state.len(), 1);
}

#[test]
fn read_failure_is_published_and_ends_the_reader() {
    let mut state = posix_with("s", "/tmp", BackendKind::Process);
    let step = state.handle_read("s", ReadEvent::Failed("broken pipe".to_string()));
    assert!(!step.keep_reading);
    let event = step.publish.expect("a diagnostic is published");
    assert_eq!(event.session_id(), "s");
    assert_eq!(event.output(), "Read error: broken pipe");
    assert_eq!(event.exit_code(), None);
    assert_eq!(state.len(), 1);
}

#[test]
fn reader_of_a_closed_session_stops() {
    let mut state = AppState::new(Platform::Posix);
    let step = state.handle_read("gone", decode_chunk(b"late"));
    assert!(!step.keep_reading);
    assert!(step.publish.is_none());
    let step = state.handle_read("gone", ReadEvent::Closed);
    assert!(!step.keep_reading);
}

#[test]
fn decode_chunk_tells_data_from_end_of_stream() {
    assert!(matches!(decode_chunk(b""), ReadEvent::Closed));
    match decode_chunk(&[0x68, 0x69, 0x80]) {
        ReadEvent::Text(text) => assert_eq!(text, "hi\u{fffd}"),
        other => panic!("expected text, got {:?}", other),
    }
}

#[test]
fn prepare_terminal_uses_the_default_geometry() {
    let state = posix_with("t", "/home/me", BackendKind::Pty);
    let launch = state.prepare_terminal("t", "/bin/zsh").unwrap();
    assert_eq!(launch.shell, "/bin/zsh");
    assert_eq!(launch.working_directory, "/home/me");
    assert_eq!(launch.term, "xterm-256color");
    assert_eq!(launch.rows, 24);
    assert_eq!(launch.cols, 80);
    let state = posix_with("s", "/tmp", BackendKind::Process);
    assert!(matches!(
        state.prepare_terminal("s", "/bin/zsh"),
        Err(SessionError::BackendMismatch)
    ));
}

#[test]
fn error_messages() {
    assert_eq!(SessionError::NotFound.message(), "Terminal session not found");
    assert_eq!(SessionError::NoActiveProcess.message(), "No active process to send input to");
    assert_eq!(
        SessionError::ProcessAttached.message(),
        "A process is already running in this session"
    );
    assert_eq!(
        SessionError::BackendMismatch.message(),
        "Operation not supported by this session"
    );
    assert_eq!(SessionError::IdInUse.message(), "Terminal session already exists");
    assert_eq!(
        SessionError::Spawn("No such file or directory".to_string()).message(),
        "Failed to spawn command: No such file or directory"
    );
    assert_eq!(
        SessionError::Io(IoStage::SendInput, "broken pipe".to_string()).message(),
        "Failed to send input: broken pipe"
    );
    assert_eq!(
        SessionError::Io(IoStage::FlushInput, "broken pipe".to_string()).message(),
        "Failed to flush input: broken pipe"
    );
    assert_eq!(
        SessionError::Io(IoStage::Execute, "interrupted".to_string()).message(),
        "Failed to execute command: interrupted"
    );
    assert_eq!(
        SessionError::Io(IoStage::WriteTerminal, "closed".to_string()).message(),
        "Failed to write to terminal: closed"
    );
}

#[test]
fn polls_hand_out_every_delivery_in_order() {
    let mut state = posix_with("s", "/tmp", BackendKind::Process);
    state.attach_process("s", Some(900), true).unwrap();
    let lines = ["alpha", "beta", "gamma", "delta", "epsilon", "zeta"];
    let mut collected = String::new();
    let mut delivered = String::new();
    for (i, line) in lines.iter().enumerate() {
        let sent = state.send_input_to_process("s", line).unwrap();
        assert_eq!(sent, format!("{}\n", line));
        let step = state.handle_read("s", decode_chunk(sent.as_bytes()));
        assert!(step.keep_reading);
        delivered.push_str(&sent);
        if i % 2 == 1 {
            let poll = state.get_process_output("s", ChildStatus::Running).unwrap();
            collected.push_str(&poll.to_wire());
            assert_eq!(collected, delivered);
        }
    }
    state.handle_read("s", decode_chunk(b"last"));
    match state.get_process_output("s", ChildStatus::Exited(Some(0))).unwrap() {
        PollOutcome::Exited { output, code } => {
            collected.push_str(&output);
            assert_eq!(code, Some(0));
        },
        other => panic!("expected exit, got {:?}", other),
    }
    assert_eq!(collected, "alpha\nbeta\ngamma\ndelta\nepsilon\nzeta\nlast");
}

#[test]
fn one_shot_command_leaves_the_session_idle() {
    let mut state = posix_with("s", "/work", BackendKind::Process);
    for command in ["true", "ls -la", "exit 3"] {
        state.prepare_command("s", command, false).unwrap();
        state.record_spawn("s", 1000).unwrap();
        let poll = state.get_process_output("s", ChildStatus::Exited(Some(3))).unwrap();
        assert_eq!(poll.to_wire(), "__NO_PROCESS__");
    }
    match &state.get("s").unwrap().backend {
        Backend::Process(p) => {
            assert_eq!(p.running_processes, vec![1000, 1000, 1000]);
            assert_eq!(p.process_group_id, Some(1000));
            assert!(!p.is_interactive);
        },
        Backend::Pty(_) => panic!("a process session"),
    }
}

#[test]
fn items_are_reachable_from_the_crate_root() {
    let mut state = terminal_sessions::AppState::new(terminal_sessions::Platform::Posix);
    let session: terminal_sessions::TerminalSession = state
        .create_terminal_session("/".to_string(), terminal_sessions::BackendKind::Process, Ok(()))
        .unwrap();
    let data: &terminal_sessions::TerminalSessionData = state.get(session.id()).unwrap();
    assert_eq!(data.session.id(), session.id());
    assert_eq!(data.kind(), terminal_sessions::BackendKind::Process);
    let copy = session.clone();
    assert_eq!(copy.id(), session.id());
    let output = terminal_sessions::TerminalOutput::new("s".to_string(), "o".to_string(), Some(2));
    assert_eq!(output.exit_code(), Some(2));
    let info = terminal_sessions::FileInfo::new("n".to_string(), "/n".to_string(), true, 0);
    assert!(info.is_directory());
    assert_eq!(terminal_sessions::SessionError::NotFound.message(), "Terminal session not found");
}

#[test]
fn identifier_is_not_reused_after_close() {
    let mut state = posix_with("s1", "/tmp", BackendKind::Process);
    assert!(state.was_issued("s1"));
    assert!(!state.was_issued("s2"));
    assert_eq!(state.close_terminal_session("s1"), vec![]);
    assert!(!state.contains("s1"));
    assert!(state.was_issued("s1"));
    let again =
        state.register_session("s1".to_string(), "/tmp".to_string(), BackendKind::Process);
    assert!(matches!(again, Err(SessionError::IdInUse)));
    assert!(state.is_empty());
    state.register_session("s2".to_string(), "/tmp".to_string(), BackendKind::Process).unwrap();
    assert_eq!(state.len(), 1);
}

#[test]
fn identifiers_are_not_reused_after_cleanup() {
    let mut state = AppState::new(Platform::Posix);
    for id in ["a", "b"] {
        state.register_session(id.to_string(), "/tmp".to_string(), BackendKind::Pty).unwrap();
    }
    state.close_terminal_session("a");
    state.cleanup_all_terminals();
    for id in ["a", "b"] {
        assert!(state.was_issued(id));
        let again = state.register_session(id.to_string(), "/".to_string(), BackendKind::Pty);
        assert!(matches!(again, Err(SessionError::IdInUse)));
    }
    assert!(state.is_empty());
    let fresh = state.create_terminal_session("/".to_string(), BackendKind::Process, Ok(()));
    assert!(fresh.is_ok());
}

#[test]
fn creation_fails_when_the_backend_did_not_start() {
    let mut state = posix_with("s", "/tmp", BackendKind::Process);
    let failed = state.create_terminal_session(
        "/no/such/dir".to_string(),
        BackendKind::Process,
        Err("No such file or directory (os error 2)".to_string()),
    );
    match failed {
        Err(SessionError::Spawn(reason)) => {
            assert_eq!(reason, "No such file or directory (os error 2)");
        },
        other => panic!("expected a spawn failure, got {:?}", other),
    }
    assert_eq!(state.len(), 1);
    assert!(state.contains("s"));
    let failed = state.create_terminal_session(
        "/tmp".to_string(),
        BackendKind::Pty,
        Err("out of pseudo-terminals".to_string()),
    );
    assert_eq!(
        failed.unwrap_err().message(),
        "Failed to spawn command: out of pseudo-terminals"
    );
    assert_eq!(state.len(), 1);
}

#[test]
fn teardown_signals_only_what_can_be_a_process() {
    let mut state = posix_with("s", "/tmp", BackendKind::Process);
    state.record_spawn("s", 0).unwrap();
    state.record_spawn("s", u32::MAX).unwrap();
    state.record_spawn("s", 0x8000_0000).unwrap();
    match &state.get("s").unwrap().backend {
        Backend::Process(p) => assert_eq!(p.process_group_id, None),
        Backend::Pty(_) => panic!("a process session"),
    }
    state.attach_process("s", Some(0), true).unwrap();
    assert_eq!(state.kill_current_process("s").unwrap(), vec![KillAction::KillChild]);
    state.attach_process("s", Some(1), true).unwrap();
    assert_eq!(
        state.close_terminal_session("s"),
        vec![KillAction::KillChild, terminate(1), pause(50), kill(1)]
    );

    let mut state = AppState::new(Platform::Windows);
    state.register_session("w".to_string(), "C:\\".to_string(), BackendKind::Process).unwrap();
    state.attach_process("w", Some(0), false).unwrap();
    assert_eq!(state.close_terminal_session("w"), vec![KillAction::KillChild]);
}
