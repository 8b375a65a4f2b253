use bio::error::BioError;
use bio::event::{
    BioEvent, ExitStatus, KeyCode, KeyModifiers, ProcessEvent, TerminalEvent,
};
use bio::format::{passthrough, EventFormat, Passthrough};
use bio::render_loop::{
    exit_code, exit_message, stdin_payload, Action, LoopState, RenderLoop, Tick,
    ABNORMAL_EXIT_CODE,
};

fn key(c: char) -> TerminalEvent {
    TerminalEvent::Key { code: KeyCode::Char(c), modifiers: KeyModifiers::none() }
}

fn enter() -> TerminalEvent {
    TerminalEvent::Key { code: KeyCode::Enter, modifiers: KeyModifiers::none() }
}

fn backspace() -> TerminalEvent {
    TerminalEvent::Key { code: KeyCode::Backspace, modifiers: KeyModifiers::none() }
}

fn ctrl_c() -> TerminalEvent {
    TerminalEvent::Key { code: KeyCode::Char('c'), modifiers: KeyModifiers::control() }
}

fn text(bytes: &[u8]) -> String {
    String::from_utf8(bytes.to_vec()).unwrap()
}

#[test]
fn new_session_runs_in_raw_mode() {
    let session = RenderLoop::new(Passthrough);
    assert_eq!(session.state(), LoopState::Running);
    assert!(!session.is_exited());
    assert!(session.raw_mode());
    assert!(!session.kill_requested());
    assert_eq!(session.exit_status(), None);
    assert_eq!(session.input(), "");
}

#[test]
fn first_tick_draws_the_prompt() {
    let mut session = RenderLoop::new(Passthrough);
    let out = session.tick(vec![], None, vec![]);
    assert_eq!(out, Tick { actions: vec![], frame: b"\x1b[2K\r> ".to_vec() });
    let idle = session.tick(vec![], None, vec![]);
    assert_eq!(idle, Tick { actions: vec![], frame: vec![] });
}

#[test]
fn child_prints_hello_and_exits_with_zero() {
    let mut session = RenderLoop::new(Passthrough);
    session.tick(vec![], None, vec![]);
    let printed = session.tick(vec![ProcessEvent::Output("hello".to_string())], None, vec![]);
    assert_eq!(text(&printed.frame), "\x1b[2K\rhello\n\r\x1b[2K\r> ");
    assert!(!session.is_exited());
    let closed = session.tick(vec![ProcessEvent::Terminate], None, vec![]);
    assert_eq!(closed, Tick { actions: vec![], frame: vec![] });
    assert!(session.is_exited());
    session.on_exit_status(ExitStatus::Code(0));
    assert_eq!(text(&session.flush()), "\x1b[2K\rProcess exited with code 0\n\r");
    assert!(!session.raw_mode());
    let status = session.exit_status().unwrap();
    assert_eq!(exit_code(status), 0);
    assert_eq!(session.finish().unwrap(), Some(ExitStatus::Code(0)));
}

#[test]
fn exit_seen_by_the_monitor_ends_the_loop_in_the_same_tick() {
    let mut session = RenderLoop::new(Passthrough);
    session.tick(vec![], None, vec![]);
    let out = session.tick(
        vec![ProcessEvent::Output("hello".to_string())],
        Some(ExitStatus::Code(0)),
        vec![key('x')],
    );
    assert_eq!(text(&out.frame), "\x1b[2K\rhello\n\r\x1b[2K\rProcess exited with code 0\n\r");
    assert_eq!(out.actions, vec![]);
    assert!(session.is_exited());
    assert_eq!(session.input(), "");
}

#[test]
fn submitted_line_reaches_the_child_and_is_shown() {
    let mut session = RenderLoop::new(Passthrough);
    session.tick(vec![], None, vec![]);
    let typed = session.tick(vec![], None, vec![key('p'), key('i'), key('n'), key('g')]);
    assert_eq!(typed.actions, vec![]);
    assert_eq!(text(&typed.frame), "\x1b[2K\r> ping");
    assert_eq!(session.input(), "ping");

    let sent = session.tick(vec![], None, vec![enter()]);
    assert_eq!(sent.actions, vec![Action::Submit("ping".to_string())]);
    assert_eq!(text(&sent.frame), "\x1b[2K\r> ");
    assert_eq!(session.input(), "");
    let line = match &sent.actions[0] {
        Action::Submit(line) => line.clone(),
        Action::Kill => panic!("a line was submitted"),
    };
    assert_eq!(stdin_payload(&line), b"ping\n");

    session.on_stdin_written();
    let echoed = session.tick(vec![ProcessEvent::Input(line)], None, vec![]);
    assert_eq!(text(&echoed.frame), "\x1b[2K\r\x1b[38;5;14mping\x1b[39m\n\r\x1b[2K\r> ");
}

#[test]
fn enter_on_an_empty_line_does_nothing() {
    let mut session = RenderLoop::new(Passthrough);
    session.tick(vec![], None, vec![]);
    let out = session.tick(vec![], None, vec![enter()]);
    assert_eq!(out, Tick { actions: vec![], frame: vec![] });
}

#[test]
fn ctrl_c_asks_for_a_kill_and_waits_for_the_exit() {
    let mut session = RenderLoop::new(Passthrough);
    session.tick(vec![], None, vec![]);
    let out = session.tick(vec![], None, vec![ctrl_c()]);
    assert_eq!(out.actions, vec![Action::Kill]);
    assert_eq!(text(&out.frame), "\x1b[2K\rStopping Process...\n\r\x1b[2K\r> ");
    assert!(session.kill_requested());
    assert!(!session.is_exited());
    assert!(session.raw_mode());

    let waiting = session.tick(vec![], None, vec![]);
    assert_eq!(waiting, Tick { actions: vec![], frame: vec![] });
    assert!(!session.is_exited());

    let ended = session.tick(vec![], Some(ExitStatus::Abnormal), vec![]);
    assert_eq!(text(&ended.frame), "\x1b[2K\rProcess exited abnormally\n\r");
    assert!(session.is_exited());
    assert!(!session.raw_mode());
    assert_eq!(exit_code(session.exit_status().unwrap()), ABNORMAL_EXIT_CODE);
}

#[test]
fn raw_mode_is_off_after_a_normal_exit() {
    let mut session = RenderLoop::new(Passthrough);
    session.tick(vec![ProcessEvent::Terminate], None, vec![]);
    assert!(session.is_exited());
    assert!(!session.raw_mode());
}

#[test]
fn raw_mode_is_off_after_a_kill() {
    let mut session = RenderLoop::new(Passthrough);
    session.tick(vec![], None, vec![ctrl_c()]);
    assert!(session.raw_mode());
    session.tick(vec![ProcessEvent::Terminate], None, vec![]);
    assert!(session.is_exited());
    assert!(!session.raw_mode());
}

#[test]
fn raw_mode_is_off_after_a_failure() {
    let mut session = RenderLoop::new(Passthrough);
    session.tick(vec![], None, vec![key('a')]);
    let error = std::io::Error::new(std::io::ErrorKind::BrokenPipe, "terminal gone");
    session.fail(BioError::from(error));
    assert!(session.is_exited());
    assert!(!session.raw_mode());
    match session.finish() {
        Err(BioError::IoError(e)) => assert_eq!(e.kind(), std::io::ErrorKind::BrokenPipe),
        other => panic!("the failure is surfaced, not {:?}", other),
    }
}

#[test]
fn only_the_first_failure_is_kept() {
    let mut session = RenderLoop::new(Passthrough);
    session.fail(BioError::from(std::io::Error::new(std::io::ErrorKind::BrokenPipe, "first")));
    session.fail(BioError::from(std::sync::mpsc::TryRecvError::Disconnected));
    assert!(matches!(session.finish(), Err(BioError::IoError(_))));
}

#[test]
fn the_loop_ends_once_however_many_terminates_arrive() {
    let mut session = RenderLoop::new(Passthrough);
    session.tick(vec![], None, vec![]);
    let out = session.tick(
        vec![
            ProcessEvent::Output("a".to_string()),
            ProcessEvent::Terminate,
            ProcessEvent::Error("late".to_string()),
            ProcessEvent::Terminate,
        ],
        None,
        vec![key('x')],
    );
    assert_eq!(text(&out.frame), "\x1b[2K\ra\n\r\x1b[2K\rlate\n\r");
    assert_eq!(out.actions, vec![]);
    assert!(session.is_exited());
    let again = session.tick(
        vec![ProcessEvent::Terminate, ProcessEvent::Output("ghost".to_string())],
        None,
        vec![key('y'), ctrl_c(), enter()],
    );
    assert_eq!(again, Tick { actions: vec![], frame: vec![] });
    assert!(session.is_exited());
    assert_eq!(session.input(), "");
}

#[test]
fn draining_goes_on_until_the_bus_is_empty() {
    let mut session = RenderLoop::new(Passthrough);
    session.on_process_event(ProcessEvent::Terminate);
    assert_eq!(session.state(), LoopState::Draining);
    assert!(session.raw_mode());
    assert_eq!(session.on_terminal_event(key('a')), None);
    assert_eq!(session.input(), "");
    session.on_process_event(ProcessEvent::Error("last words".to_string()));
    session.drained();
    assert_eq!(session.state(), LoopState::Exited);
    assert_eq!(text(&session.flush()), "\x1b[2K\rlast words\n\r");
}

#[test]
fn drained_changes_nothing_while_running() {
    let mut session = RenderLoop::new(Passthrough);
    session.drained();
    assert_eq!(session.state(), LoopState::Running);
}

#[test]
fn exit_status_is_reported_once() {
    let mut session = RenderLoop::new(Passthrough);
    session.on_exit_status(ExitStatus::Code(3));
    session.on_exit_status(ExitStatus::Code(4));
    session.on_exit_status(ExitStatus::Abnormal);
    assert_eq!(session.exit_status(), Some(ExitStatus::Code(3)));
    assert_eq!(text(&session.flush()), "\x1b[2K\rProcess exited with code 3\n\r");
}

#[test]
fn backspace_edits_the_line() {
    let mut session = RenderLoop::new(Passthrough);
    session.tick(vec![], None, vec![]);
    let out = session.tick(vec![], None, vec![key('a'), key('b'), backspace()]);
    assert_eq!(text(&out.frame), "\x1b[2K\r> a");
    let emptied = session.tick(vec![], None, vec![backspace()]);
    assert_eq!(text(&emptied.frame), "\x1b[2K\r> ");
    let nothing = session.tick(vec![], None, vec![backspace()]);
    assert_eq!(nothing.frame, b"");
}

#[test]
fn newline_character_never_enters_the_line() {
    let mut session = RenderLoop::new(Passthrough);
    session.tick(vec![], None, vec![key('a'), key('\n'), key('b')]);
    assert_eq!(session.input(), "ab");
}

#[test]
fn control_with_another_modifier_types_the_character() {
    let mut session = RenderLoop::new(Passthrough);
    let both = KeyModifiers { shift: true, control: true, alt: false };
    let out = session.tick(
        vec![],
        None,
        vec![TerminalEvent::Key { code: KeyCode::Char('c'), modifiers: both }],
    );
    assert_eq!(out.actions, vec![]);
    assert_eq!(session.input(), "c");
}

#[test]
fn other_terminal_events_are_ignored() {
    let mut session = RenderLoop::new(Passthrough);
    session.tick(vec![], None, vec![]);
    let out = session.tick(
        vec![],
        None,
        vec![
            TerminalEvent::Resize { columns: 80, rows: 24 },
            TerminalEvent::Other,
            TerminalEvent::Key { code: KeyCode::Other, modifiers: KeyModifiers::none() },
        ],
    );
    assert_eq!(out, Tick { actions: vec![], frame: vec![] });
}

#[test]
fn failed_write_to_the_child_is_said_on_screen() {
    let mut session = RenderLoop::new(Passthrough);
    session.tick(vec![], None, vec![]);
    session.on_stdin_error();
    assert!(!session.is_exited());
    let out = session.tick(vec![], None, vec![]);
    assert_eq!(text(&out.frame), "\x1b[2K\rProcess input is closed\n\r\x1b[2K\r> ");
}

#[test]
fn line_that_could_not_be_written_is_back_in_the_input() {
    let mut session = RenderLoop::new(Passthrough);
    session.tick(vec![], None, vec![key('b'), key('y'), key('e')]);
    let sent = session.tick(vec![], None, vec![enter()]);
    assert_eq!(sent.actions, vec![Action::Submit("bye".to_string())]);
    assert_eq!(session.input(), "");
    session.on_stdin_error();
    assert_eq!(session.input(), "bye");
    assert!(!session.is_exited());
    let out = session.tick(vec![], None, vec![]);
    assert_eq!(out.actions, vec![]);
    assert_eq!(text(&out.frame), "\x1b[2K\rProcess input is closed\n\r\x1b[2K\r> bye");
}

#[test]
fn restored_line_comes_before_what_was_typed_since() {
    let mut session = RenderLoop::new(Passthrough);
    let out = session.tick(vec![], None, vec![key('a'), enter(), key('b')]);
    assert_eq!(out.actions, vec![Action::Submit("a".to_string())]);
    assert_eq!(session.input(), "b");
    session.on_stdin_error();
    assert_eq!(session.input(), "ab");
}

#[test]
fn written_line_is_not_restored_by_a_later_failure() {
    let mut session = RenderLoop::new(Passthrough);
    session.tick(vec![], None, vec![key('a'), enter()]);
    session.on_stdin_written();
    session.tick(vec![], None, vec![key('b')]);
    session.on_stdin_error();
    assert_eq!(session.input(), "b");
    session.on_stdin_written();
    assert_eq!(session.input(), "b");
}

#[test]
fn outcomes_are_reported_oldest_line_first() {
    let mut session = RenderLoop::new(Passthrough);
    let out = session.tick(vec![], None, vec![key('1'), enter(), key('2'), enter(), key('3')]);
    assert_eq!(
        out.actions,
        vec![Action::Submit("1".to_string()), Action::Submit("2".to_string())]
    );
    session.on_stdin_written();
    session.on_stdin_error();
    assert_eq!(session.input(), "23");
    session.on_stdin_error();
    assert_eq!(session.input(), "23");
}

#[test]
fn closed_stream_in_the_fan_in_queue_starts_the_draining() {
    let mut session = RenderLoop::new(Passthrough);
    assert_eq!(session.handle(BioEvent::Terminate), None);
    assert_eq!(session.state(), LoopState::Draining);
    assert_eq!(session.handle(BioEvent::Error("last".to_string())), None);
    assert_eq!(session.handle(BioEvent::Terminate), None);
    assert_eq!(session.state(), LoopState::Draining);
    session.drained();
    assert!(session.is_exited());
    assert!(!session.raw_mode());
    assert_eq!(text(&session.flush()), "\x1b[2K\rlast\n\r");
}

#[test]
fn output_does_not_disturb_the_line_being_typed() {
    let mut session = RenderLoop::new(Passthrough);
    session.tick(vec![], None, vec![key('l'), key('s')]);
    let out = session.tick(vec![ProcessEvent::Output("noise".to_string())], None, vec![key(' ')]);
    assert_eq!(text(&out.frame), "\x1b[2K\rnoise\n\r\x1b[2K\r> ls ");
}

#[test]
fn fan_in_events_are_handled_one_by_one() {
    let mut session = RenderLoop::new(Passthrough);
    assert_eq!(session.handle(BioEvent::Output("o".to_string())), None);
    assert_eq!(session.handle(BioEvent::Error("e".to_string())), None);
    assert_eq!(session.handle(BioEvent::Terminal(key('k'))), None);
    assert_eq!(session.handle(BioEvent::Terminal(ctrl_c())), Some(Action::Kill));
    session.redraw();
    assert_eq!(
        text(&session.flush()),
        "\x1b[2K\ro\n\r\x1b[2K\re\n\r\x1b[2K\rStopping Process...\n\r\x1b[2K\r> k"
    );
    assert_eq!(session.handle(BioEvent::Terminated(ExitStatus::Code(1))), None);
    assert!(session.is_exited());
    assert_eq!(text(&session.flush()), "\x1b[2K\rProcess exited with code 1\n\r");
}

#[test]
fn passthrough_formats_each_kind_of_event() {
    assert_eq!(passthrough(ProcessEvent::Terminate), "Process Terminated");
    assert_eq!(passthrough(ProcessEvent::Output("out".to_string())), "out");
    assert_eq!(passthrough(ProcessEvent::Error("err".to_string())), "err");
    assert_eq!(passthrough(ProcessEvent::Input("in".to_string())), "\x1b[38;5;14min\x1b[39m");
    assert_eq!(Passthrough.format(ProcessEvent::Input("".to_string())), "\x1b[38;5;14m\x1b[39m");
}

#[test]
fn exit_line_names_the_code() {
    assert_eq!(exit_message(ExitStatus::Code(0)), "Process exited with code 0");
    assert_eq!(exit_message(ExitStatus::Code(101)), "Process exited with code 101");
    assert_eq!(exit_message(ExitStatus::Code(-1)), "Process exited with code -1");
    assert_eq!(
        exit_message(ExitStatus::Code(i32::MIN)),
        "Process exited with code -2147483648"
    );
    assert_eq!(
        exit_message(ExitStatus::Code(i32::MAX)),
        "Process exited with code 2147483647"
    );
    assert_eq!(exit_message(ExitStatus::Abnormal), "Process exited abnormally");
}

#[test]
fn wrapper_status_follows_the_child() {
    assert_eq!(exit_code(ExitStatus::Code(0)), 0);
    assert_eq!(exit_code(ExitStatus::Code(7)), 7);
    assert_eq!(exit_code(ExitStatus::Code(-3)), -3);
    assert_eq!(exit_code(ExitStatus::Abnormal), 255);
    assert_ne!(exit_code(ExitStatus::Abnormal), 0);
}

#[test]
fn payload_is_the_line_and_a_newline() {
    assert_eq!(stdin_payload("ping"), b"ping\n");
    assert_eq!(stdin_payload(""), b"\n");
    assert_eq!(stdin_payload("caf\u{e9}"), b"caf\xc3\xa9\n");
}
