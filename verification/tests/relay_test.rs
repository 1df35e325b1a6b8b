use vm_box::relay::{
    exec_capture, route, sig_to_num, terminal_size, Capture, ChannelMsg, Ending, Relay,
    RelayAction, RelayEvent, Sig, Stream, KILL_AFTER_SECS,
};

fn data(s: &str) -> ChannelMsg {
    ChannelMsg::Data(s.as_bytes().to_vec())
}

fn error(s: &str) -> ChannelMsg {
    ChannelMsg::ExtendedData(s.as_bytes().to_vec())
}

#[test]
fn output_and_exit_code_are_captured() {
    let out = exec_capture(vec![
        data("hel"),
        error("oops"),
        ChannelMsg::Other,
        data("lo"),
        ChannelMsg::ExitStatus(3),
        ChannelMsg::Eof,
        data("late"),
    ]);
    assert_eq!(out.exit_code, 3);
    assert_eq!(out.stdout, "hello");
    assert_eq!(out.stderr, "oops");
}

#[test]
fn eof_before_the_exit_status_keeps_the_exit_code() {
    let out = exec_capture(vec![data("x"), ChannelMsg::Eof, ChannelMsg::ExitStatus(42)]);
    assert_eq!(out.exit_code, 42);
    let out = exec_capture(vec![data("x"), ChannelMsg::ExitStatus(42), ChannelMsg::Eof]);
    assert_eq!(out.exit_code, 42);
}

#[test]
fn output_between_eof_and_status_is_kept() {
    let out = exec_capture(vec![ChannelMsg::Eof, error("e"), ChannelMsg::ExitStatus(0)]);
    assert_eq!((out.exit_code, out.stderr.as_str()), (0, "e"));
}

#[test]
fn a_closed_channel_ends_the_capture() {
    let out = exec_capture(vec![data("a"), ChannelMsg::Close, data("b"), ChannelMsg::ExitStatus(0)]);
    assert_eq!((out.exit_code, out.stdout.as_str()), (1, "a"));
}

#[test]
fn without_an_exit_status_the_exit_code_is_one() {
    assert_eq!(exec_capture(vec![]).exit_code, 1);
    assert_eq!(exec_capture(vec![ChannelMsg::Eof]).exit_code, 1);
    assert_eq!(exec_capture(vec![ChannelMsg::ExitSignal(Sig::KILL)]).exit_code, 1);
}

#[test]
fn large_exit_statuses_wrap() {
    assert_eq!(exec_capture(vec![ChannelMsg::ExitStatus(u32::MAX)]).exit_code, -1);
}

#[test]
fn output_that_is_not_utf8_is_captured_with_replacements() {
    let out = exec_capture(vec![ChannelMsg::Data(vec![b'a', 0xff, b'b'])]);
    assert_eq!(out.stdout, "a\u{fffd}b");
}

#[test]
fn a_capture_can_be_fed_by_hand() {
    let mut c = Capture::new();
    c.feed(&Some(data("a")));
    assert!(!c.ending.finished);
    c.feed(&None);
    assert!(c.ending.finished);
    assert_eq!(c.output().stdout, "a");
}

#[test]
fn signals_have_their_posix_numbers() {
    let expected = [
        (Sig::HUP, 1), (Sig::INT, 2), (Sig::QUIT, 3), (Sig::ILL, 4), (Sig::ABRT, 6), (Sig::FPE, 8),
        (Sig::KILL, 9), (Sig::USR1, 10), (Sig::SEGV, 11), (Sig::PIPE, 13), (Sig::ALRM, 14),
        (Sig::TERM, 15), (Sig::Custom, 0),
    ];
    for (sig, n) in expected {
        assert_eq!(sig_to_num(&sig), n);
    }
}

#[test]
fn killed_commands_have_128_and_the_signal_as_exit_code() {
    let code = |sig| {
        let mut e = Ending::new();
        e.note(&Some(ChannelMsg::ExitSignal(sig)), true);
        e.exit_code
    };
    assert_eq!(code(Sig::INT), 130);
    assert_eq!(code(Sig::KILL), 137);
    assert_eq!(code(Sig::TERM), 143);
    assert_eq!(code(Sig::Custom), 1);
}

#[test]
fn the_terminal_size_falls_back() {
    assert_eq!(terminal_size(None), (80, 24));
    assert_eq!(terminal_size(Some((0, 50))), (80, 24));
    assert_eq!(terminal_size(Some((120, 0))), (80, 24));
    assert_eq!(terminal_size(Some((120, 50))), (120, 50));
}

#[test]
fn bytes_are_routed_to_their_streams() {
    assert_eq!(route(&Some(data("x"))), Stream::Stdout);
    assert_eq!(route(&Some(error("x"))), Stream::Stderr);
    assert_eq!(route(&Some(ChannelMsg::Eof)), Stream::Nowhere);
    assert_eq!(route(&None), Stream::Nowhere);
}

#[test]
fn a_relay_asks_for_a_pty_only_on_a_terminal() {
    let (_, pty) = Relay::run(false, Some("vt100".to_string()), Some((100, 40)));
    assert!(pty.is_none());
    let (_, pty) = Relay::run(true, Some("vt100".to_string()), Some((100, 40)));
    let pty = pty.unwrap();
    assert_eq!((pty.term.as_str(), pty.cols, pty.rows), ("vt100", 100, 40));
    let (_, pty) = Relay::run(true, None, None);
    let pty = pty.unwrap();
    assert_eq!((pty.term.as_str(), pty.cols, pty.rows), ("xterm-256color", 80, 24));
}

#[test]
fn a_relay_forwards_and_finishes() {
    let (mut relay, _) = Relay::run(true, None, None);
    let msg = |m| RelayEvent::Message(Some(m));
    assert_eq!(relay.next(&msg(data("x"))), RelayAction::WriteStdout);
    assert_eq!(relay.next(&msg(error("x"))), RelayAction::WriteStderr);
    assert_eq!(relay.next(&RelayEvent::Interrupt), RelayAction::SendSignal(Sig::INT));
    assert_eq!(relay.next(&RelayEvent::Terminate), RelayAction::SendSignal(Sig::TERM));
    assert_eq!(relay.next(&RelayEvent::WindowChange(Some((90, 30)))), RelayAction::Resize(90, 30));
    assert_eq!(relay.next(&msg(ChannelMsg::Eof)), RelayAction::Wait);
    assert_eq!(relay.next(&msg(data("y"))), RelayAction::WriteStdout);
    assert_eq!(relay.next(&msg(ChannelMsg::ExitSignal(Sig::INT))), RelayAction::Finish(130));
}

#[test]
fn a_relay_without_a_terminal_ignores_its_size() {
    let (mut relay, _) = Relay::run(false, None, None);
    assert_eq!(relay.next(&RelayEvent::WindowChange(Some((90, 30)))), RelayAction::Wait);
    assert_eq!(relay.next(&RelayEvent::Message(None)), RelayAction::Finish(1));
}

#[test]
fn a_command_that_ignores_signals_is_killed_and_given_up() {
    let (mut relay, _) = Relay::run(false, None, None);
    assert_eq!(relay.next(&RelayEvent::Overdue), RelayAction::Wait);
    assert_eq!(relay.next(&RelayEvent::Terminate), RelayAction::SendSignal(Sig::TERM));
    assert_eq!(relay.next(&RelayEvent::Overdue), RelayAction::SendSignal(Sig::KILL));
    assert_eq!(relay.next(&RelayEvent::Overdue), RelayAction::Finish(1));
    assert_eq!(KILL_AFTER_SECS, 5);
}

#[test]
fn a_killed_command_has_the_code_of_the_signal() {
    let (mut relay, _) = Relay::run(false, None, None);
    assert_eq!(relay.next(&RelayEvent::Interrupt), RelayAction::SendSignal(Sig::INT));
    assert_eq!(relay.next(&RelayEvent::Overdue), RelayAction::SendSignal(Sig::KILL));
    let killed = RelayEvent::Message(Some(ChannelMsg::ExitSignal(Sig::KILL)));
    assert_eq!(relay.next(&killed), RelayAction::Wait);
    assert_eq!(relay.next(&RelayEvent::Message(Some(ChannelMsg::Eof))), RelayAction::Finish(137));
}
