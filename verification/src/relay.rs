//! The relay between the host's terminal and a command in the guest.
//!
//! A command runs on a channel that delivers messages. What is kept of them, when
//! the command is over, and which exit code it had is decided here.
use vstd::prelude::*;

use crate::text::{from_utf8_lossy, lossy_text};

verus! {

/// Captured output from a non-interactive command.
pub struct ExecOutput {
    pub exit_code: i32,
    pub stdout: String,
    pub stderr: String,
}

/// A signal by its name.
#[derive(Clone, Copy, Debug, PartialEq, Eq, Structural)]
pub enum Sig {
    ABRT,
    ALRM,
    FPE,
    HUP,
    ILL,
    INT,
    KILL,
    PIPE,
    QUIT,
    SEGV,
    TERM,
    USR1,
    /// Any other signal.
    Custom,
}

/// The number of a signal; 0 where it is not known.
pub open spec fn signal_number(sig: Sig) -> i32 {
    match sig {
        Sig::HUP => 1,
        Sig::INT => 2,
        Sig::QUIT => 3,
        Sig::ILL => 4,
        Sig::ABRT => 6,
        Sig::FPE => 8,
        Sig::KILL => 9,
        Sig::USR1 => 10,
        Sig::SEGV => 11,
        Sig::PIPE => 13,
        Sig::ALRM => 14,
        Sig::TERM => 15,
        Sig::Custom => 0,
    }
}

/// The number of a signal; 0 where it is not known.
pub fn sig_to_num(sig: &Sig) -> (r: i32)
    ensures
        r == signal_number(*sig),
{
    match sig {
        Sig::HUP => 1,
        Sig::INT => 2,
        Sig::QUIT => 3,
        Sig::ILL => 4,
        Sig::ABRT => 6,
        Sig::FPE => 8,
        Sig::KILL => 9,
        Sig::USR1 => 10,
        Sig::SEGV => 11,
        Sig::PIPE => 13,
        Sig::ALRM => 14,
        Sig::TERM => 15,
        Sig::Custom => 0,
    }
}

/// A message from the channel that a command runs on.
pub enum ChannelMsg {
    /// Bytes that the command wrote to its standard output.
    Data(Vec<u8>),
    /// Bytes that the command wrote to its standard error.
    ExtendedData(Vec<u8>),
    /// The command ended by itself.
    ExitStatus(u32),
    /// The command was killed by a signal.
    ExitSignal(Sig),
    /// The command writes no more.
    Eof,
    /// The channel is closed.
    Close,
    /// Anything else.
    Other,
}

// ---------------------------------------------------------------------------
// When a command is over
// ---------------------------------------------------------------------------

/// What is known of the end of a command.
#[derive(Clone, Copy, Debug, PartialEq, Eq, Structural)]
pub struct Ending {
    /// The exit code, 1 as long as none is known.
    pub exit_code: i32,
    /// Whether the command writes no more.
    pub got_eof: bool,
    /// Whether the command has ended.
    pub got_exit: bool,
    /// Whether the watch is over.
    pub finished: bool,
}

/// The exit code of a command that was killed by a signal.
pub open spec fn signal_code(sig: Sig) -> i32 {
    if signal_number(sig) > 0 {
        (128 + signal_number(sig)) as i32
    } else {
        1
    }
}

/// Nothing is known yet.
pub open spec fn no_ending() -> Ending {
    Ending { exit_code: 1, got_eof: false, got_exit: false, finished: false }
}

/// What is known after a message; `None` stands for the end of the channel. The end
/// of the output may come before or after the exit status, so the watch goes on
/// until both are there or the channel is gone. Where `signals` is false, a message
/// that the command was killed makes no difference.
pub open spec fn ending_after(e: Ending, msg: Option<ChannelMsg>, signals: bool) -> Ending {
    match msg {
        None => Ending { finished: true, ..e },
        Some(ChannelMsg::Close) => Ending { finished: true, ..e },
        Some(ChannelMsg::Eof) => Ending { got_eof: true, finished: e.got_exit, ..e },
        Some(ChannelMsg::ExitStatus(n)) => Ending {
            exit_code: n as i32,
            got_exit: true,
            finished: e.got_eof,
            ..e
        },
        Some(ChannelMsg::ExitSignal(sig)) => if signals {
            Ending { exit_code: signal_code(sig), got_exit: true, finished: e.got_eof, ..e }
        } else {
            e
        },
        _ => e,
    }
}

/// What is known after some messages; those behind the end of the watch are not
/// read.
pub open spec fn ending_of(e: Ending, msgs: Seq<ChannelMsg>, signals: bool) -> Ending
    decreases msgs.len(),
{
    if e.finished || msgs.len() == 0 {
        e
    } else {
        ending_of(ending_after(e, Some(msgs[0]), signals), msgs.skip(1), signals)
    }
}

impl Ending {
    /// Nothing is known yet.
    pub fn new() -> (r: Self)
        ensures
            r == no_ending(),
    {
        Ending { exit_code: 1, got_eof: false, got_exit: false, finished: false }
    }

    /// Take note of a message; `None` stands for the end of the channel.
    pub fn note(&mut self, msg: &Option<ChannelMsg>, signals: bool)
        ensures
            *final(self) == ending_after(*old(self), *msg, signals),
    {
        match msg {
            None => {
                self.finished = true;
            },
            Some(ChannelMsg::Close) => {
                self.finished = true;
            },
            Some(ChannelMsg::Eof) => {
                self.got_eof = true;
                self.finished = self.got_exit;
            },
            Some(ChannelMsg::ExitStatus(n)) => {
                self.exit_code = *n as i32;
                self.got_exit = true;
                self.finished = self.got_eof;
            },
            Some(ChannelMsg::ExitSignal(sig)) => {
                if signals {
                    let n = sig_to_num(sig);
                    self.exit_code = if n > 0 {
                        128 + n
                    } else {
                        1
                    };
                    self.got_exit = true;
                    self.finished = self.got_eof;
                }
            },
            _ => {},
        }
    }
}

// ---------------------------------------------------------------------------
// Non-interactive commands
// ---------------------------------------------------------------------------

/// Where the bytes of a message go.
#[derive(Clone, Copy, Debug, PartialEq, Eq, Structural)]
pub enum Stream {
    Stdout,
    Stderr,
    Nowhere,
}

/// The bytes of a message.
pub open spec fn payload(msg: Option<ChannelMsg>, stream: Stream) -> Seq<u8> {
    match msg {
        Some(ChannelMsg::Data(data)) if stream == Stream::Stdout => data@,
        Some(ChannelMsg::ExtendedData(data)) if stream == Stream::Stderr => data@,
        _ => seq![],
    }
}

/// The stream that the bytes of a message belong to.
pub open spec fn stream_of(msg: Option<ChannelMsg>) -> Stream {
    match msg {
        Some(ChannelMsg::Data(_)) => Stream::Stdout,
        Some(ChannelMsg::ExtendedData(_)) => Stream::Stderr,
        _ => Stream::Nowhere,
    }
}

/// The stream that the bytes of a message belong to.
pub fn route(msg: &Option<ChannelMsg>) -> (r: Stream)
    ensures
        r == stream_of(*msg),
{
    match msg {
        Some(ChannelMsg::Data(_)) => Stream::Stdout,
        Some(ChannelMsg::ExtendedData(_)) => Stream::Stderr,
        _ => Stream::Nowhere,
    }
}

/// A command whose output is captured. No PTY, no stdin.
pub struct Capture {
    pub ending: Ending,
    pub stdout: Vec<u8>,
    pub stderr: Vec<u8>,
}

impl Capture {
    /// A command that has just been started.
    pub fn new() -> (r: Self)
        ensures
            r.ending == no_ending(),
            r.stdout@ == Seq::<u8>::empty(),
            r.stderr@ == Seq::<u8>::empty(),
    {
        Capture { ending: Ending::new(), stdout: Vec::new(), stderr: Vec::new() }
    }

    /// Take in one message; `None` stands for the end of the channel.
    pub fn feed(&mut self, msg: &Option<ChannelMsg>)
        ensures
            final(self).ending == ending_after(old(self).ending, *msg, false),
            final(self).stdout@ == old(self).stdout@ + payload(*msg, Stream::Stdout),
            final(self).stderr@ == old(self).stderr@ + payload(*msg, Stream::Stderr),
    {
        match msg {
            Some(ChannelMsg::Data(data)) => {
                self.stdout.extend_from_slice(data.as_slice());
            },
            Some(ChannelMsg::ExtendedData(data)) => {
                self.stderr.extend_from_slice(data.as_slice());
            },
            _ => {},
        }
        self.ending.note(msg, false);
        assert(self.stdout@ =~= old(self).stdout@ + payload(*msg, Stream::Stdout));
        assert(self.stderr@ =~= old(self).stderr@ + payload(*msg, Stream::Stderr));
    }

    /// The captured output.
    pub fn output(&self) -> (r: ExecOutput)
        ensures
            r.exit_code == self.ending.exit_code,
            r.stdout@ == lossy_text(self.stdout@),
            r.stderr@ == lossy_text(self.stderr@),
    {
        ExecOutput {
            exit_code: self.ending.exit_code,
            stdout: from_utf8_lossy(&self.stdout),
            stderr: from_utf8_lossy(&self.stderr),
        }
    }
}

/// All bytes that some messages hold for a stream, up to the end of the watch.
pub open spec fn captured(e: Ending, msgs: Seq<ChannelMsg>, stream: Stream) -> Seq<u8>
    decreases msgs.len(),
{
    if e.finished || msgs.len() == 0 {
        seq![]
    } else {
        payload(Some(msgs[0]), stream) + captured(
            ending_after(e, Some(msgs[0]), false),
            msgs.skip(1),
            stream,
        )
    }
}

/// Capture a command whose channel delivers the given messages and then ends.
/// Returns the exit code plus captured output.
pub fn exec_capture(msgs: Vec<ChannelMsg>) -> (r: ExecOutput)
    ensures
        r.exit_code == ending_of(no_ending(), msgs@, false).exit_code,
        r.stdout@ == lossy_text(captured(no_ending(), msgs@, Stream::Stdout)),
        r.stderr@ == lossy_text(captured(no_ending(), msgs@, Stream::Stderr)),
{
    let ghost all = msgs@;
    let mut rest = msgs;
    let mut c = Capture::new();
    assert(c.stdout@ + captured(no_ending(), all, Stream::Stdout) == captured(
        no_ending(),
        all,
        Stream::Stdout,
    ));
    assert(c.stderr@ + captured(no_ending(), all, Stream::Stderr) == captured(
        no_ending(),
        all,
        Stream::Stderr,
    ));
    while !c.ending.finished && rest.len() > 0
        invariant
            ending_of(c.ending, rest@, false) == ending_of(no_ending(), all, false),
            c.stdout@ + captured(c.ending, rest@, Stream::Stdout) == captured(
                no_ending(),
                all,
                Stream::Stdout,
            ),
            c.stderr@ + captured(c.ending, rest@, Stream::Stderr) == captured(
                no_ending(),
                all,
                Stream::Stderr,
            ),
        decreases rest.len(),
    {
        let ghost before = c;
        let ghost queue = rest@;
        let msg = Some(rest.remove(0));
        assert(rest@ == queue.skip(1));
        assert(msg == Some(queue[0]));
        c.feed(&msg);
        assert(before.stdout@ + (payload(msg, Stream::Stdout) + captured(
            c.ending,
            rest@,
            Stream::Stdout,
        )) == c.stdout@ + captured(c.ending, rest@, Stream::Stdout));
        assert(before.stderr@ + (payload(msg, Stream::Stderr) + captured(
            c.ending,
            rest@,
            Stream::Stderr,
        )) == c.stderr@ + captured(c.ending, rest@, Stream::Stderr));
    }
    assert(c.stdout@ + captured(c.ending, rest@, Stream::Stdout) == c.stdout@);
    assert(c.stderr@ + captured(c.ending, rest@, Stream::Stderr) == c.stderr@);
    c.output()
}

// ---------------------------------------------------------------------------
// Interactive commands
// ---------------------------------------------------------------------------

/// The size of a terminal as (columns, rows), from what the terminal says; 80×24
/// where it says nothing or zeroes.
pub open spec fn size_or_default(reading: Option<(u16, u16)>) -> (u16, u16) {
    match reading {
        Some((cols, rows)) => if cols > 0 && rows > 0 {
            (cols, rows)
        } else {
            (80u16, 24u16)
        },
        None => (80u16, 24u16),
    }
}

/// The size of a terminal as (columns, rows).
pub fn terminal_size(reading: Option<(u16, u16)>) -> (r: (u16, u16))
    ensures
        r == size_or_default(reading),
{
    match reading {
        Some((cols, rows)) => if cols > 0 && rows > 0 {
            (cols, rows)
        } else {
            (80, 24)
        },
        None => (80, 24),
    }
}

/// A PTY to ask for.
pub struct Pty {
    pub term: String,
    pub cols: u32,
    pub rows: u32,
}

/// What happens while a command is relayed.
pub enum RelayEvent {
    /// The channel delivered a message, or ended.
    Message(Option<ChannelMsg>),
    /// The host got an interrupt signal.
    Interrupt,
    /// The host got a termination signal.
    Terminate,
    /// The host's terminal changed its size; what it says of it.
    WindowChange(Option<(u16, u16)>),
    /// [`KILL_AFTER_SECS`] have passed since a signal was sent to the command.
    Overdue,
}

/// How many seconds a command has to end after a signal.
pub const KILL_AFTER_SECS: u64 = 5;

/// What is done about it.
#[derive(Clone, Copy, Debug, PartialEq, Eq, Structural)]
pub enum RelayAction {
    /// Write the bytes of the message to the host's standard output.
    WriteStdout,
    /// Write the bytes of the message to the host's standard error.
    WriteStderr,
    /// Send a signal to the command.
    SendSignal(Sig),
    /// Tell the guest's PTY its new size.
    Resize(u32, u32),
    /// Nothing.
    Wait,
    /// The command is over, with this exit code.
    Finish(i32),
}

/// Full interactive relay.
pub struct Relay {
    /// Whether a PTY is allocated.
    pub tty: bool,
    /// What is known of the end of the command.
    pub ending: Ending,
    /// Whether a signal of the host was sent to the command.
    pub signalled: bool,
    /// Whether the command was killed, as it did not end after a signal.
    pub killed: bool,
}

/// A relay that has just been started.
pub open spec fn relay_start(tty: bool) -> Relay {
    Relay { tty, ending: no_ending(), signalled: false, killed: false }
}

/// The state of the relay after an event.
pub open spec fn relay_after(r: Relay, event: RelayEvent) -> Relay {
    match event {
        RelayEvent::Message(msg) => Relay { ending: ending_after(r.ending, msg, true), ..r },
        RelayEvent::Interrupt | RelayEvent::Terminate => Relay { signalled: true, ..r },
        RelayEvent::WindowChange(_) => r,
        RelayEvent::Overdue => if !r.signalled {
            r
        } else if !r.killed {
            Relay { killed: true, ..r }
        } else {
            Relay { ending: ending_after(r.ending, None, true), ..r }
        },
    }
}

/// What the relay does about an event. A command that does not end after a signal is
/// killed, and one that does not even end then is given up.
pub open spec fn relay_action(r: Relay, event: RelayEvent) -> RelayAction {
    match event {
        RelayEvent::Message(msg) => if ending_after(r.ending, msg, true).finished {
            RelayAction::Finish(ending_after(r.ending, msg, true).exit_code)
        } else {
            match stream_of(msg) {
                Stream::Stdout => RelayAction::WriteStdout,
                Stream::Stderr => RelayAction::WriteStderr,
                Stream::Nowhere => RelayAction::Wait,
            }
        },
        RelayEvent::Interrupt => RelayAction::SendSignal(Sig::INT),
        RelayEvent::Terminate => RelayAction::SendSignal(Sig::TERM),
        RelayEvent::WindowChange(reading) => if r.tty {
            RelayAction::Resize(
                size_or_default(reading).0 as u32,
                size_or_default(reading).1 as u32,
            )
        } else {
            RelayAction::Wait
        },
        RelayEvent::Overdue => if !r.signalled {
            RelayAction::Wait
        } else if !r.killed {
            RelayAction::SendSignal(Sig::KILL)
        } else {
            RelayAction::Finish(r.ending.exit_code)
        },
    }
}

impl Relay {
    /// Start to relay a command. If stdin is a TTY, a PTY is asked for, with the
    /// terminal's type and size.
    pub fn run(tty: bool, term: Option<String>, reading: Option<(u16, u16)>) -> (r: (
        Self,
        Option<Pty>,
    ))
        ensures
            r.0 == relay_start(tty),
            r.1 is Some == tty,
            r.1 matches Some(pty) ==> {
                &&& pty.term@ == match term {
                    Some(t) => t@,
                    None => "xterm-256color"@,
                }
                &&& pty.cols == size_or_default(reading).0
                &&& pty.rows == size_or_default(reading).1
            },
    {
        let relay = Relay { tty, ending: Ending::new(), signalled: false, killed: false };
        if !tty {
            return (relay, None);
        }
        let (cols, rows) = terminal_size(reading);
        let term = match term {
            Some(t) => t,
            None => "xterm-256color".to_owned(),
        };
        (relay, Some(Pty { term, cols: cols as u32, rows: rows as u32 }))
    }

    /// What is done about an event.
    pub fn next(&mut self, event: &RelayEvent) -> (r: RelayAction)
        ensures
            *final(self) == relay_after(*old(self), *event),
            r == relay_action(*old(self), *event),
    {
        match event {
            RelayEvent::Message(msg) => {
                self.ending.note(msg, true);
                if self.ending.finished {
                    return RelayAction::Finish(self.ending.exit_code);
                }
                match route(msg) {
                    Stream::Stdout => RelayAction::WriteStdout,
                    Stream::Stderr => RelayAction::WriteStderr,
                    Stream::Nowhere => RelayAction::Wait,
                }
            },
            RelayEvent::Interrupt => {
                self.signalled = true;
                RelayAction::SendSignal(Sig::INT)
            },
            RelayEvent::Terminate => {
                self.signalled = true;
                RelayAction::SendSignal(Sig::TERM)
            },
            RelayEvent::WindowChange(reading) => {
                if self.tty {
                    let (cols, rows) = terminal_size(*reading);
                    RelayAction::Resize(cols as u32, rows as u32)
                } else {
                    RelayAction::Wait
                }
            },
            RelayEvent::Overdue => {
                if !self.signalled {
                    RelayAction::Wait
                } else if !self.killed {
                    self.killed = true;
                    RelayAction::SendSignal(Sig::KILL)
                } else {
                    self.ending.finished = true;
                    RelayAction::Finish(self.ending.exit_code)
                }
            },
        }
    }
}

// ---------------------------------------------------------------------------
// Laws
// ---------------------------------------------------------------------------

/// Whether a message says how the command ended.
pub open spec fn tells_exit(msg: ChannelMsg, signals: bool) -> bool {
    msg is ExitStatus || (signals && msg is ExitSignal)
}

/// The exit code that a message tells.
pub open spec fn told_code(msg: ChannelMsg) -> i32 {
    match msg {
        ChannelMsg::ExitStatus(n) => n as i32,
        ChannelMsg::ExitSignal(sig) => signal_code(sig),
        _ => 1,
    }
}

/// The exit code is never missed: if one message tells how the command ended and
/// the channel was not closed before it, that is the exit code, wherever among the
/// messages the end of the output stands.
pub proof fn exit_code_is_not_missed(msgs: Seq<ChannelMsg>, i: int, signals: bool)
    requires
        0 <= i < msgs.len(),
        tells_exit(msgs[i], signals),
        forall|j: int| 0 <= j < msgs.len() && j != i ==> !tells_exit(#[trigger] msgs[j], signals),
        forall|j: int| 0 <= j < i ==> !((#[trigger] msgs[j]) is Close),
    ensures
        ending_of(no_ending(), msgs, signals).exit_code == told_code(msgs[i]),
        msgs[i] matches ChannelMsg::ExitStatus(n) ==> ending_of(
            no_ending(),
            msgs,
            signals,
        ).exit_code == n as i32,
        msgs[i] matches ChannelMsg::ExitSignal(sig) ==> ending_of(
            no_ending(),
            msgs,
            signals,
        ).exit_code == signal_code(sig),
{
    lemma_exit_reached(no_ending(), msgs, i, signals);
}

proof fn lemma_exit_reached(e: Ending, msgs: Seq<ChannelMsg>, i: int, signals: bool)
    requires
        !e.finished,
        !e.got_exit,
        0 <= i < msgs.len(),
        tells_exit(msgs[i], signals),
        forall|j: int| 0 <= j < msgs.len() && j != i ==> !tells_exit(#[trigger] msgs[j], signals),
        forall|j: int| 0 <= j < i ==> !((#[trigger] msgs[j]) is Close),
    ensures
        ending_of(e, msgs, signals).exit_code == told_code(msgs[i]),
    decreases msgs.len(),
{
    let next = ending_after(e, Some(msgs[0]), signals);
    let rest = msgs.skip(1);
    if i == 0 {
        assert forall|j: int| 0 <= j < rest.len() implies !tells_exit(#[trigger] rest[j], signals) by {
            assert(rest[j] == msgs[j + 1]);
        }
        lemma_code_stays(next, rest, signals);
    } else {
        assert(!tells_exit(msgs[0], signals));
        assert(!(msgs[0] is Close));
        assert forall|j: int| 0 <= j < rest.len() && j != i - 1 implies !tells_exit(
            #[trigger] rest[j],
            signals,
        ) by {
            assert(rest[j] == msgs[j + 1]);
        }
        assert forall|j: int| 0 <= j < i - 1 implies !((#[trigger] rest[j]) is Close) by {
            assert(rest[j] == msgs[j + 1]);
        }
        lemma_exit_reached(next, rest, i - 1, signals);
    }
}

proof fn lemma_code_stays(e: Ending, msgs: Seq<ChannelMsg>, signals: bool)
    requires
        forall|j: int| 0 <= j < msgs.len() ==> !tells_exit(#[trigger] msgs[j], signals),
    ensures
        ending_of(e, msgs, signals).exit_code == e.exit_code,
    decreases msgs.len(),
{
    if !e.finished && msgs.len() > 0 {
        let rest = msgs.skip(1);
        assert forall|j: int| 0 <= j < rest.len() implies !tells_exit(#[trigger] rest[j], signals) by {
            assert(rest[j] == msgs[j + 1]);
        }
        assert(!tells_exit(msgs[0], signals));
        lemma_code_stays(ending_after(e, Some(msgs[0]), signals), rest, signals);
    }
}

/// A command of which no message tells how it ended has the exit code 1.
pub proof fn unknown_exit_is_failure(msgs: Seq<ChannelMsg>, signals: bool)
    requires
        forall|j: int| 0 <= j < msgs.len() ==> !tells_exit(#[trigger] msgs[j], signals),
    ensures
        ending_of(no_ending(), msgs, signals).exit_code == 1,
{
    lemma_code_stays(no_ending(), msgs, signals);
}

/// Whether the end of the output comes before or after the word of the exit, the
/// same is known after both, and the watch is over.
pub proof fn eof_and_exit_commute(e: Ending, exit: ChannelMsg, signals: bool)
    requires
        tells_exit(exit, signals),
        !e.got_eof,
        !e.got_exit,
    ensures
        ending_after(ending_after(e, Some(exit), signals), Some(ChannelMsg::Eof), signals)
            == ending_after(ending_after(e, Some(ChannelMsg::Eof), signals), Some(exit), signals),
        ending_after(ending_after(e, Some(exit), signals), Some(ChannelMsg::Eof), signals).finished,
{
}

/// A relay after some events.
pub open spec fn relay_through(r: Relay, events: Seq<RelayEvent>) -> Relay
    decreases events.len(),
{
    if events.len() == 0 {
        r
    } else {
        relay_after(relay_through(r, events.drop_last()), events.last())
    }
}

/// Whether an event is a signal of the host.
pub open spec fn is_signal(event: RelayEvent) -> bool {
    event is Interrupt || event is Terminate
}

/// The relay kills and gives up nothing by itself: a command is killed, or given up
/// before the channel says that it is over, only after a signal of the host. And once
/// there was one, a command that does not end is killed, and then given up.
pub proof fn only_signals_end_a_command_early(tty: bool, events: Seq<RelayEvent>)
    ensures
        ({
            let r = relay_through(relay_start(tty), events);
            let killed = relay_after(r, RelayEvent::Overdue);
            &&& r.signalled == exists|i: int| 0 <= i < events.len() && is_signal(#[trigger] events[i])
            &&& r.killed ==> r.signalled
            &&& !r.signalled ==> relay_action(r, RelayEvent::Overdue) == RelayAction::Wait
            &&& r.signalled && !r.killed ==> {
                &&& relay_action(r, RelayEvent::Overdue) == RelayAction::SendSignal(Sig::KILL)
                &&& relay_action(killed, RelayEvent::Overdue) == RelayAction::Finish(
                    r.ending.exit_code,
                )
            }
        }),
    decreases events.len(),
{
    if events.len() > 0 {
        let short = events.drop_last();
        only_signals_end_a_command_early(tty, short);
        let before = relay_through(relay_start(tty), short);
        let r = relay_through(relay_start(tty), events);
        assert(r.signalled == (before.signalled || is_signal(events.last())));
        if before.signalled {
            let i = choose|i: int| 0 <= i < short.len() && is_signal(#[trigger] short[i]);
            assert(is_signal(events[i]));
        }
        if is_signal(events.last()) {
            assert(is_signal(events[events.len() - 1]));
        }
        if exists|i: int| 0 <= i < events.len() && is_signal(#[trigger] events[i]) {
            let i = choose|i: int| 0 <= i < events.len() && is_signal(#[trigger] events[i]);
            if i < short.len() {
                assert(is_signal(short[i]));
            }
        }
    }
}

/// The exit code of a command that was killed is 128 and the number of the signal; where
/// that number is not known, it is 1.
pub proof fn killed_commands_have_these_codes(sig: Sig)
    ensures
        signal_code(sig) == match sig {
            Sig::HUP => 129i32,
            Sig::INT => 130,
            Sig::QUIT => 131,
            Sig::ILL => 132,
            Sig::ABRT => 134,
            Sig::FPE => 136,
            Sig::KILL => 137,
            Sig::USR1 => 138,
            Sig::SEGV => 139,
            Sig::PIPE => 141,
            Sig::ALRM => 142,
            Sig::TERM => 143,
            Sig::Custom => 1,
        },
{
}

/// As long as the channel is not closed, the watch is over exactly where both the end of
/// the output and the word of the exit have come, in whatever order.
pub proof fn watch_waits_for_eof_and_exit(msgs: Seq<ChannelMsg>, signals: bool)
    requires
        forall|j: int| 0 <= j < msgs.len() ==> !((#[trigger] msgs[j]) is Close),
    ensures
        ending_of(no_ending(), msgs, signals).finished == ((exists|j: int|
            0 <= j < msgs.len() && (#[trigger] msgs[j]) is Eof) && (exists|j: int|
            0 <= j < msgs.len() && ((#[trigger] msgs[j]) is ExitStatus || (signals
                && msgs[j] is ExitSignal)))),
{
    lemma_watch(no_ending(), msgs, signals);
}

proof fn lemma_watch(e: Ending, msgs: Seq<ChannelMsg>, signals: bool)
    requires
        e.finished == (e.got_eof && e.got_exit),
        forall|j: int| 0 <= j < msgs.len() ==> !((#[trigger] msgs[j]) is Close),
    ensures
        ending_of(e, msgs, signals).finished == ((e.got_eof || exists|j: int|
            0 <= j < msgs.len() && (#[trigger] msgs[j]) is Eof) && (e.got_exit || exists|j: int|
            0 <= j < msgs.len() && ((#[trigger] msgs[j]) is ExitStatus || (signals
                && msgs[j] is ExitSignal)))),
    decreases msgs.len(),
{
    if !e.finished && msgs.len() > 0 {
        let rest = msgs.skip(1);
        let next = ending_after(e, Some(msgs[0]), signals);
        assert(!(msgs[0] is Close));
        assert forall|j: int| 0 <= j < rest.len() implies !((#[trigger] rest[j]) is Close) by {
            assert(rest[j] == msgs[j + 1]);
        }
        lemma_watch(next, rest, signals);
        if exists|j: int| 0 <= j < rest.len() && (#[trigger] rest[j]) is Eof {
            let j = choose|j: int| 0 <= j < rest.len() && (#[trigger] rest[j]) is Eof;
            assert(msgs[j + 1] is Eof);
        }
        if exists|j: int| 0 <= j < msgs.len() && (#[trigger] msgs[j]) is Eof {
            let j = choose|j: int| 0 <= j < msgs.len() && (#[trigger] msgs[j]) is Eof;
            if j > 0 {
                assert(rest[j - 1] is Eof);
            }
        }
        if exists|j: int|
            0 <= j < rest.len() && ((#[trigger] rest[j]) is ExitStatus || (signals
                && rest[j] is ExitSignal)) {
            let j = choose|j: int|
                0 <= j < rest.len() && ((#[trigger] rest[j]) is ExitStatus || (signals
                    && rest[j] is ExitSignal));
            assert(msgs[j + 1] == rest[j]);
        }
        if exists|j: int|
            0 <= j < msgs.len() && ((#[trigger] msgs[j]) is ExitStatus || (signals
                && msgs[j] is ExitSignal)) {
            let j = choose|j: int|
                0 <= j < msgs.len() && ((#[trigger] msgs[j]) is ExitStatus || (signals
                    && msgs[j] is ExitSignal));
            if j > 0 {
                assert(rest[j - 1] == msgs[j]);
            }
        }
        if msgs[0] is Eof || msgs[0] is ExitStatus || msgs[0] is ExitSignal {
            assert(msgs[0] == msgs[0]);
        }
    }
}

/// The bytes of every message are captured on the stream that they belong to, in the order
/// in which they come, and nothing else is; behind the end of the watch nothing is read.
pub proof fn output_is_captured_in_order(
    e: Ending,
    data: Vec<u8>,
    rest: Seq<ChannelMsg>,
    msg: ChannelMsg,
)
    ensures
        !e.finished ==> captured(e, seq![ChannelMsg::Data(data)] + rest, Stream::Stdout) == data@
            + captured(e, rest, Stream::Stdout),
        !e.finished ==> captured(e, seq![ChannelMsg::Data(data)] + rest, Stream::Stderr)
            == captured(e, rest, Stream::Stderr),
        !e.finished ==> captured(e, seq![ChannelMsg::ExtendedData(data)] + rest, Stream::Stderr)
            == data@ + captured(e, rest, Stream::Stderr),
        !e.finished ==> captured(e, seq![ChannelMsg::ExtendedData(data)] + rest, Stream::Stdout)
            == captured(e, rest, Stream::Stdout),
        !e.finished && !(msg is Data) && !(msg is ExtendedData) ==> captured(
            e,
            seq![msg] + rest,
            Stream::Stdout,
        ) == captured(ending_after(e, Some(msg), false), rest, Stream::Stdout) && captured(
            e,
            seq![msg] + rest,
            Stream::Stderr,
        ) == captured(ending_after(e, Some(msg), false), rest, Stream::Stderr),
        e.finished ==> captured(e, rest, Stream::Stdout) == Seq::<u8>::empty() && captured(
            e,
            rest,
            Stream::Stderr,
        ) == Seq::<u8>::empty(),
        captured(e, seq![], Stream::Stdout) == Seq::<u8>::empty(),
        captured(e, seq![], Stream::Stderr) == Seq::<u8>::empty(),
{
    let a = seq![ChannelMsg::Data(data)] + rest;
    let b = seq![ChannelMsg::ExtendedData(data)] + rest;
    let c = seq![msg] + rest;
    assert(a.skip(1) =~= rest);
    assert(b.skip(1) =~= rest);
    assert(c.skip(1) =~= rest);
    if !e.finished {
        assert(captured(e, a, Stream::Stdout) =~= data@ + captured(e, rest, Stream::Stdout));
        assert(captured(e, a, Stream::Stderr) =~= captured(e, rest, Stream::Stderr));
        assert(captured(e, b, Stream::Stderr) =~= data@ + captured(e, rest, Stream::Stderr));
        assert(captured(e, b, Stream::Stdout) =~= captured(e, rest, Stream::Stdout));
        if !(msg is Data) && !(msg is ExtendedData) {
            let next = ending_after(e, Some(msg), false);
            assert(captured(e, c, Stream::Stdout) =~= captured(next, rest, Stream::Stdout));
            assert(captured(e, c, Stream::Stderr) =~= captured(next, rest, Stream::Stderr));
        }
    }
}

/// What a relay does: output goes to the stream that it belongs to, the host's signals go
/// to the command, and the relay finishes, with the exit code that was told, where the
/// end of the output and the word of the exit have both come or the channel is gone.
pub proof fn relay_passes_things_on(r: Relay, data: Vec<u8>, n: u32, sig: Sig)
    ensures
        !r.ending.finished ==> relay_action(
            r,
            RelayEvent::Message(Some(ChannelMsg::Data(data))),
        ) == RelayAction::WriteStdout,
        !r.ending.finished ==> relay_action(
            r,
            RelayEvent::Message(Some(ChannelMsg::ExtendedData(data))),
        ) == RelayAction::WriteStderr,
        relay_action(r, RelayEvent::Interrupt) == RelayAction::SendSignal(Sig::INT),
        relay_action(r, RelayEvent::Terminate) == RelayAction::SendSignal(Sig::TERM),
        relay_action(r, RelayEvent::Message(None)) == RelayAction::Finish(r.ending.exit_code),
        relay_action(r, RelayEvent::Message(Some(ChannelMsg::Close))) == RelayAction::Finish(
            r.ending.exit_code,
        ),
        relay_action(r, RelayEvent::Message(Some(ChannelMsg::Eof))) == if r.ending.got_exit {
            RelayAction::Finish(r.ending.exit_code)
        } else {
            RelayAction::Wait
        },
        relay_action(r, RelayEvent::Message(Some(ChannelMsg::ExitStatus(n))))
            == if r.ending.got_eof {
            RelayAction::Finish(n as i32)
        } else {
            RelayAction::Wait
        },
        relay_action(r, RelayEvent::Message(Some(ChannelMsg::ExitSignal(sig))))
            == if r.ending.got_eof {
            RelayAction::Finish(signal_code(sig))
        } else {
            RelayAction::Wait
        },
{
}

/// A PTY follows the size of the host's terminal, column for column and row for row; a
/// terminal that says nothing, or a zero, counts as 80 columns and 24 rows. Without a PTY
/// a new size makes no difference.
pub proof fn window_size_is_followed(r: Relay, cols: u16, rows: u16, reading: Option<(u16, u16)>)
    ensures
        cols > 0 && rows > 0 ==> size_or_default(Some((cols, rows))) == (cols, rows),
        size_or_default(Some((0u16, rows))) == (80u16, 24u16),
        size_or_default(Some((cols, 0u16))) == (80u16, 24u16),
        size_or_default(None) == (80u16, 24u16),
        r.tty ==> relay_action(r, RelayEvent::WindowChange(reading)) == RelayAction::Resize(
            size_or_default(reading).0 as u32,
            size_or_default(reading).1 as u32,
        ),
        !r.tty ==> relay_action(r, RelayEvent::WindowChange(reading)) == RelayAction::Wait,
        relay_after(r, RelayEvent::WindowChange(reading)) == r,
{
}

/// What a relay knows of the end of its command are the messages of the channel, with
/// signals counted, and none of the host's signals and sizes.
pub proof fn relay_learns_from_messages(tty: bool, events: Seq<RelayEvent>, msg: ChannelMsg)
    ensures
        ({
            let r = relay_through(relay_start(tty), events);
            &&& r.tty == tty
            &&& relay_after(r, RelayEvent::Message(Some(msg))).ending == ending_after(
                r.ending,
                Some(msg),
                true,
            )
            &&& relay_after(r, RelayEvent::Interrupt).ending == r.ending
            &&& relay_after(r, RelayEvent::Terminate).ending == r.ending
        }),
        relay_through(relay_start(tty), seq![]).ending == no_ending(),
    decreases events.len(),
{
    if events.len() > 0 {
        relay_learns_from_messages(tty, events.drop_last(), msg);
    }
}

/// Nothing that was captured is lost: a message adds its bytes behind those of its stream,
/// and leaves the other stream as it is.
pub proof fn captured_output_only_grows(
    c: &mut Capture,
    data: Vec<u8>,
    msg: &Option<ChannelMsg>,
)
    requires
        call_ensures(Capture::feed, (c, msg), ()),
    ensures
        *msg == Some(ChannelMsg::Data(data)) ==> final(c).stdout@ == old(c).stdout@ + data@
            && final(c).stderr@ == old(c).stderr@,
        *msg == Some(ChannelMsg::ExtendedData(data)) ==> final(c).stderr@ == old(c).stderr@ + data@
            && final(c).stdout@ == old(c).stdout@,
        !(*msg matches Some(ChannelMsg::Data(_))) && !(*msg matches Some(
            ChannelMsg::ExtendedData(_),
        )) ==> final(c).stdout@ == old(c).stdout@ && final(c).stderr@ == old(c).stderr@,
{
    assert(old(c).stdout@ + Seq::<u8>::empty() =~= old(c).stdout@);
    assert(old(c).stderr@ + Seq::<u8>::empty() =~= old(c).stderr@);
}

/// A PTY is asked for exactly where the host has a terminal, with its type and its size.
pub proof fn terminals_get_a_pty(
    tty: bool,
    term: Option<String>,
    cols: u16,
    rows: u16,
    r: (Relay, Option<Pty>),
)
    requires
        call_ensures(Relay::run, (tty, term, Some((cols, rows))), r),
        cols > 0,
        rows > 0,
    ensures
        r.1 is Some <==> tty,
        r.1 matches Some(pty) ==> pty.cols == cols && pty.rows == rows,
        r.1 matches Some(pty) ==> pty.term@ == (if term is Some {
            term->0@
        } else {
            "xterm-256color"@
        }),
        r.0.tty == tty,
        !r.0.signalled && !r.0.killed && !r.0.ending.finished && r.0.ending.exit_code == 1,
{
}

} // verus!
