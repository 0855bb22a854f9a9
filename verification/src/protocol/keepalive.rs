//! The keepalive exchange on the authenticated control stream.
//!
//! The client sends `PING\n` every interval and waits for `PONG\n`; the server
//! waits for `PING\n` and answers `PONG\n`. Any failure, timeout, closed
//! stream or unexpected line ends the exchange quietly.
//!
//! Each side is a state machine: the caller performs the action it is given
//! (wait for the timer, write, flush, read a line) and hands the result back as
//! the next event. An event that does not answer the last action ends the loop.
use vstd::prelude::*;

verus! {

/// `PING\n`
pub open spec fn ping_text() -> Seq<u8> {
    seq![80, 73, 78, 71, 10]
}

/// `PONG\n`
pub open spec fn pong_text() -> Seq<u8> {
    seq![80, 79, 78, 71, 10]
}

/// The bytes of `PING\n`.
pub fn ping_message() -> (m: Vec<u8>)
    ensures
        m@ == ping_text(),
{
    let m: Vec<u8> = vec![80, 73, 78, 71, 10];
    assert(m@ =~= ping_text());
    m
}

/// The bytes of `PONG\n`.
pub fn pong_message() -> (m: Vec<u8>)
    ensures
        m@ == pong_text(),
{
    let m: Vec<u8> = vec![80, 79, 78, 71, 10];
    assert(m@ =~= pong_text());
    m
}

/// How an attempt to read one newline-terminated line ended.
#[derive(Debug)]
pub enum ReadOutcome {
    /// The peer closed the stream (zero bytes read).
    Closed,
    /// Bytes up to and including the first newline (or up to the end of the stream).
    Line(Vec<u8>),
    /// The read failed.
    Failed,
    /// No line arrived in time.
    TimedOut,
}

/// What happened since the last action.
#[derive(Debug)]
pub enum KeepaliveEvent {
    /// The keepalive interval elapsed.
    Tick,
    /// The write finished; `true` when it succeeded.
    Written(bool),
    /// The flush finished; `true` when it succeeded.
    Flushed(bool),
    /// A line was read, or reading ended otherwise.
    Read(ReadOutcome),
}

/// What to do next.
#[derive(Clone, Copy, Debug, PartialEq, Eq, Structural)]
pub enum KeepaliveAction {
    /// Wait for the next interval tick.
    WaitForTick,
    /// Write `PING\n`.
    WritePing,
    /// Write `PONG\n`.
    WritePong,
    /// Flush the stream.
    Flush,
    /// Read one line, with a timeout.
    ReadLine,
    /// End the keepalive loop.
    Stop,
}

/// Where the client is in its cycle.
#[derive(Clone, Copy, Debug, PartialEq, Eq, Structural)]
pub enum ClientPhase {
    WaitingForTick,
    SendingPing,
    FlushingPing,
    AwaitingPong,
    Stopped,
}

/// Where the server is in its cycle.
#[derive(Clone, Copy, Debug, PartialEq, Eq, Structural)]
pub enum ServerPhase {
    AwaitingPing,
    SendingPong,
    FlushingPong,
    Stopped,
}

/// True when `event` is a read that delivered exactly `text`.
pub open spec fn read_line_is(event: KeepaliveEvent, text: Seq<u8>) -> bool {
    match event {
        KeepaliveEvent::Read(ReadOutcome::Line(line)) => line@ == text,
        _ => false,
    }
}

/// The client's transition: next phase, next pong count and the action to take.
pub open spec fn client_next(phase: ClientPhase, pong_count: nat, event: KeepaliveEvent) -> (
    ClientPhase,
    nat,
    KeepaliveAction,
) {
    match (phase, event) {
        (ClientPhase::WaitingForTick, KeepaliveEvent::Tick) => (
            ClientPhase::SendingPing,
            pong_count,
            KeepaliveAction::WritePing,
        ),
        (ClientPhase::SendingPing, KeepaliveEvent::Written(true)) => (
            ClientPhase::FlushingPing,
            pong_count,
            KeepaliveAction::Flush,
        ),
        (ClientPhase::FlushingPing, KeepaliveEvent::Flushed(true)) => (
            ClientPhase::AwaitingPong,
            pong_count,
            KeepaliveAction::ReadLine,
        ),
        (ClientPhase::AwaitingPong, e) => if read_line_is(e, pong_text()) {
            (ClientPhase::WaitingForTick, pong_count + 1, KeepaliveAction::WaitForTick)
        } else {
            (ClientPhase::Stopped, pong_count, KeepaliveAction::Stop)
        },
        _ => (ClientPhase::Stopped, pong_count, KeepaliveAction::Stop),
    }
}

/// The server's transition: next phase and the action to take.
pub open spec fn server_next(phase: ServerPhase, event: KeepaliveEvent) -> (
    ServerPhase,
    KeepaliveAction,
) {
    match (phase, event) {
        (ServerPhase::AwaitingPing, e) => if read_line_is(e, ping_text()) {
            (ServerPhase::SendingPong, KeepaliveAction::WritePong)
        } else {
            (ServerPhase::Stopped, KeepaliveAction::Stop)
        },
        (ServerPhase::SendingPong, KeepaliveEvent::Written(true)) => (
            ServerPhase::FlushingPong,
            KeepaliveAction::Flush,
        ),
        (ServerPhase::FlushingPong, KeepaliveEvent::Flushed(true)) => (
            ServerPhase::AwaitingPing,
            KeepaliveAction::ReadLine,
        ),
        _ => (ServerPhase::Stopped, KeepaliveAction::Stop),
    }
}

fn line_equals(line: &Vec<u8>, text: &Vec<u8>) -> (eq: bool)
    ensures
        eq == (line@ == text@),
{
    crate::protocol::encoding::bytes_equal(line.as_slice(), text.as_slice())
}

/// The client side of the keepalive exchange.
pub struct KeepaliveClient {
    pub phase: ClientPhase,
    /// Number of `PONG` replies received so far.
    pub pong_count: usize,
}

impl KeepaliveClient {
    /// A client that waits for its first tick and has seen no `PONG` yet.
    pub fn new() -> (client: Self)
        ensures
            client.phase == ClientPhase::WaitingForTick,
            client.pong_count == 0,
    {
        KeepaliveClient { phase: ClientPhase::WaitingForTick, pong_count: 0 }
    }

    /// Takes the result of the last action and returns the next action.
    pub fn step(&mut self, event: KeepaliveEvent) -> (action: KeepaliveAction)
        requires
            old(self).pong_count < usize::MAX,
        ensures
            (final(self).phase, final(self).pong_count as nat, action) == client_next(
                old(self).phase,
                old(self).pong_count as nat,
                event,
            ),
    {
        match self.phase {
            ClientPhase::WaitingForTick => match event {
                KeepaliveEvent::Tick => {
                    self.phase = ClientPhase::SendingPing;
                    KeepaliveAction::WritePing
                },
                _ => {
                    self.phase = ClientPhase::Stopped;
                    KeepaliveAction::Stop
                },
            },
            ClientPhase::SendingPing => match event {
                KeepaliveEvent::Written(true) => {
                    self.phase = ClientPhase::FlushingPing;
                    KeepaliveAction::Flush
                },
                _ => {
                    self.phase = ClientPhase::Stopped;
                    KeepaliveAction::Stop
                },
            },
            ClientPhase::FlushingPing => match event {
                KeepaliveEvent::Flushed(true) => {
                    self.phase = ClientPhase::AwaitingPong;
                    KeepaliveAction::ReadLine
                },
                _ => {
                    self.phase = ClientPhase::Stopped;
                    KeepaliveAction::Stop
                },
            },
            ClientPhase::AwaitingPong => {
                let pong = pong_message();
                let is_pong = match &event {
                    KeepaliveEvent::Read(ReadOutcome::Line(line)) => line_equals(line, &pong),
                    _ => false,
                };
                if is_pong {
                    self.phase = ClientPhase::WaitingForTick;
                    self.pong_count = self.pong_count + 1;
                    KeepaliveAction::WaitForTick
                } else {
                    self.phase = ClientPhase::Stopped;
                    KeepaliveAction::Stop
                }
            },
            ClientPhase::Stopped => KeepaliveAction::Stop,
        }
    }
}

/// The server side of the keepalive exchange.
pub struct KeepaliveServer {
    pub phase: ServerPhase,
}

impl KeepaliveServer {
    /// A server waiting for the first `PING`.
    pub fn new() -> (server: Self)
        ensures
            server.phase == ServerPhase::AwaitingPing,
    {
        KeepaliveServer { phase: ServerPhase::AwaitingPing }
    }

    /// Takes the result of the last action and returns the next action.
    pub fn step(&mut self, event: KeepaliveEvent) -> (action: KeepaliveAction)
        ensures
            (final(self).phase, action) == server_next(old(self).phase, event),
    {
        match self.phase {
            ServerPhase::AwaitingPing => {
                let ping = ping_message();
                let is_ping = match &event {
                    KeepaliveEvent::Read(ReadOutcome::Line(line)) => line_equals(line, &ping),
                    _ => false,
                };
                if is_ping {
                    self.phase = ServerPhase::SendingPong;
                    KeepaliveAction::WritePong
                } else {
                    self.phase = ServerPhase::Stopped;
                    KeepaliveAction::Stop
                }
            },
            ServerPhase::SendingPong => match event {
                KeepaliveEvent::Written(true) => {
                    self.phase = ServerPhase::FlushingPong;
                    KeepaliveAction::Flush
                },
                _ => {
                    self.phase = ServerPhase::Stopped;
                    KeepaliveAction::Stop
                },
            },
            ServerPhase::FlushingPong => match event {
                KeepaliveEvent::Flushed(true) => {
                    self.phase = ServerPhase::AwaitingPing;
                    KeepaliveAction::ReadLine
                },
                _ => {
                    self.phase = ServerPhase::Stopped;
                    KeepaliveAction::Stop
                },
            },
            ServerPhase::Stopped => KeepaliveAction::Stop,
        }
    }
}

// ---------------------------------------------------------------------------
// Laws of the exchange.
/// Once stopped, a side stays stopped and keeps answering `Stop`; the client's
/// count no longer changes.
pub proof fn lemma_stopped_is_final(pong_count: nat, client_event: KeepaliveEvent, server_event: KeepaliveEvent)
    ensures
        client_next(ClientPhase::Stopped, pong_count, client_event) == (
            ClientPhase::Stopped,
            pong_count,
            KeepaliveAction::Stop,
        ),
        server_next(ServerPhase::Stopped, server_event) == (
            ServerPhase::Stopped,
            KeepaliveAction::Stop,
        ),
{
}

/// The client's count only grows, by one, and only when it reads `PONG\n`
/// while waiting for a reply.
pub proof fn lemma_pong_count_counts_pongs(phase: ClientPhase, pong_count: nat, event: KeepaliveEvent)
    ensures
        ({
            let (next_phase, next_count, _) = client_next(phase, pong_count, event);
            &&& next_count == pong_count || next_count == pong_count + 1
            &&& next_count == pong_count + 1 <==> (phase == ClientPhase::AwaitingPong
                && read_line_is(event, pong_text()))
        }),
{
}

/// The two sides fit together: the line the client writes makes a waiting
/// server answer with `PONG`, and the line the server writes is counted by a
/// client waiting for it, which then waits for the next tick.
pub proof fn lemma_ping_pong_round_trip(pong_count: nat, ping_line: Vec<u8>, pong_line: Vec<u8>)
    requires
        ping_line@ == ping_text(),
        pong_line@ == pong_text(),
    ensures
        server_next(ServerPhase::AwaitingPing, KeepaliveEvent::Read(ReadOutcome::Line(ping_line)))
            == (ServerPhase::SendingPong, KeepaliveAction::WritePong),
        client_next(
            ClientPhase::AwaitingPong,
            pong_count,
            KeepaliveEvent::Read(ReadOutcome::Line(pong_line)),
        ) == (ClientPhase::WaitingForTick, pong_count + 1, KeepaliveAction::WaitForTick),
{
}

/// A server waiting for a `PING` goes on only when it reads exactly
/// `PING\n`, and then answers `PONG`; a failed, closed or timed-out read, any
/// other line and any other event end its loop.
pub proof fn lemma_server_waiting_stops_unless_ping(event: KeepaliveEvent)
    ensures
        ({
            let reads_ping = event matches KeepaliveEvent::Read(ReadOutcome::Line(line)) && line@
                == seq![80u8, 73, 78, 71, 10];
            &&& reads_ping ==> server_next(ServerPhase::AwaitingPing, event) == (
                ServerPhase::SendingPong,
                KeepaliveAction::WritePong,
            )
            &&& !reads_ping ==> server_next(ServerPhase::AwaitingPing, event) == (
                ServerPhase::Stopped,
                KeepaliveAction::Stop,
            )
        }),
{
}

/// A server that is writing or flushing its `PONG` goes on only when that
/// write or flush succeeded; whatever else happens ends its loop. The server
/// ends its loop exactly when it moves to `Stopped`.
pub proof fn lemma_server_stops_on_failed_write_or_flush(phase: ServerPhase, event: KeepaliveEvent)
    ensures
        phase == ServerPhase::SendingPong ==> server_next(phase, event) == if event matches KeepaliveEvent::Written(
            true,
        ) {
            (ServerPhase::FlushingPong, KeepaliveAction::Flush)
        } else {
            (ServerPhase::Stopped, KeepaliveAction::Stop)
        },
        phase == ServerPhase::FlushingPong ==> server_next(phase, event) == if event matches KeepaliveEvent::Flushed(
            true,
        ) {
            (ServerPhase::AwaitingPing, KeepaliveAction::ReadLine)
        } else {
            (ServerPhase::Stopped, KeepaliveAction::Stop)
        },
        (server_next(phase, event).0 == ServerPhase::Stopped) <==> (server_next(phase, event).1
            == KeepaliveAction::Stop),
{
}

/// A client waiting for a `PONG` goes on only when it reads exactly
/// `PONG\n`, counting it; a failed, closed or timed-out read, any other line
/// and any other event end its loop with the count unchanged.
pub proof fn lemma_client_waiting_stops_unless_pong(pong_count: nat, event: KeepaliveEvent)
    ensures
        ({
            let reads_pong = event matches KeepaliveEvent::Read(ReadOutcome::Line(line)) && line@
                == seq![80u8, 79, 78, 71, 10];
            &&& reads_pong ==> client_next(ClientPhase::AwaitingPong, pong_count, event) == (
                ClientPhase::WaitingForTick,
                pong_count + 1,
                KeepaliveAction::WaitForTick,
            )
            &&& !reads_pong ==> client_next(ClientPhase::AwaitingPong, pong_count, event) == (
                ClientPhase::Stopped,
                pong_count,
                KeepaliveAction::Stop,
            )
        }),
{
}

/// The client goes on from its other phases only on the event it waits for
/// (the tick, a successful write, a successful flush); anything else ends
/// its loop. It ends its loop exactly when it moves to `Stopped`.
pub proof fn lemma_client_stops_on_unexpected_event(
    phase: ClientPhase,
    pong_count: nat,
    event: KeepaliveEvent,
)
    ensures
        phase == ClientPhase::WaitingForTick ==> client_next(phase, pong_count, event) == if event is Tick {
            (ClientPhase::SendingPing, pong_count, KeepaliveAction::WritePing)
        } else {
            (ClientPhase::Stopped, pong_count, KeepaliveAction::Stop)
        },
        phase == ClientPhase::SendingPing ==> client_next(phase, pong_count, event) == if event matches KeepaliveEvent::Written(
            true,
        ) {
            (ClientPhase::FlushingPing, pong_count, KeepaliveAction::Flush)
        } else {
            (ClientPhase::Stopped, pong_count, KeepaliveAction::Stop)
        },
        phase == ClientPhase::FlushingPing ==> client_next(phase, pong_count, event) == if event matches KeepaliveEvent::Flushed(
            true,
        ) {
            (ClientPhase::AwaitingPong, pong_count, KeepaliveAction::ReadLine)
        } else {
            (ClientPhase::Stopped, pong_count, KeepaliveAction::Stop)
        },
        (client_next(phase, pong_count, event).0 == ClientPhase::Stopped) <==> (client_next(
            phase,
            pong_count,
            event,
        ).2 == KeepaliveAction::Stop),
{
}

} // verus!
