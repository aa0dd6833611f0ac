//! TCP connections over the modem: the events the modem reports for a
//! connection, and the decisions taken on them while connecting, writing
//! and reading.

use vstd::prelude::*;
use crate::error::{Error, IoErrorKind};

verus! {

/// The maximum number of concurrent TCP connections supported by the modem.
pub const MAX_TCP_SLOTS: usize = 8;

/// The number of bytes allocated for each TCP slot receive buffer.
pub const TCP_RX_BUF_LEN: usize = 3072;

/// What the modem reports about one connection.
#[derive(Clone, Copy, Debug, PartialEq, Eq, Structural)]
pub enum ConnectionMessage {
    Connected,
    ConnectionFailed,
    AlreadyConnected,
    SendSuccess,
    SendFail,
    Closed,
}

#[derive(Debug, Clone, Copy, PartialEq, Eq, Structural)]
pub enum TcpError {
    Timeout,
    SendFail,
    Closed,
}

impl TcpError {
    /// The kind of I/O error this is: a timeout timed out, the rest is other.
    pub fn kind(&self) -> (r: IoErrorKind)
        ensures
            r == if *self == TcpError::Timeout {
                IoErrorKind::TimedOut
            } else {
                IoErrorKind::Other
            },
    {
        match self {
            TcpError::Timeout => IoErrorKind::TimedOut,
            TcpError::SendFail => IoErrorKind::Other,
            TcpError::Closed => IoErrorKind::Other,
        }
    }
}

#[derive(Debug, Clone, Copy, PartialEq, Eq, Structural)]
pub enum ConnectError {
    ConnectFailed,
    /// No connection slots available, the max number of open connections has been reached.
    /// For TCP, this number is [MAX_TCP_SLOTS], and is a hard limit set by the modem.
    NoFreeSlots,
    Other(Error),
    /// The modem gave an unexpected response
    Unexpected(ConnectionMessage),
}

impl ConnectError {
    /// Wraps an error of the driver.
    pub fn from(e: Error) -> (r: ConnectError)
        ensures
            r == ConnectError::Other(e),
    {
        ConnectError::Other(e)
    }
}

/// How many times a connection attempt waits for the modem's answer.
pub const CONNECT_WAITS: u8 = 21;

/// The most bytes the modem takes in one send command.
pub const MODEM_WRITE_BUF: usize = 1024;

/// What happened while waiting for the answer to a connection request.
#[derive(Debug, Clone, Copy, PartialEq, Eq, Structural)]
pub enum ConnectEvent {
    /// The modem reported on the connection.
    Message(ConnectionMessage),
    /// Messages of the connection were lost.
    Lagged,
    /// Nothing came in time.
    TimedOut,
    /// After a timeout, the modem answered a plain `AT`.
    Alive,
    /// After a timeout, the modem did not answer a plain `AT`.
    Dead(Error),
}

/// What to do next while connecting.
#[derive(Debug, Clone, Copy, PartialEq, Eq, Structural)]
pub enum ConnectStep {
    /// Wait for the next message of the connection.
    Wait,
    /// Check that the modem still answers (send `AT`).
    CheckModem,
    /// The connection is open.
    Connected,
    /// The attempt failed.
    Failed(ConnectError),
}

/// The decisions of a connection attempt: it waits up to [`CONNECT_WAITS`]
/// times for the modem's answer, checking after each silent wait that the
/// modem is still alive.
pub struct ConnectAttempt {
    rounds: u8,
}

/// A wait that ends without a decision: lost messages, or a silent wait
/// after which the modem still answers.
pub open spec fn ends_round(event: ConnectEvent) -> bool {
    event is Lagged || event is Alive
}

/// The step after `event`, when `rounds` waits had ended before it.
pub open spec fn connect_step(rounds: nat, event: ConnectEvent) -> ConnectStep {
    match event {
        ConnectEvent::Message(ConnectionMessage::Connected) => ConnectStep::Connected,
        ConnectEvent::Message(ConnectionMessage::ConnectionFailed) => ConnectStep::Failed(
            ConnectError::ConnectFailed,
        ),
        ConnectEvent::Message(m) => ConnectStep::Failed(ConnectError::Unexpected(m)),
        ConnectEvent::TimedOut => ConnectStep::CheckModem,
        ConnectEvent::Dead(e) => ConnectStep::Failed(ConnectError::Other(e)),
        ConnectEvent::Lagged | ConnectEvent::Alive => if rounds + 1 < CONNECT_WAITS {
            ConnectStep::Wait
        } else {
            ConnectStep::Failed(ConnectError::Other(Error::Timeout))
        },
    }
}

impl ConnectAttempt {
    /// How many waits have ended without a decision.
    pub closed spec fn rounds(&self) -> nat {
        self.rounds as nat
    }

    /// An attempt whose request was accepted; the first wait begins.
    pub fn new() -> (a: ConnectAttempt)
        ensures
            a.rounds() == 0,
    {
        ConnectAttempt { rounds: 0 }
    }

    /// Takes what ended a wait (or a check of the modem) and says what to do next.
    pub fn on_event(&mut self, event: ConnectEvent) -> (step: ConnectStep)
        requires
            old(self).rounds() < CONNECT_WAITS,
        ensures
            step == connect_step(old(self).rounds(), event),
            final(self).rounds() == if ends_round(event) {
                old(self).rounds() + 1
            } else {
                old(self).rounds()
            },
            step is Wait || step is CheckModem ==> final(self).rounds() < CONNECT_WAITS,
    {
        match event {
            ConnectEvent::Message(ConnectionMessage::Connected) => ConnectStep::Connected,
            ConnectEvent::Message(ConnectionMessage::ConnectionFailed) => ConnectStep::Failed(
                ConnectError::ConnectFailed,
            ),
            ConnectEvent::Message(m) => ConnectStep::Failed(ConnectError::Unexpected(m)),
            ConnectEvent::TimedOut => ConnectStep::CheckModem,
            ConnectEvent::Dead(e) => ConnectStep::Failed(ConnectError::Other(e)),
            ConnectEvent::Lagged | ConnectEvent::Alive => {
                self.rounds = self.rounds + 1;
                if self.rounds < CONNECT_WAITS {
                    ConnectStep::Wait
                } else {
                    ConnectStep::Failed(ConnectError::Other(Error::Timeout))
                }
            },
        }
    }
}

/// What a connection's message means to a write in progress.
pub open spec fn write_outcome(m: ConnectionMessage) -> Option<TcpError> {
    match m {
        ConnectionMessage::SendSuccess => None,
        ConnectionMessage::SendFail => Some(TcpError::SendFail),
        _ => Some(TcpError::Closed),
    }
}

/// What a connection's message means to a read in progress: `None` to go
/// on waiting, `Some(Ok(()))` for the end of the stream, `Some(Err(_))` for
/// a failure.
pub open spec fn read_outcome(m: ConnectionMessage) -> Option<Result<(), TcpError>> {
    match m {
        ConnectionMessage::Closed => Some(Ok(())),
        ConnectionMessage::SendSuccess | ConnectionMessage::SendFail => None,
        _ => Some(Err(TcpError::Closed)),
    }
}

/// A message that closes the stream: `Closed`, or one that has no place on
/// an open connection (`Connected`, `AlreadyConnected`, `ConnectionFailed`).
pub open spec fn closes_stream(m: ConnectionMessage) -> bool {
    !(m is SendSuccess || m is SendFail)
}

/// Whether a stream that was `closed` is closed once the messages `ms` came
/// to it, in order, through [`TcpStream::on_read_event`],
/// [`TcpStream::on_write_event`] or [`TcpStream::on_read`].
pub open spec fn closed_after(closed: bool, ms: Seq<ConnectionMessage>) -> bool
    decreases ms.len(),
{
    if ms.len() == 0 {
        closed
    } else {
        closed_after(closed, ms.drop_last()) || closes_stream(ms.last())
    }
}

/// A closed stream stays closed whatever messages come to it, and an open
/// one is closed after them exactly when one of them closes it; so once
/// closed, every read begins at the end of the stream (see
/// [`TcpStream::begin_read`]) and every unfinished write fails with
/// `TcpError::Closed`.
pub proof fn lemma_closed_stream_stays_closed(closed: bool, ms: Seq<ConnectionMessage>, total: nat, sent: nat)
    requires
        sent < total <= usize::MAX,
    ensures
        closed_after(closed, ms) == (closed || exists|i: int| 0 <= i < ms.len() && closes_stream(#[trigger] ms[i])),
        closed ==> closed_after(closed, ms),
        closed_after(closed, ms) ==> write_action(closed_after(closed, ms), total, sent)
            == WriteAction::Done(Err(TcpError::Closed)),
    decreases ms.len(),
{
    if ms.len() > 0 {
        let p = ms.drop_last();
        lemma_closed_stream_stays_closed(closed, p, total, sent);
        if closes_stream(ms.last()) {
            assert(closes_stream(ms[ms.len() - 1]));
        }
        if exists|i: int| 0 <= i < p.len() && closes_stream(#[trigger] p[i]) {
            let i = choose|i: int| 0 <= i < p.len() && closes_stream(#[trigger] p[i]);
            assert(closes_stream(ms[i]));
        }
        if exists|i: int| 0 <= i < ms.len() && closes_stream(#[trigger] ms[i]) {
            let i = choose|i: int| 0 <= i < ms.len() && closes_stream(#[trigger] ms[i]);
            if i < ms.len() - 1 {
                assert(closes_stream(p[i]));
            }
        }
    }
}

/// The state of an open TCP stream that its reads and writes decide on.
pub struct TcpStream {
    ordinal: usize,
    closed: bool,
    timeout_ms: u64,
}

impl TcpStream {
    /// The connection's number on the modem.
    pub closed spec fn spec_ordinal(&self) -> nat {
        self.ordinal as nat
    }

    /// The stream was closed.
    pub closed spec fn is_closed(&self) -> bool {
        self.closed
    }

    /// How long reads and writes wait, in milliseconds.
    pub closed spec fn timeout(&self) -> nat {
        self.timeout_ms as nat
    }

    /// A stream just opened on connection `ordinal`, with the default timeout
    /// of 120 seconds.
    pub fn opened(ordinal: usize) -> (s: TcpStream)
        ensures
            s.spec_ordinal() == ordinal,
            !s.is_closed(),
            s.timeout() == 120_000,
    {
        TcpStream { ordinal, closed: false, timeout_ms: 120_000 }
    }

    /// The connection's number on the modem.
    pub fn ordinal(&self) -> (r: usize)
        ensures
            r == self.spec_ordinal(),
    {
        self.ordinal
    }

    /// Whether the stream was closed.
    pub fn closed(&self) -> (r: bool)
        ensures
            r == self.is_closed(),
    {
        self.closed
    }

    /// How long reads and writes wait, in milliseconds.
    pub fn timeout_ms(&self) -> (r: u64)
        ensures
            r == self.timeout(),
    {
        self.timeout_ms
    }

    /// Set the timeout of read and write operations, in milliseconds.
    pub fn set_timeout(&mut self, timeout_ms: u64)
        ensures
            final(self).timeout() == timeout_ms,
            final(self).spec_ordinal() == old(self).spec_ordinal(),
            final(self).is_closed() == old(self).is_closed(),
    {
        self.timeout_ms = timeout_ms;
    }

    /// The message that answered a chunk of a write: `None` to go on with the
    /// next chunk, else the error the write ends with. Messages that close the
    /// stream mark it closed.
    pub fn on_write_event(&mut self, m: ConnectionMessage) -> (r: Option<TcpError>)
        ensures
            r == write_outcome(m),
            final(self).is_closed() == (old(self).is_closed() || (closes_stream(m))),
            final(self).spec_ordinal() == old(self).spec_ordinal(),
            final(self).timeout() == old(self).timeout(),
    {
        match m {
            ConnectionMessage::SendSuccess => None,
            ConnectionMessage::SendFail => Some(TcpError::SendFail),
            _ => {
                self.closed = true;
                Some(TcpError::Closed)
            },
        }
    }

    /// A message that came while a read waited for data, as [`read_outcome`]
    /// says. Messages that close the stream mark it closed.
    pub fn on_read_event(&mut self, m: ConnectionMessage) -> (r: Option<Result<(), TcpError>>)
        ensures
            r == read_outcome(m),
            final(self).is_closed() == (old(self).is_closed() || (closes_stream(m))),
            final(self).spec_ordinal() == old(self).spec_ordinal(),
            final(self).timeout() == old(self).timeout(),
    {
        match m {
            ConnectionMessage::Closed => {
                self.closed = true;
                Some(Ok(()))
            },
            ConnectionMessage::SendSuccess | ConnectionMessage::SendFail => None,
            _ => {
                self.closed = true;
                Some(Err(TcpError::Closed))
            },
        }
    }
}

/// The part of a write of `total` bytes that the next send command carries,
/// once `sent` bytes are out: at most [`MODEM_WRITE_BUF`] bytes.
pub fn next_chunk(total: usize, sent: usize) -> (r: (usize, usize))
    requires
        sent <= total,
    ensures
        r.0 == sent,
        r.1 == if total - sent <= MODEM_WRITE_BUF {
            total
        } else {
            (sent + MODEM_WRITE_BUF) as usize
        },
{
    if total - sent <= MODEM_WRITE_BUF {
        (sent, total)
    } else {
        (sent, sent + MODEM_WRITE_BUF)
    }
}


/// What happened to the chunk a write sent last.
#[derive(Debug, Clone, Copy, PartialEq, Eq, Structural)]
pub enum WriteEvent {
    /// The send command for the chunk failed.
    CommandFailed,
    /// The connection reported on the chunk.
    Message(ConnectionMessage),
    /// Nothing came within the stream's timeout.
    TimedOut,
}

/// What a write does next.
#[derive(Debug, Clone, Copy, PartialEq, Eq)]
pub enum WriteAction {
    /// Send the bytes from `start` up to `end` with one send command.
    Send { start: usize, end: usize },
    /// The write is over: the number of bytes written, or the error.
    Done(Result<usize, TcpError>),
}

/// A write of `total` bytes in progress.
pub struct TcpWrite {
    total: usize,
    sent: usize,
}

/// What a write does once `sent` of `total` bytes went out: the next chunk,
/// or the end where all went out; a closed stream ends it.
pub open spec fn write_action(closed: bool, total: nat, sent: nat) -> WriteAction {
    if sent == total {
        WriteAction::Done(Ok(total as usize))
    } else if closed {
        WriteAction::Done(Err(TcpError::Closed))
    } else {
        WriteAction::Send {
            start: sent as usize,
            end: if total - sent <= MODEM_WRITE_BUF {
                total as usize
            } else {
                (sent + MODEM_WRITE_BUF) as usize
            },
        }
    }
}

impl TcpWrite {
    pub closed spec fn spec_total(&self) -> nat {
        self.total as nat
    }

    /// How many bytes went out.
    pub closed spec fn spec_sent(&self) -> nat {
        self.sent as nat
    }

    /// Starts writing `total` bytes to `stream`.
    pub fn start(stream: &TcpStream, total: usize) -> (r: (TcpWrite, WriteAction))
        ensures
            r.0.spec_total() == total,
            r.0.spec_sent() == 0,
            r.1 == write_action(stream.is_closed(), total as nat, 0),
    {
        let w = TcpWrite { total, sent: 0 };
        let a = w.action(stream);
        (w, a)
    }

    fn action(&self, stream: &TcpStream) -> (r: WriteAction)
        requires
            self.sent <= self.total,
        ensures
            r == write_action(stream.is_closed(), self.total as nat, self.sent as nat),
    {
        if self.sent == self.total {
            WriteAction::Done(Ok(self.total))
        } else if stream.closed() {
            WriteAction::Done(Err(TcpError::Closed))
        } else {
            let (start, end) = next_chunk(self.total, self.sent);
            WriteAction::Send { start, end }
        }
    }

    /// Takes what happened to the chunk just sent: a failed command is a
    /// failed send, a timeout ends the write, a message is read as
    /// [`TcpStream::on_write_event`] says; after a successful chunk the
    /// write goes on.
    pub fn on_event(&mut self, stream: &mut TcpStream, event: WriteEvent) -> (r: WriteAction)
        requires
            old(self).spec_sent() < old(self).spec_total(),
        ensures
            final(self).spec_total() == old(self).spec_total(),
            final(stream).spec_ordinal() == old(stream).spec_ordinal(),
            final(stream).timeout() == old(stream).timeout(),
            match event {
                WriteEvent::CommandFailed => r == WriteAction::Done(Err(TcpError::SendFail))
                    && final(stream).is_closed() == old(stream).is_closed(),
                WriteEvent::TimedOut => r == WriteAction::Done(Err(TcpError::Timeout))
                    && final(stream).is_closed() == old(stream).is_closed(),
                WriteEvent::Message(m) => final(stream).is_closed() == (old(stream).is_closed()
                    || closes_stream(m)) && match write_outcome(m) {
                    Some(e) => r == WriteAction::Done(Err(e)),
                    None => {
                        let chunk_end = if old(self).spec_total() - old(self).spec_sent()
                            <= MODEM_WRITE_BUF {
                            old(self).spec_total() as int
                        } else {
                            old(self).spec_sent() + MODEM_WRITE_BUF
                        };
                        &&& final(self).spec_sent() == chunk_end
                        &&& r == write_action(
                            final(stream).is_closed(),
                            final(self).spec_total(),
                            final(self).spec_sent(),
                        )
                    },
                },
            },
    {
        match event {
            WriteEvent::CommandFailed => WriteAction::Done(Err(TcpError::SendFail)),
            WriteEvent::TimedOut => WriteAction::Done(Err(TcpError::Timeout)),
            WriteEvent::Message(m) => match stream.on_write_event(m) {
                Some(e) => WriteAction::Done(Err(e)),
                None => {
                    let (_, end) = next_chunk(self.total, self.sent);
                    self.sent = end;
                    self.action(stream)
                },
            },
        }
    }
}

/// Each send of an unfinished write on an open stream carries between one
/// and [`MODEM_WRITE_BUF`] bytes and starts where the sent bytes end, so the
/// sends of a write cover its bytes in order and the write ends; on a
/// closed stream an unfinished write fails.
pub proof fn lemma_write_progress(closed: bool, total: nat, sent: nat)
    requires
        sent < total <= usize::MAX,
    ensures
        !closed ==> (write_action(closed, total, sent) matches WriteAction::Send { start, end }
            && start == sent && sent < end <= total && end - start <= MODEM_WRITE_BUF),
        closed ==> write_action(closed, total, sent) == WriteAction::Done(Err(TcpError::Closed)),
{
}

/// What happened while a read waited.
#[derive(Debug, Clone, Copy, PartialEq, Eq, Structural)]
pub enum ReadEvent {
    /// This many bytes of the connection were read.
    Data(usize),
    /// The connection reported something.
    Message(ConnectionMessage),
    /// Nothing came within the stream's timeout.
    TimedOut,
    /// After a timeout, the modem answered a plain `AT`.
    Alive,
    /// After a timeout, the modem did not answer.
    Dead,
}

/// What a read does next.
#[derive(Debug, Clone, Copy, PartialEq, Eq)]
pub enum ReadAction {
    /// Wait for data, a message or the timeout.
    Wait,
    /// Check that the modem still answers (send `AT`).
    CheckModem,
    /// The read is over: the number of bytes read (0 at the end of the
    /// stream), or the error.
    Done(Result<usize, TcpError>),
}

/// What a read does after `event`.
pub open spec fn read_action(event: ReadEvent) -> ReadAction {
    match event {
        ReadEvent::Data(n) => ReadAction::Done(Ok(n)),
        ReadEvent::Message(m) => match read_outcome(m) {
            None => ReadAction::Wait,
            Some(Ok(())) => ReadAction::Done(Ok(0)),
            Some(Err(e)) => ReadAction::Done(Err(e)),
        },
        ReadEvent::TimedOut => ReadAction::CheckModem,
        ReadEvent::Alive => ReadAction::Wait,
        ReadEvent::Dead => ReadAction::Done(Err(TcpError::Timeout)),
    }
}

impl TcpStream {
    /// How a read begins: a closed stream is at its end, else the read waits.
    pub fn begin_read(&self) -> (r: ReadAction)
        ensures
            self.is_closed() ==> r == ReadAction::Done(Ok(0)),
            !self.is_closed() ==> r == ReadAction::Wait,
    {
        if self.closed {
            ReadAction::Done(Ok(0))
        } else {
            ReadAction::Wait
        }
    }

    /// Takes what happened while a read waited and says what it does next.
    pub fn on_read(&mut self, event: ReadEvent) -> (r: ReadAction)
        ensures
            r == read_action(event),
            final(self).spec_ordinal() == old(self).spec_ordinal(),
            final(self).timeout() == old(self).timeout(),
            final(self).is_closed() == (old(self).is_closed() || (event matches ReadEvent::Message(m)
                && closes_stream(m))),
    {
        match event {
            ReadEvent::Data(n) => ReadAction::Done(Ok(n)),
            ReadEvent::Message(m) => match self.on_read_event(m) {
                None => ReadAction::Wait,
                Some(Ok(())) => ReadAction::Done(Ok(0)),
                Some(Err(e)) => ReadAction::Done(Err(e)),
            },
            ReadEvent::TimedOut => ReadAction::CheckModem,
            ReadEvent::Alive => ReadAction::Wait,
            ReadEvent::Dead => ReadAction::Done(Err(TcpError::Timeout)),
        }
    }
}

} // verus!
