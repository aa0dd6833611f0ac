//! A TCP client that drives the modem's IP commands over a blocking serial
//! port.

use vstd::prelude::*;
use vstd::string::StringSliceAdditionalSpecFns;
use crate::commands::{
    exchanged, receive_began, receive_began_at, send_began, write_prefix, AtCommand, AtExecute, AtEncode, AtWrite, Cipsend, Cipshut, Ciprxget,
    Cipstart, Cipstatus, ConnectionResult, ConnectionState, DisconnectResult, NetworkReceiveMode,
    NetworkReceiveResponse, SendResult, TcpConnectionParams,
};
use crate::error::Error;
use crate::numparse::int_text;
use crate::serial::{new_events, PortEvent, SerialReadTimeout, SerialWrite};

verus! {

/// How many answers without data [`TcpClient::receive`] takes before it
/// gives up with `Error::Timeout`.
pub const RECEIVE_ROUNDS: u64 = 0xffff_ffff_ffff_ffff;

/// The request `AT+CIPSHUT\r`.
pub open spec fn shut_request() -> Seq<u8> {
    Cipshut::COMMAND.spec_bytes() + seq![13u8]
}

/// The request `AT+CIPSTART="TCP","<host>",<port>\r`.
pub open spec fn start_request(host: &str, port: u16) -> Seq<u8> {
    write_prefix(
        Cipstart::COMMAND.spec_bytes(),
        (TcpConnectionParams { mode: "TCP", host, port }).encoding(),
    ) + seq![13u8]
}

/// The request `AT+CIPRXGET=2,<length>\r`.
pub open spec fn receive_request(len: u16) -> Seq<u8> {
    write_prefix(Ciprxget::COMMAND.spec_bytes(), NetworkReceiveMode::GetBytes(len).encoding()) + seq![
        13u8,
    ]
}

/// What a receive into a buffer that had `room` bytes free from `offset` on
/// makes of the modem's answer `w` to `AT+CIPRXGET=2,<length>`: its result
/// `r`, and the buffer after it, `data`. The data of the answer go to
/// `offset` where they fit; more than `room` bytes are refused with
/// `Error::BufferOverflow`; an answer without data gives 0; a failed
/// exchange gives its error.
pub open spec fn received(
    w: Result<NetworkReceiveResponse, Error>,
    room: int,
    offset: int,
    data: Seq<u8>,
    r: Result<usize, Error>,
) -> bool {
    match w {
        Err(e) => r == Err::<usize, Error>(e),
        Ok(resp) => match resp.bytes {
            None => r == Ok::<usize, Error>(0),
            Some(b) => if b@.len() > room {
                r == Err::<usize, Error>(Error::BufferOverflow)
            } else {
                r == Ok::<usize, Error>(b@.len() as usize) && data.subrange(offset, offset
                    + b@.len()) == b@
            },
        },
    }
}

/// The request line of a TCP connect to `host` on `port`, before its
/// closing `\r`: `AT+CIPSTART="TCP","<host>",<port>`.
pub open spec fn start_prefix(host: &str, port: u16) -> Seq<u8> {
    write_prefix(
        Cipstart::COMMAND.spec_bytes(),
        (TcpConnectionParams { mode: "TCP", host, port }).encoding(),
    )
}

/// The timeout `timeout_ms` where one is given, else `default`.
pub open spec fn timeout_or(timeout_ms: Option<u32>, default: u32) -> u32 {
    match timeout_ms {
        Some(t) => t,
        None => default,
    }
}

/// What closing all connections gives, `r`, for the modem's answer `w`: any
/// answer the decoding accepts is success; a failed exchange gives its
/// error.
pub open spec fn shut_answer(w: Result<DisconnectResult, Error>, r: Result<(), Error>) -> bool {
    match w {
        Ok(_) => r == Ok::<(), Error>(()),
        Err(e) => r == Err::<(), Error>(e),
    }
}

/// What a connect gives, `r`, for the modem's answer `w` to `AT+CIPSTART`:
/// `CONNECT OK` is success, `CONNECT FAIL` is `Error::ConnectFailed`, a
/// failed exchange gives its error.
pub open spec fn start_answer(w: Result<ConnectionResult, Error>, r: Result<(), Error>) -> bool {
    match w {
        Ok(ConnectionResult::Success) => r == Ok::<(), Error>(()),
        Ok(ConnectionResult::Failure) => r == Err::<(), Error>(Error::ConnectFailed),
        Err(e) => r == Err::<(), Error>(e),
    }
}

/// The events `e` of closing all connections with the timeout `timeout_ms`,
/// which gives `r`: the exchange
/// of `AT+CIPSHUT` (see [`exchanged`]) and its answer read as
/// [`shut_answer`] says.
pub open spec fn disconnect_exchanged(e: Seq<PortEvent>, timeout_ms: u32, r: Result<(), Error>) -> bool {
    exists|w: Result<DisconnectResult, Error>|
        exchanged::<DisconnectResult>(e, Cipshut::COMMAND.spec_bytes(), timeout_ms, w) && shut_answer(w, r)
}

/// The events `e` of a connect to `host` on `port` with the timeout
/// `timeout_ms`, which gives `r`: the
/// events up to `m` close all connections (see [`disconnect_exchanged`]);
/// where that fails nothing follows and its error is the result; else the
/// exchange of `AT+CIPSTART` follows, read as [`start_answer`] says.
pub open spec fn connect_exchanged(
    e: Seq<PortEvent>,
    host: &str,
    port: u16,
    timeout_ms: u32,
    r: Result<(), Error>,
) -> bool {
    exists|m: int, w1: Result<DisconnectResult, Error>|
        #![trigger exchanged::<DisconnectResult>(e.take(m), Cipshut::COMMAND.spec_bytes(), timeout_ms, w1)]
        0 <= m <= e.len() && exchanged::<DisconnectResult>(
            e.take(m),
            Cipshut::COMMAND.spec_bytes(),
            timeout_ms,
            w1,
        ) && match w1 {
            Err(x) => m == e.len() && r == Err::<(), Error>(x),
            Ok(_) => exists|w2: Result<ConnectionResult, Error>|
                exchanged::<ConnectionResult>(e.skip(m), start_prefix(host, port), timeout_ms, w2)
                    && start_answer(w2, r),
        }
}

/// A connect whose closing of all connections failed with `r` ends there.
proof fn lemma_connect_unshut(e: Seq<PortEvent>, host: &str, port: u16, t: u32, r: Result<(), Error>)
    requires
        r is Err,
        disconnect_exchanged(e, t, r),
    ensures
        connect_exchanged(e, host, port, t, r),
{
    let w1 = choose|w1: Result<DisconnectResult, Error>|
        exchanged::<DisconnectResult>(e, Cipshut::COMMAND.spec_bytes(), t, w1) && shut_answer(w1, r);
    assert(e.take(e.len() as int) =~= e);
    assert(exchanged::<DisconnectResult>(e.take(e.len() as int), Cipshut::COMMAND.spec_bytes(), t, w1));
}

/// A connect made of a successful closing of all connections (events up to
/// `ev1`) and the exchange of `AT+CIPSTART` after it, answered `w2`.
#[verifier::rlimit(40)]
proof fn lemma_connect_started(
    ev0: Seq<PortEvent>,
    ev1: Seq<PortEvent>,
    evf: Seq<PortEvent>,
    host: &str,
    port: u16,
    t: u32,
    w2: Result<ConnectionResult, Error>,
    r: Result<(), Error>,
)
    requires
        ev0.is_prefix_of(ev1),
        ev1.is_prefix_of(evf),
        disconnect_exchanged(new_events(ev0, ev1), t, Ok(())),
        exchanged::<ConnectionResult>(new_events(ev1, evf), start_prefix(host, port), t, w2),
        start_answer(w2, r),
    ensures
        connect_exchanged(new_events(ev0, evf), host, port, t, r),
{
    let e = new_events(ev0, evf);
    let m = ev1.len() - ev0.len();
    assert(e.take(m) =~= new_events(ev0, ev1));
    assert(e.skip(m) =~= new_events(ev1, evf));
    let w1 = choose|w1: Result<DisconnectResult, Error>|
        exchanged::<DisconnectResult>(new_events(ev0, ev1), Cipshut::COMMAND.spec_bytes(), t, w1)
            && shut_answer(w1, Ok(()));
    assert(exchanged::<DisconnectResult>(e.take(m), Cipshut::COMMAND.spec_bytes(), t, w1));
}

/// The data that an answer `w` to a receive request carries: its bytes, or
/// none.
pub open spec fn payload(w: Result<NetworkReceiveResponse, Error>) -> Seq<u8> {
    match w {
        Ok(resp) => match resp.bytes {
            Some(b) => b@,
            None => Seq::empty(),
        },
        Err(_) => Seq::empty(),
    }
}

/// The events `e` are those of successive receive requests into a buffer of
/// `len` bytes, each answered with reads made with `timeout_ms`, that
/// together brought `filled`, in order: each request asks for the bytes
/// still missing (their count taken as a `u16`, see [`receive_began`]), and
/// the data of its answer follow those that came before.
pub open spec fn receive_rounds(e: Seq<PortEvent>, len: nat, timeout_ms: u32, filled: Seq<u8>) -> bool
    decreases e.len(),
{
    if e.len() == 0 {
        filled.len() == 0
    } else {
        exists|k: int, w: Result<NetworkReceiveResponse, Error>|
            #![trigger receive_began(e.skip(k), NetworkReceiveMode::GetBytes((len - (filled.len() - payload(w).len())) as u16), timeout_ms, w)]
            0 <= k < e.len() && w is Ok && payload(w).len() <= filled.len() && receive_rounds(
                e.take(k),
                len,
                timeout_ms,
                filled.take(filled.len() - payload(w).len()),
            ) && filled.skip(filled.len() - payload(w).len()) == payload(w) && receive_began(
                e.skip(k),
                NetworkReceiveMode::GetBytes((len - (filled.len() - payload(w).len())) as u16),
                timeout_ms,
                w,
            )
    }
}

/// One more receive request, answered `w`, after rounds that brought
/// `filled` brings `filled` followed by its data.
proof fn lemma_receive_round(
    e: Seq<PortEvent>,
    seg: Seq<PortEvent>,
    len: nat,
    timeout_ms: u32,
    filled: Seq<u8>,
    w: Result<NetworkReceiveResponse, Error>,
)
    requires
        receive_rounds(e, len, timeout_ms, filled),
        w is Ok,
        receive_began(seg, NetworkReceiveMode::GetBytes((len - filled.len()) as u16), timeout_ms, w),
    ensures
        receive_rounds(e + seg, len, timeout_ms, filled + payload(w)),
{
    let k0 = choose|k0: int|
        #[trigger] receive_began_at(seg, NetworkReceiveMode::GetBytes((len - filled.len()) as u16), timeout_ms, k0, w);
    assert(seg.len() > 0);
    let all = e + seg;
    let f2 = filled + payload(w);
    let k = e.len() as int;
    assert(all.take(k) =~= e);
    assert(all.skip(k) =~= seg);
    assert(f2.take(f2.len() - payload(w).len()) =~= filled);
    assert(f2.skip(f2.len() - payload(w).len()) =~= payload(w));
    assert(receive_began(
        all.skip(k),
        NetworkReceiveMode::GetBytes((len - (f2.len() - payload(w).len())) as u16),
        timeout_ms,
        w,
    ));
}

/// The timeouts of a TCP client, in milliseconds.
pub struct TcpClient {
    read_timeout: u32,
    write_timeout: u32,
}

impl Default for TcpClient {
    /// A client that waits two seconds for reads and five for writes.
    fn default() -> (c: TcpClient)
        ensures
            c.spec_read_timeout() == 2000,
            c.spec_write_timeout() == 5000,
    {
        TcpClient { read_timeout: 2000, write_timeout: 5000 }
    }
}

impl TcpClient {
    pub closed spec fn spec_read_timeout(&self) -> u32 {
        self.read_timeout
    }

    pub closed spec fn spec_write_timeout(&self) -> u32 {
        self.write_timeout
    }

    pub fn set_read_timeout(&mut self, timeout_ms: u32)
        ensures
            final(self).spec_read_timeout() == timeout_ms,
            final(self).spec_write_timeout() == old(self).spec_write_timeout(),
    {
        self.read_timeout = timeout_ms;
    }

    pub fn read_timeout(&self) -> (r: Option<u32>)
        ensures
            r == Some(self.spec_read_timeout()),
    {
        Some(self.read_timeout)
    }

    pub fn set_write_timeout(&mut self, timeout_ms: u32)
        ensures
            final(self).spec_write_timeout() == timeout_ms,
            final(self).spec_read_timeout() == old(self).spec_read_timeout(),
    {
        self.write_timeout = timeout_ms;
    }

    pub fn write_timeout(&self) -> (r: Option<u32>)
        ensures
            r == Some(self.spec_write_timeout()),
    {
        Some(self.write_timeout)
    }

    /// Closes all connections (`AT+CIPSHUT`), within `timeout_ms` or else
    /// the write timeout.
    pub fn disconnect<B: SerialReadTimeout + SerialWrite>(
        &mut self,
        modem: &mut B,
        timeout_ms: Option<u32>,
    ) -> (r: Result<(), Error>)
        ensures
            *final(self) == *old(self),
            r is Ok ==> final(modem).sent() == old(modem).sent() + shut_request(),
            old(modem).events().is_prefix_of(final(modem).events()),
            disconnect_exchanged(
                new_events(old(modem).events(), final(modem).events()),
                timeout_or(timeout_ms, old(self).spec_write_timeout()),
                r,
            ),
    {
        let t = match timeout_ms {
            Some(t) => t,
            None => self.write_timeout,
        };
        let w = Cipshut.execute(modem, t);
        let r = match w {
            Ok(_) => Ok(()),
            Err(e) => Err(e),
        };
        proof {
            let e = new_events(old(modem).events(), modem.events());
            assert(exchanged::<DisconnectResult>(e, Cipshut::COMMAND.spec_bytes(), t, w));
            assert(shut_answer(w, r));
        }
        r
    }

    /// Closes all connections, then opens a TCP connection to `host` on
    /// `port`; `Error::ConnectFailed` where the modem reports that it failed.
    pub fn connect<B: SerialReadTimeout + SerialWrite>(
        &mut self,
        modem: &mut B,
        host: &'static str,
        port: u16,
        timeout_ms: Option<u32>,
    ) -> (r: Result<(), Error>)
        ensures
            *final(self) == *old(self),
            r is Ok ==> final(modem).sent() == old(modem).sent() + shut_request() + start_request(
                host,
                port,
            ),
            r == Err::<(), Error>(Error::ConnectFailed) ==> final(modem).sent() == old(modem).sent()
                + shut_request() + start_request(host, port),
            old(modem).events().is_prefix_of(final(modem).events()),
            connect_exchanged(
                new_events(old(modem).events(), final(modem).events()),
                host,
                port,
                timeout_or(timeout_ms, old(self).spec_write_timeout()),
                r,
            ),
    {
        let ghost ev0 = modem.events();
        match self.disconnect(modem, timeout_ms) {
            Ok(()) => {},
            Err(e) => {
                proof {
                    lemma_connect_unshut(
                        new_events(ev0, modem.events()),
                        host,
                        port,
                        timeout_or(timeout_ms, old(self).spec_write_timeout()),
                        Err(e),
                    );
                }
                return Err(e);
            },
        }
        let ghost ev1 = modem.events();
        let t = match timeout_ms {
            Some(t) => t,
            None => self.write_timeout,
        };
        let mode = "TCP";
        let w2 = Cipstart.write(TcpConnectionParams { mode, host, port }, modem, t);
        let r = match w2 {
            Ok(ConnectionResult::Failure) => Err(Error::ConnectFailed),
            Ok(ConnectionResult::Success) => Ok(()),
            Err(e) => Err(e),
        };
        proof {
            assert(start_answer(w2, r));
            lemma_connect_started(ev0, ev1, modem.events(), host, port, t, w2, r);
        }
        r
    }

    /// Sends `data` over the open connection (`AT+CIPSEND`). The modem's
    /// verdict on the send is not checked.
    pub fn send<B: SerialReadTimeout + SerialWrite>(&mut self, modem: &mut B, data: &[u8]) -> (r:
        Result<(), Error>)
        ensures
            *final(self) == *old(self),
            r is Ok ==> final(modem).sent() == old(modem).sent() + Cipsend::COMMAND.spec_bytes()
                + seq![61u8] + int_text((data@.len() as i32) as int) + seq![13u8] + data@,
            old(modem).events().is_prefix_of(final(modem).events()),
            exists|w: Result<SendResult, Error>|
                #![trigger send_began(new_events(old(modem).events(), final(modem).events()), data@, old(self).spec_write_timeout(), w)]
                send_began(
                    new_events(old(modem).events(), final(modem).events()),
                    data@,
                    old(self).spec_write_timeout(),
                    w,
                ) && r == match w {
                    Ok(_) => Ok::<(), Error>(()),
                    Err(e) => Err(e),
                },
    {
        let w = Cipsend.write(data, modem, self.write_timeout);
        let r = match w {
            Ok(_) => Ok(()),
            Err(e) => Err(e),
        };
        proof {
            assert(send_began(new_events(old(modem).events(), modem.events()), data@, old(self).spec_write_timeout(), w)
                && r == match w {
                Ok(_) => Ok::<(), Error>(()),
                Err(e) => Err(e),
            });
        }
        r
    }

    /// Asks for at most `data.len() - offset` bytes (the count taken as a
    /// `u16`) and writes what comes at `offset`.
    fn receive_at<B: SerialReadTimeout + SerialWrite>(
        &mut self,
        modem: &mut B,
        data: &mut [u8],
        offset: usize,
    ) -> (r: Result<usize, Error>)
        requires
            offset <= old(data)@.len(),
        ensures
            *final(self) == *old(self),
            final(data)@.len() == old(data)@.len(),
            final(data)@.take(offset as int) == old(data)@.take(offset as int),
            r matches Ok(n) ==> offset + n <= old(data)@.len() && final(data)@.skip(offset + n)
                == old(data)@.skip(offset + n),
            ((old(data)@.len() - offset) as u16) == 0 ==> r == Ok::<usize, Error>(0) && final(modem).sent()
                == old(modem).sent() && final(modem).events() == old(modem).events() && final(data)@
                == old(data)@,
            ((old(data)@.len() - offset) as u16) != 0 && r is Ok ==> final(modem).sent() == old(modem).sent()
                + receive_request((old(data)@.len() - offset) as u16),
            old(modem).events().is_prefix_of(final(modem).events()),
            ((old(data)@.len() - offset) as u16) != 0 ==> exists|w: Result<NetworkReceiveResponse, Error>|
                #![trigger receive_began(new_events(old(modem).events(), final(modem).events()), NetworkReceiveMode::GetBytes((old(data)@.len() - offset) as u16), old(self).spec_read_timeout(), w)]
                receive_began(
                    new_events(old(modem).events(), final(modem).events()),
                    NetworkReceiveMode::GetBytes((old(data)@.len() - offset) as u16),
                    old(self).spec_read_timeout(),
                    w,
                ) && received(w, old(data)@.len() - offset, offset as int, final(data)@, r),
    {
        let bytes_left = #[verifier::truncate] ((data.len() - offset) as u16);
        if bytes_left == 0 {
            return Ok(0);
        }
        let w = Ciprxget.write(NetworkReceiveMode::GetBytes(bytes_left), modem, self.read_timeout);
        let ghost e = new_events(old(modem).events(), modem.events());
        proof {
            assert(receive_began(e, NetworkReceiveMode::GetBytes(bytes_left), old(self).spec_read_timeout(), w));
        }
        let response = match w {
            Ok(resp) => resp,
            Err(x) => {
                return Err(x);
            },
        };
        match response.bytes {
            Some(bytes) => {
                if bytes.len() > data.len() - offset {
                    return Err(Error::BufferOverflow);
                }
                let ghost before = data@;
                let total = data.len();
                let mut j: usize = 0;
                while j < bytes.len()
                    invariant
                        j <= bytes@.len(),
                        offset + bytes@.len() <= before.len(),
                        data@.len() == before.len(),
                        before.len() == total,
                        forall|k: int| 0 <= k < offset + j ==> k < offset ==> data@[k] == before[k],
                        forall|k: int| offset + bytes@.len() <= k < before.len() ==> data@[k] == before[k],
                        forall|k: int| 0 <= k < j ==> data@[offset + k] == bytes@[k],
                        forall|k: int| 0 <= k < offset ==> data@[k] == before[k],
                    decreases bytes@.len() - j,
                {
                    data[offset + j] = bytes[j];
                    j = j + 1;
                }
                proof {
                    assert(data@.take(offset as int) =~= before.take(offset as int));
                    assert(data@.skip(offset + bytes@.len()) =~= before.skip(offset + bytes@.len()));
                    assert(data@.subrange(offset as int, offset + bytes@.len()) =~= bytes@);
                }
                Ok(bytes.len())
            },
            None => Ok(0),
        }
    }

    /// Reads what the modem holds for the connection, at most `data.len()`
    /// bytes (the count taken as a `u16`), into the front of `data`; gives
    /// how many bytes came. `Error::BufferOverflow` where the modem sends
    /// more than was asked for.
    pub fn try_receive<B: SerialReadTimeout + SerialWrite>(
        &mut self,
        modem: &mut B,
        data: &mut [u8],
    ) -> (r: Result<usize, Error>)
        ensures
            *final(self) == *old(self),
            final(data)@.len() == old(data)@.len(),
            r matches Ok(n) ==> n <= old(data)@.len() && final(data)@.skip(n as int) == old(
                data,
            )@.skip(n as int),
            (old(data)@.len() as u16) == 0 ==> r == Ok::<usize, Error>(0) && final(modem).sent()
                == old(modem).sent(),
            (old(data)@.len() as u16) != 0 && r is Ok ==> final(modem).sent() == old(modem).sent()
                + receive_request(old(data)@.len() as u16),
            old(modem).events().is_prefix_of(final(modem).events()),
            (old(data)@.len() as u16) != 0 ==> exists|w: Result<NetworkReceiveResponse, Error>|
                #![trigger receive_began(new_events(old(modem).events(), final(modem).events()), NetworkReceiveMode::GetBytes(old(data)@.len() as u16), old(self).spec_read_timeout(), w)]
                receive_began(
                    new_events(old(modem).events(), final(modem).events()),
                    NetworkReceiveMode::GetBytes(old(data)@.len() as u16),
                    old(self).spec_read_timeout(),
                    w,
                ) && received(w, old(data)@.len() as int, 0, final(data)@, r),
    {
        let r = self.receive_at(modem, data, 0);
        proof {
            assert(old(data)@.len() - 0 == old(data)@.len());
        }
        r
    }

    /// Fills `data` with bytes of the connection, asking the modem again
    /// until all have come; gives `data.len()`. An empty `data` is filled at
    /// once, without a word to the modem; where the length taken as a `u16`
    /// is 0 but `data` is not empty, no request can ask for its bytes and
    /// the receive gives up with `Error::Timeout`, again without a word to
    /// the modem. The bytes that end up in `data` are those the requests
    /// brought, in order (see [`receive_rounds`]).
    pub fn receive<B: SerialReadTimeout + SerialWrite>(&mut self, modem: &mut B, data: &mut [u8]) -> (r:
        Result<usize, Error>)
        ensures
            *final(self) == *old(self),
            final(data)@.len() == old(data)@.len(),
            r matches Ok(n) ==> n == old(data)@.len(),
            old(data)@.len() == 0 ==> r == Ok::<usize, Error>(0) && final(modem).events() == old(
                modem,
            ).events() && final(modem).sent() == old(modem).sent(),
            old(data)@.len() > 0 && (old(data)@.len() as u16) == 0 ==> r == Err::<usize, Error>(
                Error::Timeout,
            ) && final(modem).events() == old(modem).events() && final(modem).sent() == old(
                modem,
            ).sent() && final(data)@ == old(data)@,
            old(modem).events().is_prefix_of(final(modem).events()),
            r is Ok ==> receive_rounds(
                new_events(old(modem).events(), final(modem).events()),
                old(data)@.len(),
                old(self).spec_read_timeout(),
                final(data)@,
            ),
    {
        let mut offset: usize = 0;
        let mut rounds: u64 = 0;
        let ghost ev0 = modem.events();
        proof {
            assert(new_events(ev0, ev0) =~= Seq::<PortEvent>::empty());
            assert(ev0.is_prefix_of(ev0));
        }
        loop
            invariant
                offset <= data@.len(),
                data@.len() == old(data)@.len(),
                *self == *old(self),
                ev0 == old(modem).events(),
                ev0.is_prefix_of(modem.events()),
                receive_rounds(
                    new_events(ev0, modem.events()),
                    old(data)@.len(),
                    old(self).spec_read_timeout(),
                    data@.take(offset as int),
                ),
                (old(data)@.len() as u16) == 0 ==> offset == 0 && modem.events() == old(
                    modem,
                ).events() && modem.sent() == old(modem).sent() && data@ == old(data)@,
            decreases RECEIVE_ROUNDS - rounds,
        {
            if offset == data.len() {
                proof {
                    assert(data@.take(offset as int) =~= data@);
                }
                return Ok(offset);
            }
            if rounds == RECEIVE_ROUNDS {
                return Err(Error::Timeout);
            }
            let ghost ev1 = modem.events();
            let ghost d1 = data@;
            let n = self.receive_at(modem, data, offset)?;
            proof {
                let len = old(data)@.len();
                let t = old(self).spec_read_timeout();
                if ((len - offset) as u16) == 0 {
                    assert(data@.take(offset + n) =~= d1.take(offset as int));
                    assert(new_events(ev0, modem.events()) == new_events(ev0, ev1));
                } else {
                    let seg = new_events(ev1, modem.events());
                    let w = choose|w: Result<NetworkReceiveResponse, Error>|
                        #[trigger] receive_began(seg, NetworkReceiveMode::GetBytes((len - offset) as u16), t, w)
                            && received(w, len - offset, offset as int, data@, Ok(n));
                    assert(data@.take(offset as int) == d1.take(offset as int));
                    assert(d1.take(offset as int).len() == offset);
                    lemma_receive_round(new_events(ev0, ev1), seg, len, t, d1.take(offset as int), w);
                    assert(payload(w).len() == n);
                    assert(data@.take(offset + n) =~= d1.take(offset as int) + payload(w));
                    assert(new_events(ev0, modem.events()) =~= new_events(ev0, ev1) + seg);
                    assert(ev0.is_prefix_of(modem.events()));
                }
            }
            offset = offset + n;
            rounds = rounds + 1;
        }
    }

    /// Whether the modem reports its connection state as `CONNECT OK`;
    /// any failure to ask counts as not connected.
    pub fn is_connected<B: SerialReadTimeout + SerialWrite>(&self, modem: &mut B) -> (r: bool)
        ensures
            r ==> final(modem).sent() == old(modem).sent() + Cipstatus::COMMAND.spec_bytes() + seq![
                13u8,
            ],
            old(modem).events().is_prefix_of(final(modem).events()),
            exists|w: Result<ConnectionState, Error>|
                #![trigger exchanged::<ConnectionState>(new_events(old(modem).events(), final(modem).events()), Cipstatus::COMMAND.spec_bytes(), self.spec_write_timeout(), w)]
                {
                    &&& exchanged::<ConnectionState>(
                        new_events(old(modem).events(), final(modem).events()),
                        Cipstatus::COMMAND.spec_bytes(),
                        self.spec_write_timeout(),
                        w,
                    )
                    &&& r == (w == Ok::<ConnectionState, Error>(ConnectionState::ConnectOk))
                },
    {
        let w = Cipstatus.execute(modem, self.write_timeout);
        let r = match w {
            Ok(ConnectionState::ConnectOk) => true,
            _ => false,
        };
        proof {
            assert(exchanged::<ConnectionState>(
                new_events(old(modem).events(), modem.events()),
                Cipstatus::COMMAND.spec_bytes(),
                self.spec_write_timeout(),
                w,
            ));
            assert(r == (w == Ok::<ConnectionState, Error>(ConnectionState::ConnectOk)));
        }
        r
    }
}

} // verus!
