//! `AT+CIPSTATUS`: the state of the IP connection.

use vstd::prelude::*;
use crate::error::Error;
use crate::serial::SerialReadTimeout;
use crate::text::{bytes_eq, has_prefix};
use super::{expect_text, lemma_same_line, lemma_seen_concat, next_text, read_error, AtCommand, AtDecode, AtExecute, Decoder};
use super::literals::{lemma_ok, lemma_state_header, ok, state_header};

verus! {

pub struct Cipstatus;

impl AtCommand for Cipstatus {
    const COMMAND: &'static str = "AT+CIPSTATUS";
}

#[derive(Copy, Clone, Debug, Eq, PartialEq, Structural)]
pub enum ConnectionState {
    IpInitial,
    IpStart,
    IpConfig,
    IpGprsact,
    IpStatus,
    TcpConnecting,
    UdpConnecting,
    ServerListening,
    ConnectOk,
    TcpClosing,
    UdpClosing,
    TcpClosed,
    UdpClosed,
    PdpDeact,
}

/// The state that the modem's text `value` names. Note that `TCP CLOSED` is
/// read as [`ConnectionState::TcpClosing`].
pub open spec fn connection_state_of(value: Seq<u8>) -> Option<ConnectionState> {
    if value == seq![73u8, 80u8, 32u8, 73u8, 78u8, 73u8, 84u8, 73u8, 65u8, 76u8] {
            Some(ConnectionState::IpInitial)
        } else if value == seq![73u8, 80u8, 32u8, 83u8, 84u8, 65u8, 82u8, 84u8] {
            Some(ConnectionState::IpStart)
        } else if value == seq![73u8, 80u8, 32u8, 67u8, 79u8, 78u8, 70u8, 73u8, 71u8] {
            Some(ConnectionState::IpConfig)
        } else if value == seq![73u8, 80u8, 32u8, 71u8, 80u8, 82u8, 83u8, 65u8, 67u8, 84u8] {
            Some(ConnectionState::IpGprsact)
        } else if value == seq![73u8, 80u8, 32u8, 83u8, 84u8, 65u8, 84u8, 85u8, 83u8] {
            Some(ConnectionState::IpStatus)
        } else if value == seq![84u8, 67u8, 80u8, 32u8, 67u8, 79u8, 78u8, 78u8, 69u8, 67u8, 84u8, 73u8, 78u8, 71u8] {
            Some(ConnectionState::TcpConnecting)
        } else if value == seq![85u8, 68u8, 80u8, 32u8, 67u8, 79u8, 78u8, 78u8, 69u8, 67u8, 84u8, 73u8, 78u8, 71u8] {
            Some(ConnectionState::UdpConnecting)
        } else if value == seq![83u8, 69u8, 82u8, 86u8, 69u8, 82u8, 32u8, 76u8, 73u8, 83u8, 84u8, 69u8, 78u8, 73u8, 78u8, 71u8] {
            Some(ConnectionState::ServerListening)
        } else if value == seq![67u8, 79u8, 78u8, 78u8, 69u8, 67u8, 84u8, 32u8, 79u8, 75u8] {
            Some(ConnectionState::ConnectOk)
        } else if value == seq![84u8, 67u8, 80u8, 32u8, 67u8, 76u8, 79u8, 83u8, 73u8, 78u8, 71u8] {
            Some(ConnectionState::TcpClosing)
        } else if value == seq![85u8, 68u8, 80u8, 32u8, 67u8, 76u8, 79u8, 83u8, 73u8, 78u8, 71u8] {
            Some(ConnectionState::UdpClosing)
        } else if value == seq![84u8, 67u8, 80u8, 32u8, 67u8, 76u8, 79u8, 83u8, 69u8, 68u8] {
            Some(ConnectionState::TcpClosing)
        } else if value == seq![85u8, 68u8, 80u8, 32u8, 67u8, 76u8, 79u8, 83u8, 69u8, 68u8] {
            Some(ConnectionState::UdpClosed)
        } else if value == seq![80u8, 68u8, 80u8, 32u8, 68u8, 69u8, 65u8, 67u8, 84u8] {
            Some(ConnectionState::PdpDeact)
        } else {
            None
        }
}

/// The name under which the modem reports each state: `IP INITIAL`,
/// `IP START`, `IP CONFIG`, `IP GPRSACT`, `IP STATUS`, `TCP CONNECTING`,
/// `UDP CONNECTING`, `SERVER LISTENING`, `CONNECT OK`, `TCP CLOSING`,
/// `UDP CLOSING`, `TCP CLOSED`, `UDP CLOSED`, `PDP DEACT`.
pub open spec fn state_name(s: ConnectionState) -> Seq<u8> {
    match s {
        ConnectionState::IpInitial => seq![73u8, 80u8, 32u8, 73u8, 78u8, 73u8, 84u8, 73u8, 65u8, 76u8],
        ConnectionState::IpStart => seq![73u8, 80u8, 32u8, 83u8, 84u8, 65u8, 82u8, 84u8],
        ConnectionState::IpConfig => seq![73u8, 80u8, 32u8, 67u8, 79u8, 78u8, 70u8, 73u8, 71u8],
        ConnectionState::IpGprsact => seq![73u8, 80u8, 32u8, 71u8, 80u8, 82u8, 83u8, 65u8, 67u8, 84u8],
        ConnectionState::IpStatus => seq![73u8, 80u8, 32u8, 83u8, 84u8, 65u8, 84u8, 85u8, 83u8],
        ConnectionState::TcpConnecting => seq![84u8, 67u8, 80u8, 32u8, 67u8, 79u8, 78u8, 78u8, 69u8, 67u8, 84u8, 73u8, 78u8, 71u8],
        ConnectionState::UdpConnecting => seq![85u8, 68u8, 80u8, 32u8, 67u8, 79u8, 78u8, 78u8, 69u8, 67u8, 84u8, 73u8, 78u8, 71u8],
        ConnectionState::ServerListening => seq![83u8, 69u8, 82u8, 86u8, 69u8, 82u8, 32u8, 76u8, 73u8, 83u8, 84u8, 69u8, 78u8, 73u8, 78u8, 71u8],
        ConnectionState::ConnectOk => seq![67u8, 79u8, 78u8, 78u8, 69u8, 67u8, 84u8, 32u8, 79u8, 75u8],
        ConnectionState::TcpClosing => seq![84u8, 67u8, 80u8, 32u8, 67u8, 76u8, 79u8, 83u8, 73u8, 78u8, 71u8],
        ConnectionState::UdpClosing => seq![85u8, 68u8, 80u8, 32u8, 67u8, 76u8, 79u8, 83u8, 73u8, 78u8, 71u8],
        ConnectionState::TcpClosed => seq![84u8, 67u8, 80u8, 32u8, 67u8, 76u8, 79u8, 83u8, 69u8, 68u8],
        ConnectionState::UdpClosed => seq![85u8, 68u8, 80u8, 32u8, 67u8, 76u8, 79u8, 83u8, 69u8, 68u8],
        ConnectionState::PdpDeact => seq![80u8, 68u8, 80u8, 32u8, 68u8, 69u8, 65u8, 67u8, 84u8],
    }
}

/// Each state is read from its own name and from no other text, but for
/// `TCP CLOSED`, which is read as [`ConnectionState::TcpClosing`]: so only
/// `CONNECT OK` gives `ConnectOk`, and `TCP CONNECTING` gives
/// `TcpConnecting`.
pub proof fn lemma_state_names(t: Seq<u8>, s: ConnectionState)
    ensures
        connection_state_of(t) == Some(s) <==> (s != ConnectionState::TcpClosed && t
            == state_name(s)) || (s == ConnectionState::TcpClosing && t == state_name(
            ConnectionState::TcpClosed,
        )),
{
    lemma_state_names_distinct();
}

/// The names of distinct states differ.
proof fn lemma_state_names_distinct()
    ensures
        forall|a: ConnectionState, b: ConnectionState| a != b ==> state_name(a) != state_name(b),
{
    assert forall|a: ConnectionState, b: ConnectionState| a != b implies state_name(a)
        != state_name(b) by {
        let x = state_name(a);
        let y = state_name(b);
        if x.len() == y.len() {
            assert(x[0] != y[0] || x[3] != y[3] || x[4] != y[4] || x[5] != y[5] || x[6] != y[6]
                || x[7] != y[7] || x[8] != y[8]);
        }
    }
}

impl ConnectionState {
    /// Reads the state from its name in the modem's answer.
    pub fn try_from(value: &[u8]) -> (r: Result<ConnectionState, ()>)
        ensures
            r == match connection_state_of(value@) {
                Some(s) => Ok(s),
                None => Err::<ConnectionState, ()>(()),
            },
    {
        if bytes_eq(value, &[73u8, 80u8, 32u8, 73u8, 78u8, 73u8, 84u8, 73u8, 65u8, 76u8]) {
            return Ok(ConnectionState::IpInitial);
        }
        if bytes_eq(value, &[73u8, 80u8, 32u8, 83u8, 84u8, 65u8, 82u8, 84u8]) {
            return Ok(ConnectionState::IpStart);
        }
        if bytes_eq(value, &[73u8, 80u8, 32u8, 67u8, 79u8, 78u8, 70u8, 73u8, 71u8]) {
            return Ok(ConnectionState::IpConfig);
        }
        if bytes_eq(value, &[73u8, 80u8, 32u8, 71u8, 80u8, 82u8, 83u8, 65u8, 67u8, 84u8]) {
            return Ok(ConnectionState::IpGprsact);
        }
        if bytes_eq(value, &[73u8, 80u8, 32u8, 83u8, 84u8, 65u8, 84u8, 85u8, 83u8]) {
            return Ok(ConnectionState::IpStatus);
        }
        if bytes_eq(value, &[84u8, 67u8, 80u8, 32u8, 67u8, 79u8, 78u8, 78u8, 69u8, 67u8, 84u8, 73u8, 78u8, 71u8]) {
            return Ok(ConnectionState::TcpConnecting);
        }
        if bytes_eq(value, &[85u8, 68u8, 80u8, 32u8, 67u8, 79u8, 78u8, 78u8, 69u8, 67u8, 84u8, 73u8, 78u8, 71u8]) {
            return Ok(ConnectionState::UdpConnecting);
        }
        if bytes_eq(value, &[83u8, 69u8, 82u8, 86u8, 69u8, 82u8, 32u8, 76u8, 73u8, 83u8, 84u8, 69u8, 78u8, 73u8, 78u8, 71u8]) {
            return Ok(ConnectionState::ServerListening);
        }
        if bytes_eq(value, &[67u8, 79u8, 78u8, 78u8, 69u8, 67u8, 84u8, 32u8, 79u8, 75u8]) {
            return Ok(ConnectionState::ConnectOk);
        }
        if bytes_eq(value, &[84u8, 67u8, 80u8, 32u8, 67u8, 76u8, 79u8, 83u8, 73u8, 78u8, 71u8]) {
            return Ok(ConnectionState::TcpClosing);
        }
        if bytes_eq(value, &[85u8, 68u8, 80u8, 32u8, 67u8, 76u8, 79u8, 83u8, 73u8, 78u8, 71u8]) {
            return Ok(ConnectionState::UdpClosing);
        }
        if bytes_eq(value, &[84u8, 67u8, 80u8, 32u8, 67u8, 76u8, 79u8, 83u8, 69u8, 68u8]) {
            return Ok(ConnectionState::TcpClosing);
        }
        if bytes_eq(value, &[85u8, 68u8, 80u8, 32u8, 67u8, 76u8, 79u8, 83u8, 69u8, 68u8]) {
            return Ok(ConnectionState::UdpClosed);
        }
        if bytes_eq(value, &[80u8, 68u8, 80u8, 32u8, 68u8, 69u8, 65u8, 67u8, 84u8]) {
            return Ok(ConnectionState::PdpDeact);
        }
        Err(())
    }
}

impl AtDecode for ConnectionState {
    /// A line starting with `OK`, then one of `STATE: ` followed by the name of a state.
    open spec fn outcome(lines: Seq<Seq<u8>>, r: Result<ConnectionState, Error>) -> bool {
        ||| lines.len() == 0 && read_error(r)
        ||| lines.len() == 1 && !has_prefix(lines[0], ok()) && r == Err::<ConnectionState, Error>(
            Error::DecodingFailed,
        )
        ||| lines.len() == 1 && has_prefix(lines[0], ok()) && read_error(r)
        ||| lines.len() == 2 && has_prefix(lines[0], ok()) && r == if has_prefix(
            lines[1],
            state_header(),
        ) {
            match connection_state_of(lines[1].skip(state_header().len() as int)) {
                Some(s) => Ok(s),
                None => Err(Error::DecodingFailed),
            }
        } else {
            Err(Error::DecodingFailed)
        }
    }

    fn decode<B: SerialReadTimeout>(decoder: &mut Decoder, serial: &mut B, timeout_ms: u32) -> (r:
        Result<ConnectionState, Error>) {
        let ghost d0 = *decoder;
        proof {
            lemma_ok();
            lemma_state_header();
        }
        expect_text(decoder, "OK", serial, timeout_ms)?;
        decoder.end_line();
        let ghost d1 = *decoder;
        let r = expect_text(decoder, "STATE: ", serial, timeout_ms);
        proof {
            lemma_seen_concat(d0, d1, *decoder);
        }
        r?;
        let ghost d2 = *decoder;
        let name = next_text(decoder, serial, timeout_ms)?;
        proof {
            lemma_same_line(d2, *decoder);
            assert(d1.seen_since(*decoder) == d1.seen_since(d2));
            assert(d2.pending() == seq![d2.rest()]);
            assert(decoder.history().skip(d2.history().len() as int) =~= Seq::<Seq<u8>>::empty());
            assert(d2.seen_since(*decoder) =~= seq![d2.rest()]);
            assert(seq![name@][0] == name@);
            assert(seq![d2.rest()][0] == d2.rest());
            assert(name@ == d2.rest());
            let lines = d0.seen_since(*decoder);
            assert(lines.len() == 2);
            assert(lines[1].skip(state_header().len() as int) == name@);
        }
        match ConnectionState::try_from(name.as_slice()) {
            Ok(s) => Ok(s),
            Err(()) => Err(Error::DecodingFailed),
        }
    }
}

impl AtExecute for Cipstatus {
    type Output = ConnectionState;
}

} // verus!
