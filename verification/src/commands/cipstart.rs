//! `AT+CIPSTART`: opening a TCP or UDP connection.

use vstd::prelude::*;
use vstd::string::StringSliceAdditionalSpecFns;
use crate::error::Error;
use crate::numparse::int_text;
use crate::serial::SerialReadTimeout;
use crate::text::{bytes_eq, has_prefix};
use super::{connection_state_of, expect_text, lemma_same_line, lemma_seen_concat, next_text, read_error, AtCommand, AtDecode, AtEncode, AtWrite, ConnectionState, Decoder, Encoder};
use super::literals::{
    already_connect, connect_fail, connect_ok, lemma_connect_fail, lemma_ok, lemma_state_header, ok,
    state_header,
};

verus! {

pub struct Cipstart;

impl AtCommand for Cipstart {
    const COMMAND: &'static str = "AT+CIPSTART";
}

pub struct TcpConnectionParams<'a> {
    pub mode: &'static str,
    pub host: &'a str,
    pub port: u16,
}

impl<'a> AtEncode for TcpConnectionParams<'a> {
    /// Mode, host and port, each between double quotes, separated by commas.
    open spec fn encoding(&self) -> Seq<u8> {
        seq![34u8] + self.mode.spec_bytes() + seq![34u8, 44u8, 34u8] + self.host.spec_bytes()
            + seq![34u8, 44u8, 34u8] + int_text(self.port as int) + seq![34u8]
    }

    fn encode(&self, encoder: &mut Encoder) {
        encoder.encode_bytes(&[34u8]);
        encoder.encode_str(self.mode);
        encoder.encode_bytes(&[34u8, 44u8, 34u8]);
        encoder.encode_str(self.host);
        encoder.encode_bytes(&[34u8, 44u8, 34u8]);
        encoder.encode_scalar(self.port as i32);
        encoder.encode_bytes(&[34u8]);
        assert(final(encoder)@ =~= old(encoder)@ + self.encoding());
    }
}

#[derive(Clone, Copy, PartialEq, Eq, Debug, Structural)]
pub enum ConnectionResult {
    Failure,
    Success,
}

/// The line after `OK` reports success.
pub open spec fn reports_connected(line: Seq<u8>) -> bool {
    line == connect_ok() || line == already_connect()
}

/// The line after `OK` reports a state, as it does when the connection failed.
pub open spec fn reports_state(line: Seq<u8>) -> bool {
    has_prefix(line, state_header()) && connection_state_of(
        line.skip(state_header().len() as int),
    ) is Some
}

impl AtDecode for ConnectionResult {
    /// A line starting with `OK`; then `CONNECT OK` or `ALREADY CONNECT` for
    /// success, or else a line `STATE: <state>` and a line starting with
    /// `CONNECT FAIL` for failure.
    open spec fn outcome(lines: Seq<Seq<u8>>, r: Result<ConnectionResult, Error>) -> bool {
        ||| lines.len() == 0 && read_error(r)
        ||| lines.len() == 1 && !has_prefix(lines[0], ok()) && r == Err::<ConnectionResult, Error>(
            Error::DecodingFailed,
        )
        ||| lines.len() == 1 && has_prefix(lines[0], ok()) && read_error(r)
        ||| lines.len() == 2 && has_prefix(lines[0], ok()) && reports_connected(lines[1]) && r
            == Ok::<ConnectionResult, Error>(ConnectionResult::Success)
        ||| lines.len() == 2 && has_prefix(lines[0], ok()) && !reports_connected(lines[1])
            && !reports_state(lines[1]) && r == Err::<ConnectionResult, Error>(
            Error::DecodingFailed,
        )
        ||| lines.len() == 2 && has_prefix(lines[0], ok()) && !reports_connected(lines[1])
            && reports_state(lines[1]) && read_error(r)
        ||| lines.len() == 3 && has_prefix(lines[0], ok()) && !reports_connected(lines[1])
            && reports_state(lines[1]) && r == if has_prefix(lines[2], connect_fail()) {
            Ok::<ConnectionResult, Error>(ConnectionResult::Failure)
        } else {
            Err(Error::DecodingFailed)
        }
    }

    fn decode<B: SerialReadTimeout>(decoder: &mut Decoder, serial: &mut B, timeout_ms: u32) -> (r:
        Result<ConnectionResult, Error>) {
        let ghost d0 = *decoder;
        proof {
            lemma_ok();
            lemma_state_header();
            lemma_connect_fail();
        }
        expect_text(decoder, "OK", serial, timeout_ms)?;
        decoder.end_line();
        let ghost d1 = *decoder;
        let status = next_text(decoder, serial, timeout_ms);
        proof {
            lemma_seen_concat(d0, d1, *decoder);
        }
        let status = status?;
        proof {
            assert(seq![status@][0] == status@);
        }
        if bytes_eq(status.as_slice(), &[67u8, 79u8, 78u8, 78u8, 69u8, 67u8, 84u8, 32u8, 79u8, 75u8]) || bytes_eq(
            status.as_slice(),
            &[65u8, 76u8, 82u8, 69u8, 65u8, 68u8, 89u8, 32u8, 67u8, 79u8, 78u8, 78u8, 69u8, 67u8, 84u8],
        ) {
            return Ok(ConnectionResult::Success);
        }
        let ghost d2 = *decoder;
        let r = expect_text(decoder, "STATE: ", serial, timeout_ms);
        proof {
            assert(d2.pending() == seq![status@]);
            if r is Ok || r == Err::<(), Error>(Error::DecodingFailed) {
                lemma_same_line(d2, *decoder);
                assert(d1.seen_since(*decoder) == d1.seen_since(d2));
            }
        }
        r?;
        let ghost d3 = *decoder;
        let name = next_text(decoder, serial, timeout_ms)?;
        proof {
            lemma_same_line(d3, *decoder);
            assert(seq![name@][0] == name@);
            assert(name@ == status@.skip(state_header().len() as int));
        }
        if ConnectionState::try_from(name.as_slice()).is_err() {
            return Err(Error::DecodingFailed);
        }
        decoder.end_line();
        let ghost d4 = *decoder;
        let r = expect_text(decoder, "CONNECT FAIL", serial, timeout_ms);
        proof {
            lemma_seen_concat(d0, d4, *decoder);
        }
        r?;
        Ok(ConnectionResult::Failure)
    }
}

impl<'a> AtWrite<'a> for Cipstart {
    type Input = TcpConnectionParams<'a>;
    type Output = ConnectionResult;
}

} // verus!
