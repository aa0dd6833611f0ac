//! `AT+CIPSEND`: sending data over a connection.

use vstd::prelude::*;
use crate::error::Error;
use vstd::string::StringSliceAdditionalSpecFns;
use crate::numparse::int_text;
use crate::serial::{all_timed, drain_relay, drained, lines_read, new_events, PortEvent, SerialReadTimeout, SerialWrite};
use crate::text::bytes_eq;
use super::Encoder;
use super::{drained_ok, ended_by_failed_read, lemma_decoder_saw, next_text, read_error, AtCommand, AtDecode, AtWrite, Decoder};

verus! {

pub struct Cipsend;

impl AtCommand for Cipsend {
    const COMMAND: &'static str = "AT+CIPSEND";
}

#[derive(Clone, Copy, PartialEq, Eq, Debug, Structural)]
pub enum SendResult {
    Failure,
    Success,
}

impl SendResult {
    /// `SEND OK` is success, `SEND FAIL` failure; any other line is malformed.
    pub open spec fn from_line(line: Seq<u8>) -> Result<SendResult, Error> {
        if line == seq![83u8, 69u8, 78u8, 68u8, 32u8, 79u8, 75u8] {
            Ok(SendResult::Success)
        } else if line == seq![83u8, 69u8, 78u8, 68u8, 32u8, 70u8, 65u8, 73u8, 76u8] {
            Ok(SendResult::Failure)
        } else {
            Err(Error::DecodingFailed)
        }
    }
}

impl AtDecode for SendResult {
    /// One line, read as [`SendResult::from_line`] says.
    open spec fn outcome(lines: Seq<Seq<u8>>, r: Result<SendResult, Error>) -> bool {
        ||| lines.len() == 0 && read_error(r)
        ||| lines.len() == 1 && r == SendResult::from_line(lines[0])
    }

    fn decode<B: SerialReadTimeout>(decoder: &mut Decoder, serial: &mut B, timeout_ms: u32) -> (r:
        Result<SendResult, Error>) {
        let line = next_text(decoder, serial, timeout_ms)?;
        if bytes_eq(&line, &[83u8, 69u8, 78u8, 68u8, 32u8, 79u8, 75u8]) {
            return Ok(SendResult::Success);
        }
        if bytes_eq(&line, &[83u8, 69u8, 78u8, 68u8, 32u8, 70u8, 65u8, 73u8, 76u8]) {
            return Ok(SendResult::Failure);
        }
        Err(Error::DecodingFailed)
    }
}

/// The modem's prompt for the data of a send: `\r\n> `.
pub open spec fn send_prompt() -> Seq<u8> {
    seq![13u8, 10u8, 62u8, 32u8]
}

/// The request line of a send of `len` bytes, before its closing `\r`:
/// `AT+CIPSEND=<len>`.
pub open spec fn send_request_prefix(len: nat) -> Seq<u8> {
    Cipsend::COMMAND.spec_bytes() + seq![61u8] + int_text((len as i32) as int)
}

/// The events `e` of a send of `data` with `timeout_ms`, the drain of what
/// the modem sent before ending at `k`, and what it gives, `r`: the drain,
/// the write of the request line and of `\r`, a read of the 4 bytes of the
/// prompt, the write of the data, then the reads of the answer. A failure
/// of the port ends it with `Error::Serial`, a prompt that does not come in
/// time with `Error::Timeout`, another prompt with `Error::DecodingFailed`;
/// once the data is written, the lines the port gives after it, read with
/// `timeout_ms`, make the result.
pub open spec fn send_began_at(
    e: Seq<PortEvent>,
    data: Seq<u8>,
    timeout_ms: u32,
    k: int,
    r: Result<SendResult, Error>,
) -> bool {
    let prefix = send_request_prefix(data.len());
    &&& 0 < k <= e.len()
    &&& if !drained_ok(e.take(k), 0) {
        drained(e.take(k), 0, Err(Error::Serial)) && e.len() == k && r == Err::<SendResult, Error>(
            Error::Serial,
        )
    } else if e.len() < k + 1 {
        false
    } else if e[k] != (PortEvent::Write { bytes: prefix, ok: true }) {
        e[k] == (PortEvent::Write { bytes: prefix, ok: false }) && e.len() == k + 1 && r == Err::<
            SendResult,
            Error,
        >(Error::Serial)
    } else if e.len() < k + 2 {
        false
    } else if e[k + 1] != (PortEvent::Write { bytes: seq![13u8], ok: true }) {
        e[k + 1] == (PortEvent::Write { bytes: seq![13u8], ok: false }) && e.len() == k + 2 && r
            == Err::<SendResult, Error>(Error::Serial)
    } else if e.len() < k + 3 {
        false
    } else {
        match e[k + 2] {
            PortEvent::ReadExact { len, timeout_ms: t, got } => len == 4 && t == timeout_ms && match got {
                Err(()) => e.len() == k + 3 && r == Err::<SendResult, Error>(Error::Serial),
                Ok(None) => e.len() == k + 3 && r == Err::<SendResult, Error>(Error::Timeout),
                Ok(Some(p)) => if p != send_prompt() {
                    e.len() == k + 3 && r == Err::<SendResult, Error>(Error::DecodingFailed)
                } else if e.len() < k + 4 {
                    false
                } else if e[k + 3] != (PortEvent::Write { bytes: data, ok: true }) {
                    e[k + 3] == (PortEvent::Write { bytes: data, ok: false }) && e.len() == k + 4 && r
                        == Err::<SendResult, Error>(Error::Serial)
                } else {
                    all_timed(e.skip(k + 4), timeout_ms) && SendResult::outcome(
                        lines_read(e.skip(k + 4)),
                        r,
                    ) && ended_by_failed_read(e.skip(k + 4), r)
                },
            },
            _ => false,
        }
    }
}

/// The events `e` are those of a send of `data` that gives `r` (see
/// [`send_began_at`]).
pub open spec fn send_began(e: Seq<PortEvent>, data: Seq<u8>, timeout_ms: u32, r: Result<SendResult, Error>) -> bool {
    exists|k: int| send_began_at(e, data, timeout_ms, k, r)
}

impl<'a> AtWrite<'a> for Cipsend {
    type Input = &'a [u8];
    type Output = SendResult;

    /// Sends `AT+CIPSEND=<length>\r`, waits for the prompt, sends the data
    /// and reads the result.
    fn write<B: SerialReadTimeout + SerialWrite>(
        &self,
        parameter: &'a [u8],
        serial: &mut B,
        timeout_ms: u32,
    ) -> (r: Result<SendResult, Error>)
        ensures
            r is Ok ==> final(serial).sent() == old(serial).sent() + Self::COMMAND.spec_bytes()
                + seq![61u8] + int_text((parameter@.len() as i32) as int) + seq![13u8]
                + parameter@,
            old(serial).events().is_prefix_of(final(serial).events()),
            send_began(new_events(old(serial).events(), final(serial).events()), parameter@, timeout_ms, r),
    {
        let ghost ev0 = serial.events();
        let d = drain_relay(serial, 0);
        let ghost ev1 = serial.events();
        let ghost k = ev1.len() - ev0.len();
        proof {
            assert(new_events(ev0, ev1).take(k) =~= new_events(ev0, ev1));
        }
        if d.is_err() {
            proof {
                assert(send_began_at(new_events(ev0, ev1), parameter@, timeout_ms, k, Err(Error::Serial)));
            }
            return Err(Error::Serial);
        }
        let mut encoder = Encoder::new();
        encoder.encode_str(Self::COMMAND);
        encoder.encode_bytes(&[61u8]);
        encoder.encode_scalar(parameter.len() as i32);
        assert(encoder@ =~= send_request_prefix(parameter@.len()));
        let w1 = serial.write(encoder.as_bytes());
        let ghost ev2 = serial.events();
        proof {
            let e = new_events(ev0, ev2);
            assert(e.take(k) =~= new_events(ev0, ev1));
            assert(e[k] == ev2.last());
        }
        if w1.is_err() {
            proof {
                assert(send_began_at(new_events(ev0, ev2), parameter@, timeout_ms, k, Err(Error::Serial)));
            }
            return Err(Error::Serial);
        }
        let w2 = serial.write(&[13u8]);
        let ghost ev3 = serial.events();
        proof {
            let e = new_events(ev0, ev3);
            assert(e.take(k) =~= new_events(ev0, ev1));
            assert(e[k] == ev2.last());
            assert(e[k + 1] == ev3.last());
            assert([13u8]@ =~= seq![13u8]);
        }
        if w2.is_err() {
            proof {
                assert(send_began_at(new_events(ev0, ev3), parameter@, timeout_ms, k, Err(Error::Serial)));
            }
            return Err(Error::Serial);
        }
        let p = serial.read_exact(4, timeout_ms);
        let ghost ev4 = serial.events();
        proof {
            let e = new_events(ev0, ev4);
            assert(e.take(k) =~= new_events(ev0, ev1));
            assert(e[k] == ev2.last());
            assert(e[k + 1] == ev3.last());
            assert(e[k + 2] == ev4.last());
        }
        let prompt = match p {
            Ok(Some(b)) => b,
            Ok(None) => {
                proof {
                    assert(send_began_at(new_events(ev0, ev4), parameter@, timeout_ms, k, Err(Error::Timeout)));
                }
                return Err(Error::Timeout);
            },
            Err(_) => {
                proof {
                    assert(send_began_at(new_events(ev0, ev4), parameter@, timeout_ms, k, Err(Error::Serial)));
                }
                return Err(Error::Serial);
            },
        };
        if !bytes_eq(prompt.as_slice(), &[13u8, 10u8, 62u8, 32u8]) {
            proof {
                assert([13u8, 10u8, 62u8, 32u8]@ =~= send_prompt());
                assert(send_began_at(new_events(ev0, ev4), parameter@, timeout_ms, k, Err(Error::DecodingFailed)));
            }
            return Err(Error::DecodingFailed);
        }
        proof {
            assert([13u8, 10u8, 62u8, 32u8]@ =~= send_prompt());
        }
        let w3 = serial.write(parameter);
        let ghost ev5 = serial.events();
        proof {
            let e = new_events(ev0, ev5);
            assert(e.take(k) =~= new_events(ev0, ev1));
            assert(e[k] == ev2.last());
            assert(e[k + 1] == ev3.last());
            assert(e[k + 2] == ev4.last());
            assert(e[k + 3] == ev5.last());
        }
        if w3.is_err() {
            proof {
                assert(send_began_at(new_events(ev0, ev5), parameter@, timeout_ms, k, Err(Error::Serial)));
            }
            return Err(Error::Serial);
        }
        let mut decoder = Decoder::new(&*serial, timeout_ms);
        let ghost d0 = decoder;
        let r = SendResult::decode(&mut decoder, serial, timeout_ms);
        proof {
            assert(SendResult::outcome(d0.seen_since(decoder), r));
            lemma_decoder_saw(d0, decoder, ev5, serial.events());
            let e = new_events(ev0, serial.events());
            assert(e.skip(k + 4) =~= new_events(ev5, serial.events()));
            assert(ev5.is_prefix_of(serial.events()));
            assert(e.take(k) =~= new_events(ev0, ev1));
            assert(e[k] == ev2.last());
            assert(e[k + 1] == ev3.last());
            assert(e[k + 2] == ev4.last());
            assert(e[k + 3] == ev5.last());
            assert(send_began_at(e, parameter@, timeout_ms, k, r));
        }
        r
    }
}

} // verus!
