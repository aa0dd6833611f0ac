//! `AT+CIPRXGET`: fetching received data from the modem by hand.

use vstd::prelude::*;
use vstd::string::StringSliceAdditionalSpecFns;
use crate::error::Error;
use crate::numparse::int_text;
use crate::serial::{all_timed, bytes_read, drain_relay, drained, lines_read, new_events, PortEvent, SerialReadTimeout, SerialWrite};
use crate::text::has_prefix;
use super::{
    drained_ok, ended_by_failed_read,
    encode_write_prefix, expect_text, extends, lemma_decoder_saw, leading_int, lemma_extends_refl,
    lemma_offset_in_line, lemma_seen_concat, read_error, write_prefix, AtCommand, AtDecode,
    AtEncode, AtWrite, Decoder, Encoder,
};
use super::literals::{
    ciprxget_header, comma, lemma_ciprxget_header, lemma_comma, lemma_ok, ok,
};

verus! {

pub struct Ciprxget;

impl AtCommand for Ciprxget {
    const COMMAND: &'static str = "AT+CIPRXGET";
}

#[derive(Clone, Copy, PartialEq, Eq, Debug, Structural)]
pub enum NetworkReceiveMode {
    Disable,
    Enable,
    GetBytes(u16),
    GetHex(u16),
    QueryUnread,
}

/// The most bytes one answer may carry.
pub const RECEIVE_CAPACITY: usize = 1460;

/// The most `+CIPRXGET: 1` lines (data not ready yet) that one answer may
/// begin with; more make the answer malformed.
pub const MAX_WAIT_LINES: u64 = 0xffff_ffff_ffff_ffff;

pub struct NetworkReceiveResponse {
    pub mode: NetworkReceiveMode,
    pub bytes: Option<Vec<u8>>,
}

impl AtEncode for NetworkReceiveMode {
    /// `0`, `1`, `2,<length>`, `3,<length>` or `4`.
    open spec fn encoding(&self) -> Seq<u8> {
        match *self {
            NetworkReceiveMode::Disable => int_text(0),
            NetworkReceiveMode::Enable => int_text(1),
            NetworkReceiveMode::GetBytes(n) => int_text(2) + seq![44u8] + int_text(n as int),
            NetworkReceiveMode::GetHex(n) => int_text(3) + seq![44u8] + int_text(n as int),
            NetworkReceiveMode::QueryUnread => int_text(4),
        }
    }

    fn encode(&self, encoder: &mut Encoder) {
        match self {
            NetworkReceiveMode::Disable => {
                encoder.encode_scalar(0);
            },
            NetworkReceiveMode::Enable => {
                encoder.encode_scalar(1);
            },
            NetworkReceiveMode::GetBytes(n) => {
                encoder.encode_scalar(2);
                encoder.encode_bytes(&[44u8]);
                encoder.encode_scalar(*n as i32);
            },
            NetworkReceiveMode::GetHex(n) => {
                encoder.encode_scalar(3);
                encoder.encode_bytes(&[44u8]);
                encoder.encode_scalar(*n as i32);
            },
            NetworkReceiveMode::QueryUnread => {
                encoder.encode_scalar(4);
            },
        }
        assert(final(encoder)@ =~= old(encoder)@ + self.encoding());
    }
}

/// The mode number of a `+CIPRXGET: ` line, and the text after it.
pub open spec fn rx_header(line: Seq<u8>) -> Option<(int, Seq<u8>)> {
    if has_prefix(line, ciprxget_header()) {
        leading_int(line.skip(ciprxget_header().len() as int))
    } else {
        None
    }
}

/// A line `+CIPRXGET: 1`: the data is not ready yet.
pub open spec fn is_wait_line(line: Seq<u8>) -> bool {
    rx_header(line) matches Some((mode, _)) && mode == 1
}

/// What follows the mode of a `+CIPRXGET: 2` line (`after`) and the lines
/// after it (`rest`) make of the answer: `,<length>`, where the length must
/// lie between 0 and [`RECEIVE_CAPACITY`], then that many bytes of data, then
/// a line starting with `OK`.
pub open spec fn rx_data_outcome(
    after: Seq<u8>,
    rest: Seq<Seq<u8>>,
    r: Result<NetworkReceiveResponse, Error>,
) -> bool {
    if !has_prefix(after, comma()) {
        rest.len() == 0 && r == Err::<NetworkReceiveResponse, Error>(Error::DecodingFailed)
    } else {
        match leading_int(after.skip(1)) {
            None => rest.len() == 0 && r == Err::<NetworkReceiveResponse, Error>(
                Error::DecodingFailed,
            ),
            Some((n, _)) => if n < 0 || n > RECEIVE_CAPACITY {
                rest.len() == 0 && r == Err::<NetworkReceiveResponse, Error>(
                    Error::BufferOverflow,
                )
            } else {
                ||| rest.len() == 0 && read_error(r)
                ||| rest.len() == 1 && if has_prefix(rest[0], ok()) {
                    &&& r is Ok
                    &&& r->Ok_0.mode == NetworkReceiveMode::GetBytes(n as u16)
                    &&& r->Ok_0.bytes is Some
                    &&& r->Ok_0.bytes->Some_0@.len() == n
                } else {
                    r == Err::<NetworkReceiveResponse, Error>(Error::DecodingFailed)
                }
            },
        }
    }
}

/// What `lines` make of an answer that may still begin with `budget` more
/// `+CIPRXGET: 1` lines: such lines are skipped, then a line
/// `+CIPRXGET: 2,<length>...` introduces the data.
pub open spec fn rx_outcome(
    lines: Seq<Seq<u8>>,
    r: Result<NetworkReceiveResponse, Error>,
    budget: nat,
) -> bool
    decreases lines.len(),
{
    if lines.len() == 0 {
        read_error(r)
    } else {
        match rx_header(lines[0]) {
            None => lines.len() == 1 && r == Err::<NetworkReceiveResponse, Error>(
                Error::DecodingFailed,
            ),
            Some((mode, after)) => if mode == 1 {
                if budget == 0 {
                    lines.len() == 1 && r == Err::<NetworkReceiveResponse, Error>(Error::DecodingFailed)
                } else {
                    rx_outcome(lines.drop_first(), r, (budget - 1) as nat)
                }
            } else if mode == 2 {
                rx_data_outcome(after, lines.drop_first(), r)
            } else {
                lines.len() == 1 && r == Err::<NetworkReceiveResponse, Error>(
                    Error::DecodingFailed,
                )
            },
        }
    }
}

/// Wait lines in front do not change the outcome but for the budget.
proof fn lemma_rx_wait_prefix(
    waits: Seq<Seq<u8>>,
    tail: Seq<Seq<u8>>,
    r: Result<NetworkReceiveResponse, Error>,
    budget: nat,
)
    requires
        waits.len() <= budget,
        forall|i: int| 0 <= i < waits.len() ==> is_wait_line(#[trigger] waits[i]),
    ensures
        rx_outcome(waits + tail, r, budget) == rx_outcome(tail, r, (budget - waits.len()) as nat),
    decreases waits.len(),
{
    if waits.len() > 0 {
        let w = waits.drop_first();
        assert((waits + tail).drop_first() =~= w + tail);
        assert((waits + tail)[0] == waits[0]);
        assert forall|i: int| 0 <= i < w.len() implies is_wait_line(#[trigger] w[i]) by {
            assert(w[i] == waits[i + 1]);
        }
        lemma_rx_wait_prefix(w, tail, r, (budget - 1) as nat);
    } else {
        assert(waits + tail =~= tail);
    }
}

/// [`lemma_rx_wait_prefix`] for every result.
proof fn lemma_rx_wait_prefix_all(waits: Seq<Seq<u8>>, tail: Seq<Seq<u8>>, budget: nat)
    requires
        waits.len() <= budget,
        forall|i: int| 0 <= i < waits.len() ==> is_wait_line(#[trigger] waits[i]),
    ensures
        forall|r: Result<NetworkReceiveResponse, Error>|
            #[trigger] rx_outcome(waits + tail, r, budget) == rx_outcome(
                tail,
                r,
                (budget - waits.len()) as nat,
            ),
{
    assert forall|r: Result<NetworkReceiveResponse, Error>|
        #[trigger] rx_outcome(waits + tail, r, budget) == rx_outcome(
            tail,
            r,
            (budget - waits.len()) as nat,
        ) by {
        lemma_rx_wait_prefix(waits, tail, r, budget);
    }
}

impl AtDecode for NetworkReceiveResponse {
    open spec fn outcome(lines: Seq<Seq<u8>>, r: Result<NetworkReceiveResponse, Error>) -> bool {
        rx_outcome(lines, r, MAX_WAIT_LINES as nat)
    }

    /// The data are the bytes read after the `+CIPRXGET: 2,<length>` line.
    fn decode<B: SerialReadTimeout>(decoder: &mut Decoder, serial: &mut B, timeout_ms: u32) -> (r:
        Result<NetworkReceiveResponse, Error>)
        ensures
            r matches Ok(resp) ==> resp.bytes matches Some(b) && final(decoder).taken()
                == old(decoder).taken() + b@,
    {
        let ghost d0 = *decoder;
        proof {
            lemma_ciprxget_header();
            lemma_comma();
            lemma_ok();
            lemma_extends_refl(d0);
        }
        let mut waited: u64 = 0;
        let ghost mut waits: Seq<Seq<u8>> = Seq::empty();
        let ghost mut line: Seq<u8> = Seq::empty();
        loop
            invariant_except_break
                d0 == *old(decoder),
                decoder.wf(),
                decoder.synced(serial.events()),
                decoder.taken() == d0.taken(),
                decoder.timeout() == timeout_ms,
                extends(d0, *decoder),
                serial.sent() == old(serial).sent(),
                old(serial).events().is_prefix_of(serial.events()),
                waits.len() == waited,
                forall|i: int| 0 <= i < waits.len() ==> is_wait_line(#[trigger] waits[i]),
                waited == 0 ==> *decoder == d0,
                waited > 0 ==> decoder.line() is None && d0.seen_since(*decoder) == waits,
            ensures
                d0 == *old(decoder),
                decoder.wf(),
                decoder.synced(serial.events()),
                decoder.taken() == d0.taken(),
                decoder.timeout() == timeout_ms,
                extends(d0, *decoder),
                serial.sent() == old(serial).sent(),
                old(serial).events().is_prefix_of(serial.events()),
                waits.len() == waited,
                forall|i: int| 0 <= i < waits.len() ==> is_wait_line(#[trigger] waits[i]),
                d0.seen_since(*decoder) == waits.push(line),
                decoder.line() is Some,
                rx_header(line) == Some((2int, decoder.rest())),
            decreases MAX_WAIT_LINES - waited,
        {
            let ghost d1 = *decoder;
            let h = expect_text(decoder, "+CIPRXGET: ", serial, timeout_ms);
            let ghost d2 = *decoder;
            proof {
                lemma_ciprxget_header();
                if waited > 0 {
                    lemma_seen_concat(d0, d1, d2);
                    assert(d0.seen_since(d2) == waits + d1.seen_since(d2));
                } else {
                    assert(waits + d1.seen_since(d2) =~= d1.seen_since(d2));
                    assert(d0.seen_since(d2) == waits + d1.seen_since(d2));
                }
                lemma_rx_wait_prefix_all(waits, d1.seen_since(d2), MAX_WAIT_LINES as nat);
                assert(extends(d0, d2));
            }
            match h {
                Ok(()) => {},
                Err(e) => {
                    return Err(e);
                },
            }
            let ghost l = d1.seen_since(d2)[0];
            let mode = decoder.decode_scalar(serial, timeout_ms);
            let ghost d3 = *decoder;
            proof {
                lemma_offset_in_line(d2);
                lemma_offset_in_line(d3);
                assert(d3.line() == d2.line());
                assert(d3.history() == d2.history());
                assert(d0.seen_since(d3) == d0.seen_since(d2));
                assert(d3.line().unwrap().skip(d2.start() as int) == d2.rest());
                assert(d3.rest() =~= d2.rest().skip(crate::commands::scalar_run(d2.rest()) as int));
                assert(extends(d0, d3));
            }
            let mode = match mode {
                Ok(m) => m,
                Err(e) => {
                    return Err(e);
                },
            };
            if mode == 1 {
                if waited == MAX_WAIT_LINES {
                    return Err(Error::DecodingFailed);
                }
                decoder.end_line();
                proof {
                    waits = waits.push(l);
                    assert(d1.seen_since(d2) =~= seq![l]);
                }
                waited = waited + 1;
            } else if mode == 2 {
                proof {
                    line = l;
                    assert(d1.seen_since(d2) =~= seq![l]);
                    assert(d2.rest() == l.skip(ciprxget_header().len() as int));
                    let run = d2.rest();
                    let k = crate::commands::scalar_run(run);
                    assert(crate::numparse::spec_parse_i32(run.take(k as int)) == Some(2int));
                    assert(leading_int(run) == Some((2int, d3.rest())));
                }
                break;
            } else {
                return Err(Error::DecodingFailed);
            }
        }
        let ghost d5 = *decoder;
        let ghost after = decoder.rest();
        let r = decoder.expect_str(",", serial, timeout_ms);
        let ghost d6 = *decoder;
        proof {
            lemma_offset_in_line(d5);
            lemma_offset_in_line(d6);
            assert(d6.history() == d5.history());
            assert(d0.seen_since(d6) == d0.seen_since(d5));
            assert(d6.line().unwrap().skip(d5.start() as int) == after);
            assert(waits.push(line) =~= waits + seq![line]);
            lemma_rx_wait_prefix_all(waits, seq![line], MAX_WAIT_LINES as nat);
            assert(seq![line].drop_first() =~= Seq::<Seq<u8>>::empty());
        }
        match r {
            Ok(()) => {},
            Err(e) => {
                return Err(e);
            },
        }
        let n = decoder.decode_scalar(serial, timeout_ms);
        let ghost d7 = *decoder;
        proof {
            lemma_offset_in_line(d7);
            assert(d7.history() == d5.history());
            assert(d0.seen_since(d7) == d0.seen_since(d5));
            assert(d6.rest() =~= after.skip(1));
            assert(d7.line().unwrap().skip(d6.start() as int) == after.skip(1));
        }
        let n = match n {
            Ok(v) => v,
            Err(e) => {
                return Err(e);
            },
        };
        if n < 0 || n as usize > RECEIVE_CAPACITY {
            return Err(Error::BufferOverflow);
        }
        let bytes = if n > 0 {
            match decoder.read_exact(n as usize, serial, timeout_ms) {
                Ok(b) => b,
                Err(e) => {
                    return Err(e);
                },
            }
        } else {
            Vec::new()
        };
        decoder.end_line();
        let ghost d8 = *decoder;
        let r = expect_text(decoder, "OK", serial, timeout_ms);
        proof {
            lemma_seen_concat(d0, d8, *decoder);
            assert(d0.seen_since(d8) == waits + seq![line]);
            let more = d8.seen_since(*decoder);
            assert(d0.seen_since(*decoder) =~= waits + (seq![line] + more));
            lemma_rx_wait_prefix_all(waits, seq![line] + more, MAX_WAIT_LINES as nat);
            assert((seq![line] + more)[0] == line);
            assert((seq![line] + more).drop_first() =~= more);
        }
        match r {
            Ok(()) => {},
            Err(e) => {
                return Err(e);
            },
        }
        Ok(
            NetworkReceiveResponse {
                mode: NetworkReceiveMode::GetBytes(n as u16),
                bytes: Some(bytes),
            },
        )
    }
}

/// The events `e` of a receive request `AT+CIPRXGET=<parameter>` with the
/// timeout `timeout_ms` for the reads of its answer, the
/// drain of what the modem sent before ending at `k`, and what it gives,
/// `r`: the drain, the write of the request line and of `\r` (with no wait
/// for an echo), then the reads of the answer. A failure of the port ends it
/// with `Error::Serial`; once the request is written, the lines the port
/// gives make the result: `OK` for switching the mode off or on, data for
/// the other modes, which are the bytes read after the request.
pub open spec fn receive_began_at(
    e: Seq<PortEvent>,
    parameter: NetworkReceiveMode,
    timeout_ms: u32,
    k: int,
    r: Result<NetworkReceiveResponse, Error>,
) -> bool {
    let prefix = write_prefix(Ciprxget::COMMAND.spec_bytes(), parameter.encoding());
    &&& 0 < k <= e.len()
    &&& if !drained_ok(e.take(k), 0) {
        drained(e.take(k), 0, Err(Error::Serial)) && e.len() == k && r == Err::<
            NetworkReceiveResponse,
            Error,
        >(Error::Serial)
    } else if e.len() < k + 1 {
        false
    } else if e[k] != (PortEvent::Write { bytes: prefix, ok: true }) {
        e[k] == (PortEvent::Write { bytes: prefix, ok: false }) && e.len() == k + 1 && r == Err::<
            NetworkReceiveResponse,
            Error,
        >(Error::Serial)
    } else if e.len() < k + 2 {
        false
    } else if e[k + 1] != (PortEvent::Write { bytes: seq![13u8], ok: true }) {
        e[k + 1] == (PortEvent::Write { bytes: seq![13u8], ok: false }) && e.len() == k + 2 && r
            == Err::<NetworkReceiveResponse, Error>(Error::Serial)
    } else if !all_timed(e.skip(k + 2), timeout_ms) || !ended_by_failed_read(e.skip(k + 2), r) {
        false
    } else if parameter == NetworkReceiveMode::Disable || parameter == NetworkReceiveMode::Enable {
        match r {
            Ok(resp) => resp.mode == parameter && resp.bytes is None && <() as AtDecode>::outcome(
                lines_read(e.skip(k + 2)),
                Ok(()),
            ),
            Err(x) => <() as AtDecode>::outcome(lines_read(e.skip(k + 2)), Err(x)),
        }
    } else {
        &&& NetworkReceiveResponse::outcome(lines_read(e.skip(k + 2)), r)
        &&& r matches Ok(resp) ==> resp.bytes matches Some(b) && b@ == bytes_read(e.skip(k + 2))
    }
}

/// The events `e` are those of a receive request that gives `r` (see
/// [`receive_began_at`]).
pub open spec fn receive_began(
    e: Seq<PortEvent>,
    parameter: NetworkReceiveMode,
    timeout_ms: u32,
    r: Result<NetworkReceiveResponse, Error>,
) -> bool {
    exists|k: int| receive_began_at(e, parameter, timeout_ms, k, r)
}

impl<'a> AtWrite<'a> for Ciprxget {
    type Input = NetworkReceiveMode;
    type Output = NetworkReceiveResponse;

    /// Sends `AT+CIPRXGET=<mode>\r` (without waiting for an echo). Switching
    /// the mode off or on is answered by `OK`; the other modes by data.
    fn write<B: SerialReadTimeout + SerialWrite>(
        &self,
        parameter: NetworkReceiveMode,
        serial: &mut B,
        timeout_ms: u32,
    ) -> (r: Result<NetworkReceiveResponse, Error>)
        ensures
            r is Ok ==> final(serial).sent() == old(serial).sent() + write_prefix(
                Self::COMMAND.spec_bytes(),
                parameter.encoding(),
            ) + seq![13u8],
            old(serial).events().is_prefix_of(final(serial).events()),
            receive_began(new_events(old(serial).events(), final(serial).events()), parameter, timeout_ms, r),
    {
        let ghost ev0 = serial.events();
        let d = drain_relay(serial, 0);
        let ghost ev1 = serial.events();
        let ghost k = ev1.len() - ev0.len();
        proof {
            assert(new_events(ev0, ev1).take(k) =~= new_events(ev0, ev1));
        }
        if d.is_err() {
            proof {
                assert(receive_began_at(new_events(ev0, ev1), parameter, timeout_ms, k, Err(Error::Serial)));
            }
            return Err(Error::Serial);
        }
        let request = encode_write_prefix::<Ciprxget, NetworkReceiveMode>(&parameter);
        let w1 = serial.write(request.as_bytes());
        let ghost ev2 = serial.events();
        proof {
            let e = new_events(ev0, ev2);
            assert(e.take(k) =~= new_events(ev0, ev1));
            assert(e[k] == ev2.last());
        }
        if w1.is_err() {
            proof {
                assert(receive_began_at(new_events(ev0, ev2), parameter, timeout_ms, k, Err(Error::Serial)));
            }
            return Err(Error::Serial);
        }
        let w2 = serial.write(&[13u8]);
        let ghost ev3 = serial.events();
        proof {
            let e = new_events(ev0, ev3);
            assert(e.take(k) =~= new_events(ev0, ev1));
            assert(e[k] == ev2.last());
            assert(e[k + 1] == ev3.last());
            assert([13u8]@ =~= seq![13u8]);
        }
        if w2.is_err() {
            proof {
                assert(receive_began_at(new_events(ev0, ev3), parameter, timeout_ms, k, Err(Error::Serial)));
            }
            return Err(Error::Serial);
        }
        let mut decoder = Decoder::new(&*serial, timeout_ms);
        let ghost d0 = decoder;
        if parameter == NetworkReceiveMode::Disable || parameter == NetworkReceiveMode::Enable {
            let r = <() as AtDecode>::decode(&mut decoder, serial, timeout_ms);
            proof {
                assert(<() as AtDecode>::outcome(d0.seen_since(decoder), r));
                lemma_decoder_saw(d0, decoder, ev3, serial.events());
                let e = new_events(ev0, serial.events());
                assert(e.skip(k + 2) =~= new_events(ev3, serial.events()));
                assert(ev3.is_prefix_of(serial.events()));
                assert(e.take(k) =~= new_events(ev0, ev1));
                assert(e[k] == ev2.last());
                assert(e[k + 1] == ev3.last());
            }
            match r {
                Ok(()) => {
                    let resp = NetworkReceiveResponse { mode: parameter, bytes: None };
                    proof {
                        assert(<() as AtDecode>::outcome(d0.seen_since(decoder), Ok(())));
                        assert(receive_began_at(new_events(ev0, serial.events()), parameter, timeout_ms, k, Ok(resp)));
                    }
                    return Ok(resp);
                },
                Err(x) => {
                    proof {
                        assert(receive_began_at(new_events(ev0, serial.events()), parameter, timeout_ms, k, Err(x)));
                    }
                    return Err(x);
                },
            }
        }
        let r = NetworkReceiveResponse::decode(&mut decoder, serial, timeout_ms);
        proof {
            assert(NetworkReceiveResponse::outcome(d0.seen_since(decoder), r));
            lemma_decoder_saw(d0, decoder, ev3, serial.events());
            let e = new_events(ev0, serial.events());
            assert(e.skip(k + 2) =~= new_events(ev3, serial.events()));
            assert(ev3.is_prefix_of(serial.events()));
            assert(e.take(k) =~= new_events(ev0, ev1));
            assert(e[k] == ev2.last());
            assert(e[k + 1] == ev3.last());
            assert(receive_began_at(e, parameter, timeout_ms, k, r));
        }
        r
    }
}

} // verus!
