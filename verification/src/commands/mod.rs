//! AT commands: the text that a request puts on the wire.

mod ccid;
pub use ccid::{iccid_of, is_hex_digit, Ccid, Iccid};
mod cedrxs;
mod ciprxget;
pub use ciprxget::{
    receive_began, receive_began_at,
    is_wait_line, rx_data_outcome, rx_header, rx_outcome, Ciprxget, NetworkReceiveMode,
    NetworkReceiveResponse, MAX_WAIT_LINES, RECEIVE_CAPACITY,
};
mod cgnsinf;
pub use cgnsinf::{decode_cgnsinf, gnss_fields_match, gnss_kind, u32_field, Cgnsinf, GnssFields};
mod csq;
pub use csq::{ber_of, rssi_of, signal_reading_of, BitErrorRate, Csq, SignalReading};
mod httptofs;
pub use httptofs::{http_response_of, leading_int, lemma_leading_int_text, HttpParams, HttpResponse, Httptofs};
mod cipstart;
pub use cipstart::{
    reports_connected, reports_state, Cipstart, ConnectionResult, TcpConnectionParams,
};
mod cpsi;
pub use cpsi::{
    operation_mode_of, system_info_of, system_mode_of, Cpsi, OperationMode, SystemInfo, SystemMode,
};
mod cops;
pub use cops::{format_of, mode_of, operator_info_of, strip_quotes, Cops, Format, Mode, OperatorInfo};
mod ciicr;
pub use ciicr::{Ciicr, GprsResult};
mod cipshut;
pub use cipshut::{Cipshut, DisconnectResult};
mod cipsend;
pub use cipsend::{send_began, send_began_at, send_prompt, send_request_prefix, Cipsend, SendResult};
mod cipstatus;
pub use cipstatus::{connection_state_of, Cipstatus, ConnectionState};
mod decoder;
pub mod literals;
pub use decoder::{
    extends, is_scalar_byte, lemma_decoder_saw, lemma_extends_refl, lemma_fetched_extends, lemma_seen_concat,
    lemma_offset_in_line, lemma_same_line, lemma_seen_failed, lemma_seen_fetched, scalar_run, Decoder, expect_text, next_text,
};
mod cstt;
pub use cstt::{Cstt, CsttParams};
mod cntpcid;
pub use cntpcid::{Cntpcid};
mod sapbr;
pub use sapbr::{BearerMode, BearerParameter, Sapbr};
mod cfgri;
pub use cfgri::{Cfgri, RiMode};
mod cgnsxtra;
pub use cgnsxtra::{Cgnsxtra, XtraMode};
mod cmee;
pub use cmee::{Cmee, ErrorReportMode};
mod cmnb;
pub use cmnb::{BandMode, Cmnb};
mod cnact;
pub use cnact::{AppNetworkMode, AppNetworkParams, Cnact};
mod cnmp;
pub use cnmp::{Cnmp, PreferredConnectionMode};
mod csclk;
pub use csclk::{ClockMode, Csclk};
mod ifc;
pub use ifc::{FlowControl, FlowControlMode, Ifc};
pub use cedrxs::{four_bits, Cedrxs, EdrxBandMode, EdrxInterval, EdrxMode, EdrxParams};

use vstd::prelude::*;
use crate::numparse::{int_text, push_i32_text};
use crate::error::Error;
use crate::serial::{all_timed, failed_read, drain_relay, drained, lines_read, new_events, PortEvent, SerialReadTimeout, SerialWrite};
use crate::text::has_prefix;
use literals::{lemma_ok, ok};
use vstd::string::StringSliceAdditionalSpecFns;

verus! {

/// Collects the bytes of an AT request in the order they go to the modem.
pub struct Encoder {
    buf: Vec<u8>,
}

impl View for Encoder {
    type V = Seq<u8>;

    closed spec fn view(&self) -> Seq<u8> {
        self.buf@
    }
}

impl Encoder {
    /// An encoder that has written nothing yet.
    pub fn new() -> (e: Encoder)
        ensures
            e@ == Seq::<u8>::empty(),
    {
        Encoder { buf: Vec::new() }
    }

    /// Writes `data` as it is.
    pub fn encode_bytes(&mut self, data: &[u8])
        ensures
            final(self)@ == old(self)@ + data@,
    {
        let mut i: usize = 0;
        while i < data.len()
            invariant
                i <= data@.len(),
                self.buf@ == old(self)@ + data@.take(i as int),
            decreases data@.len() - i,
        {
            self.buf.push(data[i]);
            i = i + 1;
            assert(self.buf@ =~= old(self)@ + data@.take(i as int));
        }
        assert(data@.take(i as int) =~= data@);
    }

    /// Writes the UTF-8 bytes of `value`.
    pub fn encode_str(&mut self, value: &str)
        ensures
            final(self)@ == old(self)@ + value.spec_bytes(),
    {
        self.encode_bytes(value.as_bytes());
    }

    /// Writes `value` in decimal, with a `-` in front when it is negative.
    pub fn encode_scalar(&mut self, value: i32)
        ensures
            final(self)@ == old(self)@ + int_text(value as int),
    {
        push_i32_text(&mut self.buf, value);
    }

    /// The bytes written so far.
    pub fn as_bytes(&self) -> (b: &[u8])
        ensures
            b@ == self@,
    {
        self.buf.as_slice()
    }
}

/// A value that can stand as the parameter of an AT request.
pub trait AtEncode {
    /// The bytes that stand for this value in a request.
    spec fn encoding(&self) -> Seq<u8>;

    /// Writes the bytes of `encoding` to `encoder`.
    fn encode(&self, encoder: &mut Encoder)
        ensures
            final(encoder)@ == old(encoder)@ + self.encoding(),
    ;
}

impl<'a> AtEncode for &'a [u8] {
    open spec fn encoding(&self) -> Seq<u8> {
        (*self)@
    }

    fn encode(&self, encoder: &mut Encoder) {
        encoder.encode_bytes(*self);
    }
}

impl AtEncode for i32 {
    open spec fn encoding(&self) -> Seq<u8> {
        int_text(*self as int)
    }

    fn encode(&self, encoder: &mut Encoder) {
        encoder.encode_scalar(*self);
    }
}

/// The result of a failed read of the serial port.
pub open spec fn read_error<T>(r: Result<T, Error>) -> bool {
    r == Err::<T, Error>(Error::Timeout) || r == Err::<T, Error>(Error::Serial)
}

/// A value that the modem's answer to a command carries.
pub trait AtDecode: Sized {
    /// `r` is what decoding gives when `lines` is what it read: the text at
    /// the read position first, then each line fetched, the last one being
    /// where decoding stopped.
    spec fn outcome(lines: Seq<Seq<u8>>, r: Result<Self, Error>) -> bool;

    /// Reads the answer from the serial port.
    fn decode<B: SerialReadTimeout>(decoder: &mut Decoder, serial: &mut B, timeout_ms: u32) -> (r:
        Result<Self, Error>)
        requires
            old(decoder).wf(),
            old(decoder).synced(old(serial).events()),
            old(decoder).timeout() == timeout_ms,
        ensures
            final(decoder).wf(),
            final(decoder).synced(final(serial).events()),
            extends(*old(decoder), *final(decoder)),
            Self::outcome(old(decoder).seen_since(*final(decoder)), r),
            final(serial).sent() == old(serial).sent(),
            old(serial).events().is_prefix_of(final(serial).events()),
            read_error(r) ==> final(serial).events().len() > old(serial).events().len()
                && failed_read(final(serial).events().last(), r->Err_0),
    ;
}

/// An answer of one line that has to start with `text`.
pub open spec fn one_line_starting(lines: Seq<Seq<u8>>, text: Seq<u8>, r: Result<(), Error>) -> bool {
    ||| lines.len() == 0 && read_error(r)
    ||| lines.len() == 1 && if has_prefix(lines[0], text) {
        r is Ok
    } else {
        r == Err::<(), Error>(Error::DecodingFailed)
    }
}

impl AtDecode for () {
    /// One line starting with `OK`.
    open spec fn outcome(lines: Seq<Seq<u8>>, r: Result<(), Error>) -> bool {
        one_line_starting(lines, ok(), r)
    }

    fn decode<B: SerialReadTimeout>(decoder: &mut Decoder, serial: &mut B, timeout_ms: u32) -> (r:
        Result<(), Error>) {
        let ghost d0 = *decoder;
        let r = decoder.expect_str("OK", serial, timeout_ms);
        proof {
            lemma_ok();
            match r {
                Err(e) => if e != Error::DecodingFailed {
                    lemma_seen_failed(d0, *decoder, e);
                    lemma_extends_refl(d0);
                    assert(read_error(r));
                    assert(d0.seen_since(*decoder).len() == 0);
                } else {
                    lemma_seen_fetched(d0, *decoder);
                    lemma_fetched_extends(d0, *decoder);
                    assert(!has_prefix(d0.seen_since(*decoder)[0], ok()));
                },
                Ok(_) => {
                    lemma_seen_fetched(d0, *decoder);
                    lemma_fetched_extends(d0, *decoder);
                    let lines = d0.seen_since(*decoder);
                    assert(lines.len() == 1);
                    assert(lines[0] == decoder.line().unwrap().skip(d0.start() as int));
                    assert(has_prefix(lines[0], ok()));
                },
            }
        }
        r
    }
}

/// A command of the modem's AT command set.
pub trait AtCommand: Sized {
    /// The command's name as it starts each request, e.g. `AT+CSQ`.
    const COMMAND: &'static str;
}

/// The bytes of a write request (`AT+X=<param>`) before its closing `\r`.
pub open spec fn write_prefix(command: Seq<u8>, param: Seq<u8>) -> Seq<u8> {
    command + seq![61u8] + param
}

/// The bytes of a read request (`AT+X?`) before its closing `\r`.
pub open spec fn read_prefix(command: Seq<u8>) -> Seq<u8> {
    command + seq![63u8]
}

/// Encodes `AT+X=<param>`: the command, `=` and the parameter.
pub fn encode_write_prefix<C: AtCommand, P: AtEncode>(param: &P) -> (e: Encoder)
    ensures
        e@ == write_prefix(C::COMMAND.spec_bytes(), param.encoding()),
{
    let mut e = Encoder::new();
    e.encode_str(C::COMMAND);
    e.encode_bytes(&[61u8]);
    param.encode(&mut e);
    assert(e@ =~= write_prefix(C::COMMAND.spec_bytes(), param.encoding()));
    e
}

/// Encodes `AT+X?`: the command and `?`.
pub fn encode_read_prefix<C: AtCommand>() -> (e: Encoder)
    ensures
        e@ == read_prefix(C::COMMAND.spec_bytes()),
{
    let mut e = Encoder::new();
    e.encode_str(C::COMMAND);
    e.encode_bytes(&[63u8]);
    e
}

/// Encodes `AT+X`: the command alone.
pub fn encode_execute_prefix<C: AtCommand>() -> (e: Encoder)
    ensures
        e@ == C::COMMAND.spec_bytes(),
{
    let mut e = Encoder::new();
    e.encode_str(C::COMMAND);
    assert(e@ =~= C::COMMAND.spec_bytes());
    e
}

/// Reads what opens the modem's answer: the blank line that ends the echo of
/// the request, where there was an echo, then the blank line that starts
/// every answer. A port that passes over blank lines hands on the answer's
/// first line at once; that line is then kept for the decoder.
fn skip_answer_start<B: SerialReadTimeout>(
    decoder: &mut Decoder,
    echoed: bool,
    serial: &mut B,
    timeout_ms: u32,
) -> (r: Result<(), Error>)
    requires
        old(decoder).wf(),
        old(decoder).synced(old(serial).events()),
        old(decoder).timeout() == timeout_ms,
    ensures
        final(decoder).wf(),
        final(decoder).synced(final(serial).events()),
        final(serial).sent() == old(serial).sent(),
        old(serial).events().is_prefix_of(final(serial).events()),
        extends(*old(decoder), *final(decoder)),
        r matches Err(e) ==> e == Error::Timeout || e == Error::Serial || e == Error::DecodingFailed,
        read_error(r) ==> final(serial).events().len() > old(serial).events().len()
            && failed_read(final(serial).events().last(), r->Err_0),
        ({
            let lines = old(decoder).seen_since(*final(decoder));
            match r {
                Ok(()) => {
                    &&& lines.len() == if echoed {
                        2int
                    } else {
                        1int
                    }
                    &&& echoed ==> lines[0].len() == 0
                    &&& lines.last().len() == 0 ==> final(decoder).line() is None
                    &&& lines.last().len() != 0 ==> final(decoder).line() is Some
                        && final(decoder).rest() == lines.last()
                },
                Err(Error::DecodingFailed) => echoed && lines.len() == 1 && lines[0].len() != 0,
                Err(_) => lines.len() == 0 || (echoed && lines.len() == 1 && lines[0].len() == 0),
            }
        }),
{
    let ghost d0 = *decoder;
    if echoed {
        match decoder.expect_empty(serial, timeout_ms) {
            Ok(()) => {},
            Err(e) => {
                proof {
                    if e == Error::DecodingFailed {
                        lemma_seen_fetched(d0, *decoder);
                        lemma_fetched_extends(d0, *decoder);
                    } else {
                        lemma_seen_failed(d0, *decoder, e);
                        lemma_extends_refl(d0);
                    }
                }
                return Err(e);
            },
        }
        let ghost da = *decoder;
        proof {
            lemma_seen_fetched(d0, da);
            lemma_fetched_extends(d0, da);
            assert(da.line().unwrap().skip(d0.start() as int) =~= Seq::<u8>::empty());
        }
        decoder.end_line();
        proof {
            assert(d0.seen_since(*decoder) == d0.seen_since(da));
            assert(extends(d0, *decoder));
        }
    }
    let ghost d1 = *decoder;
    proof {
        if !echoed {
            lemma_extends_refl(d0);
        } else {
            assert(d0.seen_since(d1) =~= seq![Seq::<u8>::empty()]);
        }
    }
    let r = decoder.expect_empty(serial, timeout_ms);
    let ghost d2 = *decoder;
    proof {
        match r {
            Ok(()) => {
                lemma_seen_fetched(d1, d2);
                lemma_fetched_extends(d1, d2);
            },
            Err(Error::DecodingFailed) => {
                lemma_seen_fetched(d1, d2);
                lemma_fetched_extends(d1, d2);
            },
            Err(e) => {
                lemma_seen_failed(d1, d2, e);
                lemma_extends_refl(d1);
            },
        }
    }
    match r {
        Ok(()) => {
            decoder.end_line();
            proof {
                assert(extends(d2, *decoder)) by {
                    assert(decoder.history().take(d2.history().len() as int) =~= d2.history());
                }
                if echoed {
                    lemma_seen_concat(d0, d1, *decoder);
                } else {
                    assert(d0.seen_since(*decoder) == d0.seen_since(d2));
                    assert(extends(d0, *decoder)) by {
                        assert(decoder.history().take(d0.history().len() as int) =~= d0.history());
                    }
                }
            }
            Ok(())
        },
        Err(Error::DecodingFailed) => {
            proof {
                if echoed {
                    lemma_seen_concat(d0, d1, d2);
                }
                assert(d2.rest() == d2.line().unwrap().skip(d1.start() as int));
            }
            Ok(())
        },
        Err(e) => {
            proof {
                if echoed {
                    lemma_seen_concat(d0, d1, d2);
                }
            }
            Err(e)
        },
    }
}

/// A drain with `timeout_ms` that ended without a port failure.
pub open spec fn drained_ok(e: Seq<PortEvent>, timeout_ms: u32) -> bool {
    drained(e, timeout_ms, Ok(true)) || drained(e, timeout_ms, Ok(false))
}

/// The events `e` of writing the request `prefix`, the first drain ending
/// at `k` and the second at `j`, and what the writing gives, `r`: a drain
/// of what the modem sent before, the write of `prefix`, a drain of 200 ms
/// that tells whether the modem echoed, and the write of the closing `\r`;
/// a failure of the port ends it with `Error::Serial`.
pub open spec fn request_written_at(
    e: Seq<PortEvent>,
    prefix: Seq<u8>,
    k: int,
    j: int,
    r: Result<bool, Error>,
) -> bool {
    &&& 0 < k <= e.len()
    &&& if !drained_ok(e.take(k), 0) {
        drained(e.take(k), 0, Err(Error::Serial)) && e.len() == k && r == Err::<bool, Error>(
            Error::Serial,
        )
    } else if e.len() == k {
        false
    } else if e[k] != (PortEvent::Write { bytes: prefix, ok: true }) {
        e[k] == (PortEvent::Write { bytes: prefix, ok: false }) && e.len() == k + 1 && r == Err::<
            bool,
            Error,
        >(Error::Serial)
    } else {
        &&& k + 1 < j <= e.len()
        &&& if !drained_ok(e.subrange(k + 1, j), 200) {
            drained(e.subrange(k + 1, j), 200, Err(Error::Serial)) && e.len() == j && r == Err::<
                bool,
                Error,
            >(Error::Serial)
        } else {
            &&& e.len() == j + 1
            &&& if e[j] == (PortEvent::Write { bytes: seq![13u8], ok: true }) {
                r is Ok && drained(e.subrange(k + 1, j), 200, r)
            } else {
                e[j] == (PortEvent::Write { bytes: seq![13u8], ok: false }) && r == Err::<
                    bool,
                    Error,
                >(Error::Serial)
            }
        }
    }
}

/// The events `e` are those of writing the request `prefix`, which gives `r`
/// (see [`request_written_at`]).
pub open spec fn request_written(e: Seq<PortEvent>, prefix: Seq<u8>, r: Result<bool, Error>) -> bool {
    exists|k: int, j: int| request_written_at(e, prefix, k, j, r)
}

/// Writes `prefix`, waits for a possible echo, then writes the closing `\r`;
/// tells whether there was an echo.
fn send_request<B: SerialReadTimeout + SerialWrite>(prefix: &[u8], serial: &mut B) -> (r: Result<
    bool,
    Error,
>)
    ensures
        r is Ok ==> final(serial).sent() == old(serial).sent() + prefix@ + seq![13u8],
        r matches Err(e) ==> e == Error::Serial,
        old(serial).events().is_prefix_of(final(serial).events()),
        request_written(new_events(old(serial).events(), final(serial).events()), prefix@, r),
{
    let ghost ev0 = serial.events();
    let d1 = drain_relay(serial, 0);
    let ghost ev1 = serial.events();
    let ghost k = ev1.len() - ev0.len();
    proof {
        let e = new_events(ev0, ev1);
        assert(e.take(k) =~= e);
    }
    match d1 {
        Err(e) => {
            proof {
                let ee = new_events(ev0, ev1);
                assert(request_written_at(ee, prefix@, k, 0, Err(Error::Serial)));
            }
            return Err(e);
        },
        Ok(_) => {},
    }
    let w1 = serial.write(prefix);
    let ghost ev2 = serial.events();
    proof {
        let e = new_events(ev0, ev2);
        assert(e.take(k) =~= new_events(ev0, ev1));
        assert(e[k] == ev2.last());
        assert(ev0.is_prefix_of(ev2));
    }
    if w1.is_err() {
        proof {
            let e = new_events(ev0, ev2);
            assert(request_written_at(e, prefix@, k, 0, Err(Error::Serial)));
        }
        return Err(Error::Serial);
    }
    let d2 = drain_relay(serial, 200);
    let ghost ev3 = serial.events();
    let ghost j = ev3.len() - ev0.len();
    proof {
        let e = new_events(ev0, ev3);
        assert(e.take(k) =~= new_events(ev0, ev1));
        assert(e[k] == ev2.last());
        assert(e.subrange(k + 1, j) =~= new_events(ev2, ev3));
        assert(ev0.is_prefix_of(ev3));
    }
    let echoed = match d2 {
        Err(e) => {
            proof {
                let ee = new_events(ev0, ev3);
                assert(request_written_at(ee, prefix@, k, j, Err(Error::Serial)));
            }
            return Err(e);
        },
        Ok(echoed) => echoed,
    };
    let w2 = serial.write(&[13u8]);
    let ghost ev4 = serial.events();
    proof {
        let e = new_events(ev0, ev4);
        assert(e.take(k) =~= new_events(ev0, ev1));
        assert(e[k] == ev2.last());
        assert(e.subrange(k + 1, j) =~= new_events(ev2, ev3));
        assert(e[j] == ev4.last());
        assert(ev0.is_prefix_of(ev4));
        assert([13u8]@ =~= seq![13u8]);
    }
    if w2.is_err() {
        proof {
            let e = new_events(ev0, ev4);
            assert(request_written_at(e, prefix@, k, j, Err(Error::Serial)));
        }
        return Err(Error::Serial);
    }
    proof {
        let e = new_events(ev0, ev4);
        assert(request_written_at(e, prefix@, k, j, Ok(echoed)));
    }
    Ok(echoed)
}

/// What the lines `lines` that the port gave once a request was written make
/// of the answer `r`, where no echo came: the blank line that opens every
/// answer (a port that passes over blank lines may leave it out), then the
/// answer itself as `O` reads it; no line at all is a failed read.
pub open spec fn answer_from<O: AtDecode>(lines: Seq<Seq<u8>>, r: Result<O, Error>) -> bool {
    if lines.len() == 0 {
        read_error(r)
    } else if lines[0].len() == 0 {
        O::outcome(lines.drop_first(), r)
    } else {
        O::outcome(lines, r)
    }
}

/// What the lines `lines` that the port gave once a request was written make
/// of the answer `r`: where the modem echoed the request, first the blank
/// line that ends the echo (any other text there fails the decoding), then
/// the answer as [`answer_from`] says.
pub open spec fn answered<O: AtDecode>(lines: Seq<Seq<u8>>, echoed: bool, r: Result<O, Error>) -> bool {
    if !echoed {
        answer_from::<O>(lines, r)
    } else if lines.len() == 0 {
        read_error(r)
    } else if lines[0].len() != 0 {
        lines.len() == 1 && r == Err::<O, Error>(Error::DecodingFailed)
    } else {
        answer_from::<O>(lines.drop_first(), r)
    }
}

/// A result `r` that is a failed read (see [`read_error`]) comes from the
/// last of the reads `e`, which failed that way.
pub open spec fn ended_by_failed_read<T>(e: Seq<PortEvent>, r: Result<T, Error>) -> bool {
    read_error(r) ==> e.len() > 0 && failed_read(e.last(), r->Err_0)
}

/// The events `e` of an exchange with the timeout `timeout_ms`, and what it
/// gives, `r`: writing the request `prefix` (see [`request_written`]),
/// which ends the exchange with `Error::Serial` where the port fails; else
/// the reads of the answer, each made with `timeout_ms`, whose lines make
/// `r` as [`answered`] says.
pub open spec fn exchanged<O: AtDecode>(
    e: Seq<PortEvent>,
    prefix: Seq<u8>,
    timeout_ms: u32,
    r: Result<O, Error>,
) -> bool {
    exists|m: int|
        0 < m <= e.len() && {
            ||| request_written(e.take(m), prefix, Err(Error::Serial)) && m == e.len() && r == Err::<
                O,
                Error,
            >(Error::Serial)
            ||| request_written(e.take(m), prefix, Ok(true)) && all_timed(e.skip(m), timeout_ms)
                && answered::<O>(lines_read(e.skip(m)), true, r) && ended_by_failed_read(
                e.skip(m),
                r,
            )
            ||| request_written(e.take(m), prefix, Ok(false)) && all_timed(e.skip(m), timeout_ms)
                && answered::<O>(lines_read(e.skip(m)), false, r) && ended_by_failed_read(
                e.skip(m),
                r,
            )
        }
}

/// A failed request write ends the exchange.
proof fn lemma_exchanged_unsent<O: AtDecode>(
    ev0: Seq<PortEvent>,
    ev1: Seq<PortEvent>,
    prefix: Seq<u8>,
    timeout_ms: u32,
)
    requires
        ev0.is_prefix_of(ev1),
        request_written(new_events(ev0, ev1), prefix, Err(Error::Serial)),
    ensures
        exchanged::<O>(new_events(ev0, ev1), prefix, timeout_ms, Err(Error::Serial)),
{
    let e = new_events(ev0, ev1);
    let (k, j) = choose|k: int, j: int|
        request_written_at(e, prefix, k, j, Err(Error::Serial));
    assert(e.take(e.len() as int) =~= e);
    assert(0 < e.len());
}

/// Once the request is written (events up to `ev1`), an answer read from
/// lines `lines` that the port gave afterwards (up to `evf`) completes the
/// exchange.
proof fn lemma_exchanged_answer<O: AtDecode>(
    ev0: Seq<PortEvent>,
    ev1: Seq<PortEvent>,
    evf: Seq<PortEvent>,
    prefix: Seq<u8>,
    timeout_ms: u32,
    echoed: bool,
    r: Result<O, Error>,
)
    requires
        ev0.is_prefix_of(ev1),
        ev1.is_prefix_of(evf),
        request_written(new_events(ev0, ev1), prefix, Ok(echoed)),
        all_timed(new_events(ev1, evf), timeout_ms),
        answered::<O>(lines_read(new_events(ev1, evf)), echoed, r),
        ended_by_failed_read(new_events(ev1, evf), r),
    ensures
        ev0.is_prefix_of(evf),
        exchanged::<O>(new_events(ev0, evf), prefix, timeout_ms, r),
{
    let m = ev1.len() - ev0.len();
    let e = new_events(ev0, evf);
    assert(e.take(m) =~= new_events(ev0, ev1));
    assert(e.skip(m) =~= new_events(ev1, evf));
    let (k, j) = choose|k: int, j: int| request_written_at(new_events(ev0, ev1), prefix, k, j, Ok(echoed));
    assert(0 < m);
    if echoed {
        assert(request_written(e.take(m), prefix, Ok(true)));
    } else {
        assert(request_written(e.take(m), prefix, Ok(false)));
    }
}

/// The history only grows along two steps.
proof fn lemma_extends_trans(a: Decoder, b: Decoder, c: Decoder)
    requires
        extends(a, b),
        extends(b, c),
    ensures
        extends(a, c),
{
    assert(c.history().take(a.history().len() as int) =~= b.history().take(
        a.history().len() as int,
    ));
}

/// The lines `all` fetched by a decoder made after the request: those that
/// opened the answer (`start`, seen by [`skip_answer_start`]), then those of
/// the answer proper (`answer`, what `O` read from the state `d1` on), make
/// `r` as [`answered`] says.
proof fn lemma_answered<O: AtDecode>(
    d0: Decoder,
    d1: Decoder,
    df: Decoder,
    echoed: bool,
    r: Result<O, Error>,
)
    requires
        d0.line() is None,
        d0.history().len() == 0,
        d1.wf(),
        extends(d0, d1),
        extends(d1, df),
        ({
            let lines = d0.seen_since(d1);
            &&& lines.len() == if echoed {
                2int
            } else {
                1int
            }
            &&& echoed ==> lines[0].len() == 0
            &&& lines.last().len() == 0 ==> d1.line() is None
            &&& lines.last().len() != 0 ==> d1.line() is Some && d1.rest() == lines.last()
        }),
        O::outcome(d1.seen_since(df), r),
    ensures
        answered::<O>(df.history(), echoed, r),
{
    let h = df.history();
    let n1 = d1.history().len();
    assert(d0.pending() =~= Seq::<Seq<u8>>::empty());
    assert(d0.seen_since(d1) =~= d1.history());
    assert(d1.history() == h.take(n1 as int));
    let last = h[n1 - 1];
    if echoed {
        let t = h.drop_first();
        assert(t[0] == last);
        if last.len() == 0 {
            assert(d1.seen_since(df) =~= t.drop_first());
        } else {
            assert(d1.seen_since(df) =~= t);
        }
    } else {
        if last.len() == 0 {
            assert(d1.seen_since(df) =~= h.drop_first());
        } else {
            assert(d1.seen_since(df) =~= h);
        }
    }
}

/// Sends the request `prefix` and reads the answer.
fn exchange<O: AtDecode, B: SerialReadTimeout + SerialWrite>(
    prefix: &[u8],
    serial: &mut B,
    timeout_ms: u32,
) -> (r: Result<O, Error>)
    ensures
        r is Ok ==> final(serial).sent() == old(serial).sent() + prefix@ + seq![13u8],
        old(serial).events().is_prefix_of(final(serial).events()),
        exchanged::<O>(
            new_events(old(serial).events(), final(serial).events()),
            prefix@,
            timeout_ms,
            r,
        ),
{
    let ghost ev0 = serial.events();
    let w = send_request(prefix, serial);
    let ghost ev1 = serial.events();
    let echoed = match w {
        Ok(echoed) => echoed,
        Err(e) => {
            proof {
                lemma_exchanged_unsent::<O>(ev0, ev1, prefix@, timeout_ms);
            }
            return Err(e);
        },
    };
    let mut decoder = Decoder::new(&*serial, timeout_ms);
    let ghost dn = decoder;
    let s = skip_answer_start(&mut decoder, echoed, serial, timeout_ms);
    proof {
        lemma_decoder_saw(dn, decoder, ev1, serial.events());
    }
    match s {
        Ok(()) => {},
        Err(e) => {
            proof {
                let lines = dn.seen_since(decoder);
                assert(answered::<O>(lines, echoed, Err(e))) by {
                    if echoed && lines.len() == 1 && lines[0].len() == 0 {
                        assert(lines.drop_first().len() == 0);
                    }
                }
                lemma_exchanged_answer::<O>(ev0, ev1, serial.events(), prefix@, timeout_ms, echoed, Err(e));
            }
            return Err(e);
        },
    }
    let ghost d1 = decoder;
    let r = O::decode(&mut decoder, serial, timeout_ms);
    proof {
        lemma_extends_trans(dn, d1, decoder);
        lemma_decoder_saw(dn, decoder, ev1, serial.events());
        lemma_answered::<O>(dn, d1, decoder, echoed, r);
        lemma_exchanged_answer::<O>(ev0, ev1, serial.events(), prefix@, timeout_ms, echoed, r);
    }
    r
}

/// A command with a parameter: `AT+X=<param>`.
pub trait AtWrite<'a>: AtCommand {
    type Input: AtEncode;
    type Output: AtDecode;

    /// Sends the request and reads the answer.
    fn write<B: SerialReadTimeout + SerialWrite>(
        &self,
        parameter: Self::Input,
        serial: &mut B,
        timeout_ms: u32,
    ) -> (r: Result<Self::Output, Error>)
        default_ensures
            r is Ok ==> final(serial).sent() == old(serial).sent() + write_prefix(
                Self::COMMAND.spec_bytes(),
                parameter.encoding(),
            ) + seq![13u8],
            old(serial).events().is_prefix_of(final(serial).events()),
            exchanged::<Self::Output>(
                new_events(old(serial).events(), final(serial).events()),
                write_prefix(Self::COMMAND.spec_bytes(), parameter.encoding()),
                timeout_ms,
                r,
            ),
    {
        let request = encode_write_prefix::<Self, Self::Input>(&parameter);
        exchange::<Self::Output, B>(request.as_bytes(), serial, timeout_ms)
    }
}

/// A command that reads a setting: `AT+X?`.
pub trait AtRead: AtCommand {
    type Output: AtDecode;

    /// Sends the request and reads the answer.
    fn read<B: SerialReadTimeout + SerialWrite>(&self, serial: &mut B, timeout_ms: u32) -> (r:
        Result<Self::Output, Error>)
        ensures
            r is Ok ==> final(serial).sent() == old(serial).sent() + read_prefix(
                Self::COMMAND.spec_bytes(),
            ) + seq![13u8],
            old(serial).events().is_prefix_of(final(serial).events()),
            exchanged::<Self::Output>(
                new_events(old(serial).events(), final(serial).events()),
                read_prefix(Self::COMMAND.spec_bytes()),
                timeout_ms,
                r,
            ),
    {
        let request = encode_read_prefix::<Self>();
        exchange::<Self::Output, B>(request.as_bytes(), serial, timeout_ms)
    }
}

/// A command without parameter: `AT+X`.
pub trait AtExecute: AtCommand {
    type Output: AtDecode;

    /// Sends the request and reads the answer.
    fn execute<B: SerialReadTimeout + SerialWrite>(&self, serial: &mut B, timeout_ms: u32) -> (r:
        Result<Self::Output, Error>)
        ensures
            r is Ok ==> final(serial).sent() == old(serial).sent() + Self::COMMAND.spec_bytes()
                + seq![13u8],
            old(serial).events().is_prefix_of(final(serial).events()),
            exchanged::<Self::Output>(
                new_events(old(serial).events(), final(serial).events()),
                Self::COMMAND.spec_bytes(),
                timeout_ms,
                r,
            ),
    {
        let request = encode_execute_prefix::<Self>();
        exchange::<Self::Output, B>(request.as_bytes(), serial, timeout_ms)
    }
}

} // verus!
