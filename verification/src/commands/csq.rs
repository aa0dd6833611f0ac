//! `AT+CSQ`: signal quality.

use vstd::prelude::*;
use crate::error::Error;
use crate::numparse::int_text;
use crate::serial::SerialReadTimeout;
use crate::text::has_prefix;
use super::{expect_text, leading_int, lemma_leading_int_text, lemma_offset_in_line, lemma_seen_concat, read_error, AtCommand, AtDecode, AtExecute, Decoder};
use super::literals::{comma, csq_header, lemma_comma, lemma_csq_header, lemma_ok, ok};

verus! {

pub struct Csq;

impl AtCommand for Csq {
    const COMMAND: &'static str = "AT+CSQ";
}

/// The bit error rate that the modem reports.
#[derive(Clone, Copy, Debug, PartialEq, Eq, Structural)]
pub enum BitErrorRate {
    /// One of the classes 0 to 7 of the RXQUAL table.
    Class(u8),
    /// The rate is not known while the signal strength is.
    NotDetectable,
}

/// The signal quality in the modem's numbers: the strength in dBm and the
/// bit error rate. The percentages are computed from
/// these by the host application.
#[derive(Clone, Copy, Debug, PartialEq, Eq, Structural)]
pub struct SignalReading {
    pub rssi_dbm: Option<i64>,
    pub bit_error_rate: Option<BitErrorRate>,
}

/// The signal strength in dBm that the RSSI code `n` stands for; `None` for
/// 99 (not known); an error for codes above 31 other than 99.
pub open spec fn rssi_of(n: int) -> Option<Option<int>> {
    if n == 0 {
        Some(Some(-115))
    } else if n == 1 {
        Some(Some(-111))
    } else if n <= 31 {
        Some(Some(-110 + (n - 2) * 2))
    } else if n == 99 {
        Some(None)
    } else {
        None
    }
}

/// The bit error rate that the code `n` stands for, given whether the signal
/// strength is known; an error for codes other than 0 to 7 and 99.
pub open spec fn ber_of(n: int, rssi_known: bool) -> Option<Option<BitErrorRate>> {
    if 0 <= n <= 7 {
        Some(Some(BitErrorRate::Class(n as u8)))
    } else if n == 99 {
        if rssi_known {
            Some(Some(BitErrorRate::NotDetectable))
        } else {
            Some(None)
        }
    } else {
        None
    }
}

/// The reading in the text after `+CSQ: `: `<rssi>,<ber>`.
pub open spec fn signal_reading_of(text: Seq<u8>) -> Option<SignalReading> {
    match leading_int(text) {
        Some((rssi_code, after)) => match rssi_of(rssi_code) {
            Some(rssi) => if has_prefix(after, comma()) {
                match leading_int(after.skip(1)) {
                    Some((ber_code, _)) => match ber_of(ber_code, rssi is Some) {
                        Some(ber) => Some(
                            SignalReading {
                                rssi_dbm: match rssi {
                                    Some(v) => Some(v as i64),
                                    None => None,
                                },
                                bit_error_rate: ber,
                            },
                        ),
                        None => None,
                    },
                    None => None,
                }
            } else {
                None
            },
            None => None,
        },
        None => None,
    }
}

/// The text of a reading: an RSSI code and a bit error rate code.
pub open spec fn csq_text(rssi_code: int, ber_code: int) -> Seq<u8> {
    int_text(rssi_code) + seq![44u8] + int_text(ber_code)
}

/// A reading with an RSSI code `n` from 0 to 31 and a bit error rate class
/// `b` from 0 to 7: the strength is -115 dBm for 0, -111 dBm for 1, and
/// `-110 + 2 * (n - 2)` dBm from 2 on, always between -115 and -51 dBm;
/// the bit error rate is class `b`.
pub proof fn lemma_signal_reading(n: i32, b: i32)
    requires
        0 <= n <= 31,
        0 <= b <= 7,
    ensures
        ({
            let r = signal_reading_of(csq_text(n as int, b as int));
            let v = r->Some_0.rssi_dbm->Some_0;
            &&& r is Some
            &&& r->Some_0.bit_error_rate == Some(BitErrorRate::Class(b as u8))
            &&& r->Some_0.rssi_dbm is Some
            &&& -115 <= v <= -51
            &&& n == 0 ==> v == -115
            &&& n == 1 ==> v == -111
            &&& n >= 2 ==> v == -110 + 2 * (n - 2)
        }),
{
    lemma_leading_int_text(n, seq![44u8] + int_text(b as int));
    lemma_leading_int_text(b, Seq::<u8>::empty());
    assert(int_text(b as int) + Seq::<u8>::empty() =~= int_text(b as int));
    assert(csq_text(n as int, b as int) =~= int_text(n as int) + (seq![44u8] + int_text(b as int)));
    assert((seq![44u8] + int_text(b as int)).skip(1) =~= int_text(b as int));
    assert((seq![44u8] + int_text(b as int)).take(1) =~= comma());
}

/// A stronger RSSI code never reads as a weaker signal: for codes `n < m`
/// from 0 to 31 the reading of `m` has the higher dBm value; the unknown
/// code 99 reads as no value, with the bit error rate then not detectable.
pub proof fn lemma_signal_stronger(n: i32, m: i32, b: i32)
    requires
        0 <= n < m <= 31,
        0 <= b <= 7,
    ensures
        signal_reading_of(csq_text(n as int, b as int))->Some_0.rssi_dbm->Some_0 < signal_reading_of(
            csq_text(m as int, b as int),
        )->Some_0.rssi_dbm->Some_0,
        signal_reading_of(csq_text(99, 99)) == Some(
            SignalReading { rssi_dbm: None, bit_error_rate: None },
        ),
        signal_reading_of(csq_text(99, b as int)) == Some(
            SignalReading { rssi_dbm: None, bit_error_rate: Some(BitErrorRate::Class(b as u8)) },
        ),
{
    lemma_signal_reading(n, b);
    lemma_signal_reading(m, b);
    lemma_leading_int_text(99, seq![44u8] + int_text(99));
    lemma_leading_int_text(99, Seq::<u8>::empty());
    lemma_leading_int_text(99, seq![44u8] + int_text(b as int));
    lemma_leading_int_text(b, Seq::<u8>::empty());
    assert(int_text(99) + Seq::<u8>::empty() =~= int_text(99));
    assert(int_text(b as int) + Seq::<u8>::empty() =~= int_text(b as int));
    assert(csq_text(99, 99) =~= int_text(99) + (seq![44u8] + int_text(99)));
    assert(csq_text(99, b as int) =~= int_text(99) + (seq![44u8] + int_text(b as int)));
    assert((seq![44u8] + int_text(99)).skip(1) =~= int_text(99));
    assert((seq![44u8] + int_text(99)).take(1) =~= comma());
    assert((seq![44u8] + int_text(b as int)).skip(1) =~= int_text(b as int));
    assert((seq![44u8] + int_text(b as int)).take(1) =~= comma());
}

/// The signal strength for an RSSI code, as [`rssi_of`] says.
fn rssi_from(n: i32) -> (r: Option<Option<i64>>)
    ensures
        r == match rssi_of(n as int) {
            Some(Some(v)) => Some(Some(v as i64)),
            Some(None) => Some(None::<i64>),
            None => None::<Option<i64>>,
        },
{
    if n == 0 {
        Some(Some(-115))
    } else if n == 1 {
        Some(Some(-111))
    } else if n <= 31 {
        Some(Some(-110 + (n as i64 - 2) * 2))
    } else if n == 99 {
        Some(None)
    } else {
        None
    }
}

impl AtDecode for SignalReading {
    /// A line `+CSQ: <rssi>,<ber>`, an empty line, and a line starting with `OK`.
    open spec fn outcome(lines: Seq<Seq<u8>>, r: Result<SignalReading, Error>) -> bool {
        let good = has_prefix(lines[0], csq_header()) && signal_reading_of(
            lines[0].skip(csq_header().len() as int),
        ) is Some;
        let reading = signal_reading_of(lines[0].skip(csq_header().len() as int)).unwrap();
        ||| lines.len() == 0 && read_error(r)
        ||| lines.len() == 1 && !good && r == Err::<SignalReading, Error>(Error::DecodingFailed)
        ||| lines.len() == 1 && good && read_error(r)
        ||| lines.len() == 2 && good && lines[1].len() != 0 && r == Err::<SignalReading, Error>(
            Error::DecodingFailed,
        )
        ||| lines.len() == 2 && good && lines[1].len() == 0 && read_error(r)
        ||| lines.len() == 3 && good && lines[1].len() == 0 && r == if has_prefix(lines[2], ok()) {
            Ok::<SignalReading, Error>(reading)
        } else {
            Err(Error::DecodingFailed)
        }
    }

    fn decode<B: SerialReadTimeout>(decoder: &mut Decoder, serial: &mut B, timeout_ms: u32) -> (r:
        Result<SignalReading, Error>) {
        let ghost d0 = *decoder;
        proof {
            lemma_csq_header();
            lemma_comma();
            lemma_ok();
        }
        expect_text(decoder, "+CSQ: ", serial, timeout_ms)?;
        let ghost d1 = *decoder;
        let rssi_code = decoder.decode_scalar(serial, timeout_ms);
        let ghost d2 = *decoder;
        proof {
            lemma_offset_in_line(d1);
            lemma_offset_in_line(d2);
            assert(d2.line() == d1.line());
            assert(d0.seen_since(d2) == d0.seen_since(d1));
            assert(d2.line().unwrap().skip(d1.start() as int) == d1.rest());
            assert(d2.rest() =~= d1.rest().skip(crate::commands::scalar_run(d1.rest()) as int));
        }
        let rssi_code = rssi_code?;
        let rssi = match rssi_from(rssi_code) {
            Some(v) => v,
            None => return Err(Error::DecodingFailed),
        };
        let r = decoder.expect_str(",", serial, timeout_ms);
        let ghost d3 = *decoder;
        proof {
            lemma_offset_in_line(d3);
            assert(d3.line() == d2.line());
            assert(d0.seen_since(d3) == d0.seen_since(d1));
            assert(d3.line().unwrap().skip(d2.start() as int) == d2.rest());
        }
        r?;
        proof {
            assert(d3.rest() =~= d2.rest().skip(1));
        }
        let ber_code = decoder.decode_scalar(serial, timeout_ms);
        proof {
            assert(decoder.line() == d3.line());
            assert(d0.seen_since(*decoder) == d0.seen_since(d1));
            assert(decoder.line().unwrap().skip(d3.start() as int) == d3.rest());
        }
        let ber_code = ber_code?;
        let bit_error_rate = if ber_code >= 0 && ber_code <= 7 {
            Some(BitErrorRate::Class(ber_code as u8))
        } else if ber_code == 99 {
            if rssi.is_none() {
                None
            } else {
                Some(BitErrorRate::NotDetectable)
            }
        } else {
            return Err(Error::DecodingFailed);
        };
        let reading = SignalReading { rssi_dbm: rssi, bit_error_rate };
        decoder.end_line();
        let ghost d4 = *decoder;
        let r = decoder.expect_empty(serial, timeout_ms);
        proof {
            if r is Ok || r == Err::<(), Error>(Error::DecodingFailed) {
                crate::commands::lemma_seen_fetched(d4, *decoder);
                crate::commands::lemma_fetched_extends(d4, *decoder);
                crate::commands::lemma_seen_concat(d0, d4, *decoder);
            } else {
                crate::commands::lemma_seen_failed(d4, *decoder, r->Err_0);
                crate::commands::lemma_extends_refl(d4);
            }
        }
        r?;
        decoder.end_line();
        let ghost d5 = *decoder;
        let r = expect_text(decoder, "OK", serial, timeout_ms);
        proof {
            lemma_seen_concat(d0, d5, *decoder);
        }
        r?;
        Ok(reading)
    }
}

impl AtExecute for Csq {
    type Output = SignalReading;
}

} // verus!
