//! `AT+HTTPTOFS`: downloading a file over HTTP to the modem's file system.

use vstd::prelude::*;
use vstd::string::StringSliceAdditionalSpecFns;
use crate::error::Error;
use crate::numparse::{decimal, int_text, lemma_decimal_digits, lemma_i32_text_roundtrip, spec_parse_i32};
use crate::serial::SerialReadTimeout;
use crate::text::has_prefix;
use super::{expect_text, is_scalar_byte, lemma_offset_in_line, read_error, scalar_run, AtCommand, AtDecode, AtEncode, AtWrite, Decoder, Encoder};
use super::literals::{comma, httptofs_header, lemma_comma, lemma_httptofs_header};

verus! {

pub struct Httptofs;

impl AtCommand for Httptofs {
    const COMMAND: &'static str = "AT+HTTPTOFS";
}

pub struct HttpParams<'a, 'b> {
    url: &'a str,
    path: &'b str,
}

impl<'a, 'b> AtEncode for HttpParams<'a, 'b> {
    /// The URL between double quotes, a comma, then the path and a closing
    /// double quote (the path gets no opening one).
    closed spec fn encoding(&self) -> Seq<u8> {
        seq![34u8] + self.url.spec_bytes() + seq![34u8, 44u8] + self.path.spec_bytes() + seq![34u8]
    }

    fn encode(&self, encoder: &mut Encoder) {
        encoder.encode_bytes(&[34u8]);
        encoder.encode_str(self.url);
        encoder.encode_bytes(&[34u8, 44u8]);
        encoder.encode_str(self.path);
        encoder.encode_bytes(&[34u8]);
        assert(final(encoder)@ =~= old(encoder)@ + self.encoding());
    }
}

pub struct HttpResponse {
    pub status: u16,
    pub len: u32,
}

/// The integer that starts `s`, and what follows it.
pub open spec fn leading_int(s: Seq<u8>) -> Option<(int, Seq<u8>)> {
    let k = scalar_run(s);
    if k > 0 && spec_parse_i32(s.take(k as int)) is Some {
        Some((spec_parse_i32(s.take(k as int)).unwrap(), s.skip(k as int)))
    } else {
        None
    }
}

/// A run of digits and `-` in front adds its length to the run.
proof fn lemma_scalar_run_prefix(d: Seq<u8>, rest: Seq<u8>)
    requires
        forall|i: int| 0 <= i < d.len() ==> is_scalar_byte(#[trigger] d[i]),
    ensures
        scalar_run(d + rest) == d.len() + scalar_run(rest),
    decreases d.len(),
{
    if d.len() > 0 {
        let t = d.drop_first();
        assert forall|i: int| 0 <= i < t.len() implies is_scalar_byte(#[trigger] t[i]) by {
            assert(t[i] == d[i + 1]);
        }
        lemma_scalar_run_prefix(t, rest);
        assert((d + rest).drop_first() =~= t + rest);
        assert((d + rest)[0] == d[0]);
    } else {
        assert(d + rest =~= rest);
    }
}

/// The decimal text of an `i32`, followed by anything that does not start
/// with a digit or `-`, reads back as that number, the rest following it.
pub proof fn lemma_leading_int_text(v: i32, rest: Seq<u8>)
    requires
        rest.len() == 0 || !is_scalar_byte(rest[0]),
    ensures
        leading_int(int_text(v as int) + rest) == Some((v as int, rest)),
{
    let d = int_text(v as int);
    let n = if v < 0 {
        (-(v as int)) as nat
    } else {
        v as nat
    };
    lemma_decimal_digits(n);
    assert forall|i: int| 0 <= i < d.len() implies is_scalar_byte(#[trigger] d[i]) by {
        if v < 0 {
            if i > 0 {
                assert(d[i] == decimal(n)[i - 1]);
            }
        } else {
            assert(d[i] == decimal(n)[i]);
        }
    }
    lemma_scalar_run_prefix(d, rest);
    assert(scalar_run(rest) == 0);
    lemma_i32_text_roundtrip(v);
    assert((d + rest).take(d.len() as int) =~= d);
    assert((d + rest).skip(d.len() as int) =~= rest);
}

/// The status and length in a line `+HTTPTOFS: <status>,<length>`; the rest
/// of the line does not count.
pub open spec fn http_response_of(line: Seq<u8>) -> Option<(int, int)> {
    if has_prefix(line, httptofs_header()) {
        match leading_int(line.skip(httptofs_header().len() as int)) {
            Some((status, after)) => if has_prefix(after, comma()) {
                match leading_int(after.skip(1)) {
                    Some((len, _)) => Some((status, len)),
                    None => None,
                }
            } else {
                None
            },
            None => None,
        }
    } else {
        None
    }
}

impl AtDecode for HttpResponse {
    /// One line `+HTTPTOFS: <status>,<length>`; status and length keep the
    /// low 16 and 32 bits of the numbers.
    open spec fn outcome(lines: Seq<Seq<u8>>, r: Result<HttpResponse, Error>) -> bool {
        ||| lines.len() == 0 && read_error(r)
        ||| lines.len() == 1 && match http_response_of(lines[0]) {
            Some((status, len)) => r is Ok && r->Ok_0.status == status as u16 && r->Ok_0.len
                == len as u32,
            None => r == Err::<HttpResponse, Error>(Error::DecodingFailed),
        }
    }

    fn decode<B: SerialReadTimeout>(decoder: &mut Decoder, serial: &mut B, timeout_ms: u32) -> (r:
        Result<HttpResponse, Error>) {
        let ghost d0 = *decoder;
        proof {
            lemma_httptofs_header();
            lemma_comma();
        }
        expect_text(decoder, "+HTTPTOFS: ", serial, timeout_ms)?;
        let ghost d1 = *decoder;
        let ghost line = d0.seen_since(d1)[0];
        let status = decoder.decode_scalar(serial, timeout_ms);
        let ghost d2 = *decoder;
        proof {
            assert(d1.rest() == line.skip(httptofs_header().len() as int));
            assert(d2.history() == d1.history());
            assert(d0.seen_since(d2) == d0.seen_since(d1));
            assert(d2.line().unwrap().skip(d1.start() as int) == d1.rest());
            lemma_offset_in_line(d1);
            lemma_offset_in_line(d2);
            assert(d2.line() == d1.line());
            assert(d2.offset() == d1.offset() + scalar_run(d1.rest()));
            assert(d2.rest() =~= d1.rest().skip(scalar_run(d1.rest()) as int));
        }
        let status = status?;
        let r = decoder.expect_str(",", serial, timeout_ms);
        let ghost d3 = *decoder;
        proof {
            assert(d3.history() == d2.history());
            assert(d0.seen_since(d3) == d0.seen_since(d1));
            assert(d3.line().unwrap().skip(d2.start() as int) == d2.rest());
        }
        r?;
        proof {
            lemma_offset_in_line(d3);
            assert(d3.line() == d2.line());
            assert(d3.offset() == d2.offset() + 1);
            assert(d3.rest() =~= d2.rest().skip(1));
        }
        let len = decoder.decode_scalar(serial, timeout_ms);
        proof {
            assert(decoder.history() == d3.history());
            assert(d0.seen_since(*decoder) == d0.seen_since(d1));
            assert(decoder.line().unwrap().skip(d3.start() as int) == d3.rest());
        }
        let len = len?;
        Ok(
            HttpResponse {
                status: #[verifier::truncate] (status as u16),
                len: #[verifier::truncate] (len as u32),
            },
        )
    }
}

impl<'a> AtWrite<'a> for Httptofs {
    type Input = HttpParams<'a, 'a>;
    type Output = HttpResponse;
}

} // verus!
