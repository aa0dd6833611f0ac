//! `AT+CCID`: the ICCID of the SIM card.

use vstd::prelude::*;
use crate::error::Error;
use crate::numparse::{parse_u64, parse_u8, spec_parse_unsigned};
use crate::serial::SerialReadTimeout;
use crate::text::{has_prefix, sub_bytes};
use super::{expect_text, lemma_seen_concat, next_text, read_error, AtCommand, AtDecode, AtExecute, Decoder};
use super::literals::{lemma_ok, ok};

verus! {

pub struct Ccid;

impl AtCommand for Ccid {
    const COMMAND: &'static str = "AT+CCID";
}

#[derive(Debug, Clone, Copy, PartialEq, Eq, Structural)]
pub struct Iccid {
    pub country: u8,
    pub issuer: u8,
    pub account: u64,
}

/// An ASCII hexadecimal digit.
pub open spec fn is_hex_digit(b: u8) -> bool {
    (48 <= b && b <= 57) || (65 <= b && b <= 70) || (97 <= b && b <= 102)
}

/// The ICCID that the 20 characters of `s` give: two characters of a
/// constant, two of the country, two of the issuer, thirteen of the account,
/// all decimal, and a hexadecimal check digit.
pub open spec fn iccid_of(s: Seq<u8>) -> Option<Iccid> {
    if s.len() == 20 && spec_parse_unsigned(s.subrange(0, 2), u8::MAX as int) is Some
        && spec_parse_unsigned(s.subrange(2, 4), u8::MAX as int) is Some
        && spec_parse_unsigned(s.subrange(4, 6), u8::MAX as int) is Some
        && spec_parse_unsigned(s.subrange(6, 19), u64::MAX as int) is Some && is_hex_digit(s[19]) {
        Some(
            Iccid {
                country: spec_parse_unsigned(s.subrange(2, 4), u8::MAX as int).unwrap() as u8,
                issuer: spec_parse_unsigned(s.subrange(4, 6), u8::MAX as int).unwrap() as u8,
                account: spec_parse_unsigned(s.subrange(6, 19), u64::MAX as int).unwrap() as u64,
            },
        )
    } else {
        None
    }
}

impl Iccid {
    /// Reads an ICCID from the text of the modem's answer.
    pub fn parse(s: &[u8]) -> (r: Option<Iccid>)
        ensures
            r == iccid_of(s@),
    {
        if s.len() != 20 {
            return None;
        }
        let constant = parse_u8(sub_bytes(s, 0, 2).as_slice());
        let country = parse_u8(sub_bytes(s, 2, 4).as_slice());
        let issuer = parse_u8(sub_bytes(s, 4, 6).as_slice());
        let account = parse_u64(sub_bytes(s, 6, 19).as_slice());
        let c = s[19];
        let check = (c >= 48 && c <= 57) || (c >= 65 && c <= 70) || (c >= 97 && c <= 102);
        match (constant, country, issuer, account) {
            (Some(_), Some(country), Some(issuer), Some(account)) => if check {
                Some(Iccid { country, issuer, account })
            } else {
                None
            },
            _ => None,
        }
    }
}

impl AtDecode for Iccid {
    /// A line holding the ICCID, then a line starting with `OK`.
    open spec fn outcome(lines: Seq<Seq<u8>>, r: Result<Iccid, Error>) -> bool {
        ||| lines.len() == 0 && read_error(r)
        ||| lines.len() == 1 && iccid_of(lines[0]) is None && r == Err::<Iccid, Error>(
            Error::DecodingFailed,
        )
        ||| lines.len() == 1 && iccid_of(lines[0]) is Some && read_error(r)
        ||| lines.len() == 2 && iccid_of(lines[0]) is Some && r == if has_prefix(lines[1], ok()) {
            Ok(iccid_of(lines[0]).unwrap())
        } else {
            Err(Error::DecodingFailed)
        }
    }

    fn decode<B: SerialReadTimeout>(decoder: &mut Decoder, serial: &mut B, timeout_ms: u32) -> (r:
        Result<Iccid, Error>) {
        let ghost d0 = *decoder;
        let text = next_text(decoder, serial, timeout_ms)?;
        let result = match Iccid::parse(text.as_slice()) {
            Some(v) => v,
            None => return Err(Error::DecodingFailed),
        };
        decoder.end_line();
        let ghost d1 = *decoder;
        proof {
            lemma_ok();
        }
        let r = expect_text(decoder, "OK", serial, timeout_ms);
        proof {
            lemma_seen_concat(d0, d1, *decoder);
            assert(seq![text@][0] == text@);
        }
        r?;
        Ok(result)
    }
}

impl AtExecute for Ccid {
    type Output = Iccid;
}

} // verus!
