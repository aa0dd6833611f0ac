//! `AT+COPS`: the network operator.

use vstd::prelude::*;
use crate::error::Error;
use crate::numparse::{int_text, is_digit, lemma_decimal_digits, lemma_i32_text_roundtrip, parse_i32, spec_parse_i32};
use crate::serial::SerialReadTimeout;
use crate::text::{has_prefix, join_commas, lemma_split_join, no_comma, split_commas, split_fields, sub_bytes, views};
use super::{expect_text, lemma_seen_concat, next_text, read_error, AtCommand, AtDecode, AtRead, Decoder};
use super::literals::{cops_header, lemma_cops_header, lemma_ok, ok};

verus! {

pub struct Cops;

impl AtCommand for Cops {
    const COMMAND: &'static str = "AT+COPS";
}

#[derive(Copy, Clone, Debug, PartialEq, Eq, Structural)]
pub enum Mode {
    Automatic,
    Manual,
    ManualDeregister,
    ManualAutomatic,
}

#[derive(Copy, Clone, Debug, PartialEq, Eq, Structural)]
pub enum Format {
    Long,
    Short,
    Numeric,
}

#[derive(Clone, Debug)]
pub struct OperatorInfo {
    pub mode: Mode,
    pub format: Format,
    /// The operator's name, without the double quotes around it.
    pub operator_name: Vec<u8>,
}

/// The mode that a number stands for.
pub open spec fn mode_of(n: int) -> Option<Mode> {
    if n == 0 {
        Some(Mode::Automatic)
    } else if n == 1 {
        Some(Mode::Manual)
    } else if n == 2 {
        Some(Mode::ManualDeregister)
    } else if n == 4 {
        Some(Mode::ManualAutomatic)
    } else {
        None
    }
}

/// The name format that a number stands for.
pub open spec fn format_of(n: int) -> Option<Format> {
    if n == 0 {
        Some(Format::Long)
    } else if n == 1 {
        Some(Format::Short)
    } else if n == 2 {
        Some(Format::Numeric)
    } else {
        None
    }
}

/// The operator's name from its field: a closing `"` is dropped, and then an
/// opening one; where the field has a closing quote but no opening one, it
/// stays as it is.
pub open spec fn strip_quotes(name: Seq<u8>) -> Seq<u8> {
    let a = if name.len() > 0 && name.last() == 34u8 {
        name.drop_last()
    } else {
        name
    };
    if a.len() > 0 && a[0] == 34u8 {
        a.drop_first()
    } else {
        name
    }
}

/// The operator information in the fields of `text`: mode, format and name.
pub open spec fn operator_info_of(text: Seq<u8>) -> Option<(Mode, Format, Seq<u8>)> {
    let f = split_commas(text);
    match spec_parse_i32(f[0]) {
        Some(m) => match mode_of(m) {
            Some(mode) => if f.len() >= 2 {
                match spec_parse_i32(f[1]) {
                    Some(n) => match format_of(n) {
                        Some(format) => if f.len() >= 3 {
                            Some((mode, format, strip_quotes(f[2])))
                        } else {
                            None
                        },
                        None => None,
                    },
                    None => None,
                }
            } else {
                None
            },
            None => None,
        },
        None => None,
    }
}

/// The number that stands for each name format in `AT+COPS` answers: 0 the
/// long alphanumeric name, 1 the short one, 2 the numeric code.
pub open spec fn format_code(f: Format) -> int {
    match f {
        Format::Long => 0,
        Format::Short => 1,
        Format::Numeric => 2,
    }
}

/// The number that stands for each registration mode in `AT+COPS` answers:
/// 0 automatic, 1 manual, 2 deregistered, 4 manual with automatic fallback.
pub open spec fn mode_code(m: Mode) -> int {
    match m {
        Mode::Automatic => 0,
        Mode::Manual => 1,
        Mode::ManualDeregister => 2,
        Mode::ManualAutomatic => 4,
    }
}

/// Each name format and each mode is read from exactly one number, its
/// code; so distinct numbers never give the same format or mode.
pub proof fn lemma_cops_codes(n: int, k: int, f: Format, m: Mode)
    ensures
        format_of(n) == Some(f) <==> n == format_code(f),
        mode_of(n) == Some(m) <==> n == mode_code(m),
        format_of(n) is Some && format_of(n) == format_of(k) ==> n == k,
        mode_of(n) is Some && mode_of(n) == mode_of(k) ==> n == k,
{
}

/// An operator name between double quotes is read without them, and a
/// name written without quotes is read as it stands.
pub proof fn lemma_strip_quotes(name: Seq<u8>)
    requires
        forall|i: int| 0 <= i < name.len() ==> name[i] != 34u8,
    ensures
        strip_quotes(seq![34u8] + name + seq![34u8]) == name,
        strip_quotes(name) == name,
{
    let q = seq![34u8] + name + seq![34u8];
    assert(q.drop_last() =~= seq![34u8] + name);
    assert((seq![34u8] + name).drop_first() =~= name);
    if name.len() > 0 {
        assert(name.last() == name[name.len() - 1]);
        assert(name[0] != 34u8);
    }
}

/// The text of a small number holds no comma.
proof fn lemma_code_text(v: int)
    requires
        0 <= v <= 4,
    ensures
        no_comma(int_text(v)),
        spec_parse_i32(int_text(v)) == Some(v),
{
    lemma_decimal_digits(v as nat);
    lemma_i32_text_roundtrip(v as i32);
    assert forall|i: int| 0 <= i < int_text(v).len() implies int_text(v)[i] != 44u8 by {
        assert(is_digit(int_text(v)[i]));
    }
}

/// An answer `<mode>,<format>,<name>` written with the codes of a mode and a
/// format reads as that mode, that format, and the name without its quotes.
pub proof fn lemma_operator_info_fields(m: Mode, f: Format, name: Seq<u8>)
    requires
        no_comma(name),
    ensures
        operator_info_of(int_text(mode_code(m)) + seq![44u8] + int_text(format_code(f)) + seq![44u8]
            + name) == Some((m, f, strip_quotes(name))),
{
    let a = int_text(mode_code(m));
    let b = int_text(format_code(f));
    lemma_code_text(mode_code(m));
    lemma_code_text(format_code(f));
    let fs = seq![a, b, name];
    assert(fs.drop_last() =~= seq![a, b]);
    assert(seq![a, b].drop_last() =~= seq![a]);
    assert(join_commas(seq![a]) == a);
    assert(join_commas(seq![a, b]) == a + seq![44u8] + b);
    assert(join_commas(fs) =~= a + seq![44u8] + b + seq![44u8] + name);
    lemma_split_join(fs);
}

/// Drops the double quotes around an operator's name as [`strip_quotes`] says.
fn strip_name_quotes(name: &[u8]) -> (r: Vec<u8>)
    ensures
        r@ == strip_quotes(name@),
{
    let end = if name.len() > 0 && name[name.len() - 1] == 34u8 {
        name.len() - 1
    } else {
        name.len()
    };
    if end > 0 && name[0] == 34u8 {
        sub_bytes(name, 1, end)
    } else {
        sub_bytes(name, 0, name.len())
    }
}

impl OperatorInfo {
    /// Reads the operator information from the text after `+COPS: `.
    pub fn parse(text: &[u8]) -> (r: Option<OperatorInfo>)
        ensures
            match operator_info_of(text@) {
                Some((mode, format, name)) => r is Some && r->Some_0.mode == mode
                    && r->Some_0.format == format && r->Some_0.operator_name@ == name,
                None => r is None,
            },
    {
        let fields = split_fields(text);
        proof {
            crate::text::lemma_split_commas_len(text@);
            assert(views(fields@)[0] == fields@[0]@);
        }
        let mode = match parse_i32(fields[0].as_slice()) {
            Some(0) => Mode::Automatic,
            Some(1) => Mode::Manual,
            Some(2) => Mode::ManualDeregister,
            Some(4) => Mode::ManualAutomatic,
            _ => return None,
        };
        if fields.len() < 2 {
            return None;
        }
        assert(views(fields@)[1] == fields@[1]@);
        let format = match parse_i32(fields[1].as_slice()) {
            Some(0) => Format::Long,
            Some(1) => Format::Short,
            Some(2) => Format::Numeric,
            _ => return None,
        };
        if fields.len() < 3 {
            return None;
        }
        assert(views(fields@)[2] == fields@[2]@);
        let operator_name = strip_name_quotes(fields[2].as_slice());
        Some(OperatorInfo { mode, format, operator_name })
    }
}

impl AtDecode for OperatorInfo {
    /// A line of `+COPS: ` and the fields, then a line starting with `OK`.
    open spec fn outcome(lines: Seq<Seq<u8>>, r: Result<OperatorInfo, Error>) -> bool {
        let good = has_prefix(lines[0], cops_header()) && operator_info_of(
            lines[0].skip(cops_header().len() as int),
        ) is Some;
        let info = operator_info_of(lines[0].skip(cops_header().len() as int)).unwrap();
        ||| lines.len() == 0 && read_error(r)
        ||| lines.len() == 1 && !good && r == Err::<OperatorInfo, Error>(Error::DecodingFailed)
        ||| lines.len() == 1 && good && read_error(r)
        ||| lines.len() == 2 && good && if has_prefix(lines[1], ok()) {
            r is Ok && r->Ok_0.mode == info.0 && r->Ok_0.format == info.1
                && r->Ok_0.operator_name@ == info.2
        } else {
            r == Err::<OperatorInfo, Error>(Error::DecodingFailed)
        }
    }

    fn decode<B: SerialReadTimeout>(decoder: &mut Decoder, serial: &mut B, timeout_ms: u32) -> (r:
        Result<OperatorInfo, Error>) {
        let ghost d0 = *decoder;
        proof {
            lemma_ok();
            lemma_cops_header();
        }
        expect_text(decoder, "+COPS: ", serial, timeout_ms)?;
        let ghost d1 = *decoder;
        let text = next_text(decoder, serial, timeout_ms)?;
        proof {
            crate::commands::lemma_same_line(d1, *decoder);
            assert(seq![text@][0] == text@);
            assert(d0.seen_since(*decoder) == d0.seen_since(d1));
        }
        let info = match OperatorInfo::parse(text.as_slice()) {
            Some(v) => v,
            None => return Err(Error::DecodingFailed),
        };
        decoder.end_line();
        let ghost d2 = *decoder;
        let r = expect_text(decoder, "OK", serial, timeout_ms);
        proof {
            lemma_seen_concat(d0, d2, *decoder);
        }
        r?;
        Ok(info)
    }
}

impl AtRead for Cops {
    type Output = OperatorInfo;
}

} // verus!
