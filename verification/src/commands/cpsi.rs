//! `AT+CPSI`: system information of the serving cell.

use vstd::prelude::*;
use crate::error::Error;
use crate::serial::SerialReadTimeout;
use crate::text::{bytes_eq, has_prefix, lemma_split_commas_join, lemma_split_commas_single, no_comma, split_commas, split_fields, views};
use super::{expect_text, lemma_same_line, lemma_seen_concat, next_text, read_error, AtCommand, AtDecode, AtRead, Decoder};
use super::literals::{cpsi_header, lemma_cpsi_header, lemma_ok, ok};

verus! {

pub struct Cpsi;

impl AtCommand for Cpsi {
    const COMMAND: &'static str = "AT+CPSI";
}

#[derive(Copy, Clone, Debug, PartialEq, Eq, Structural)]
pub enum SystemMode {
    NoService,
    Gsm,
    LteCatM1,
    LteNbIot,
}

#[derive(Copy, Clone, Debug, PartialEq, Eq, Structural)]
pub enum OperationMode {
    Online,
    Offline,
    FactoryTest,
    Reset,
    LowPower,
}

#[derive(Copy, Clone, Debug, PartialEq, Eq, Structural)]
pub struct SystemInfo {
    pub system_mode: SystemMode,
    pub operation_mode: OperationMode,
}

/// The system mode that the modem's text names.
pub open spec fn system_mode_of(s: Seq<u8>) -> Option<SystemMode> {
    if s == seq![78u8, 79u8, 32u8, 83u8, 69u8, 82u8, 86u8, 73u8, 67u8, 69u8] {
        Some(SystemMode::NoService)
    } else if s == seq![71u8, 83u8, 77u8] {
        Some(SystemMode::Gsm)
    } else if s == seq![76u8, 84u8, 69u8, 32u8, 67u8, 65u8, 84u8, 45u8, 77u8, 49u8] {
        Some(SystemMode::LteCatM1)
    } else if s == seq![76u8, 84u8, 69u8, 32u8, 78u8, 66u8, 45u8, 73u8, 79u8, 84u8] {
        Some(SystemMode::LteNbIot)
    } else {
        None
    }
}

/// The operation mode that the modem's text names.
pub open spec fn operation_mode_of(s: Seq<u8>) -> Option<OperationMode> {
    if s == seq![79u8, 110u8, 108u8, 105u8, 110u8, 101u8] {
        Some(OperationMode::Online)
    } else if s == seq![79u8, 102u8, 102u8, 108u8, 105u8, 110u8, 101u8] {
        Some(OperationMode::Offline)
    } else if s == seq![70u8, 97u8, 99u8, 116u8, 111u8, 114u8, 121u8, 32u8, 84u8, 101u8, 115u8, 116u8, 32u8, 77u8, 111u8, 100u8, 101u8] {
        Some(OperationMode::FactoryTest)
    } else if s == seq![82u8, 101u8, 115u8, 101u8, 116u8] {
        Some(OperationMode::Reset)
    } else if s == seq![76u8, 111u8, 119u8, 32u8, 80u8, 111u8, 119u8, 101u8, 114u8, 32u8, 77u8, 111u8, 100u8, 101u8] {
        Some(OperationMode::LowPower)
    } else {
        None
    }
}

/// The system information in the text after `+CPSI: `: its first field
/// names the system mode, its second the operation mode; the others do not count.
pub open spec fn system_info_of(text: Seq<u8>) -> Option<SystemInfo> {
    let f = split_commas(text);
    match system_mode_of(f[0]) {
        Some(system_mode) => if f.len() >= 2 {
            match operation_mode_of(f[1]) {
                Some(operation_mode) => Some(SystemInfo { system_mode, operation_mode }),
                None => None,
            }
        } else {
            None
        },
        None => None,
    }
}

/// The name under which the modem reports each system mode: `NO SERVICE`,
/// `GSM`, `LTE CAT-M1`, `LTE NB-IOT`.
pub open spec fn system_mode_name(m: SystemMode) -> Seq<u8> {
    match m {
        SystemMode::NoService => seq![78u8, 79u8, 32u8, 83u8, 69u8, 82u8, 86u8, 73u8, 67u8, 69u8],
        SystemMode::Gsm => seq![71u8, 83u8, 77u8],
        SystemMode::LteCatM1 => seq![76u8, 84u8, 69u8, 32u8, 67u8, 65u8, 84u8, 45u8, 77u8, 49u8],
        SystemMode::LteNbIot => seq![76u8, 84u8, 69u8, 32u8, 78u8, 66u8, 45u8, 73u8, 79u8, 84u8],
    }
}

/// The name under which the modem reports each operation mode: `Online`,
/// `Offline`, `Factory Test Mode`, `Reset`, `Low Power Mode`.
pub open spec fn operation_mode_name(m: OperationMode) -> Seq<u8> {
    match m {
        OperationMode::Online => seq![79u8, 110u8, 108u8, 105u8, 110u8, 101u8],
        OperationMode::Offline => seq![79u8, 102u8, 102u8, 108u8, 105u8, 110u8, 101u8],
        OperationMode::FactoryTest => seq![70u8, 97u8, 99u8, 116u8, 111u8, 114u8, 121u8, 32u8, 84u8, 101u8, 115u8, 116u8, 32u8, 77u8, 111u8, 100u8, 101u8],
        OperationMode::Reset => seq![82u8, 101u8, 115u8, 101u8, 116u8],
        OperationMode::LowPower => seq![76u8, 111u8, 119u8, 32u8, 80u8, 111u8, 119u8, 101u8, 114u8, 32u8, 77u8, 111u8, 100u8, 101u8],
    }
}

/// Each system mode and each operation mode is read from its own name and
/// from no other text: `Offline` gives `Offline`, and only `Online` gives
/// `Online`.
pub proof fn lemma_cpsi_names(t: Seq<u8>, sm: SystemMode, om: OperationMode)
    ensures
        system_mode_of(t) == Some(sm) <==> t == system_mode_name(sm),
        operation_mode_of(t) == Some(om) <==> t == operation_mode_name(om),
{
    lemma_cpsi_names_distinct();
}

/// The names of distinct modes differ.
proof fn lemma_cpsi_names_distinct()
    ensures
        forall|a: SystemMode, b: SystemMode| a != b ==> system_mode_name(a) != system_mode_name(b),
        forall|a: OperationMode, b: OperationMode|
            a != b ==> operation_mode_name(a) != operation_mode_name(b),
{
    assert forall|a: SystemMode, b: SystemMode| a != b implies system_mode_name(a)
        != system_mode_name(b) by {
        let x = system_mode_name(a);
        let y = system_mode_name(b);
        if x.len() == y.len() {
            assert(x[4] != y[4] || x[0] != y[0]);
        }
    }
    assert forall|a: OperationMode, b: OperationMode| a != b implies operation_mode_name(a)
        != operation_mode_name(b) by {
        let x = operation_mode_name(a);
        let y = operation_mode_name(b);
        if x.len() == y.len() {
            assert(x[0] != y[0] || x[1] != y[1]);
        }
    }
}

/// The first field of the answer after `+CPSI: ` is the system mode and the
/// second the operation mode, whatever follows them.
pub proof fn lemma_system_info_fields(sm: SystemMode, om: OperationMode, rest: Seq<u8>)
    ensures
        system_info_of(system_mode_name(sm) + seq![44u8] + operation_mode_name(om)) == Some(
            SystemInfo { system_mode: sm, operation_mode: om },
        ),
        system_info_of(system_mode_name(sm) + seq![44u8] + operation_mode_name(om) + seq![44u8] + rest)
            == Some(SystemInfo { system_mode: sm, operation_mode: om }),
{
    let a = system_mode_name(sm);
    let b = operation_mode_name(om);
    assert(no_comma(a));
    assert(no_comma(b));
    lemma_split_commas_single(a);
    lemma_split_commas_single(b);
    lemma_split_commas_join(a, b);
    lemma_split_commas_join(a, b + seq![44u8] + rest);
    lemma_split_commas_join(b, rest);
    assert(a + seq![44u8] + b + seq![44u8] + rest =~= a + seq![44u8] + (b + seq![44u8] + rest));
    lemma_cpsi_names(a, sm, om);
    lemma_cpsi_names(b, sm, om);
}

fn system_mode_from(s: &[u8]) -> (r: Option<SystemMode>)
    ensures
        r == system_mode_of(s@),
{
    if bytes_eq(s, &[78u8, 79u8, 32u8, 83u8, 69u8, 82u8, 86u8, 73u8, 67u8, 69u8]) {
        return Some(SystemMode::NoService);
    }
    if bytes_eq(s, &[71u8, 83u8, 77u8]) {
        return Some(SystemMode::Gsm);
    }
    if bytes_eq(s, &[76u8, 84u8, 69u8, 32u8, 67u8, 65u8, 84u8, 45u8, 77u8, 49u8]) {
        return Some(SystemMode::LteCatM1);
    }
    if bytes_eq(s, &[76u8, 84u8, 69u8, 32u8, 78u8, 66u8, 45u8, 73u8, 79u8, 84u8]) {
        return Some(SystemMode::LteNbIot);
    }
    None
}

fn operation_mode_from(s: &[u8]) -> (r: Option<OperationMode>)
    ensures
        r == operation_mode_of(s@),
{
    if bytes_eq(s, &[79u8, 110u8, 108u8, 105u8, 110u8, 101u8]) {
        return Some(OperationMode::Online);
    }
    if bytes_eq(s, &[79u8, 102u8, 102u8, 108u8, 105u8, 110u8, 101u8]) {
        return Some(OperationMode::Offline);
    }
    if bytes_eq(s, &[70u8, 97u8, 99u8, 116u8, 111u8, 114u8, 121u8, 32u8, 84u8, 101u8, 115u8, 116u8, 32u8, 77u8, 111u8, 100u8, 101u8]) {
        return Some(OperationMode::FactoryTest);
    }
    if bytes_eq(s, &[82u8, 101u8, 115u8, 101u8, 116u8]) {
        return Some(OperationMode::Reset);
    }
    if bytes_eq(s, &[76u8, 111u8, 119u8, 32u8, 80u8, 111u8, 119u8, 101u8, 114u8, 32u8, 77u8, 111u8, 100u8, 101u8]) {
        return Some(OperationMode::LowPower);
    }
    None
}

impl SystemInfo {
    /// Reads the system information from the text after `+CPSI: `.
    pub fn parse(text: &[u8]) -> (r: Option<SystemInfo>)
        ensures
            r == system_info_of(text@),
    {
        let fields = split_fields(text);
        proof {
            crate::text::lemma_split_commas_len(text@);
            assert(views(fields@)[0] == fields@[0]@);
        }
        let system_mode = match system_mode_from(fields[0].as_slice()) {
            Some(m) => m,
            None => return None,
        };
        if fields.len() < 2 {
            return None;
        }
        assert(views(fields@)[1] == fields@[1]@);
        let operation_mode = match operation_mode_from(fields[1].as_slice()) {
            Some(m) => m,
            None => return None,
        };
        Some(SystemInfo { system_mode, operation_mode })
    }
}

impl AtDecode for SystemInfo {
    /// A line of `+CPSI: ` and the fields; then a line `OK`, or an empty line
    /// (which the modem adds in GSM mode) and a line starting with `OK`.
    open spec fn outcome(lines: Seq<Seq<u8>>, r: Result<SystemInfo, Error>) -> bool {
        let good = has_prefix(lines[0], cpsi_header()) && system_info_of(
            lines[0].skip(cpsi_header().len() as int),
        ) is Some;
        let info = system_info_of(lines[0].skip(cpsi_header().len() as int)).unwrap();
        ||| lines.len() == 0 && read_error(r)
        ||| lines.len() == 1 && !good && r == Err::<SystemInfo, Error>(Error::DecodingFailed)
        ||| lines.len() == 1 && good && read_error(r)
        ||| lines.len() == 2 && good && lines[1] == ok() && r == Ok::<SystemInfo, Error>(info)
        ||| lines.len() == 2 && good && lines[1] != ok() && lines[1].len() != 0 && r == Err::<
            SystemInfo,
            Error,
        >(Error::DecodingFailed)
        ||| lines.len() == 2 && good && lines[1].len() == 0 && read_error(r)
        ||| lines.len() == 3 && good && lines[1].len() == 0 && r == if has_prefix(lines[2], ok()) {
            Ok::<SystemInfo, Error>(info)
        } else {
            Err(Error::DecodingFailed)
        }
    }

    fn decode<B: SerialReadTimeout>(decoder: &mut Decoder, serial: &mut B, timeout_ms: u32) -> (r:
        Result<SystemInfo, Error>) {
        let ghost d0 = *decoder;
        proof {
            lemma_ok();
            lemma_cpsi_header();
        }
        expect_text(decoder, "+CPSI: ", serial, timeout_ms)?;
        let ghost d1 = *decoder;
        let text = next_text(decoder, serial, timeout_ms)?;
        proof {
            lemma_same_line(d1, *decoder);
            assert(seq![text@][0] == text@);
            assert(d0.seen_since(*decoder) == d0.seen_since(d1));
        }
        let info = match SystemInfo::parse(text.as_slice()) {
            Some(v) => v,
            None => return Err(Error::DecodingFailed),
        };
        decoder.end_line();
        let ghost d2 = *decoder;
        let second = next_text(decoder, serial, timeout_ms);
        proof {
            lemma_seen_concat(d0, d2, *decoder);
        }
        let second = second?;
        proof {
            assert(seq![second@][0] == second@);
        }
        if bytes_eq(second.as_slice(), &[79u8, 75u8]) {
            return Ok(info);
        }
        if second.len() != 0 {
            return Err(Error::DecodingFailed);
        }
        decoder.end_line();
        let ghost d3 = *decoder;
        let r = expect_text(decoder, "OK", serial, timeout_ms);
        proof {
            lemma_seen_concat(d0, d3, *decoder);
        }
        r?;
        Ok(info)
    }
}

impl AtRead for Cpsi {
    type Output = SystemInfo;
}

} // verus!
