//! `AT+CIICR`: bringing up the wireless connection.

use vstd::prelude::*;
use crate::error::Error;
use crate::serial::SerialReadTimeout;
use crate::text::bytes_eq;
use super::{next_text, read_error, AtCommand, AtDecode, AtExecute, Decoder};

verus! {

pub struct Ciicr;

impl AtCommand for Ciicr {
    const COMMAND: &'static str = "AT+CIICR";
}

#[derive(Copy, Clone, Debug, Eq, PartialEq, Structural)]
pub enum GprsResult {
    Failure,
    Success,
}

impl GprsResult {
    /// `OK` is success, `ERROR` failure; any other line is malformed.
    pub open spec fn from_line(line: Seq<u8>) -> Result<GprsResult, Error> {
        if line == seq![79u8, 75u8] {
            Ok(GprsResult::Success)
        } else if line == seq![69u8, 82u8, 82u8, 79u8, 82u8] {
            Ok(GprsResult::Failure)
        } else {
            Err(Error::DecodingFailed)
        }
    }
}

impl AtDecode for GprsResult {
    /// One line, read as [`GprsResult::from_line`] says.
    open spec fn outcome(lines: Seq<Seq<u8>>, r: Result<GprsResult, Error>) -> bool {
        ||| lines.len() == 0 && read_error(r)
        ||| lines.len() == 1 && r == GprsResult::from_line(lines[0])
    }

    fn decode<B: SerialReadTimeout>(decoder: &mut Decoder, serial: &mut B, timeout_ms: u32) -> (r:
        Result<GprsResult, Error>) {
        let line = next_text(decoder, serial, timeout_ms)?;
        if bytes_eq(&line, &[79u8, 75u8]) {
            return Ok(GprsResult::Success);
        }
        if bytes_eq(&line, &[69u8, 82u8, 82u8, 79u8, 82u8]) {
            return Ok(GprsResult::Failure);
        }
        Err(Error::DecodingFailed)
    }
}

impl AtExecute for Ciicr {
    type Output = GprsResult;
}

} // verus!
