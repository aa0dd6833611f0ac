//! `AT+CIPSHUT`: closing all IP connections.

use vstd::prelude::*;
use crate::error::Error;
use crate::serial::SerialReadTimeout;
use crate::text::bytes_eq;
use super::{next_text, read_error, AtCommand, AtDecode, AtExecute, Decoder};

verus! {

pub struct Cipshut;

impl AtCommand for Cipshut {
    const COMMAND: &'static str = "AT+CIPSHUT";
}

#[derive(Clone, Copy)]
pub enum DisconnectResult {
    Failure,
    Success,
}

impl DisconnectResult {
    /// `SHUT OK` is success, `ERROR` failure; any other line is malformed.
    pub open spec fn from_line(line: Seq<u8>) -> Result<DisconnectResult, Error> {
        if line == seq![83u8, 72u8, 85u8, 84u8, 32u8, 79u8, 75u8] {
            Ok(DisconnectResult::Success)
        } else if line == seq![69u8, 82u8, 82u8, 79u8, 82u8] {
            Ok(DisconnectResult::Failure)
        } else {
            Err(Error::DecodingFailed)
        }
    }
}

impl AtDecode for DisconnectResult {
    /// One line, read as [`DisconnectResult::from_line`] says.
    open spec fn outcome(lines: Seq<Seq<u8>>, r: Result<DisconnectResult, Error>) -> bool {
        ||| lines.len() == 0 && read_error(r)
        ||| lines.len() == 1 && r == DisconnectResult::from_line(lines[0])
    }

    fn decode<B: SerialReadTimeout>(decoder: &mut Decoder, serial: &mut B, timeout_ms: u32) -> (r:
        Result<DisconnectResult, Error>) {
        let line = next_text(decoder, serial, timeout_ms)?;
        if bytes_eq(&line, &[83u8, 72u8, 85u8, 84u8, 32u8, 79u8, 75u8]) {
            return Ok(DisconnectResult::Success);
        }
        if bytes_eq(&line, &[69u8, 82u8, 82u8, 79u8, 82u8]) {
            return Ok(DisconnectResult::Failure);
        }
        Err(Error::DecodingFailed)
    }
}

impl AtExecute for Cipshut {
    type Output = DisconnectResult;
}

} // verus!
