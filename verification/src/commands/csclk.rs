//! `AT+CSCLK`: slow clock (sleep) mode.

use vstd::prelude::*;
use crate::numparse::int_text;
use super::{AtCommand, AtEncode, AtWrite, Encoder};

verus! {

pub struct Csclk;

impl AtCommand for Csclk {
    const COMMAND: &'static str = "AT+CSCLK";
}

#[derive(Clone, Copy, Debug, PartialEq, Eq, Structural)]
pub enum ClockMode {
    Disable,
    Enable,
}

impl ClockMode {
    /// The number that stands for the mode in a request.
    pub open spec fn code(self) -> int {
        match self {
            ClockMode::Disable => 0,
            ClockMode::Enable => 1,
        }
    }
}

impl AtEncode for ClockMode {
    open spec fn encoding(&self) -> Seq<u8> {
        int_text(self.code())
    }

    fn encode(&self, encoder: &mut Encoder) {
        let code: i32 = match self {
            ClockMode::Disable => 0,
            ClockMode::Enable => 1,
        };
        encoder.encode_scalar(code);
    }
}

impl<'a> AtWrite<'a> for Csclk {
    type Input = ClockMode;
    type Output = ();
}

} // verus!
