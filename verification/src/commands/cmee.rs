//! `AT+CMEE`: how the modem reports errors.

use vstd::prelude::*;
use crate::numparse::int_text;
use super::{AtCommand, AtEncode, AtWrite, Encoder};

verus! {

pub struct Cmee;

impl AtCommand for Cmee {
    const COMMAND: &'static str = "AT+CMEE";
}

#[derive(Clone, Copy, Debug, PartialEq, Eq, Structural)]
pub enum ErrorReportMode {
    Disable,
    Enable,
    Verbose,
}

impl ErrorReportMode {
    /// The number that stands for the mode in a request.
    pub open spec fn code(self) -> int {
        match self {
            ErrorReportMode::Disable => 0,
            ErrorReportMode::Enable => 1,
            ErrorReportMode::Verbose => 2,
        }
    }
}

impl AtEncode for ErrorReportMode {
    open spec fn encoding(&self) -> Seq<u8> {
        int_text(self.code())
    }

    fn encode(&self, encoder: &mut Encoder) {
        let code: i32 = match self {
            ErrorReportMode::Disable => 0,
            ErrorReportMode::Enable => 1,
            ErrorReportMode::Verbose => 2,
        };
        encoder.encode_scalar(code);
    }
}

impl<'a> AtWrite<'a> for Cmee {
    type Input = ErrorReportMode;
    type Output = ();
}

} // verus!
