//! `AT+CGNSXTRA`: use of the XTRA assistance file for GNSS.

use vstd::prelude::*;
use crate::numparse::int_text;
use super::{AtCommand, AtEncode, AtWrite, Encoder};

verus! {

pub struct Cgnsxtra;

impl AtCommand for Cgnsxtra {
    const COMMAND: &'static str = "AT+CGNSXTRA";
}

#[derive(Clone, Copy, Debug, PartialEq, Eq, Structural)]
pub enum XtraMode {
    Disable,
    Enable,
}

impl XtraMode {
    /// The number that stands for the mode in a request.
    pub open spec fn code(self) -> int {
        match self {
            XtraMode::Disable => 0,
            XtraMode::Enable => 1,
        }
    }
}

impl AtEncode for XtraMode {
    open spec fn encoding(&self) -> Seq<u8> {
        int_text(self.code())
    }

    fn encode(&self, encoder: &mut Encoder) {
        let code: i32 = match self {
            XtraMode::Disable => 0,
            XtraMode::Enable => 1,
        };
        encoder.encode_scalar(code);
    }
}

impl<'a> AtWrite<'a> for Cgnsxtra {
    type Input = XtraMode;
    type Output = ();
}

} // verus!
