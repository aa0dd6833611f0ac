//! `AT+CFGRI`: what the ring indicator pin signals.

use vstd::prelude::*;
use crate::numparse::int_text;
use super::{AtCommand, AtEncode, AtWrite, Encoder};

verus! {

pub struct Cfgri;

impl AtCommand for Cfgri {
    const COMMAND: &'static str = "AT+CFGRI";
}

#[derive(Clone, Copy, Debug, PartialEq, Eq, Structural)]
pub enum RiMode {
    Off,
    All,
    TcpOnly,
}

impl RiMode {
    /// The number that stands for the mode in a request.
    pub open spec fn code(self) -> int {
        match self {
            RiMode::Off => 0,
            RiMode::All => 1,
            RiMode::TcpOnly => 2,
        }
    }
}

impl AtEncode for RiMode {
    open spec fn encoding(&self) -> Seq<u8> {
        int_text(self.code())
    }

    fn encode(&self, encoder: &mut Encoder) {
        let code: i32 = match self {
            RiMode::Off => 0,
            RiMode::All => 1,
            RiMode::TcpOnly => 2,
        };
        encoder.encode_scalar(code);
    }
}

impl<'a> AtWrite<'a> for Cfgri {
    type Input = RiMode;
    type Output = ();
}

} // verus!
