//! `AT+CNMP`: the preferred network mode.

use vstd::prelude::*;
use crate::numparse::int_text;
use super::{AtCommand, AtEncode, AtWrite, Encoder};

verus! {

pub struct Cnmp;

impl AtCommand for Cnmp {
    const COMMAND: &'static str = "AT+CNMP";
}

#[derive(Clone, Copy, Debug, PartialEq, Eq, Structural)]
pub enum PreferredConnectionMode {
    Automatic,
    Gsm,
    Lte,
    GsmAndLte,
}

impl PreferredConnectionMode {
    /// The number that stands for the mode in a request.
    pub open spec fn code(self) -> int {
        match self {
            PreferredConnectionMode::Automatic => 2,
            PreferredConnectionMode::Gsm => 13,
            PreferredConnectionMode::Lte => 38,
            PreferredConnectionMode::GsmAndLte => 51,
        }
    }
}

impl AtEncode for PreferredConnectionMode {
    open spec fn encoding(&self) -> Seq<u8> {
        int_text(self.code())
    }

    fn encode(&self, encoder: &mut Encoder) {
        let code: i32 = match self {
            PreferredConnectionMode::Automatic => 2,
            PreferredConnectionMode::Gsm => 13,
            PreferredConnectionMode::Lte => 38,
            PreferredConnectionMode::GsmAndLte => 51,
        };
        encoder.encode_scalar(code);
    }
}

impl<'a> AtWrite<'a> for Cnmp {
    type Input = PreferredConnectionMode;
    type Output = ();
}

} // verus!
