//! `AT+CMNB`: the preferred LTE category.

use vstd::prelude::*;
use crate::numparse::int_text;
use super::{AtCommand, AtEncode, AtWrite, Encoder};

verus! {

pub struct Cmnb;

impl AtCommand for Cmnb {
    const COMMAND: &'static str = "AT+CMNB";
}

#[derive(Clone, Copy, Debug, PartialEq, Eq, Structural)]
pub enum BandMode {
    CatM,
    NbIot,
    CatMnbIot,
}

impl BandMode {
    /// The number that stands for the category in a request.
    pub open spec fn code(self) -> int {
        match self {
            BandMode::CatM => 1,
            BandMode::NbIot => 2,
            BandMode::CatMnbIot => 3,
        }
    }
}

impl AtEncode for BandMode {
    open spec fn encoding(&self) -> Seq<u8> {
        int_text(self.code())
    }

    fn encode(&self, encoder: &mut Encoder) {
        let code: i32 = match self {
            BandMode::CatM => 1,
            BandMode::NbIot => 2,
            BandMode::CatMnbIot => 3,
        };
        encoder.encode_scalar(code);
    }
}

impl<'a> AtWrite<'a> for Cmnb {
    type Input = BandMode;
    type Output = ();
}

} // verus!
