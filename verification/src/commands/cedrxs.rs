//! `AT+CEDRXS`: extended discontinuous reception settings.

use vstd::prelude::*;
use crate::numparse::int_text;
use super::{AtCommand, AtEncode, AtWrite, Encoder};

verus! {

pub struct Cedrxs;

impl AtCommand for Cedrxs {
    const COMMAND: &'static str = "AT+CEDRXS";
}

#[derive(Clone, Copy, Debug, PartialEq, Eq, Structural)]
pub enum EdrxMode {
    Disable,
    Enable,
    AutoReport,
}

impl EdrxMode {
    /// The number that stands for the mode in a request.
    pub open spec fn code(self) -> int {
        match self {
            EdrxMode::Disable => 0,
            EdrxMode::Enable => 1,
            EdrxMode::AutoReport => 2,
        }
    }
}

impl AtEncode for EdrxMode {
    open spec fn encoding(&self) -> Seq<u8> {
        int_text(self.code())
    }

    fn encode(&self, encoder: &mut Encoder) {
        let code: i32 = match self {
            EdrxMode::Disable => 0,
            EdrxMode::Enable => 1,
            EdrxMode::AutoReport => 2,
        };
        encoder.encode_scalar(code);
    }
}

#[derive(Clone, Copy, Debug, PartialEq, Eq, Structural)]
pub enum EdrxBandMode {
    CatM,
    NbIot,
}

impl EdrxBandMode {
    /// The number that stands for the access technology in a request.
    pub open spec fn code(self) -> int {
        match self {
            EdrxBandMode::CatM => 4,
            EdrxBandMode::NbIot => 5,
        }
    }
}

impl AtEncode for EdrxBandMode {
    open spec fn encoding(&self) -> Seq<u8> {
        int_text(self.code())
    }

    fn encode(&self, encoder: &mut Encoder) {
        let code: i32 = match self {
            EdrxBandMode::CatM => 4,
            EdrxBandMode::NbIot => 5,
        };
        encoder.encode_scalar(code);
    }
}

/// The requested eDRX cycle length; the variants name the cycle in seconds.
#[derive(Clone, Copy, Debug, PartialEq, Eq, Structural)]
pub enum EdrxInterval {
    S5_12,
    S10_24,
    S20_48,
    S40_96,
    S61_44,
    S81_92,
    S102_40,
    S122_88,
    S143_36,
    S163_84,
    S327_68,
    S655_36,
    S1310_72,
    S2621_44,
    S5242_88,
    S10485_76,
}

impl EdrxInterval {
    /// The position of the interval in the table of the command, from 0 to 15.
    pub open spec fn index(self) -> nat {
        match self {
            EdrxInterval::S5_12 => 0,
            EdrxInterval::S10_24 => 1,
            EdrxInterval::S20_48 => 2,
            EdrxInterval::S40_96 => 3,
            EdrxInterval::S61_44 => 4,
            EdrxInterval::S81_92 => 5,
            EdrxInterval::S102_40 => 6,
            EdrxInterval::S122_88 => 7,
            EdrxInterval::S143_36 => 8,
            EdrxInterval::S163_84 => 9,
            EdrxInterval::S327_68 => 10,
            EdrxInterval::S655_36 => 11,
            EdrxInterval::S1310_72 => 12,
            EdrxInterval::S2621_44 => 13,
            EdrxInterval::S5242_88 => 14,
            EdrxInterval::S10485_76 => 15,
        }
    }
}

/// Four binary digits, most significant first, of `i` (below 16).
pub open spec fn four_bits(i: nat) -> Seq<u8> {
    seq![
        (48 + i / 8 % 2) as u8,
        (48 + i / 4 % 2) as u8,
        (48 + i / 2 % 2) as u8,
        (48 + i % 2) as u8,
    ]
}

impl AtEncode for EdrxInterval {
    /// The four bits of the table position, between double quotes.
    open spec fn encoding(&self) -> Seq<u8> {
        seq![34u8] + four_bits(self.index()) + seq![34u8]
    }

    fn encode(&self, encoder: &mut Encoder) {
        let i: u8 = match self {
            EdrxInterval::S5_12 => 0,
            EdrxInterval::S10_24 => 1,
            EdrxInterval::S20_48 => 2,
            EdrxInterval::S40_96 => 3,
            EdrxInterval::S61_44 => 4,
            EdrxInterval::S81_92 => 5,
            EdrxInterval::S102_40 => 6,
            EdrxInterval::S122_88 => 7,
            EdrxInterval::S143_36 => 8,
            EdrxInterval::S163_84 => 9,
            EdrxInterval::S327_68 => 10,
            EdrxInterval::S655_36 => 11,
            EdrxInterval::S1310_72 => 12,
            EdrxInterval::S2621_44 => 13,
            EdrxInterval::S5242_88 => 14,
            EdrxInterval::S10485_76 => 15,
        };
        let text = [34u8, 48 + i / 8 % 2, 48 + i / 4 % 2, 48 + i / 2 % 2, 48 + i % 2, 34u8];
        encoder.encode_bytes(&text);
        assert(text@ =~= self.encoding());
    }
}

#[derive(Clone, Copy, Debug, PartialEq, Eq, Structural)]
pub struct EdrxParams {
    pub mode: EdrxMode,
    pub band: EdrxBandMode,
    pub interval: EdrxInterval,
}

impl AtEncode for EdrxParams {
    /// Mode, access technology and interval, separated by commas.
    open spec fn encoding(&self) -> Seq<u8> {
        self.mode.encoding() + seq![44u8] + self.band.encoding() + seq![44u8]
            + self.interval.encoding()
    }

    fn encode(&self, encoder: &mut Encoder) {
        self.mode.encode(encoder);
        encoder.encode_bytes(&[44u8]);
        self.band.encode(encoder);
        encoder.encode_bytes(&[44u8]);
        self.interval.encode(encoder);
        assert(final(encoder)@ =~= old(encoder)@ + self.encoding());
    }
}

impl<'a> AtWrite<'a> for Cedrxs {
    type Input = EdrxParams;
    type Output = ();
}

} // verus!
