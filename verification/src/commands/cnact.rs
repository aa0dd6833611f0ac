//! `AT+CNACT`: the application network.

use vstd::prelude::*;
use crate::numparse::int_text;
use super::{AtCommand, AtEncode, AtWrite, Encoder};
use vstd::string::StringSliceAdditionalSpecFns;

verus! {

pub struct Cnact;

impl AtCommand for Cnact {
    const COMMAND: &'static str = "AT+CNACT";
}

#[derive(Clone, Copy, Debug, PartialEq, Eq, Structural)]
pub enum AppNetworkMode {
    Disable,
    Enable,
    Auto,
}

impl AppNetworkMode {
    /// The number that stands for the mode in a request.
    pub open spec fn code(self) -> int {
        match self {
            AppNetworkMode::Disable => 0,
            AppNetworkMode::Enable => 1,
            AppNetworkMode::Auto => 2,
        }
    }
}

pub struct AppNetworkParams<'a> {
    pub mode: AppNetworkMode,
    pub apn: &'a str,
}

impl<'a> AtEncode for AppNetworkParams<'a> {
    /// The mode, a comma, then the APN between double quotes.
    open spec fn encoding(&self) -> Seq<u8> {
        int_text(self.mode.code()) + seq![44u8, 34u8] + self.apn.spec_bytes() + seq![34u8]
    }

    fn encode(&self, encoder: &mut Encoder) {
        let code: i32 = match self.mode {
            AppNetworkMode::Disable => 0,
            AppNetworkMode::Enable => 1,
            AppNetworkMode::Auto => 2,
        };
        encoder.encode_scalar(code);
        encoder.encode_bytes(&[44u8]);
        encoder.encode_bytes(&[34u8]);
        encoder.encode_str(self.apn);
        encoder.encode_bytes(&[34u8]);
        assert(final(encoder)@ =~= old(encoder)@ + self.encoding());
    }
}

impl<'a> AtWrite<'a> for Cnact {
    type Input = AppNetworkParams<'a>;
    type Output = ();
}

} // verus!
