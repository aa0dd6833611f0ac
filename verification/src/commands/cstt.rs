//! `AT+CSTT`: the access point name and its credentials.

use vstd::prelude::*;
use vstd::string::StringSliceAdditionalSpecFns;
use super::{AtCommand, AtEncode, AtWrite, Encoder};

verus! {

pub struct Cstt;

impl AtCommand for Cstt {
    const COMMAND: &'static str = "AT+CSTT";
}

#[derive(Clone, Copy)]
pub struct CsttParams {
    pub apn: &'static str,
    pub username: &'static str,
    pub password: &'static str,
}

impl AtEncode for CsttParams {
    /// APN, user name and password, each between double quotes, separated by commas.
    open spec fn encoding(&self) -> Seq<u8> {
        seq![34u8] + self.apn.spec_bytes() + seq![34u8, 44u8, 34u8] + self.username.spec_bytes()
            + seq![34u8, 44u8, 34u8] + self.password.spec_bytes() + seq![34u8]
    }

    fn encode(&self, encoder: &mut Encoder) {
        encoder.encode_bytes(&[34u8]);
        encoder.encode_str(self.apn);
        encoder.encode_bytes(&[34u8, 44u8, 34u8]);
        encoder.encode_str(self.username);
        encoder.encode_bytes(&[34u8, 44u8, 34u8]);
        encoder.encode_str(self.password);
        encoder.encode_bytes(&[34u8]);
        assert(final(encoder)@ =~= old(encoder)@ + self.encoding());
    }
}

impl<'a> AtWrite<'a> for Cstt {
    type Input = CsttParams;
    type Output = ();
}

} // verus!
