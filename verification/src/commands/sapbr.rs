//! `AT+SAPBR`: bearer settings for IP based applications.

use vstd::prelude::*;
use vstd::string::StringSliceAdditionalSpecFns;
use crate::numparse::int_text;
use super::{AtCommand, AtEncode, AtWrite, Encoder};

verus! {

pub struct Sapbr;

impl AtCommand for Sapbr {
    const COMMAND: &'static str = "AT+SAPBR";
}

pub enum BearerMode<'a> {
    Close(u8),
    Open(u8),
    SetParameter(u8, BearerParameter<'a>),
}

pub enum BearerParameter<'a> {
    Apn(&'a str),
    Username(&'a str),
    Password(&'a str),
}

impl<'a> BearerParameter<'a> {
    /// The parameter's name in a request: `APN`, `USER` or `PWD`.
    pub open spec fn name(&self) -> Seq<u8> {
        match *self {
            BearerParameter::Apn(_) => seq![65u8, 80u8, 78u8],
            BearerParameter::Username(_) => seq![85u8, 83u8, 69u8, 82u8],
            BearerParameter::Password(_) => seq![80u8, 87u8, 68u8],
        }
    }

    /// The parameter's value.
    pub open spec fn value(&self) -> Seq<u8> {
        match *self {
            BearerParameter::Apn(v) => v.spec_bytes(),
            BearerParameter::Username(v) => v.spec_bytes(),
            BearerParameter::Password(v) => v.spec_bytes(),
        }
    }
}

impl<'a> AtEncode for BearerMode<'a> {
    /// `0,<cid>` closes, `1,<cid>` opens, and `3,<cid>,"<name>","<value>"` sets a
    /// parameter of the bearer.
    open spec fn encoding(&self) -> Seq<u8> {
        match *self {
            BearerMode::Close(cid) => seq![48u8, 44u8] + int_text(cid as int),
            BearerMode::Open(cid) => seq![49u8, 44u8] + int_text(cid as int),
            BearerMode::SetParameter(cid, param) => seq![51u8, 44u8] + int_text(cid as int)
                + seq![44u8, 34u8] + param.name() + seq![34u8, 44u8, 34u8] + param.value()
                + seq![34u8],
        }
    }

    fn encode(&self, encoder: &mut Encoder) {
        match self {
            BearerMode::Close(cid) => {
                encoder.encode_scalar(0);
                encoder.encode_bytes(&[44u8]);
                encoder.encode_scalar(*cid as i32);
            },
            BearerMode::Open(cid) => {
                encoder.encode_scalar(1);
                encoder.encode_bytes(&[44u8]);
                encoder.encode_scalar(*cid as i32);
            },
            BearerMode::SetParameter(cid, param) => {
                encoder.encode_scalar(3);
                encoder.encode_bytes(&[44u8]);
                encoder.encode_scalar(*cid as i32);
                encoder.encode_bytes(&[44u8]);
                encoder.encode_bytes(&[34u8]);
                match param {
                    BearerParameter::Apn(_) => encoder.encode_bytes(&[65u8, 80u8, 78u8]),
                    BearerParameter::Username(_) => encoder.encode_bytes(
                        &[85u8, 83u8, 69u8, 82u8],
                    ),
                    BearerParameter::Password(_) => encoder.encode_bytes(&[80u8, 87u8, 68u8]),
                }
                encoder.encode_bytes(&[34u8]);
                encoder.encode_bytes(&[44u8]);
                encoder.encode_bytes(&[34u8]);
                match param {
                    BearerParameter::Apn(v) => encoder.encode_str(v),
                    BearerParameter::Username(v) => encoder.encode_str(v),
                    BearerParameter::Password(v) => encoder.encode_str(v),
                }
                encoder.encode_bytes(&[34u8]);
            },
        }
        assert(int_text(0) =~= seq![48u8]) by {
            reveal_with_fuel(crate::numparse::decimal, 1);
        }
        assert(int_text(1) =~= seq![49u8]) by {
            reveal_with_fuel(crate::numparse::decimal, 1);
        }
        assert(int_text(3) =~= seq![51u8]) by {
            reveal_with_fuel(crate::numparse::decimal, 1);
        }
        assert(final(encoder)@ =~= old(encoder)@ + self.encoding());
    }
}

impl<'a> AtWrite<'a> for Sapbr {
    type Input = BearerMode<'a>;
    type Output = ();
}

} // verus!
