//! `AT+IFC`: flow control between the modem and its host.

use vstd::prelude::*;
use crate::numparse::int_text;
use super::{AtCommand, AtEncode, AtWrite, Encoder};

verus! {

pub struct Ifc;

impl AtCommand for Ifc {
    const COMMAND: &'static str = "AT+IFC";
}

#[derive(Clone, Copy, Debug, PartialEq, Eq, Structural)]
pub enum FlowControlMode {
    Disabled,
    Software,
    Hardware,
}

impl FlowControlMode {
    /// The number that stands for the mode in a request.
    pub open spec fn code(self) -> int {
        match self {
            FlowControlMode::Disabled => 0,
            FlowControlMode::Software => 1,
            FlowControlMode::Hardware => 2,
        }
    }
}

impl AtEncode for FlowControlMode {
    open spec fn encoding(&self) -> Seq<u8> {
        int_text(self.code())
    }

    fn encode(&self, encoder: &mut Encoder) {
        let code: i32 = match self {
            FlowControlMode::Disabled => 0,
            FlowControlMode::Software => 1,
            FlowControlMode::Hardware => 2,
        };
        encoder.encode_scalar(code);
    }
}

#[derive(Clone, Copy, Debug, PartialEq, Eq, Structural)]
pub struct FlowControl {
    pub te_flow: FlowControlMode,
    pub ta_flow: FlowControlMode,
}

impl AtEncode for FlowControl {
    /// The two modes, separated by a comma.
    open spec fn encoding(&self) -> Seq<u8> {
        self.te_flow.encoding() + seq![44u8] + self.ta_flow.encoding()
    }

    fn encode(&self, encoder: &mut Encoder) {
        self.te_flow.encode(encoder);
        encoder.encode_bytes(&[44u8]);
        self.ta_flow.encode(encoder);
        assert(final(encoder)@ =~= old(encoder)@ + self.encoding());
    }
}

impl<'a> AtWrite<'a> for Ifc {
    type Input = FlowControl;
    type Output = ();
}

} // verus!
