//! `AT+CNTPCID`: the bearer profile used for network time.

use vstd::prelude::*;
use super::{AtCommand, AtWrite};

verus! {

pub struct Cntpcid;

impl AtCommand for Cntpcid {
    const COMMAND: &'static str = "AT+CNTPCID";
}

impl<'a> AtWrite<'a> for Cntpcid {
    type Input = i32;
    type Output = ();
}

} // verus!
