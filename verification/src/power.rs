//! Powering the modem: the pins a board wires to it.

use vstd::prelude::*;

verus! {

/// The power state of the modem.
#[derive(Clone, Copy, Debug, PartialEq, Eq, Structural)]
pub enum PowerState {
    On,
    Off,
    Sleeping,
}

/// The board's control of the modem's power, e.g. through its power key,
/// DTR, reset and status pins. Each call returns once the pin sequence is done.
pub trait ModemPower {
    /// Power on the modem, e.g. by pulling on the modem power key pin.
    fn enable(&mut self);

    /// Power off the modem, e.g. by pulling on the modem power key pin.
    fn disable(&mut self);

    /// Put the modem to sleep, e.g. by pulling on the modem DTR pin.
    fn sleep(&mut self);

    /// Wake the modem from sleep, e.g. by pulling on the modem DTR pin.
    fn wake(&mut self);

    /// Reset the modem, e.g. by pulling on the modem reset pin.
    fn reset(&mut self);

    /// Get the current power state of the modem, e.g. by looking at the
    /// modem status pin.
    fn state(&mut self) -> PowerState;
}

} // verus!
