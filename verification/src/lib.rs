//! Driver logic for the SIM7000 family of cellular modems: AT command
//! encoding, response decoding, line framing of the modem's output, TCP slot
//! bookkeeping and the decisions taken while driving the modem.

pub mod numparse;
pub mod power;
pub mod read;
pub mod commands;
pub mod error;
pub mod framed;
pub mod mock;
pub mod modem;
pub mod serial;
pub mod slot;
pub mod tcp;
pub mod tcp_client;
pub mod text;
pub mod util;
