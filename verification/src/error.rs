//! The errors of the driver.

use vstd::prelude::*;

verus! {

#[derive(Debug, Clone, Copy, PartialEq, Eq, Structural)]
pub enum Error {
    InvalidUtf8,
    BufferOverflow,
    Timeout,
    Serial,
    /// No default APN was set, and the network did not provide one.
    NoApn,
    /// The modem's answer did not have the expected form.
    DecodingFailed,
    /// The modem could not open the connection.
    ConnectFailed,
}

/// The general kind of an I/O error, as the embedded I/O traits sort them.
#[derive(Debug, Clone, Copy, PartialEq, Eq, Structural)]
pub enum IoErrorKind {
    InvalidData,
    OutOfMemory,
    TimedOut,
    Other,
}

impl Error {
    /// The kind of I/O error this is: invalid UTF-8 is invalid data, a full
    /// buffer is out of memory, a timeout timed out, the rest is other.
    pub fn kind(&self) -> (r: IoErrorKind)
        ensures
            r == match *self {
                Error::InvalidUtf8 => IoErrorKind::InvalidData,
                Error::BufferOverflow => IoErrorKind::OutOfMemory,
                Error::Timeout => IoErrorKind::TimedOut,
                _ => IoErrorKind::Other,
            },
    {
        match self {
            Error::InvalidUtf8 => IoErrorKind::InvalidData,
            Error::BufferOverflow => IoErrorKind::OutOfMemory,
            Error::Timeout => IoErrorKind::TimedOut,
            Error::Serial => IoErrorKind::Other,
            Error::NoApn => IoErrorKind::Other,
            Error::DecodingFailed => IoErrorKind::Other,
            Error::ConnectFailed => IoErrorKind::Other,
        }
    }
}

} // verus!
