//! Error kinds of the library.

use vstd::prelude::*;

verus! {

/// Everything that can go wrong between a user profile and the device.
#[derive(Debug, Clone, PartialEq, Eq)]
pub enum Error {
    /// Enumeration found no compatible HID device.
    NoDevice,

    /// Underlying HID transport error.
    Hid(String),

    /// Generic I/O error from the address stream.
    Io(String),

    /// Read a report whose report-ID field is not 8.
    UnexpectedReport,

    /// Three successive non-matching reads, or the device returned nothing.
    NoResponse,

    /// The device's response had a non-zero error byte; the byte is surfaced.
    MouseErrorResponse(u8),

    /// A packet-level or slot-level checksum failed when the slot was
    /// expected to be present.
    BadChecksum,

    /// A profile violates a device constraint, or device bytes decode to no
    /// known value.
    InvalidConversion(String),

    /// The text codec failed to parse user input.
    Serialisation(String),
}

impl Error {
    /// A short human-readable description of the error kind.
    pub fn message(&self) -> (r: &'static str) {
        match self {
            Error::NoDevice => "No compatible devices found",
            Error::Hid(_) => "USB HID API error",
            Error::Io(_) => "IO error",
            Error::UnexpectedReport => "Received a different report than expected",
            Error::NoResponse => "No valid response for request",
            Error::MouseErrorResponse(_) => "Mouse returned an error code",
            Error::BadChecksum => "Bad checksum",
            Error::InvalidConversion(_) => "Mouse profile data conversion error",
            Error::Serialisation(_) => "Serialization / deserialization error",
        }
    }
}

} // verus!
