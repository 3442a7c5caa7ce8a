//! Host-side configuration library for the Lamzu Atlantis family of USB HID
//! gaming mice.
//!
//! The core of the library is the binary profile codec and the HID transport
//! packet layer: a 17-byte request/response packet format with a trailing
//! checksum, and a 0x1B00-byte address-mapped profile memory in which every
//! setting sits in an independently checksummed, possibly absent slot.
//!
//! All protocol logic works on plain values (bytes, integers, vectors) and is
//! verified; the HID transport itself and the human-readable text formats live
//! outside this crate.

pub mod atlantis;
pub mod checksum;
pub mod convert;
pub mod data;
pub mod device;
pub mod error;
pub mod laws;
pub mod profile;
pub mod profile_rw;
pub mod raw_data;
pub mod raw_profile;
pub mod report;
pub mod trusted;

pub use atlantis::Atlantis;
pub use checksum::compute_checksum;
pub use checksum::Algorithm;
pub use checksum::Checksum;
pub use checksum::SumComplement8;
pub use device::Product;
pub use error::Error;
pub use profile::Profile;
pub use raw_profile::RawProfile;
pub use report::StandardReport;
