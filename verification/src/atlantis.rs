//! Lamzu Atlantis mouse interface: the per-profile decisions of the
//! device facade.
//!
//! The device only exposes the active profile's memory window, so every
//! per-index operation reads the active index, switches if needed, works,
//! and restores the original index.  The I/O itself happens outside this
//! crate; here live the decisions: which requests to send, when an index is
//! out of range, and how a profile is clamped to the product's limits.

use crate::device::Product;
use crate::error::Error;
use crate::profile::Profile;
use crate::report::{Command, ReportV, StandardReport};
use vstd::prelude::*;

verus! {

/// Number of configurable buttons on the supported products.
pub const NUM_BUTTONS: u8 = 6;

/// Number of profile slots on the device.
pub const NUM_PROFILES: usize = 4;

/// Lamzu Atlantis mouse interface.
pub struct Atlantis {
    product: Product,
}

impl Atlantis {
    /// The product this interface was created for.
    pub closed spec fn spec_product(&self) -> Product {
        self.product
    }

    pub fn new(product: Product) -> (r: Self)
        ensures
            r.spec_product() == product,
    {
        Atlantis { product }
    }

    /// The product this interface was created for.
    pub fn product(&self) -> (r: Product)
        ensures
            r == self.spec_product(),
    {
        self.product
    }

    /// The request that switches the active profile to `index`.
    ///
    /// Returns [`Error::InvalidConversion`] exactly when the index is not
    /// one of the device's profile slots.
    pub fn set_active_profile_request(&self, index: usize) -> (r: Result<StandardReport, Error>)
        ensures
            index < NUM_PROFILES ==> (r matches Ok(req) && req@ == (ReportV {
                cmd: Command::WriteActiveProfile,
                error: 0,
                address: 0,
                data: seq![index as u8],
            })),
            index >= NUM_PROFILES ==> (r matches Err(e) && e matches Error::InvalidConversion(
                _,
            )),
    {
        if index < NUM_PROFILES {
            Ok(StandardReport::write_active_profile(index as u8))
        } else {
            Err(Error::InvalidConversion("Profile index is out of range (0-3)".to_owned()))
        }
    }

    /// Caps the profile's poll rate at the product's maximum.
    ///
    /// Returns the possibly adjusted profile and whether it was adjusted;
    /// the caller warns the user when it was.  Everything else passes
    /// through unchanged.
    pub fn clamp_poll_rate(&self, profile: Profile) -> (r: (Profile, bool))
        ensures
            r.1 == (profile@.poll_rate is Some && profile@.poll_rate->0
                > self.spec_product().max_poll_rate_spec()),
            r.1 ==> r.0@ == (crate::profile::ProfileV {
                poll_rate: Some(self.spec_product().max_poll_rate_spec()),
                ..profile@
            }),
            !r.1 ==> r.0@ == profile@,
    {
        let max = self.product.max_poll_rate();
        match profile.poll_rate {
            Some(hz) if hz > max => {
                let mut adjusted = profile;
                adjusted.poll_rate = Some(max);
                proof {
                    assert(adjusted@ =~= (crate::profile::ProfileV {
                        poll_rate: Some(self.spec_product().max_poll_rate_spec()),
                        ..profile@
                    }));
                }
                (adjusted, true)
            },
            _ => (profile, false),
        }
    }
}

impl Product {
    /// The highest poll rate the product supports, as a specification
    /// value.
    pub open spec fn max_poll_rate_spec(&self) -> u16 {
        match *self {
            Product::AtlantisWireless1K => 1000u16,
            Product::AtlantisWireless4K => 4000u16,
            Product::AtlantisWired => 1000u16,
        }
    }
}

} // verus!
