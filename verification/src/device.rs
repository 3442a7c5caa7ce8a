//! Device identification: supported products and the report-descriptor
//! scan that decides compatibility.

use vstd::prelude::*;

verus! {

/// USB vendor ID shared by the supported mice.
pub const VENDOR_ID: u16 = 0x3554;

/// The products this library has been tested with.
#[derive(Debug, Clone, Copy, PartialEq, Eq, Structural)]
pub enum Product {
    AtlantisWireless1K,
    AtlantisWireless4K,
    AtlantisWired,
}

impl Product {
    /// The product of a USB product ID, if it is a tested one.
    pub fn from_usb_product(product_id: u16) -> (r: Option<Product>)
        ensures
            product_id == 0xf50d ==> r == Some(Product::AtlantisWireless1K),
            product_id == 0xf510 ==> r == Some(Product::AtlantisWireless4K),
            product_id == 0xf50f ==> r == Some(Product::AtlantisWired),
            product_id != 0xf50d && product_id != 0xf510 && product_id != 0xf50f ==> r is None,
    {
        match product_id {
            0xf50d => Some(Product::AtlantisWireless1K),
            0xf510 => Some(Product::AtlantisWireless4K),
            0xf50f => Some(Product::AtlantisWired),
            _ => None,
        }
    }

    /// The highest poll rate the product supports, in Hz.
    pub fn max_poll_rate(&self) -> (r: u16)
        ensures
            r == match *self {
                Product::AtlantisWireless1K => 1000u16,
                Product::AtlantisWireless4K => 4000u16,
                Product::AtlantisWired => 1000u16,
            },
    {
        match self {
            Product::AtlantisWireless1K => 1000,
            Product::AtlantisWireless4K => 4000,
            Product::AtlantisWired => 1000,
        }
    }

    /// The product's display name.
    pub fn name(&self) -> &'static str {
        match self {
            Product::AtlantisWireless1K => "Lamzu Atlantis Wireless (1K)",
            Product::AtlantisWireless4K => "Lamzu Atlantis Wireless (4K)",
            Product::AtlantisWired => "Lamzu Atlantis Wired",
        }
    }
}

impl Default for Product {
    /// The product assumed for untested devices.
    fn default() -> (r: Self)
        ensures
            r == Product::AtlantisWireless4K,
    {
        Product::AtlantisWireless4K
    }
}

/// The number of data bytes of a short report-descriptor item: the low two
/// bits of its prefix, with 3 meaning 4 bytes.
pub open spec fn spec_item_data_len(prefix: u8) -> int {
    if prefix % 4 == 3 {
        4
    } else {
        (prefix % 4) as int
    }
}

/// Whether a report descriptor contains a report-ID item with value
/// `report_id`.
///
/// Items are scanned in order.  A long item (prefix 0xFE) is rejected, as
/// is a descriptor truncated in the middle of an item: neither yields the
/// report ID.
pub open spec fn spec_has_report(d: Seq<u8>, report_id: u8) -> bool
    decreases d.len(),
{
    if d.len() == 0 {
        false
    } else {
        let prefix = d[0];
        if prefix == 0xfe {
            false
        } else if prefix == 0x85 {
            if d.len() >= 2 {
                d[1] == report_id || spec_has_report(d.skip(2), report_id)
            } else {
                false
            }
        } else {
            let adv = 1 + spec_item_data_len(prefix);
            if d.len() <= adv {
                false
            } else {
                spec_has_report(d.skip(adv), report_id)
            }
        }
    }
}

/// Tests whether `report_descriptor` contains `report_id`.
///
/// Implements a basic USB HID report descriptor parser that skips any
/// items that are not report ID items.  Returns `true` exactly when a
/// report ID item matches `report_id`; a long item or a truncated
/// descriptor ends the scan.
#[verifier::loop_isolation(false)]
pub fn has_report(report_descriptor: &[u8], report_id: u8) -> (r: bool)
    ensures
        r == spec_has_report(report_descriptor@, report_id),
{
    let n = report_descriptor.len();
    let mut i: usize = 0;
    proof {
        assert(report_descriptor@.skip(0) =~= report_descriptor@);
    }
    while i < n
        invariant
            i <= n,
            spec_has_report(report_descriptor@, report_id) == spec_has_report(
                report_descriptor@.skip(i as int),
                report_id,
            ),
        decreases n - i,
    {
        let ghost rest = report_descriptor@.skip(i as int);
        proof {
            assert(rest.len() == n - i);
            assert(rest[0] == report_descriptor@[i as int]);
        }
        let prefix = report_descriptor[i];
        if prefix == 0xfe {
            return false;
        } else if prefix == 0x85 {
            if i + 1 >= n {
                return false;
            }
            proof {
                assert(rest[1] == report_descriptor@[i + 1]);
            }
            if report_descriptor[i + 1] == report_id {
                return true;
            }
            proof {
                assert(rest.skip(2) =~= report_descriptor@.skip(i + 2));
            }
            i = i + 2;
        } else {
            let data_len: usize = match prefix % 4 {
                0 => 0,
                1 => 1,
                2 => 2,
                _ => 4,
            };
            proof {
                assert(data_len == spec_item_data_len(prefix));
            }
            if n - i <= 1 + data_len {
                return false;
            }
            proof {
                assert(rest.skip(1 + data_len) =~= report_descriptor@.skip(
                    i + 1 + data_len,
                ));
            }
            i = i + 1 + data_len;
        }
    }
    proof {
        assert(report_descriptor@.skip(n as int) =~= Seq::<u8>::empty());
    }
    false
}

} // verus!
