//! The wire-level profile: a 0x1B00-byte memory image of checksummed slots
//! at fixed absolute offsets.
//!
//! Every setting sits in its own slot: the content bytes followed by one
//! checksum byte.  A slot whose checksum does not validate is *absent* —
//! the device ships slots uninitialised — and decoding an absent slot
//! yields no value rather than an error.  Writing skips absent slots
//! entirely, preserving whatever the device holds there.

use crate::checksum::{byte_sum, chk, lemma_chk_closed_form, Algorithm, SumComplement8};
use crate::error::Error;
use crate::raw_data::{
    spec_action_of_payload, spec_action_payload, spec_key_events_bytes, spec_macro_events_bytes,
    spec_parse_key_events, spec_parse_macro_events, RawAction, RawColor, RawCombo, RawDpi,
    RawKeyEvent, RawMacro, RawMacroEvent, RawMacroV,
};
use crate::report::zero_bytes;
use vstd::prelude::*;

verus! {

/// No profile data at or after this address.
pub const DATA_END: usize = 0x1b00;

/// Checksum seed of header, DPI, colour, action and combo slots.
pub const SLOT_SEED: u8 = 171;

/// Checksum seed of macro slots.
pub const MACRO_SEED: u8 = 181;

/// Absolute offset of the poll rate slot.
pub const POLL_RATE_ADDR: usize = 0x00;

/// Absolute offset of the DPI count slot.
pub const DPI_COUNT_ADDR: usize = 0x02;

/// Absolute offset of the current DPI index slot.
pub const CURRENT_DPI_INDEX_ADDR: usize = 0x04;

/// Absolute offset of the lift-off distance slot.
pub const LIFT_OFF_ADDR: usize = 0x08;

/// Absolute offset of the first 4-byte DPI slot.
pub const DPIS_ADDR: usize = 0x0c;

/// Absolute offset of the first 4-byte DPI colour slot.
pub const DPI_COLORS_ADDR: usize = 0x2c;

/// Absolute offset of the first 4-byte button action slot.
pub const ACTIONS_ADDR: usize = 0x60;

/// Absolute offset of the debounce time slot.
pub const DEBOUNCE_ADDR: usize = 0xa9;

/// Absolute offset of the motion sync slot.
pub const MOTION_SYNC_ADDR: usize = 0xab;

/// Absolute offset of the angle snapping slot.
pub const ANGLE_SNAPPING_ADDR: usize = 0xaf;

/// Absolute offset of the ripple control slot.
pub const RIPPLE_CONTROL_ADDR: usize = 0xb1;

/// Absolute offset of the peak performance slot.
pub const PEAK_PERFORMANCE_ADDR: usize = 0xb5;

/// Absolute offset of the peak performance time slot.
pub const PEAK_PERFORMANCE_TIME_ADDR: usize = 0xb7;

/// Absolute offset of the high performance slot.
pub const HIGH_PERFORMANCE_ADDR: usize = 0xb9;

/// Absolute offset of the first 32-byte combo slot.
pub const COMBOS_ADDR: usize = 0x100;

/// Length of one combo slot.
pub const COMBO_SLOT_LEN: usize = 32;

/// Absolute offset of the first 384-byte macro slot.
pub const MACROS_ADDR: usize = 0x300;

/// Length of one macro slot.
pub const MACRO_SLOT_LEN: usize = 384;

// ---------------------------------------------------------------------------
// Slot views of an image
// ---------------------------------------------------------------------------

/// Whether the fixed-length slot `img[off .. off + len]` is present: its
/// bytes, checksum byte included, accumulate to zero under `init`.
pub open spec fn slot_present(img: Seq<u8>, off: int, len: int, init: u8) -> bool {
    chk(init, img.subrange(off, off + len)) == 0
}

/// The value of a two-byte scalar slot, if present.
pub open spec fn byte_slot(img: Seq<u8>, off: int) -> Option<u8> {
    if slot_present(img, off, 2, SLOT_SEED as u8) {
        Some(img[off])
    } else {
        None
    }
}

/// The value of a four-byte DPI slot, if present.
pub open spec fn dpi_slot(img: Seq<u8>, off: int) -> Option<RawDpi> {
    if slot_present(img, off, 4, SLOT_SEED as u8) {
        Some(RawDpi { dpi_x: img[off], dpi_y: img[off + 1] })
    } else {
        None
    }
}

/// The value of a four-byte colour slot, if present.
pub open spec fn color_slot(img: Seq<u8>, off: int) -> Option<RawColor> {
    if slot_present(img, off, 4, SLOT_SEED as u8) {
        Some(RawColor { red: img[off], green: img[off + 1], blue: img[off + 2] })
    } else {
        None
    }
}

/// The parsed payload of a four-byte action slot; meaningful only when the
/// slot is present.
pub open spec fn action_slot_payload(img: Seq<u8>, off: int) -> Option<RawAction> {
    spec_action_of_payload(img[off], img[off + 1], img[off + 2])
}

/// The events of a combo slot, if it is present and well formed: an event
/// count of at most 6, parseable events, and a checksum directly after the
/// events covering count and events.
pub open spec fn combo_slot(img: Seq<u8>, off: int) -> Option<Seq<RawKeyEvent>> {
    let m = img[off] as int;
    if m <= 6 && chk(SLOT_SEED as u8, img.subrange(off, off + 2 + 3 * m)) == 0 {
        spec_parse_key_events(img.subrange(off + 1, off + 1 + 3 * m))
    } else {
        None
    }
}

/// The name bytes region of a macro slot: the first `name_len` of the 30
/// name bytes.
pub open spec fn macro_slot_name_bytes(img: Seq<u8>, off: int) -> Seq<u8> {
    img.subrange(off + 1, off + 1 + img[off] as int)
}

/// The value of a macro slot, if it is present and well formed: a name
/// length of at most 30, valid UTF-8 in the used part of the name field, an
/// event count of at most 70, parseable events, and a checksum directly
/// after the events covering the whole used region.
pub open spec fn macro_slot(img: Seq<u8>, off: int) -> Option<RawMacroV> {
    let nl = img[off] as int;
    let el = img[off + 31] as int;
    if nl <= 30 && el <= 70 && chk(MACRO_SEED as u8, img.subrange(off, off + 33 + 5 * el)) == 0
        && vstd::utf8::valid_utf8(macro_slot_name_bytes(img, off)) {
        match spec_parse_macro_events(img.subrange(off + 32, off + 32 + 5 * el)) {
            Some(es) => Some(
                RawMacroV {
                    name: vstd::utf8::decode_utf8(macro_slot_name_bytes(img, off)),
                    events: es,
                },
            ),
            None => None,
        }
    } else {
        None
    }
}

// ---------------------------------------------------------------------------
// The raw profile
// ---------------------------------------------------------------------------

/// The mathematical value of a [`RawProfile`].
#[verifier::ext_equal]
pub struct RawProfileV {
    pub poll_rate: Option<u8>,
    pub dpi_count: Option<u8>,
    pub current_dpi_index: Option<u8>,
    pub lift_off_distance: Option<u8>,
    pub dpis: Seq<Option<RawDpi>>,
    pub dpi_colors: Seq<Option<RawColor>>,
    pub button_actions: Seq<Option<RawAction>>,
    pub debounce_ms: Option<u8>,
    pub motion_sync: Option<u8>,
    pub angle_snapping: Option<u8>,
    pub ripple_control: Option<u8>,
    pub peak_performance: Option<u8>,
    pub peak_performance_time: Option<u8>,
    pub high_performance: Option<u8>,
    pub combos: Seq<Option<Seq<RawKeyEvent>>>,
    pub macros: Seq<Option<RawMacroV>>,
}

/// Lamzu-Atlantis-specific profile data that can be read from or written to
/// the mouse.
///
/// Every setting is optional: an absent setting was not initialised on the
/// device on read, and is skipped (left unchanged) on write.
#[derive(Debug, Clone)]
pub struct RawProfile {
    pub poll_rate: Option<u8>,
    pub dpi_count: Option<u8>,
    pub current_dpi_index: Option<u8>,
    pub lift_off_distance: Option<u8>,
    pub dpis: Vec<Option<RawDpi>>,
    pub dpi_colors: Vec<Option<RawColor>>,
    pub button_actions: Vec<Option<RawAction>>,
    pub debounce_ms: Option<u8>,
    pub motion_sync: Option<u8>,
    pub angle_snapping: Option<u8>,
    pub ripple_control: Option<u8>,
    pub peak_performance: Option<u8>,
    pub peak_performance_time: Option<u8>,
    pub high_performance: Option<u8>,
    pub combos: Vec<Option<RawCombo>>,
    pub macros: Vec<Option<RawMacro>>,
}

impl View for RawProfile {
    type V = RawProfileV;

    open spec fn view(&self) -> RawProfileV {
        RawProfileV {
            poll_rate: self.poll_rate,
            dpi_count: self.dpi_count,
            current_dpi_index: self.current_dpi_index,
            lift_off_distance: self.lift_off_distance,
            dpis: self.dpis@,
            dpi_colors: self.dpi_colors@,
            button_actions: self.button_actions@,
            debounce_ms: self.debounce_ms,
            motion_sync: self.motion_sync,
            angle_snapping: self.angle_snapping,
            ripple_control: self.ripple_control,
            peak_performance: self.peak_performance,
            peak_performance_time: self.peak_performance_time,
            high_performance: self.high_performance,
            combos: Seq::new(
                self.combos@.len(),
                |i: int|
                    match self.combos@[i] {
                        Some(c) => Some(c@),
                        None => None,
                    },
            ),
            macros: Seq::new(
                self.macros@.len(),
                |i: int|
                    match self.macros@[i] {
                        Some(m) => Some(m@),
                        None => None,
                    },
            ),
        }
    }
}

impl RawProfileV {
    /// Well-formedness: collection and value bounds that the wire layout
    /// imposes.
    pub open spec fn wf(self) -> bool {
        &&& self.dpis.len() <= 8
        &&& self.dpi_colors.len() <= 8
        &&& self.button_actions.len() <= 16
        &&& self.combos.len() <= 16
        &&& self.macros.len() <= 16
        &&& (self.dpi_count is Some ==> 1 <= self.dpi_count->0 <= 8)
        &&& (self.current_dpi_index is Some ==> self.current_dpi_index->0 < 8)
        &&& (forall|i: int|
            0 <= i < self.combos.len() && self.combos[i] is Some ==> (#[trigger] self.combos[i])->0.len()
                <= 6)
        &&& (forall|i: int|
            0 <= i < self.macros.len() && self.macros[i] is Some ==> {
                let m = (#[trigger] self.macros[i])->0;
                vstd::utf8::encode_utf8(m.name).len() <= 30 && m.events.len() <= 70
            })
    }

    /// The DPI stage count that constrains the DPI and colour lists on a
    /// read: the decoded `dpi_count`, or zero if that slot is absent.
    pub open spec fn stage_count(img: Seq<u8>) -> int {
        match byte_slot(img, DPI_COUNT_ADDR as int) {
            Some(n) => n as int,
            None => 0,
        }
    }
}

/// Whether every present action slot of the image parses to a known action.
pub open spec fn actions_parse(img: Seq<u8>, num_buttons: int) -> bool {
    forall|i: int|
        0 <= i < num_buttons && slot_present(
            img,
            ACTIONS_ADDR + 4 * i,
            4,
            SLOT_SEED as u8,
        ) ==> #[trigger] action_slot_payload(img, ACTIONS_ADDR + 4 * i) is Some
}

/// The decoded raw profile of a memory image, or `None` if a present
/// `dpi_count` is outside 1..=8, a present `current_dpi_index` is 8 or
/// more, or a present action slot holds an unknown action.
pub open spec fn spec_decode_image(img: Seq<u8>, num_buttons: int) -> Option<RawProfileV> {
    let dc = byte_slot(img, DPI_COUNT_ADDR as int);
    let cdi = byte_slot(img, CURRENT_DPI_INDEX_ADDR as int);
    let n = RawProfileV::stage_count(img);
    if dc is Some && !(1 <= dc->0 <= 8) {
        None
    } else if cdi is Some && cdi->0 >= 8 {
        None
    } else if !actions_parse(img, num_buttons) {
        None
    } else {
        Some(
            RawProfileV {
                poll_rate: byte_slot(img, POLL_RATE_ADDR as int),
                dpi_count: dc,
                current_dpi_index: cdi,
                lift_off_distance: byte_slot(img, LIFT_OFF_ADDR as int),
                dpis: Seq::new(n as nat, |i: int| dpi_slot(img, DPIS_ADDR + 4 * i)),
                dpi_colors: Seq::new(n as nat, |i: int| color_slot(img, DPI_COLORS_ADDR + 4 * i)),
                button_actions: Seq::new(
                    num_buttons as nat,
                    |i: int|
                        if slot_present(img, ACTIONS_ADDR + 4 * i, 4, SLOT_SEED as u8) {
                            Some(action_slot_payload(img, ACTIONS_ADDR + 4 * i)->0)
                        } else {
                            None
                        },
                ),
                debounce_ms: byte_slot(img, DEBOUNCE_ADDR as int),
                motion_sync: byte_slot(img, MOTION_SYNC_ADDR as int),
                angle_snapping: byte_slot(img, ANGLE_SNAPPING_ADDR as int),
                ripple_control: byte_slot(img, RIPPLE_CONTROL_ADDR as int),
                peak_performance: byte_slot(img, PEAK_PERFORMANCE_ADDR as int),
                peak_performance_time: byte_slot(img, PEAK_PERFORMANCE_TIME_ADDR as int),
                high_performance: byte_slot(img, HIGH_PERFORMANCE_ADDR as int),
                combos: Seq::new(
                    num_buttons as nat,
                    |i: int| combo_slot(img, COMBOS_ADDR + COMBO_SLOT_LEN * i),
                ),
                macros: Seq::new(
                    num_buttons as nat,
                    |i: int| macro_slot(img, MACROS_ADDR + MACRO_SLOT_LEN * i),
                ),
            },
        )
    }
}

// ---------------------------------------------------------------------------
// Exec decoding
// ---------------------------------------------------------------------------

/// The checksum accumulator over `img[off .. off + len]`, seeded with
/// `init`.
fn chk_range(img: &[u8], off: usize, len: usize, init: u8) -> (r: u8)
    requires
        off + len <= img@.len(),
    ensures
        r == chk(init, img@.subrange(off as int, off + len)),
{
    let total = img.len();
    let mut acc = SumComplement8::new(init);
    let mut i: usize = 0;
    while i < len
        invariant
            img@.len() == total,
            off + len <= img@.len(),
            i <= len,
            acc.state() == chk(init, img@.subrange(off as int, off + i)),
        decreases len - i,
    {
        let ghost prev: u8 = acc.state();
        let b = img[off + i];
        let one: [u8; 1] = [b];
        acc.write(one.as_slice());
        proof {
            assert(one@ =~= seq![b]);
            assert(seq![b].drop_last() =~= Seq::<u8>::empty());
            assert(chk(prev, Seq::<u8>::empty()) == prev);
            assert(chk(prev, seq![b]) == crate::checksum::sub8(prev, b));
            assert(acc.state() == crate::checksum::sub8(prev, b));
            assert(img@.subrange(off as int, off + i + 1).drop_last() =~= img@.subrange(
                off as int,
                off + i,
            ));
            assert(img@.subrange(off as int, off + i + 1).last() == b);
        }
        i = i + 1;
    }
    acc.finish()
}

/// Reads a two-byte scalar slot.
fn read_byte_slot(img: &[u8], off: usize) -> (r: Option<u8>)
    requires
        img@.len() == DATA_END,
        off + 2 <= img@.len(),
    ensures
        r == byte_slot(img@, off as int),
{
    if chk_range(img, off, 2, SLOT_SEED) == 0 {
        Some(img[off])
    } else {
        None
    }
}

/// Reads a four-byte DPI slot.
fn read_dpi_slot(img: &[u8], off: usize) -> (r: Option<RawDpi>)
    requires
        img@.len() == DATA_END,
        off + 4 <= img@.len(),
    ensures
        r == dpi_slot(img@, off as int),
{
    if chk_range(img, off, 4, SLOT_SEED) == 0 {
        Some(RawDpi { dpi_x: img[off], dpi_y: img[off + 1] })
    } else {
        None
    }
}

/// Reads a four-byte colour slot.
fn read_color_slot(img: &[u8], off: usize) -> (r: Option<RawColor>)
    requires
        img@.len() == DATA_END,
        off + 4 <= img@.len(),
    ensures
        r == color_slot(img@, off as int),
{
    if chk_range(img, off, 4, SLOT_SEED) == 0 {
        Some(RawColor { red: img[off], green: img[off + 1], blue: img[off + 2] })
    } else {
        None
    }
}

/// Reads a 32-byte combo slot, yielding `None` for an absent or malformed
/// slot.
#[verifier::rlimit(60)]
#[verifier::loop_isolation(false)]
fn read_combo_slot(img: &[u8], off: usize) -> (r: Option<RawCombo>)
    requires
        img@.len() == DATA_END,
        off + COMBO_SLOT_LEN <= img@.len(),
    ensures
        combo_slot(img@, off as int) is Some ==> (r matches Some(c) && c@ == combo_slot(
            img@,
            off as int,
        )->0),
        combo_slot(img@, off as int) is None ==> r is None,
{
    let m = img[off];
    if m > 6 {
        return None;
    }
    if chk_range(img, off, 2 + 3 * (m as usize), SLOT_SEED) != 0 {
        return None;
    }
    let mut events: Vec<RawKeyEvent> = Vec::new();
    let mut i: usize = 0;
    while i < m as usize
        invariant
            img@.len() == DATA_END,
            off + COMBO_SLOT_LEN <= img@.len(),
            m <= 6,
            i <= m,
            spec_parse_key_events(img@.subrange(off + 1, off + 1 + 3 * i)) matches Some(es) && es
                =~= events@,
        decreases m - i,
    {
        proof {
            let cur = img@.subrange(off + 1, off + 1 + 3 * (i + 1));
            assert(cur.take(3 * i as int) =~= img@.subrange(off + 1, off + 1 + 3 * i));
            assert(cur[3 * i as int] == img@[off + 1 + 3 * i]);
            assert(cur[3 * i + 1] == img@[off + 1 + 3 * i + 1]);
            assert(cur[3 * i + 2] == img@[off + 1 + 3 * i + 2]);
        }
        match crate::raw_data::parse_key_event(
            img[off + 1 + 3 * i],
            img[off + 1 + 3 * i + 1],
            img[off + 1 + 3 * i + 2],
        ) {
            Some(e) => {
                events.push(e);
            },
            None => {
                proof {
                    let cur = img@.subrange(off + 1, off + 1 + 3 * (i + 1));
                    assert(cur.len() == 3 * (i + 1));
                    assert(cur.take(3 * i as int) =~= img@.subrange(off + 1, off + 1 + 3 * i));
                    assert(cur[3 * i as int] == img@[off + 1 + 3 * i]);
                    assert(cur[3 * i + 1] == img@[off + 1 + 3 * i + 1]);
                    assert(cur[3 * i + 2] == img@[off + 1 + 3 * i + 2]);
                    assert(spec_parse_key_events(cur) is None);
                    let region = img@.subrange(off + 1, off + 1 + 3 * (m as int));
                    assert(region.take(3 * (i + 1)) =~= cur);
                    crate::raw_data::lemma_parse_key_events_prefix_none(region, 3 * (i + 1));
                    assert(spec_parse_key_events(region) is None);
                    assert(combo_slot(img@, off as int) is None);
                }
                return None;
            },
        }
        i = i + 1;
    }
    Some(RawCombo { events })
}

/// Reads a 384-byte macro slot, yielding `None` for an absent or malformed
/// slot.
#[verifier::rlimit(60)]
#[verifier::loop_isolation(false)]
fn read_macro_slot(img: &[u8], off: usize) -> (r: Option<RawMacro>)
    requires
        img@.len() == DATA_END,
        off + MACRO_SLOT_LEN <= img@.len(),
    ensures
        macro_slot(img@, off as int) is Some ==> (r matches Some(m) && m@ == macro_slot(
            img@,
            off as int,
        )->0),
        macro_slot(img@, off as int) is None ==> r is None,
{
    let nl = img[off];
    let el = img[off + 31];
    if nl > 30 || el > 70 {
        return None;
    }
    if chk_range(img, off, 33 + 5 * (el as usize), MACRO_SEED) != 0 {
        return None;
    }
    let mut name_bytes: Vec<u8> = Vec::new();
    let mut i: usize = 0;
    while i < nl as usize
        invariant
            img@.len() == DATA_END,
            off + MACRO_SLOT_LEN <= img@.len(),
            nl <= 30,
            i <= nl,
            name_bytes@ =~= img@.subrange(off + 1, off + 1 + i),
        decreases nl - i,
    {
        let b = img[off + 1 + i];
        name_bytes.push(b);
        proof {
            assert(img@.subrange(off + 1, off + 1 + i + 1) =~= img@.subrange(
                off + 1,
                off + 1 + i,
            ).push(b));
        }
        i = i + 1;
    }
    let name = match crate::trusted::string_from_utf8(name_bytes) {
        Some(s) => s,
        None => {
            return None;
        },
    };
    let mut events: Vec<RawMacroEvent> = Vec::new();
    let mut j: usize = 0;
    while j < el as usize
        invariant
            img@.len() == DATA_END,
            off + MACRO_SLOT_LEN <= img@.len(),
            el <= 70,
            j <= el,
            spec_parse_macro_events(img@.subrange(off + 32, off + 32 + 5 * j)) matches Some(es)
                && es =~= events@,
        decreases el - j,
    {
        proof {
            let cur = img@.subrange(off + 32, off + 32 + 5 * (j + 1));
            assert(cur.take(5 * j as int) =~= img@.subrange(off + 32, off + 32 + 5 * j));
            assert(cur.subrange(5 * j as int, 5 * j + 5) =~= img@.subrange(
                off + 32 + 5 * j,
                off + 32 + 5 * j + 5,
            ));
        }
        let b0 = img[off + 32 + 5 * j];
        let b1 = img[off + 32 + 5 * j + 1];
        let b2 = img[off + 32 + 5 * j + 2];
        let b3 = img[off + 32 + 5 * j + 3];
        let b4 = img[off + 32 + 5 * j + 4];
        proof {
            assert(img@.subrange(off + 32 + 5 * j, off + 32 + 5 * j + 5) =~= seq![
                b0,
                b1,
                b2,
                b3,
                b4,
            ]);
        }
        match crate::raw_data::parse_key_event(b0, b1, b2) {
            Some(e) => {
                events.push(
                    RawMacroEvent { key_event: e, delay_ms: (b3 as u16) * 256 + (b4 as u16) },
                );
            },
            None => {
                proof {
                    let cur = img@.subrange(off + 32, off + 32 + 5 * (j + 1));
                    assert(cur.len() == 5 * (j + 1));
                    assert(cur.take(5 * j as int) =~= img@.subrange(off + 32, off + 32 + 5 * j));
                    assert(cur.subrange(5 * j as int, 5 * j + 5) =~= seq![b0, b1, b2, b3, b4]);
                    assert(spec_parse_macro_events(cur) is None);
                    let region = img@.subrange(off + 32, off + 32 + 5 * (el as int));
                    assert(region.take(5 * (j + 1)) =~= cur);
                    crate::raw_data::lemma_parse_macro_events_prefix_none(region, 5 * (j + 1));
                    assert(spec_parse_macro_events(region) is None);
                    assert(macro_slot(img@, off as int) is None);
                }
                return None;
            },
        }
        j = j + 1;
    }
    Some(RawMacro { name, events })
}

impl RawProfile {
    /// Decodes a full profile-memory image.
    ///
    /// Slots whose checksum fails decode as absent.  Returns
    /// [`Error::InvalidConversion`] when a present `dpi_count` is outside
    /// 1..=8, a present `current_dpi_index` is 8 or more, or a present
    /// action slot holds an unknown action.
    #[verifier::rlimit(60)]
    #[verifier::loop_isolation(false)]
    pub fn decode_image(img: &[u8], num_buttons: u8) -> (r: Result<Self, Error>)
        requires
            img@.len() == DATA_END,
            num_buttons <= 16,
        ensures
            spec_decode_image(img@, num_buttons as int) matches Some(v) ==> (r matches Ok(rp)
                && rp@ == v),
            spec_decode_image(img@, num_buttons as int) is None ==> (r matches Err(e)
                && e matches Error::InvalidConversion(_)),
    {
        let dpi_count = read_byte_slot(img, DPI_COUNT_ADDR);
        let n: usize = match dpi_count {
            Some(c) => {
                if c < 1 || c > 8 {
                    return Err(
                        Error::InvalidConversion("DPI count from mouse out of range".to_owned()),
                    );
                }
                c as usize
            },
            None => 0,
        };
        let current_dpi_index = read_byte_slot(img, CURRENT_DPI_INDEX_ADDR);
        if let Some(c) = current_dpi_index {
            if c >= 8 {
                return Err(
                    Error::InvalidConversion("DPI index from mouse out of range".to_owned()),
                );
            }
        }
        let mut dpis: Vec<Option<RawDpi>> = Vec::new();
        let mut i: usize = 0;
        while i < n
            invariant
                img@.len() == DATA_END,
                n <= 8,
                i <= n,
                dpis@ =~= Seq::new(i as nat, |k: int| dpi_slot(img@, DPIS_ADDR + 4 * k)),
            decreases n - i,
        {
            dpis.push(read_dpi_slot(img, DPIS_ADDR + 4 * i));
            proof {
                assert(dpis@ =~= Seq::new(
                    (i + 1) as nat,
                    |k: int| dpi_slot(img@, DPIS_ADDR + 4 * k),
                ));
            }
            i = i + 1;
        }
        let mut dpi_colors: Vec<Option<RawColor>> = Vec::new();
        let mut i: usize = 0;
        while i < n
            invariant
                img@.len() == DATA_END,
                n <= 8,
                i <= n,
                dpi_colors@ =~= Seq::new(i as nat, |k: int| color_slot(img@, DPI_COLORS_ADDR + 4 * k)),
            decreases n - i,
        {
            dpi_colors.push(read_color_slot(img, DPI_COLORS_ADDR + 4 * i));
            proof {
                assert(dpi_colors@ =~= Seq::new(
                    (i + 1) as nat,
                    |k: int| color_slot(img@, DPI_COLORS_ADDR + 4 * k),
                ));
            }
            i = i + 1;
        }
        let mut button_actions: Vec<Option<RawAction>> = Vec::new();
        let mut i: usize = 0;
        while i < num_buttons as usize
            invariant
                img@.len() == DATA_END,
                num_buttons <= 16,
                i <= num_buttons,
                forall|k: int|
                    0 <= k < i && slot_present(img@, ACTIONS_ADDR + 4 * k, 4, SLOT_SEED as u8)
                        ==> #[trigger] action_slot_payload(img@, ACTIONS_ADDR + 4 * k) is Some,
                button_actions@ =~= Seq::new(
                    i as nat,
                    |k: int|
                        if slot_present(img@, ACTIONS_ADDR + 4 * k, 4, SLOT_SEED as u8) {
                            Some(action_slot_payload(img@, ACTIONS_ADDR + 4 * k)->0)
                        } else {
                            None
                        },
                ),
            decreases num_buttons - i,
        {
            let off = ACTIONS_ADDR + 4 * i;
            if chk_range(img, off, 4, SLOT_SEED) == 0 {
                match RawAction::parse_payload(img[off], img[off + 1], img[off + 2]) {
                    Some(a) => {
                        button_actions.push(Some(a));
                    },
                    None => {
                        proof {
                            assert(slot_present(img@, off as int, 4, SLOT_SEED as u8));
                            assert(action_slot_payload(img@, ACTIONS_ADDR + 4 * i) is None);
                            assert(!actions_parse(img@, num_buttons as int));
                        }
                        return Err(
                            Error::InvalidConversion(
                                "Unknown button action bytes from mouse".to_owned(),
                            ),
                        );
                    },
                }
            } else {
                button_actions.push(None);
            }
            proof {
                assert(button_actions@ =~= Seq::new(
                    (i + 1) as nat,
                    |k: int|
                        if slot_present(img@, ACTIONS_ADDR + 4 * k, 4, SLOT_SEED as u8) {
                            Some(action_slot_payload(img@, ACTIONS_ADDR + 4 * k)->0)
                        } else {
                            None
                        },
                ));
            }
            i = i + 1;
        }
        let mut combos: Vec<Option<RawCombo>> = Vec::new();
        let mut i: usize = 0;
        while i < num_buttons as usize
            invariant
                img@.len() == DATA_END,
                num_buttons <= 16,
                i <= num_buttons,
                combos@.len() == i,
                forall|k: int|
                    0 <= k < i ==> {
                        let s = combo_slot(img@, COMBOS_ADDR + COMBO_SLOT_LEN * k);
                        match #[trigger] combos@[k] {
                            Some(c) => s is Some && c@ == s->0,
                            None => s is None,
                        }
                    },
            decreases num_buttons - i,
        {
            combos.push(read_combo_slot(img, COMBOS_ADDR + COMBO_SLOT_LEN * i));
            i = i + 1;
        }
        let mut macros: Vec<Option<RawMacro>> = Vec::new();
        let mut i: usize = 0;
        while i < num_buttons as usize
            invariant
                img@.len() == DATA_END,
                num_buttons <= 16,
                i <= num_buttons,
                macros@.len() == i,
                forall|k: int|
                    0 <= k < i ==> {
                        let s = macro_slot(img@, MACROS_ADDR + MACRO_SLOT_LEN * k);
                        match #[trigger] macros@[k] {
                            Some(m) => s is Some && m@ == s->0,
                            None => s is None,
                        }
                    },
            decreases num_buttons - i,
        {
            macros.push(read_macro_slot(img, MACROS_ADDR + MACRO_SLOT_LEN * i));
            i = i + 1;
        }
        let rp = RawProfile {
            poll_rate: read_byte_slot(img, POLL_RATE_ADDR),
            dpi_count,
            current_dpi_index,
            lift_off_distance: read_byte_slot(img, LIFT_OFF_ADDR),
            dpis,
            dpi_colors,
            button_actions,
            debounce_ms: read_byte_slot(img, DEBOUNCE_ADDR),
            motion_sync: read_byte_slot(img, MOTION_SYNC_ADDR),
            angle_snapping: read_byte_slot(img, ANGLE_SNAPPING_ADDR),
            ripple_control: read_byte_slot(img, RIPPLE_CONTROL_ADDR),
            peak_performance: read_byte_slot(img, PEAK_PERFORMANCE_ADDR),
            peak_performance_time: read_byte_slot(img, PEAK_PERFORMANCE_TIME_ADDR),
            high_performance: read_byte_slot(img, HIGH_PERFORMANCE_ADDR),
            combos,
            macros,
        };
        proof {
            let v = spec_decode_image(img@, num_buttons as int)->0;
            assert(rp@.combos =~= v.combos);
            assert(rp@.macros =~= v.macros);
            assert(rp@ =~= v);
        }
        Ok(rp)
    }
}

// ---------------------------------------------------------------------------
// Encoding
// ---------------------------------------------------------------------------

/// The mathematical value of a [`Segment`].
#[verifier::ext_equal]
pub struct SegmentV {
    pub address: int,
    pub bytes: Seq<u8>,
}

/// One contiguous run of bytes to write to profile memory.
///
/// Encoding a raw profile yields a list of segments, one per present slot,
/// in layout order; the gaps between them are left untouched on the device.
#[derive(Debug, Clone)]
pub struct Segment {
    pub address: usize,
    pub bytes: Vec<u8>,
}

impl View for Segment {
    type V = SegmentV;

    open spec fn view(&self) -> SegmentV {
        SegmentV { address: self.address as int, bytes: self.bytes@ }
    }
}

/// The mathematical values of a list of segments.
pub open spec fn segments_view(v: Seq<Segment>) -> Seq<SegmentV> {
    Seq::new(v.len(), |i: int| v[i]@)
}

/// The segment of one slot: the content bytes followed by their checksum
/// under `init`.
pub open spec fn slot_segment(addr: int, init: u8, content: Seq<u8>) -> SegmentV {
    SegmentV { address: addr, bytes: content.push(chk(init, content)) }
}

/// The segments of an optional scalar slot: one two-byte segment, or none.
pub open spec fn opt_byte_segments(addr: int, v: Option<u8>) -> Seq<SegmentV> {
    match v {
        Some(b) => seq![slot_segment(addr, SLOT_SEED as u8, seq![b])],
        None => Seq::empty(),
    }
}

/// The three content bytes of a DPI slot: the two axes and a zero pad.
pub open spec fn spec_dpi_content(d: RawDpi) -> Seq<u8> {
    seq![d.dpi_x, d.dpi_y, 0u8]
}

/// The three content bytes of a colour slot.
pub open spec fn spec_color_content(c: RawColor) -> Seq<u8> {
    seq![c.red, c.green, c.blue]
}

/// The content bytes of a combo slot: the event count, then the events.
pub open spec fn spec_combo_content(es: Seq<RawKeyEvent>) -> Seq<u8> {
    seq![es.len() as u8] + spec_key_events_bytes(es)
}

/// The content bytes of a macro slot: the name length, the 30-byte
/// zero-padded UTF-8 name field, the event count, then the events.
pub open spec fn spec_macro_content(m: RawMacroV) -> Seq<u8> {
    let nb = vstd::utf8::encode_utf8(m.name);
    seq![nb.len() as u8] + nb + zero_bytes(30 - nb.len()) + seq![m.events.len() as u8]
        + spec_macro_events_bytes(m.events)
}

/// The segments of the DPI slot list, one per present entry, 4 bytes apart.
pub open spec fn dpi_segments(ds: Seq<Option<RawDpi>>) -> Seq<SegmentV>
    decreases ds.len(),
{
    if ds.len() == 0 {
        Seq::empty()
    } else {
        dpi_segments(ds.drop_last()) + match ds.last() {
            Some(d) => seq![
                slot_segment(
                    DPIS_ADDR + 4 * (ds.len() - 1),
                    SLOT_SEED as u8,
                    spec_dpi_content(d),
                ),
            ],
            None => Seq::empty(),
        }
    }
}

/// The segments of the colour slot list.
pub open spec fn color_segments(cs: Seq<Option<RawColor>>) -> Seq<SegmentV>
    decreases cs.len(),
{
    if cs.len() == 0 {
        Seq::empty()
    } else {
        color_segments(cs.drop_last()) + match cs.last() {
            Some(c) => seq![
                slot_segment(
                    DPI_COLORS_ADDR + 4 * (cs.len() - 1),
                    SLOT_SEED as u8,
                    spec_color_content(c),
                ),
            ],
            None => Seq::empty(),
        }
    }
}

/// The segments of the button action slot list.
pub open spec fn action_segments(az: Seq<Option<RawAction>>) -> Seq<SegmentV>
    decreases az.len(),
{
    if az.len() == 0 {
        Seq::empty()
    } else {
        action_segments(az.drop_last()) + match az.last() {
            Some(a) => seq![
                slot_segment(
                    ACTIONS_ADDR + 4 * (az.len() - 1),
                    SLOT_SEED as u8,
                    spec_action_payload(a),
                ),
            ],
            None => Seq::empty(),
        }
    }
}

/// The segments of the combo slot list, 32 bytes apart.
pub open spec fn combo_segments(cs: Seq<Option<Seq<RawKeyEvent>>>) -> Seq<SegmentV>
    decreases cs.len(),
{
    if cs.len() == 0 {
        Seq::empty()
    } else {
        combo_segments(cs.drop_last()) + match cs.last() {
            Some(es) => seq![
                slot_segment(
                    COMBOS_ADDR + COMBO_SLOT_LEN * (cs.len() - 1),
                    SLOT_SEED as u8,
                    spec_combo_content(es),
                ),
            ],
            None => Seq::empty(),
        }
    }
}

/// The segments of the macro slot list, 384 bytes apart.
pub open spec fn macro_segments(ms: Seq<Option<RawMacroV>>) -> Seq<SegmentV>
    decreases ms.len(),
{
    if ms.len() == 0 {
        Seq::empty()
    } else {
        macro_segments(ms.drop_last()) + match ms.last() {
            Some(m) => seq![
                slot_segment(
                    MACROS_ADDR + MACRO_SLOT_LEN * (ms.len() - 1),
                    MACRO_SEED as u8,
                    spec_macro_content(m),
                ),
            ],
            None => Seq::empty(),
        }
    }
}

/// Every segment of an encoded raw profile, in layout order.  Absent
/// settings contribute nothing: a default profile encodes to no bytes at
/// all.
pub open spec fn spec_encode_raw(r: RawProfileV) -> Seq<SegmentV> {
    opt_byte_segments(POLL_RATE_ADDR as int, r.poll_rate) + opt_byte_segments(
        DPI_COUNT_ADDR as int,
        r.dpi_count,
    ) + opt_byte_segments(CURRENT_DPI_INDEX_ADDR as int, r.current_dpi_index)
        + opt_byte_segments(LIFT_OFF_ADDR as int, r.lift_off_distance) + dpi_segments(r.dpis)
        + color_segments(r.dpi_colors) + action_segments(r.button_actions) + opt_byte_segments(
        DEBOUNCE_ADDR as int,
        r.debounce_ms,
    ) + opt_byte_segments(MOTION_SYNC_ADDR as int, r.motion_sync) + opt_byte_segments(
        ANGLE_SNAPPING_ADDR as int,
        r.angle_snapping,
    ) + opt_byte_segments(RIPPLE_CONTROL_ADDR as int, r.ripple_control) + opt_byte_segments(
        PEAK_PERFORMANCE_ADDR as int,
        r.peak_performance,
    ) + opt_byte_segments(PEAK_PERFORMANCE_TIME_ADDR as int, r.peak_performance_time)
        + opt_byte_segments(HIGH_PERFORMANCE_ADDR as int, r.high_performance) + combo_segments(
        r.combos,
    ) + macro_segments(r.macros)
}

/// Appends one slot segment: the content followed by its checksum under
/// `init`.
#[verifier::loop_isolation(false)]
fn push_slot(out: &mut Vec<Segment>, addr: usize, init: u8, content: Vec<u8>)
    ensures
        segments_view(final(out)@) == segments_view(old(out)@).push(
            slot_segment(addr as int, init, content@),
        ),
{
    let ghost cont = content@;
    let mut acc = SumComplement8::new(init);
    acc.write(content.as_slice());
    let c = acc.finish();
    let mut bytes = content;
    bytes.push(c);
    out.push(Segment { address: addr, bytes });
    proof {
        assert(out@.last()@.bytes =~= cont.push(chk(init, cont)));
        assert(out@.last()@ =~= slot_segment(addr as int, init, cont));
        assert(segments_view(out@) =~= segments_view(old(out)@).push(
            slot_segment(addr as int, init, cont),
        ));
    }
}

/// Appends the segment of an optional scalar slot, if present.
fn push_opt_byte(out: &mut Vec<Segment>, addr: usize, v: Option<u8>)
    ensures
        segments_view(final(out)@) == segments_view(old(out)@) + opt_byte_segments(
            addr as int,
            v,
        ),
{
    match v {
        Some(b) => {
            let mut content: Vec<u8> = Vec::new();
            content.push(b);
            proof {
                assert(content@ =~= seq![b]);
            }
            push_slot(out, addr, SLOT_SEED, content);
            proof {
                assert(segments_view(out@) =~= segments_view(old(out)@) + opt_byte_segments(
                    addr as int,
                    v,
                ));
            }
        },
        None => {
            proof {
                assert(segments_view(out@) =~= segments_view(old(out)@) + opt_byte_segments(
                    addr as int,
                    v,
                ));
            }
        },
    }
}

impl RawProfile {
    /// Serialises this profile to its write segments, one per present slot,
    /// in layout order.
    #[verifier::rlimit(100)]
    #[verifier::loop_isolation(false)]
    pub fn encode(&self) -> (r: Vec<Segment>)
        requires
            self@.wf(),
        ensures
            segments_view(r@) == spec_encode_raw(self@),
    {
        let mut segs: Vec<Segment> = Vec::new();
        proof {
            assert(segments_view(segs@) =~= Seq::<SegmentV>::empty());
        }
        push_opt_byte(&mut segs, POLL_RATE_ADDR, self.poll_rate);
        push_opt_byte(&mut segs, DPI_COUNT_ADDR, self.dpi_count);
        push_opt_byte(&mut segs, CURRENT_DPI_INDEX_ADDR, self.current_dpi_index);
        push_opt_byte(&mut segs, LIFT_OFF_ADDR, self.lift_off_distance);
        let ghost head = segments_view(segs@);
        let mut i: usize = 0;
        while i < self.dpis.len()
            invariant
                i <= self.dpis@.len(),
                segments_view(segs@) == head + dpi_segments(self.dpis@.take(i as int)),
            decreases self.dpis@.len() - i,
        {
            match self.dpis[i] {
                Some(d) => {
                    let mut content: Vec<u8> = Vec::new();
                    content.push(d.dpi_x);
                    content.push(d.dpi_y);
                    content.push(0u8);
                    proof {
                        assert(content@ =~= spec_dpi_content(d));
                    }
                    push_slot(&mut segs, DPIS_ADDR + 4 * i, SLOT_SEED, content);
                },
                None => {},
            }
            proof {
                assert(self.dpis@.take(i + 1).drop_last() =~= self.dpis@.take(i as int));
                assert(segments_view(segs@) =~= head + dpi_segments(self.dpis@.take(i + 1)));
            }
            i = i + 1;
        }
        proof {
            assert(self.dpis@.take(self.dpis@.len() as int) =~= self.dpis@);
        }
        let ghost head = segments_view(segs@);
        let mut i: usize = 0;
        while i < self.dpi_colors.len()
            invariant
                i <= self.dpi_colors@.len(),
                segments_view(segs@) == head + color_segments(self.dpi_colors@.take(i as int)),
            decreases self.dpi_colors@.len() - i,
        {
            match self.dpi_colors[i] {
                Some(c) => {
                    let mut content: Vec<u8> = Vec::new();
                    content.push(c.red);
                    content.push(c.green);
                    content.push(c.blue);
                    proof {
                        assert(content@ =~= spec_color_content(c));
                    }
                    push_slot(&mut segs, DPI_COLORS_ADDR + 4 * i, SLOT_SEED, content);
                },
                None => {},
            }
            proof {
                assert(self.dpi_colors@.take(i + 1).drop_last() =~= self.dpi_colors@.take(
                    i as int,
                ));
                assert(segments_view(segs@) =~= head + color_segments(
                    self.dpi_colors@.take(i + 1),
                ));
            }
            i = i + 1;
        }
        proof {
            assert(self.dpi_colors@.take(self.dpi_colors@.len() as int) =~= self.dpi_colors@);
        }
        let ghost head = segments_view(segs@);
        let mut i: usize = 0;
        while i < self.button_actions.len()
            invariant
                i <= self.button_actions@.len(),
                segments_view(segs@) == head + action_segments(
                    self.button_actions@.take(i as int),
                ),
            decreases self.button_actions@.len() - i,
        {
            match self.button_actions[i] {
                Some(a) => {
                    let mut content: Vec<u8> = Vec::new();
                    a.push_payload(&mut content);
                    push_slot(&mut segs, ACTIONS_ADDR + 4 * i, SLOT_SEED, content);
                },
                None => {},
            }
            proof {
                assert(self.button_actions@.take(i + 1).drop_last() =~= self.button_actions@.take(
                    i as int,
                ));
                assert(segments_view(segs@) =~= head + action_segments(
                    self.button_actions@.take(i + 1),
                ));
            }
            i = i + 1;
        }
        proof {
            assert(self.button_actions@.take(self.button_actions@.len() as int)
                =~= self.button_actions@);
        }
        push_opt_byte(&mut segs, DEBOUNCE_ADDR, self.debounce_ms);
        push_opt_byte(&mut segs, MOTION_SYNC_ADDR, self.motion_sync);
        push_opt_byte(&mut segs, ANGLE_SNAPPING_ADDR, self.angle_snapping);
        push_opt_byte(&mut segs, RIPPLE_CONTROL_ADDR, self.ripple_control);
        push_opt_byte(&mut segs, PEAK_PERFORMANCE_ADDR, self.peak_performance);
        push_opt_byte(&mut segs, PEAK_PERFORMANCE_TIME_ADDR, self.peak_performance_time);
        push_opt_byte(&mut segs, HIGH_PERFORMANCE_ADDR, self.high_performance);
        let ghost head = segments_view(segs@);
        let mut i: usize = 0;
        while i < self.combos.len()
            invariant
                i <= self.combos@.len(),
                segments_view(segs@) == head + combo_segments(self@.combos.take(i as int)),
            decreases self.combos@.len() - i,
        {
            match &self.combos[i] {
                Some(combo) => {
                    proof {
                        assert(self@.combos[i as int] == Some(combo.events@));
                        assert(combo.events@.len() <= 6);
                    }
                    let mut content: Vec<u8> = Vec::new();
                    content.push(combo.events.len() as u8);
                    proof {
                        assert(content@ =~= seq![combo.events@.len() as u8]
                            + spec_key_events_bytes(combo.events@.take(0)));
                    }
                    let mut j: usize = 0;
                    while j < combo.events.len()
                        invariant
                            j <= combo.events@.len(),
                            content@ == seq![combo.events@.len() as u8]
                                + spec_key_events_bytes(combo.events@.take(j as int)),
                        decreases combo.events@.len() - j,
                    {
                        crate::raw_data::push_key_event(&mut content, combo.events[j]);
                        proof {
                            assert(combo.events@.take(j + 1).drop_last() =~= combo.events@.take(
                                j as int,
                            ));
                            assert(combo.events@.take(j + 1).last() == combo.events@[j as int]);
                            assert(content@ =~= seq![combo.events@.len() as u8]
                                + spec_key_events_bytes(combo.events@.take(j + 1)));
                        }
                        j = j + 1;
                    }
                    proof {
                        assert(combo.events@.take(combo.events@.len() as int) =~= combo.events@);
                        assert(content@ =~= spec_combo_content(combo.events@));
                    }
                    push_slot(&mut segs, COMBOS_ADDR + COMBO_SLOT_LEN * i, SLOT_SEED, content);
                },
                None => {},
            }
            proof {
                assert(self@.combos.take(i + 1).drop_last() =~= self@.combos.take(i as int));
                assert(segments_view(segs@) =~= head + combo_segments(self@.combos.take(i + 1)));
            }
            i = i + 1;
        }
        proof {
            assert(self@.combos.take(self@.combos.len() as int) =~= self@.combos);
        }
        let ghost head = segments_view(segs@);
        let mut i: usize = 0;
        while i < self.macros.len()
            invariant
                i <= self.macros@.len(),
                segments_view(segs@) == head + macro_segments(self@.macros.take(i as int)),
            decreases self.macros@.len() - i,
        {
            match &self.macros[i] {
                Some(mac) => {
                    proof {
                        assert(self@.macros[i as int] == Some(mac@));
                        assert(vstd::utf8::encode_utf8(mac@.name).len() <= 30);
                        assert(mac@.events.len() <= 70);
                    }
                    let content = macro_content_bytes(mac);
                    push_slot(&mut segs, MACROS_ADDR + MACRO_SLOT_LEN * i, MACRO_SEED, content);
                },
                None => {},
            }
            proof {
                assert(self@.macros.take(i + 1).drop_last() =~= self@.macros.take(i as int));
                assert(segments_view(segs@) =~= head + macro_segments(self@.macros.take(i + 1)));
            }
            i = i + 1;
        }
        proof {
            assert(self@.macros.take(self@.macros.len() as int) =~= self@.macros);
            assert(segments_view(segs@) =~= spec_encode_raw(self@));
        }
        segs
    }
}

/// Builds the content bytes of one macro slot.
#[verifier::loop_isolation(false)]
fn macro_content_bytes(mac: &RawMacro) -> (r: Vec<u8>)
    requires
        vstd::utf8::encode_utf8(mac.name@).len() <= 30,
        mac.events@.len() <= 70,
    ensures
        r@ == spec_macro_content(mac@),
{
    let mut content: Vec<u8> = Vec::new();
    let name_bytes = mac.name.as_str().as_bytes();
    content.push(name_bytes.len() as u8);
    let mut i: usize = 0;
    while i < name_bytes.len()
        invariant
            i <= name_bytes@.len(),
            content@ == seq![name_bytes@.len() as u8] + name_bytes@.take(i as int),
        decreases name_bytes@.len() - i,
    {
        content.push(name_bytes[i]);
        proof {
            assert(name_bytes@.take(i + 1) =~= name_bytes@.take(i as int).push(
                name_bytes@[i as int],
            ));
            assert(content@ =~= seq![name_bytes@.len() as u8] + name_bytes@.take(i + 1));
        }
        i = i + 1;
    }
    proof {
        assert(name_bytes@.take(name_bytes@.len() as int) =~= name_bytes@);
    }
    proof {
        assert(content@ =~= seq![name_bytes@.len() as u8] + name_bytes@ + zero_bytes(0));
    }
    let pad = 30 - name_bytes.len();
    let mut j: usize = 0;
    while j < pad
        invariant
            j <= pad,
            content@ == seq![name_bytes@.len() as u8] + name_bytes@ + zero_bytes(j as int),
        decreases pad - j,
    {
        content.push(0u8);
        proof {
            assert(content@ =~= seq![name_bytes@.len() as u8] + name_bytes@ + zero_bytes(j + 1));
        }
        j = j + 1;
    }
    content.push(mac.events.len() as u8);
    let ghost head = content@;
    let mut k: usize = 0;
    while k < mac.events.len()
        invariant
            k <= mac.events@.len(),
            content@ == head + spec_macro_events_bytes(mac.events@.take(k as int)),
        decreases mac.events@.len() - k,
    {
        let e = mac.events[k];
        crate::raw_data::push_key_event(&mut content, e.key_event);
        content.push((e.delay_ms / 256) as u8);
        content.push((e.delay_ms % 256) as u8);
        proof {
            assert(mac.events@.take(k + 1).drop_last() =~= mac.events@.take(k as int));
            assert(mac.events@.take(k + 1).last() == e);
            assert(content@ =~= head + spec_macro_events_bytes(mac.events@.take(k + 1)));
        }
        k = k + 1;
    }
    proof {
        assert(mac.events@.take(mac.events@.len() as int) =~= mac.events@);
        assert(name_bytes@ == vstd::utf8::encode_utf8(mac.name@));
        assert(content@ =~= spec_macro_content(mac@));
    }
    content
}

/// The final byte of every slot the encoder emits is the slot's seed minus
/// the sum of its content bytes, modulo 256; the whole slot then validates.
pub proof fn lemma_slot_checksum_law(addr: int, init: u8, content: Seq<u8>)
    ensures
        slot_segment(addr, init, content).bytes.last() as int == (init - byte_sum(content))
            % 256,
        chk(init, slot_segment(addr, init, content).bytes) == 0,
{
    lemma_chk_closed_form(init, content);
    crate::checksum::lemma_chk_self_zero(init, content);
}

/// In any image, the final byte of a present slot of length `len` equals
/// the seed minus the sum of the first `len - 1` bytes, modulo 256.
pub proof fn lemma_present_slot_final_byte(img: Seq<u8>, off: int, len: int, init: u8)
    requires
        0 < len,
        0 <= off,
        off + len <= img.len(),
        slot_present(img, off, len, init),
    ensures
        img[off + len - 1] as int == (init - byte_sum(img.subrange(off, off + len - 1))) % 256,
{
    let s = img.subrange(off, off + len);
    let body = img.subrange(off, off + len - 1);
    let c = img[off + len - 1] as int;
    assert(s.drop_last() =~= body);
    assert(s.last() == img[off + len - 1]);
    lemma_chk_closed_form(init, s);
    lemma_chk_closed_form(init, body);
    let sp = byte_sum(body);
    assert(byte_sum(s) == sp + c);
    assert((init - (sp + c)) % 256 == 0);
    vstd::arithmetic::div_mod::lemma_mod_equivalence(init - sp, c, 256);
    vstd::arithmetic::div_mod::lemma_small_mod(c as nat, 256);
    assert((init - sp) % 256 == c % 256);
}

} // verus!
