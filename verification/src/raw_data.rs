//! Wire-level profile data types and their byte encodings.

use crate::data::{Color, Direction, Dpi, Key, KeyEvent, KeyState, MacroEvent, Modifier};
use vstd::prelude::*;

verus! {

// ---------------------------------------------------------------------------
// DPI
// ---------------------------------------------------------------------------

/// One DPI stage as stored on the device: a raw byte per axis.
#[derive(Debug, Clone, Copy, PartialEq, Eq, Structural)]
pub struct RawDpi {
    pub dpi_x: u8,
    pub dpi_y: u8,
}

/// The raw byte of a DPI value: `dpi / 50 - 1`, saturated at 0 below and
/// clamped to 255 above.
pub open spec fn spec_dpi_to_raw(dpi: u16) -> u8 {
    let q = dpi / 50;
    if q == 0 {
        0
    } else if q - 1 > 255 {
        255
    } else {
        (q - 1) as u8
    }
}

/// The DPI value of a raw byte: `(raw + 1) * 50`.
pub open spec fn spec_dpi_from_raw(raw: u8) -> u16 {
    ((raw + 1) * 50) as u16
}

/// Encodes a DPI value to its raw byte.
pub fn dpi_to_raw(dpi: u16) -> (r: u8)
    ensures
        r == spec_dpi_to_raw(dpi),
{
    let q = dpi / 50;
    if q == 0 {
        0
    } else if q - 1 > 255 {
        255
    } else {
        (q - 1) as u8
    }
}

/// Decodes a raw byte to its DPI value.
pub fn dpi_from_raw(raw: u8) -> (r: u16)
    ensures
        r == spec_dpi_from_raw(raw),
{
    (raw as u16 + 1) * 50
}

/// Any DPI of at most 12849 round-trips as `(dpi / 50 - 1 + 1) * 50`,
/// saturated below at 50.
///
/// Above 12849 the raw byte clamps at 255 and the round trip returns 12800
/// instead.
pub proof fn lemma_dpi_round_trip(dpi: u16)
    requires
        dpi <= 12849,
    ensures
        spec_dpi_from_raw(spec_dpi_to_raw(dpi)) == if dpi < 100 {
            50u16
        } else {
            ((dpi / 50) * 50) as u16
        },
{
}

/// The raw pair of a [`Dpi`]: a linked DPI uses the same byte on both axes.
pub open spec fn spec_raw_of_dpi(d: Dpi) -> RawDpi {
    match d {
        Dpi::Linked(u) => RawDpi { dpi_x: spec_dpi_to_raw(u), dpi_y: spec_dpi_to_raw(u) },
        Dpi::Independent(x, y) => RawDpi { dpi_x: spec_dpi_to_raw(x), dpi_y: spec_dpi_to_raw(y) },
    }
}

/// The [`Dpi`] of a raw pair: equal axes decode as linked.
pub open spec fn spec_dpi_of_raw(r: RawDpi) -> Dpi {
    if r.dpi_x == r.dpi_y {
        Dpi::Linked(spec_dpi_from_raw(r.dpi_x))
    } else {
        Dpi::Independent(spec_dpi_from_raw(r.dpi_x), spec_dpi_from_raw(r.dpi_y))
    }
}

impl RawDpi {
    /// Encodes a [`Dpi`] into its raw pair.
    pub fn from_dpi(d: &Dpi) -> (r: RawDpi)
        ensures
            r == spec_raw_of_dpi(*d),
    {
        match d {
            Dpi::Linked(u) => {
                let raw = dpi_to_raw(*u);
                RawDpi { dpi_x: raw, dpi_y: raw }
            },
            Dpi::Independent(x, y) => RawDpi { dpi_x: dpi_to_raw(*x), dpi_y: dpi_to_raw(*y) },
        }
    }

    /// Decodes this raw pair into a [`Dpi`].
    pub fn to_dpi(&self) -> (r: Dpi)
        ensures
            r == spec_dpi_of_raw(*self),
    {
        let x = dpi_from_raw(self.dpi_x);
        let y = dpi_from_raw(self.dpi_y);
        if x == y {
            Dpi::Linked(x)
        } else {
            Dpi::Independent(x, y)
        }
    }
}

// ---------------------------------------------------------------------------
// Colour
// ---------------------------------------------------------------------------

/// One DPI-stage colour as stored on the device.
#[derive(Debug, Clone, Copy, PartialEq, Eq, Structural)]
pub struct RawColor {
    pub red: u8,
    pub green: u8,
    pub blue: u8,
}

impl RawColor {
    /// The raw form of a [`Color`]; the encoding is the identity.
    pub fn from_color(c: &Color) -> (r: RawColor)
        ensures
            r.red == c.red && r.green == c.green && r.blue == c.blue,
    {
        RawColor { red: c.red, green: c.green, blue: c.blue }
    }

    /// The [`Color`] of this raw colour.
    pub fn to_color(&self) -> (r: Color)
        ensures
            r.red == self.red && r.green == self.green && r.blue == self.blue,
    {
        Color { red: self.red, green: self.green, blue: self.blue }
    }
}

// ---------------------------------------------------------------------------
// Key events
// ---------------------------------------------------------------------------

/// The one-bit modifier bitmask of a modifier key.
pub open spec fn spec_modifier_bit(m: Modifier) -> u8 {
    match m {
        Modifier::ControlLeft => 0x01,
        Modifier::ShiftLeft => 0x02,
        Modifier::AltLeft => 0x04,
        Modifier::MetaLeft => 0x08,
        Modifier::ControlRight => 0x10,
        Modifier::ShiftRight => 0x20,
        Modifier::AltRight => 0x40,
        Modifier::MetaRight => 0x80,
    }
}

/// The modifier key of a one-bit bitmask, if it is one.
pub open spec fn spec_modifier_of_bits(bits: u16) -> Option<Modifier> {
    if bits == 0x01 {
        Some(Modifier::ControlLeft)
    } else if bits == 0x02 {
        Some(Modifier::ShiftLeft)
    } else if bits == 0x04 {
        Some(Modifier::AltLeft)
    } else if bits == 0x08 {
        Some(Modifier::MetaLeft)
    } else if bits == 0x10 {
        Some(Modifier::ControlRight)
    } else if bits == 0x20 {
        Some(Modifier::ShiftRight)
    } else if bits == 0x40 {
        Some(Modifier::AltRight)
    } else if bits == 0x80 {
        Some(Modifier::MetaRight)
    } else {
        None
    }
}

/// The little-endian wire code of a directional key.
pub open spec fn spec_direction_code(d: Direction) -> u16 {
    match d {
        Direction::Left => 1,
        Direction::Right => 2,
        Direction::Middle => 4,
        Direction::Back => 8,
        Direction::Forward => 16,
    }
}

/// The directional key of a wire code, if it is one.
pub open spec fn spec_direction_of_code(code: u16) -> Option<Direction> {
    if code == 1 {
        Some(Direction::Left)
    } else if code == 2 {
        Some(Direction::Right)
    } else if code == 4 {
        Some(Direction::Middle)
    } else if code == 8 {
        Some(Direction::Back)
    } else if code == 16 {
        Some(Direction::Forward)
    } else {
        None
    }
}

/// A key event as stored on the wire: a press or release of a modifier
/// bitmask, a USB HID usage code, a consumer-control usage code, or a
/// directional key.
#[derive(Debug, Clone, Copy, PartialEq, Eq, Structural)]
pub enum RawKeyEvent {
    PressModifier(u16),
    PressHid(u16),
    PressConsumer(u16),
    PressDirection(Direction),
    ReleaseModifier(u16),
    ReleaseHid(u16),
    ReleaseConsumer(u16),
    ReleaseDirection(Direction),
}

/// The 3 wire bytes of a raw key event: a tag byte, then a little-endian
/// 16-bit key id.
///
/// Tags: press-modifier 0x80, press-HID 0x81, press-consumer 0x82,
/// press-direction 0x84; release counterparts 0x40, 0x41, 0x42, 0x44.
pub open spec fn spec_key_event_bytes(e: RawKeyEvent) -> Seq<u8> {
    match e {
        RawKeyEvent::PressModifier(v) => seq![0x80u8, (v % 256) as u8, (v / 256) as u8],
        RawKeyEvent::PressHid(v) => seq![0x81u8, (v % 256) as u8, (v / 256) as u8],
        RawKeyEvent::PressConsumer(v) => seq![0x82u8, (v % 256) as u8, (v / 256) as u8],
        RawKeyEvent::PressDirection(d) => seq![0x84u8, spec_direction_code(d) as u8, 0u8],
        RawKeyEvent::ReleaseModifier(v) => seq![0x40u8, (v % 256) as u8, (v / 256) as u8],
        RawKeyEvent::ReleaseHid(v) => seq![0x41u8, (v % 256) as u8, (v / 256) as u8],
        RawKeyEvent::ReleaseConsumer(v) => seq![0x42u8, (v % 256) as u8, (v / 256) as u8],
        RawKeyEvent::ReleaseDirection(d) => seq![0x44u8, spec_direction_code(d) as u8, 0u8],
    }
}

/// The raw key event of 3 wire bytes, if the tag is known and, for a
/// directional tag, the key id is a direction code.
pub open spec fn spec_key_event_of_bytes(b0: u8, b1: u8, b2: u8) -> Option<RawKeyEvent> {
    let v = (b1 + b2 * 256) as u16;
    if b0 == 0x80 {
        Some(RawKeyEvent::PressModifier(v))
    } else if b0 == 0x81 {
        Some(RawKeyEvent::PressHid(v))
    } else if b0 == 0x82 {
        Some(RawKeyEvent::PressConsumer(v))
    } else if b0 == 0x84 {
        match spec_direction_of_code(v) {
            Some(d) => Some(RawKeyEvent::PressDirection(d)),
            None => None,
        }
    } else if b0 == 0x40 {
        Some(RawKeyEvent::ReleaseModifier(v))
    } else if b0 == 0x41 {
        Some(RawKeyEvent::ReleaseHid(v))
    } else if b0 == 0x42 {
        Some(RawKeyEvent::ReleaseConsumer(v))
    } else if b0 == 0x44 {
        match spec_direction_of_code(v) {
            Some(d) => Some(RawKeyEvent::ReleaseDirection(d)),
            None => None,
        }
    } else {
        None
    }
}

/// The wire bytes of a raw key event decode back to it.
pub proof fn lemma_key_event_bytes_round_trip(e: RawKeyEvent)
    ensures
        spec_key_event_of_bytes(
            spec_key_event_bytes(e)[0],
            spec_key_event_bytes(e)[1],
            spec_key_event_bytes(e)[2],
        ) == Some(e),
{
}

/// Appends the 3 wire bytes of `e` to `out`.
pub fn push_key_event(out: &mut Vec<u8>, e: RawKeyEvent)
    ensures
        final(out)@ == old(out)@ + spec_key_event_bytes(e),
{
    let (tag, v): (u8, u16) = match e {
        RawKeyEvent::PressModifier(v) => (0x80, v),
        RawKeyEvent::PressHid(v) => (0x81, v),
        RawKeyEvent::PressConsumer(v) => (0x82, v),
        RawKeyEvent::PressDirection(d) => (0x84, direction_code(d)),
        RawKeyEvent::ReleaseModifier(v) => (0x40, v),
        RawKeyEvent::ReleaseHid(v) => (0x41, v),
        RawKeyEvent::ReleaseConsumer(v) => (0x42, v),
        RawKeyEvent::ReleaseDirection(d) => (0x44, direction_code(d)),
    };
    out.push(tag);
    out.push((v % 256) as u8);
    out.push((v / 256) as u8);
    proof {
        assert(out@ =~= old(out)@ + spec_key_event_bytes(e));
    }
}

/// Parses 3 wire bytes as a raw key event.
pub fn parse_key_event(b0: u8, b1: u8, b2: u8) -> (r: Option<RawKeyEvent>)
    ensures
        r == spec_key_event_of_bytes(b0, b1, b2),
{
    let v = b1 as u16 + b2 as u16 * 256;
    match b0 {
        0x80 => Some(RawKeyEvent::PressModifier(v)),
        0x81 => Some(RawKeyEvent::PressHid(v)),
        0x82 => Some(RawKeyEvent::PressConsumer(v)),
        0x84 => match direction_of_code(v) {
            Some(d) => Some(RawKeyEvent::PressDirection(d)),
            None => None,
        },
        0x40 => Some(RawKeyEvent::ReleaseModifier(v)),
        0x41 => Some(RawKeyEvent::ReleaseHid(v)),
        0x42 => Some(RawKeyEvent::ReleaseConsumer(v)),
        0x44 => match direction_of_code(v) {
            Some(d) => Some(RawKeyEvent::ReleaseDirection(d)),
            None => None,
        },
        _ => None,
    }
}

/// The wire code of a directional key.
pub fn direction_code(d: Direction) -> (r: u16)
    ensures
        r == spec_direction_code(d),
{
    match d {
        Direction::Left => 1,
        Direction::Right => 2,
        Direction::Middle => 4,
        Direction::Back => 8,
        Direction::Forward => 16,
    }
}

/// The directional key of a wire code, if it is one.
pub fn direction_of_code(code: u16) -> (r: Option<Direction>)
    ensures
        r == spec_direction_of_code(code),
{
    match code {
        1 => Some(Direction::Left),
        2 => Some(Direction::Right),
        4 => Some(Direction::Middle),
        8 => Some(Direction::Back),
        16 => Some(Direction::Forward),
        _ => None,
    }
}

/// The raw key event of a [`KeyEvent`]: a modifier key becomes its one-bit
/// bitmask, any other key its USB HID usage code, a directional key its
/// direction code.
pub open spec fn spec_raw_of_key_event(e: KeyEvent) -> RawKeyEvent {
    match e.state {
        KeyState::Pressed => match e.key {
            Key::Modifier(m) => RawKeyEvent::PressModifier(spec_modifier_bit(m) as u16),
            Key::Hid(code) => RawKeyEvent::PressHid(code),
            Key::Direction(d) => RawKeyEvent::PressDirection(d),
        },
        KeyState::Released => match e.key {
            Key::Modifier(m) => RawKeyEvent::ReleaseModifier(spec_modifier_bit(m) as u16),
            Key::Hid(code) => RawKeyEvent::ReleaseHid(code),
            Key::Direction(d) => RawKeyEvent::ReleaseDirection(d),
        },
    }
}

/// The [`KeyEvent`] of a raw key event.
///
/// A modifier bitmask with no bit or more than one bit set, and a
/// consumer-control event, decode to nothing.
pub open spec fn spec_key_event_of_raw(r: RawKeyEvent) -> Option<KeyEvent> {
    match r {
        RawKeyEvent::PressModifier(bits) => match spec_modifier_of_bits(bits) {
            Some(m) => Some(KeyEvent { key: Key::Modifier(m), state: KeyState::Pressed }),
            None => None,
        },
        RawKeyEvent::PressHid(code) => Some(
            KeyEvent { key: Key::Hid(code), state: KeyState::Pressed },
        ),
        RawKeyEvent::PressConsumer(_) => None,
        RawKeyEvent::PressDirection(d) => Some(
            KeyEvent { key: Key::Direction(d), state: KeyState::Pressed },
        ),
        RawKeyEvent::ReleaseModifier(bits) => match spec_modifier_of_bits(bits) {
            Some(m) => Some(KeyEvent { key: Key::Modifier(m), state: KeyState::Released }),
            None => None,
        },
        RawKeyEvent::ReleaseHid(code) => Some(
            KeyEvent { key: Key::Hid(code), state: KeyState::Released },
        ),
        RawKeyEvent::ReleaseConsumer(_) => None,
        RawKeyEvent::ReleaseDirection(d) => Some(
            KeyEvent { key: Key::Direction(d), state: KeyState::Released },
        ),
    }
}

/// Every [`KeyEvent`] round-trips through its raw form.
pub proof fn lemma_key_event_round_trip(e: KeyEvent)
    ensures
        spec_key_event_of_raw(spec_raw_of_key_event(e)) == Some(e),
{
}

impl RawKeyEvent {
    /// Creates a raw key event from a [`KeyEvent`].
    pub fn from_key_event(e: &KeyEvent) -> (r: RawKeyEvent)
        ensures
            r == spec_raw_of_key_event(*e),
    {
        let pressed = match e.state {
            KeyState::Pressed => true,
            KeyState::Released => false,
        };
        match e.key {
            Key::Modifier(m) => {
                let bits = modifier_bit(m) as u16;
                if pressed {
                    RawKeyEvent::PressModifier(bits)
                } else {
                    RawKeyEvent::ReleaseModifier(bits)
                }
            },
            Key::Hid(code) => if pressed {
                RawKeyEvent::PressHid(code)
            } else {
                RawKeyEvent::ReleaseHid(code)
            },
            Key::Direction(d) => if pressed {
                RawKeyEvent::PressDirection(d)
            } else {
                RawKeyEvent::ReleaseDirection(d)
            },
        }
    }

    /// Decodes this raw key event to a [`KeyEvent`], if it has one.
    pub fn to_key_event(&self) -> (r: Option<KeyEvent>)
        ensures
            r == spec_key_event_of_raw(*self),
    {
        match self {
            RawKeyEvent::PressModifier(bits) => match modifier_of_bits(*bits) {
                Some(m) => Some(KeyEvent { key: Key::Modifier(m), state: KeyState::Pressed }),
                None => None,
            },
            RawKeyEvent::PressHid(code) => Some(
                KeyEvent { key: Key::Hid(*code), state: KeyState::Pressed },
            ),
            RawKeyEvent::PressConsumer(_) => None,
            RawKeyEvent::PressDirection(d) => Some(
                KeyEvent { key: Key::Direction(*d), state: KeyState::Pressed },
            ),
            RawKeyEvent::ReleaseModifier(bits) => match modifier_of_bits(*bits) {
                Some(m) => Some(KeyEvent { key: Key::Modifier(m), state: KeyState::Released }),
                None => None,
            },
            RawKeyEvent::ReleaseHid(code) => Some(
                KeyEvent { key: Key::Hid(*code), state: KeyState::Released },
            ),
            RawKeyEvent::ReleaseConsumer(_) => None,
            RawKeyEvent::ReleaseDirection(d) => Some(
                KeyEvent { key: Key::Direction(*d), state: KeyState::Released },
            ),
        }
    }
}

/// The one-bit bitmask of a modifier key.
pub fn modifier_bit(m: Modifier) -> (r: u8)
    ensures
        r == spec_modifier_bit(m),
{
    match m {
        Modifier::ControlLeft => 0x01,
        Modifier::ShiftLeft => 0x02,
        Modifier::AltLeft => 0x04,
        Modifier::MetaLeft => 0x08,
        Modifier::ControlRight => 0x10,
        Modifier::ShiftRight => 0x20,
        Modifier::AltRight => 0x40,
        Modifier::MetaRight => 0x80,
    }
}

/// The modifier key of a one-bit bitmask, if it is one.
pub fn modifier_of_bits(bits: u16) -> (r: Option<Modifier>)
    ensures
        r == spec_modifier_of_bits(bits),
{
    match bits {
        0x01 => Some(Modifier::ControlLeft),
        0x02 => Some(Modifier::ShiftLeft),
        0x04 => Some(Modifier::AltLeft),
        0x08 => Some(Modifier::MetaLeft),
        0x10 => Some(Modifier::ControlRight),
        0x20 => Some(Modifier::ShiftRight),
        0x40 => Some(Modifier::AltRight),
        0x80 => Some(Modifier::MetaRight),
        _ => None,
    }
}

/// Whether a 16-bit value has exactly one bit set: it is a power of two.
pub open spec fn one_bit_set(v: u16) -> bool {
    ||| v == 1
    ||| v == 2
    ||| v == 4
    ||| v == 8
    ||| v == 16
    ||| v == 32
    ||| v == 64
    ||| v == 128
    ||| v == 256
    ||| v == 512
    ||| v == 1024
    ||| v == 2048
    ||| v == 4096
    ||| v == 8192
    ||| v == 16384
    ||| v == 32768
}

/// The wire form of a modifier key event: tag 0x80 on press or 0x40 on
/// release, and a modifier field with exactly one bit set.
pub proof fn lemma_modifier_wire_form(e: KeyEvent)
    requires
        e.key is Modifier,
    ensures
        e.state == KeyState::Pressed ==> spec_key_event_bytes(spec_raw_of_key_event(e))[0]
            == 0x80,
        e.state == KeyState::Released ==> spec_key_event_bytes(spec_raw_of_key_event(e))[0]
            == 0x40,
        one_bit_set(
            (spec_key_event_bytes(spec_raw_of_key_event(e))[1] + spec_key_event_bytes(
                spec_raw_of_key_event(e),
            )[2] * 256) as u16,
        ),
{
}

// ---------------------------------------------------------------------------
// Macro events
// ---------------------------------------------------------------------------

/// One macro step on the wire: a raw key event and a big-endian delay.
#[derive(Debug, Clone, Copy, PartialEq, Eq, Structural)]
pub struct RawMacroEvent {
    pub key_event: RawKeyEvent,
    pub delay_ms: u16,
}

/// The 5 wire bytes of a raw macro event: the key event's 3 bytes, then the
/// big-endian 16-bit delay.
pub open spec fn spec_macro_event_bytes(e: RawMacroEvent) -> Seq<u8> {
    spec_key_event_bytes(e.key_event) + seq![
        (e.delay_ms / 256) as u8,
        (e.delay_ms % 256) as u8,
    ]
}

/// The raw macro event of 5 wire bytes, if the key event parses.
pub open spec fn spec_macro_event_of_bytes(b: Seq<u8>) -> Option<RawMacroEvent> {
    match spec_key_event_of_bytes(b[0], b[1], b[2]) {
        Some(e) => Some(RawMacroEvent { key_event: e, delay_ms: (b[3] * 256 + b[4]) as u16 }),
        None => None,
    }
}

/// The wire bytes of a raw macro event decode back to it.
#[verifier::rlimit(50)]
pub proof fn lemma_macro_event_bytes_round_trip(e: RawMacroEvent)
    ensures
        spec_macro_event_of_bytes(spec_macro_event_bytes(e)) == Some(e),
{
    lemma_key_event_bytes_round_trip(e.key_event);
    assert((e.delay_ms / 256) * 256 + e.delay_ms % 256 == e.delay_ms) by (nonlinear_arith);
}

impl RawMacroEvent {
    /// Creates a raw macro event from a [`MacroEvent`].
    pub fn from_macro_event(e: &MacroEvent) -> (r: RawMacroEvent)
        ensures
            r.key_event == spec_raw_of_key_event(e.key_event),
            r.delay_ms == e.delay_ms,
    {
        RawMacroEvent {
            key_event: RawKeyEvent::from_key_event(&e.key_event),
            delay_ms: e.delay_ms,
        }
    }

    /// Decodes this raw macro event to a [`MacroEvent`], if its key event
    /// has one.
    pub fn to_macro_event(&self) -> (r: Option<MacroEvent>)
        ensures
            spec_key_event_of_raw(self.key_event) is Some ==> r == Some(
                MacroEvent {
                    key_event: spec_key_event_of_raw(self.key_event)->0,
                    delay_ms: self.delay_ms,
                },
            ),
            spec_key_event_of_raw(self.key_event) is None ==> r is None,
    {
        match self.key_event.to_key_event() {
            Some(e) => Some(MacroEvent { key_event: e, delay_ms: self.delay_ms }),
            None => None,
        }
    }
}

// ---------------------------------------------------------------------------
// Button actions
// ---------------------------------------------------------------------------

/// A button action as stored on the device.
#[derive(Debug, Clone, Copy, PartialEq, Eq, Structural)]
pub enum RawAction {
    Disabled,
    Button { id: u8 },
    DpiLoop,
    DpiUp,
    DpiDown,
    WheelLeft,
    WheelRight,
    Fire { interval: u8, repeat: u8 },
    Combo,
    Macro { index: u8 },
    PollRateLoop,
    DpiLock { dpi: u8 },
    WheelUp,
    WheelDown,
}

/// The 3-byte payload of a raw action.
pub open spec fn spec_action_payload(a: RawAction) -> Seq<u8> {
    match a {
        RawAction::Disabled => seq![0x00u8, 0x00u8, 0x00u8],
        RawAction::Button { id } => seq![0x01u8, id, 0x00u8],
        RawAction::DpiLoop => seq![0x02u8, 0x01u8, 0x00u8],
        RawAction::DpiUp => seq![0x02u8, 0x02u8, 0x00u8],
        RawAction::DpiDown => seq![0x02u8, 0x03u8, 0x00u8],
        RawAction::WheelLeft => seq![0x03u8, 0x01u8, 0x00u8],
        RawAction::WheelRight => seq![0x03u8, 0x02u8, 0x00u8],
        RawAction::Fire { interval, repeat } => seq![0x04u8, interval, repeat],
        RawAction::Combo => seq![0x05u8, 0x00u8, 0x00u8],
        RawAction::Macro { index } => seq![0x06u8, index, 0x00u8],
        RawAction::PollRateLoop => seq![0x07u8, 0x00u8, 0x00u8],
        RawAction::DpiLock { dpi } => seq![0x0au8, dpi, 0x00u8],
        RawAction::WheelUp => seq![0x0bu8, 0x01u8, 0x00u8],
        RawAction::WheelDown => seq![0x0bu8, 0x02u8, 0x00u8],
    }
}

/// The raw action of a 3-byte payload, if its tag is known.
///
/// Trailing bytes after a tag's fields are padding and are ignored.
pub open spec fn spec_action_of_payload(b0: u8, b1: u8, b2: u8) -> Option<RawAction> {
    if b0 == 0x00 {
        Some(RawAction::Disabled)
    } else if b0 == 0x01 {
        Some(RawAction::Button { id: b1 })
    } else if b0 == 0x02 {
        if b1 == 0x01 {
            Some(RawAction::DpiLoop)
        } else if b1 == 0x02 {
            Some(RawAction::DpiUp)
        } else if b1 == 0x03 {
            Some(RawAction::DpiDown)
        } else {
            None
        }
    } else if b0 == 0x03 {
        if b1 == 0x01 {
            Some(RawAction::WheelLeft)
        } else if b1 == 0x02 {
            Some(RawAction::WheelRight)
        } else {
            None
        }
    } else if b0 == 0x04 {
        Some(RawAction::Fire { interval: b1, repeat: b2 })
    } else if b0 == 0x05 {
        Some(RawAction::Combo)
    } else if b0 == 0x06 {
        Some(RawAction::Macro { index: b1 })
    } else if b0 == 0x07 {
        Some(RawAction::PollRateLoop)
    } else if b0 == 0x0a {
        Some(RawAction::DpiLock { dpi: b1 })
    } else if b0 == 0x0b {
        if b1 == 0x01 {
            Some(RawAction::WheelUp)
        } else if b1 == 0x02 {
            Some(RawAction::WheelDown)
        } else {
            None
        }
    } else {
        None
    }
}

/// The payload of a raw action decodes back to it.
pub proof fn lemma_action_payload_round_trip(a: RawAction)
    ensures
        spec_action_of_payload(
            spec_action_payload(a)[0],
            spec_action_payload(a)[1],
            spec_action_payload(a)[2],
        ) == Some(a),
{
}

impl RawAction {
    /// Appends the 3-byte payload of this action to `out`.
    pub fn push_payload(&self, out: &mut Vec<u8>)
        ensures
            final(out)@ == old(out)@ + spec_action_payload(*self),
    {
        let (b0, b1, b2): (u8, u8, u8) = match self {
            RawAction::Disabled => (0x00, 0x00, 0x00),
            RawAction::Button { id } => (0x01, *id, 0x00),
            RawAction::DpiLoop => (0x02, 0x01, 0x00),
            RawAction::DpiUp => (0x02, 0x02, 0x00),
            RawAction::DpiDown => (0x02, 0x03, 0x00),
            RawAction::WheelLeft => (0x03, 0x01, 0x00),
            RawAction::WheelRight => (0x03, 0x02, 0x00),
            RawAction::Fire { interval, repeat } => (0x04, *interval, *repeat),
            RawAction::Combo => (0x05, 0x00, 0x00),
            RawAction::Macro { index } => (0x06, *index, 0x00),
            RawAction::PollRateLoop => (0x07, 0x00, 0x00),
            RawAction::DpiLock { dpi } => (0x0a, *dpi, 0x00),
            RawAction::WheelUp => (0x0b, 0x01, 0x00),
            RawAction::WheelDown => (0x0b, 0x02, 0x00),
        };
        out.push(b0);
        out.push(b1);
        out.push(b2);
        proof {
            assert(out@ =~= old(out)@ + spec_action_payload(*self));
        }
    }

    /// Parses a 3-byte payload as a raw action.
    pub fn parse_payload(b0: u8, b1: u8, b2: u8) -> (r: Option<RawAction>)
        ensures
            r == spec_action_of_payload(b0, b1, b2),
    {
        match b0 {
            0x00 => Some(RawAction::Disabled),
            0x01 => Some(RawAction::Button { id: b1 }),
            0x02 => match b1 {
                0x01 => Some(RawAction::DpiLoop),
                0x02 => Some(RawAction::DpiUp),
                0x03 => Some(RawAction::DpiDown),
                _ => None,
            },
            0x03 => match b1 {
                0x01 => Some(RawAction::WheelLeft),
                0x02 => Some(RawAction::WheelRight),
                _ => None,
            },
            0x04 => Some(RawAction::Fire { interval: b1, repeat: b2 }),
            0x05 => Some(RawAction::Combo),
            0x06 => Some(RawAction::Macro { index: b1 }),
            0x07 => Some(RawAction::PollRateLoop),
            0x0a => Some(RawAction::DpiLock { dpi: b1 }),
            0x0b => match b1 {
                0x01 => Some(RawAction::WheelUp),
                0x02 => Some(RawAction::WheelDown),
                _ => None,
            },
            _ => None,
        }
    }
}

// ---------------------------------------------------------------------------
// Combos and macros
// ---------------------------------------------------------------------------

/// The concatenated wire bytes of a sequence of raw key events.
pub open spec fn spec_key_events_bytes(es: Seq<RawKeyEvent>) -> Seq<u8>
    decreases es.len(),
{
    if es.len() == 0 {
        Seq::empty()
    } else {
        spec_key_events_bytes(es.drop_last()) + spec_key_event_bytes(es.last())
    }
}

/// Parses a flat region of 3-byte raw key events; `None` if any event is
/// malformed.  The region's length must be a multiple of 3.
pub open spec fn spec_parse_key_events(b: Seq<u8>) -> Option<Seq<RawKeyEvent>>
    decreases b.len(),
{
    if b.len() == 0 {
        Some(Seq::empty())
    } else if b.len() < 3 {
        None
    } else {
        let n = b.len() as int;
        match (
            spec_parse_key_events(b.take(n - 3)),
            spec_key_event_of_bytes(b[n - 3], b[n - 2], b[n - 1]),
        ) {
            (Some(es), Some(e)) => Some(es.push(e)),
            _ => None,
        }
    }
}

/// The wire bytes of a key event sequence parse back to it.
pub proof fn lemma_key_events_bytes_round_trip(es: Seq<RawKeyEvent>)
    ensures
        spec_key_events_bytes(es).len() == 3 * es.len(),
        spec_parse_key_events(spec_key_events_bytes(es)) == Some(es),
    decreases es.len(),
{
    if es.len() > 0 {
        lemma_key_events_bytes_round_trip(es.drop_last());
        let b = spec_key_events_bytes(es);
        let n = b.len() as int;
        assert(b.take(n - 3) =~= spec_key_events_bytes(es.drop_last()));
        lemma_key_event_bytes_round_trip(es.last());
        assert(es.drop_last().push(es.last()) =~= es);
    }
}

/// The concatenated wire bytes of a sequence of raw macro events.
pub open spec fn spec_macro_events_bytes(es: Seq<RawMacroEvent>) -> Seq<u8>
    decreases es.len(),
{
    if es.len() == 0 {
        Seq::empty()
    } else {
        spec_macro_events_bytes(es.drop_last()) + spec_macro_event_bytes(es.last())
    }
}

/// Parses a flat region of 5-byte raw macro events; `None` if any event is
/// malformed.  The region's length must be a multiple of 5.
pub open spec fn spec_parse_macro_events(b: Seq<u8>) -> Option<Seq<RawMacroEvent>>
    decreases b.len(),
{
    if b.len() == 0 {
        Some(Seq::empty())
    } else if b.len() < 5 {
        None
    } else {
        let n = b.len() as int;
        match (
            spec_parse_macro_events(b.take(n - 5)),
            spec_macro_event_of_bytes(b.subrange(n - 5, n)),
        ) {
            (Some(es), Some(e)) => Some(es.push(e)),
            _ => None,
        }
    }
}

/// The wire bytes of a macro event sequence parse back to it.
pub proof fn lemma_macro_events_bytes_round_trip(es: Seq<RawMacroEvent>)
    ensures
        spec_macro_events_bytes(es).len() == 5 * es.len(),
        spec_parse_macro_events(spec_macro_events_bytes(es)) == Some(es),
    decreases es.len(),
{
    if es.len() > 0 {
        lemma_macro_events_bytes_round_trip(es.drop_last());
        let b = spec_macro_events_bytes(es);
        let n = b.len() as int;
        assert(b.take(n - 5) =~= spec_macro_events_bytes(es.drop_last()));
        assert(b.subrange(n - 5, n) =~= spec_macro_event_bytes(es.last()));
        lemma_macro_event_bytes_round_trip(es.last());
        assert(es.drop_last().push(es.last()) =~= es);
    }
}

/// A short sequence of up to 6 key events tied to one button.
#[derive(Debug, Clone)]
pub struct RawCombo {
    pub events: Vec<RawKeyEvent>,
}

impl View for RawCombo {
    type V = Seq<RawKeyEvent>;

    open spec fn view(&self) -> Seq<RawKeyEvent> {
        self.events@
    }
}

/// The raw key events of a sequence of [`KeyEvent`]s.
pub open spec fn spec_raw_events_of_key_events(es: Seq<KeyEvent>) -> Seq<RawKeyEvent> {
    es.map_values(|e: KeyEvent| spec_raw_of_key_event(e))
}

/// The [`KeyEvent`]s of a sequence of raw key events; `None` if any event
/// decodes to nothing.
pub open spec fn spec_key_events_of_raw(rs: Seq<RawKeyEvent>) -> Option<Seq<KeyEvent>>
    decreases rs.len(),
{
    if rs.len() == 0 {
        Some(Seq::empty())
    } else {
        match (spec_key_events_of_raw(rs.drop_last()), spec_key_event_of_raw(rs.last())) {
            (Some(es), Some(e)) => Some(es.push(e)),
            _ => None,
        }
    }
}

/// Every sequence of [`KeyEvent`]s round-trips through its raw form.
pub proof fn lemma_key_events_round_trip(es: Seq<KeyEvent>)
    ensures
        spec_key_events_of_raw(spec_raw_events_of_key_events(es)) == Some(es),
    decreases es.len(),
{
    let rs = spec_raw_events_of_key_events(es);
    if es.len() == 0 {
        assert(rs =~= Seq::<RawKeyEvent>::empty());
    } else {
        assert(rs.drop_last() =~= spec_raw_events_of_key_events(es.drop_last()));
        lemma_key_events_round_trip(es.drop_last());
        lemma_key_event_round_trip(es.last());
        assert(es.drop_last().push(es.last()) =~= es);
    }
}

impl RawCombo {
    /// Encodes a sequence of [`KeyEvent`]s as a raw combo.
    pub fn from_key_events(events: &Vec<KeyEvent>) -> (r: RawCombo)
        ensures
            r@ == spec_raw_events_of_key_events(events@),
    {
        let mut raw: Vec<RawKeyEvent> = Vec::new();
        let mut i: usize = 0;
        while i < events.len()
            invariant
                i <= events@.len(),
                raw@ =~= spec_raw_events_of_key_events(events@.take(i as int)),
            decreases events@.len() - i,
        {
            raw.push(RawKeyEvent::from_key_event(&events[i]));
            proof {
                assert(raw@ =~= spec_raw_events_of_key_events(events@.take(i + 1)));
            }
            i = i + 1;
        }
        proof {
            assert(events@.take(events@.len() as int) =~= events@);
        }
        RawCombo { events: raw }
    }

    /// Decodes this raw combo to a sequence of [`KeyEvent`]s, if every event
    /// decodes.
    pub fn to_key_events(&self) -> (r: Option<Vec<KeyEvent>>)
        ensures
            spec_key_events_of_raw(self@) is Some ==> (r matches Some(es) && es@
                == spec_key_events_of_raw(self@)->0),
            spec_key_events_of_raw(self@) is None ==> r is None,
    {
        let mut out: Vec<KeyEvent> = Vec::new();
        let mut i: usize = 0;
        while i < self.events.len()
            invariant
                i <= self.events@.len(),
                spec_key_events_of_raw(self.events@.take(i as int)) matches Some(es) && es
                    =~= out@,
            decreases self.events@.len() - i,
        {
            proof {
                assert(self.events@.take(i + 1).drop_last() =~= self.events@.take(i as int));
            }
            match self.events[i].to_key_event() {
                Some(e) => {
                    out.push(e);
                },
                None => {
                    proof {
                        lemma_prefix_none_all_none(self.events@, i + 1);
                    }
                    return None;
                },
            }
            i = i + 1;
        }
        proof {
            assert(self.events@.take(self.events@.len() as int) =~= self.events@);
        }
        Some(out)
    }
}

/// If a prefix of a raw key event sequence fails to decode, so does the
/// whole sequence.
proof fn lemma_prefix_none_all_none(rs: Seq<RawKeyEvent>, i: int)
    requires
        0 <= i <= rs.len(),
        spec_key_events_of_raw(rs.take(i)) is None,
    ensures
        spec_key_events_of_raw(rs) is None,
    decreases rs.len() - i,
{
    if i < rs.len() {
        assert(rs.take(i + 1).drop_last() =~= rs.take(i));
        lemma_prefix_none_all_none(rs, i + 1);
    } else {
        assert(rs.take(i) =~= rs);
    }
}

/// The mathematical value of a [`RawMacro`].
#[verifier::ext_equal]
pub struct RawMacroV {
    pub name: Seq<char>,
    pub events: Seq<RawMacroEvent>,
}

/// A named sequence of up to 70 key events with delays.
#[derive(Debug, Clone)]
pub struct RawMacro {
    pub name: String,
    pub events: Vec<RawMacroEvent>,
}

impl View for RawMacro {
    type V = RawMacroV;

    open spec fn view(&self) -> RawMacroV {
        RawMacroV { name: self.name@, events: self.events@ }
    }
}

impl RawMacro {
    pub fn new(name: String, events: Vec<RawMacroEvent>) -> (r: Self)
        ensures
            r@ == (RawMacroV { name: name@, events: events@ }),
    {
        RawMacro { name, events }
    }
}

/// The raw macro events of a sequence of [`MacroEvent`]s.
pub open spec fn spec_raw_events_of_macro_events(es: Seq<MacroEvent>) -> Seq<RawMacroEvent> {
    es.map_values(
        |e: MacroEvent| RawMacroEvent {
            key_event: spec_raw_of_key_event(e.key_event),
            delay_ms: e.delay_ms,
        },
    )
}

/// The [`MacroEvent`]s of a sequence of raw macro events; `None` if any key
/// event decodes to nothing.
pub open spec fn spec_macro_events_of_raw(rs: Seq<RawMacroEvent>) -> Option<Seq<MacroEvent>>
    decreases rs.len(),
{
    if rs.len() == 0 {
        Some(Seq::empty())
    } else {
        match (
            spec_macro_events_of_raw(rs.drop_last()),
            spec_key_event_of_raw(rs.last().key_event),
        ) {
            (Some(es), Some(e)) => Some(
                es.push(MacroEvent { key_event: e, delay_ms: rs.last().delay_ms }),
            ),
            _ => None,
        }
    }
}

/// Every sequence of [`MacroEvent`]s round-trips through its raw form.
pub proof fn lemma_macro_events_round_trip(es: Seq<MacroEvent>)
    ensures
        spec_macro_events_of_raw(spec_raw_events_of_macro_events(es)) == Some(es),
    decreases es.len(),
{
    let rs = spec_raw_events_of_macro_events(es);
    if es.len() == 0 {
        assert(rs =~= Seq::<RawMacroEvent>::empty());
    } else {
        assert(rs.drop_last() =~= spec_raw_events_of_macro_events(es.drop_last()));
        lemma_macro_events_round_trip(es.drop_last());
        lemma_key_event_round_trip(es.last().key_event);
        assert(es.drop_last().push(es.last()) =~= es);
    }
}

/// Encodes a sequence of [`MacroEvent`]s as raw macro events.
pub fn raw_events_of_macro_events(events: &Vec<MacroEvent>) -> (r: Vec<RawMacroEvent>)
    ensures
        r@ == spec_raw_events_of_macro_events(events@),
{
    let mut raw: Vec<RawMacroEvent> = Vec::new();
    let mut i: usize = 0;
    while i < events.len()
        invariant
            i <= events@.len(),
            raw@ =~= spec_raw_events_of_macro_events(events@.take(i as int)),
        decreases events@.len() - i,
    {
        raw.push(RawMacroEvent::from_macro_event(&events[i]));
        proof {
            assert(raw@ =~= spec_raw_events_of_macro_events(events@.take(i + 1)));
        }
        i = i + 1;
    }
    proof {
        assert(events@.take(events@.len() as int) =~= events@);
    }
    raw
}

/// Decodes raw macro events to [`MacroEvent`]s, if every key event decodes.
pub fn macro_events_of_raw(raw: &Vec<RawMacroEvent>) -> (r: Option<Vec<MacroEvent>>)
    ensures
        spec_macro_events_of_raw(raw@) is Some ==> (r matches Some(es) && es@
            == spec_macro_events_of_raw(raw@)->0),
        spec_macro_events_of_raw(raw@) is None ==> r is None,
{
    let mut out: Vec<MacroEvent> = Vec::new();
    let mut i: usize = 0;
    while i < raw.len()
        invariant
            i <= raw@.len(),
            spec_macro_events_of_raw(raw@.take(i as int)) matches Some(es) && es =~= out@,
        decreases raw@.len() - i,
    {
        proof {
            assert(raw@.take(i + 1).drop_last() =~= raw@.take(i as int));
        }
        match raw[i].to_macro_event() {
            Some(e) => {
                out.push(e);
            },
            None => {
                proof {
                    lemma_macro_prefix_none_all_none(raw@, i + 1);
                }
                return None;
            },
        }
        i = i + 1;
    }
    proof {
        assert(raw@.take(raw@.len() as int) =~= raw@);
    }
    Some(out)
}

/// If a prefix of a raw macro event sequence fails to decode, so does the
/// whole sequence.
proof fn lemma_macro_prefix_none_all_none(rs: Seq<RawMacroEvent>, i: int)
    requires
        0 <= i <= rs.len(),
        spec_macro_events_of_raw(rs.take(i)) is None,
    ensures
        spec_macro_events_of_raw(rs) is None,
    decreases rs.len() - i,
{
    if i < rs.len() {
        assert(rs.take(i + 1).drop_last() =~= rs.take(i));
        lemma_macro_prefix_none_all_none(rs, i + 1);
    } else {
        assert(rs.take(i) =~= rs);
    }
}

/// If parsing a 3-aligned prefix of a key event region fails, parsing the
/// whole region fails.
pub proof fn lemma_parse_key_events_prefix_none(b: Seq<u8>, j: int)
    requires
        0 <= j <= b.len(),
        (b.len() - j) % 3 == 0,
        spec_parse_key_events(b.take(j)) is None,
    ensures
        spec_parse_key_events(b) is None,
    decreases b.len() - j,
{
    if j < b.len() {
        assert(b.take(j + 3).take(j) =~= b.take(j));
        lemma_parse_key_events_prefix_none(b, j + 3);
    } else {
        assert(b.take(j) =~= b);
    }
}

/// If parsing a 5-aligned prefix of a macro event region fails, parsing the
/// whole region fails.
pub proof fn lemma_parse_macro_events_prefix_none(b: Seq<u8>, j: int)
    requires
        0 <= j <= b.len(),
        (b.len() - j) % 5 == 0,
        spec_parse_macro_events(b.take(j)) is None,
    ensures
        spec_parse_macro_events(b) is None,
    decreases b.len() - j,
{
    if j < b.len() {
        assert(b.take(j + 5).take(j) =~= b.take(j));
        lemma_parse_macro_events_prefix_none(b, j + 5);
    } else {
        assert(b.take(j) =~= b);
    }
}

} // verus!
