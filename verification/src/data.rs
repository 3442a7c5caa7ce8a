//! Standard mouse configuration data types.
//!
//! Keys are modelled by what the wire protocol distinguishes: a modifier key
//! (one bit of the HID modifier bitmask), a plain key named by its 16-bit USB
//! HID usage code, or one of the five directional keys that have their own
//! encoding.

use vstd::prelude::*;

verus! {

/// Key pressed / released state.
#[derive(Debug, Clone, Copy, PartialEq, Eq, Structural)]
pub enum KeyState {
    Pressed,
    Released,
}

/// The five directional keys, a distinct subclass with their own encoding.
#[derive(Debug, Clone, Copy, PartialEq, Eq, Structural)]
pub enum Direction {
    Left,
    Right,
    Middle,
    Back,
    Forward,
}

/// The eight modifier keys of the HID modifier bitmask.
#[derive(Debug, Clone, Copy, PartialEq, Eq, Structural)]
pub enum Modifier {
    ControlLeft,
    ShiftLeft,
    AltLeft,
    MetaLeft,
    ControlRight,
    ShiftRight,
    AltRight,
    MetaRight,
}

/// A keyboard key as the wire protocol sees it.
#[derive(Debug, Clone, Copy, PartialEq, Eq, Structural)]
pub enum Key {
    /// A modifier key, carried as a one-bit modifier bitmask on the wire.
    Modifier(Modifier),

    /// Any other key, named by its USB HID usage code.
    Hid(u16),

    /// A directional key, carried as its own little-endian code.
    Direction(Direction),
}

/// Key pressed / released events.
#[derive(Debug, Clone, Copy, PartialEq, Eq, Structural)]
pub struct KeyEvent {
    pub key: Key,
    pub state: KeyState,
}

/// Key pressed / released events with a delay.
#[derive(Debug, Clone, Copy, PartialEq, Eq, Structural)]
pub struct MacroEvent {
    pub key_event: KeyEvent,
    pub delay_ms: u16,
}

/// Mouse resolution.
#[derive(Debug, Clone, Copy, PartialEq, Eq, Structural)]
pub enum Dpi {
    /// Both x and y DPI are the same.
    Linked(u16),

    /// Separate x and y DPI.
    Independent(u16, u16),
}

#[derive(Debug, Clone, Copy, PartialEq, Eq, Structural)]
pub struct Color {
    pub red: u8,
    pub green: u8,
    pub blue: u8,
}

/// Mouse actions that can be mapped to buttons.
#[derive(Debug, Clone)]
pub enum Action {
    Disabled,
    LeftClick,
    RightClick,
    MiddleClick,
    BackClick,
    ForwardClick,
    DpiLoop,
    DpiUp,
    DpiDown,
    DpiLock { dpi: u16 },
    PollRateLoop,
    WheelLeft,
    WheelRight,
    WheelUp,
    WheelDown,
    Fire { interval: u8, repeat: u8 },
    Combo { events: Vec<KeyEvent> },
    Macro { name: String },
}

/// The mathematical value of an [`Action`], with sequences for collections.
#[verifier::ext_equal]
pub enum ActionV {
    Disabled,
    LeftClick,
    RightClick,
    MiddleClick,
    BackClick,
    ForwardClick,
    DpiLoop,
    DpiUp,
    DpiDown,
    DpiLock { dpi: u16 },
    PollRateLoop,
    WheelLeft,
    WheelRight,
    WheelUp,
    WheelDown,
    Fire { interval: u8, repeat: u8 },
    Combo { events: Seq<KeyEvent> },
    Macro { name: Seq<char> },
}

impl View for Action {
    type V = ActionV;

    open spec fn view(&self) -> ActionV {
        match self {
            Action::Disabled => ActionV::Disabled,
            Action::LeftClick => ActionV::LeftClick,
            Action::RightClick => ActionV::RightClick,
            Action::MiddleClick => ActionV::MiddleClick,
            Action::BackClick => ActionV::BackClick,
            Action::ForwardClick => ActionV::ForwardClick,
            Action::DpiLoop => ActionV::DpiLoop,
            Action::DpiUp => ActionV::DpiUp,
            Action::DpiDown => ActionV::DpiDown,
            Action::DpiLock { dpi } => ActionV::DpiLock { dpi: *dpi },
            Action::PollRateLoop => ActionV::PollRateLoop,
            Action::WheelLeft => ActionV::WheelLeft,
            Action::WheelRight => ActionV::WheelRight,
            Action::WheelUp => ActionV::WheelUp,
            Action::WheelDown => ActionV::WheelDown,
            Action::Fire { interval, repeat } => ActionV::Fire {
                interval: *interval,
                repeat: *repeat,
            },
            Action::Combo { events } => ActionV::Combo { events: events@ },
            Action::Macro { name } => ActionV::Macro { name: name@ },
        }
    }
}

} // verus!
