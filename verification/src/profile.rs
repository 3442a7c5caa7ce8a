//! Standard profile data for mice.

use crate::data::{Action, ActionV, Color, Dpi, MacroEvent};
use vstd::prelude::*;

verus! {

/// A named sequence of macro events.
///
/// Profiles keep their macros as a list of definitions with pairwise
/// distinct names; an `Action::Macro { name }` refers to the definition of
/// that name.
#[derive(Debug, Clone)]
pub struct MacroDef {
    pub name: String,
    pub events: Vec<MacroEvent>,
}

/// The mathematical value of a [`MacroDef`].
#[verifier::ext_equal]
pub struct MacroDefV {
    pub name: Seq<char>,
    pub events: Seq<MacroEvent>,
}

impl View for MacroDef {
    type V = MacroDefV;

    open spec fn view(&self) -> MacroDefV {
        MacroDefV { name: self.name@, events: self.events@ }
    }
}

/// Standard profile data for mice.
///
/// All scalar fields are optional to allow for partial profile writes: an
/// absent field is left unchanged on write and may be uninitialised on the
/// device on read.
#[derive(Debug, Clone)]
pub struct Profile {
    /// Poll rate in Hz; the device accepts 125, 250, 500 or 1000.
    pub poll_rate: Option<u16>,

    /// Index of the active DPI stage, 0..8.
    pub current_dpi_index: Option<usize>,

    /// Lift-off distance setting, 0 or 1.
    pub lift_off_distance: Option<u8>,

    /// Button debounce time in milliseconds, 0..16.
    pub debounce_ms: Option<u8>,

    pub motion_sync: Option<bool>,
    pub angle_snapping: Option<bool>,
    pub ripple_control: Option<bool>,
    pub peak_performance: Option<bool>,

    /// Peak performance timeout in milliseconds, 0..2551, stored as ms/10.
    pub peak_performance_time: Option<u16>,

    pub high_performance: Option<bool>,

    /// Up to 8 DPI stages.
    pub dpis: Vec<Dpi>,

    /// One colour per DPI stage.
    pub dpi_colors: Vec<Color>,

    /// Up to 16 button actions, one per physical button.
    pub button_actions: Vec<Action>,

    /// Macro definitions referred to by `Action::Macro` entries.
    pub macros: Vec<MacroDef>,
}

/// The mathematical value of a [`Profile`].
#[verifier::ext_equal]
pub struct ProfileV {
    pub poll_rate: Option<u16>,
    pub current_dpi_index: Option<usize>,
    pub lift_off_distance: Option<u8>,
    pub debounce_ms: Option<u8>,
    pub motion_sync: Option<bool>,
    pub angle_snapping: Option<bool>,
    pub ripple_control: Option<bool>,
    pub peak_performance: Option<bool>,
    pub peak_performance_time: Option<u16>,
    pub high_performance: Option<bool>,
    pub dpis: Seq<Dpi>,
    pub dpi_colors: Seq<Color>,
    pub button_actions: Seq<ActionV>,
    pub macros: Seq<MacroDefV>,
}

impl View for Profile {
    type V = ProfileV;

    open spec fn view(&self) -> ProfileV {
        ProfileV {
            poll_rate: self.poll_rate,
            current_dpi_index: self.current_dpi_index,
            lift_off_distance: self.lift_off_distance,
            debounce_ms: self.debounce_ms,
            motion_sync: self.motion_sync,
            angle_snapping: self.angle_snapping,
            ripple_control: self.ripple_control,
            peak_performance: self.peak_performance,
            peak_performance_time: self.peak_performance_time,
            high_performance: self.high_performance,
            dpis: self.dpis@,
            dpi_colors: self.dpi_colors@,
            button_actions: Seq::new(self.button_actions@.len(), |i: int| self.button_actions@[i]@),
            macros: Seq::new(self.macros@.len(), |i: int| self.macros@[i]@),
        }
    }
}

impl ProfileV {
    /// A profile value with every option absent and every collection empty.
    pub open spec fn empty() -> ProfileV {
        ProfileV {
            poll_rate: None,
            current_dpi_index: None,
            lift_off_distance: None,
            debounce_ms: None,
            motion_sync: None,
            angle_snapping: None,
            ripple_control: None,
            peak_performance: None,
            peak_performance_time: None,
            high_performance: None,
            dpis: Seq::empty(),
            dpi_colors: Seq::empty(),
            button_actions: Seq::empty(),
            macros: Seq::empty(),
        }
    }
}

impl Default for Profile {
    /// A profile with every option absent and every collection empty.
    fn default() -> (r: Self)
        ensures
            r@ == ProfileV::empty(),
    {
        let r = Profile {
            poll_rate: None,
            current_dpi_index: None,
            lift_off_distance: None,
            debounce_ms: None,
            motion_sync: None,
            angle_snapping: None,
            ripple_control: None,
            peak_performance: None,
            peak_performance_time: None,
            high_performance: None,
            dpis: Vec::new(),
            dpi_colors: Vec::new(),
            button_actions: Vec::new(),
            macros: Vec::new(),
        };
        proof {
            assert(r@ =~= ProfileV::empty());
        }
        r
    }
}

} // verus!
