//! Translation between the user-facing [`Profile`] and the wire-level
//! [`RawProfile`].

use crate::data::{Action, ActionV, MacroEvent};
use crate::error::Error;
use crate::profile::{MacroDef, MacroDefV, Profile, ProfileV};
use crate::raw_data::{
    spec_dpi_from_raw, spec_dpi_of_raw, spec_dpi_to_raw, spec_key_events_of_raw, spec_macro_events_of_raw,
    spec_raw_events_of_key_events, spec_raw_events_of_macro_events, spec_raw_of_dpi, RawAction,
    RawColor, RawCombo, RawDpi, RawKeyEvent, RawMacro, RawMacroV,
};
use crate::raw_profile::{RawProfile, RawProfileV};
use vstd::pervasive::VecAdditionalExecFns;
use vstd::prelude::*;

verus! {

// ---------------------------------------------------------------------------
// Macro definition lookup
// ---------------------------------------------------------------------------

/// The events of the first macro definition named `name`, if any.
pub open spec fn find_macro(defs: Seq<MacroDefV>, name: Seq<char>) -> Option<Seq<MacroEvent>>
    decreases defs.len(),
{
    if defs.len() == 0 {
        None
    } else if defs.first().name == name {
        Some(defs.first().events)
    } else {
        find_macro(defs.drop_first(), name)
    }
}

/// The position of the first macro definition named `name`, if any.
pub open spec fn find_macro_index(defs: Seq<MacroDefV>, name: Seq<char>) -> int
    decreases defs.len(),
{
    if defs.len() == 0 {
        0
    } else if defs.first().name == name {
        0
    } else {
        1 + find_macro_index(defs.drop_first(), name)
    }
}

// ---------------------------------------------------------------------------
// User to raw
// ---------------------------------------------------------------------------

/// The poll rate divisor byte of a supported poll rate.
pub open spec fn spec_poll_rate_byte(hz: u16) -> Option<u8> {
    if hz == 1000 {
        Some(1u8)
    } else if hz == 500 {
        Some(2u8)
    } else if hz == 250 {
        Some(4u8)
    } else if hz == 125 {
        Some(8u8)
    } else {
        None
    }
}

/// The poll rate of a divisor byte read from the device.
pub open spec fn spec_poll_rate_of_byte(b: u8) -> Option<u16> {
    if b == 1 {
        Some(1000u16)
    } else if b == 2 {
        Some(500u16)
    } else if b == 4 {
        Some(250u16)
    } else if b == 8 {
        Some(125u16)
    } else {
        None
    }
}

/// The byte of an optional boolean setting: 1 for true, 0 for false.
pub open spec fn spec_bool_byte(v: Option<bool>) -> Option<u8> {
    match v {
        Some(true) => Some(1u8),
        Some(false) => Some(0u8),
        None => None,
    }
}

/// Whether one action can be encoded against the given macro definitions.
pub open spec fn spec_action_encodable(a: ActionV, defs: Seq<MacroDefV>) -> bool {
    match a {
        ActionV::Combo { events } => events.len() <= 6,
        ActionV::Macro { name } => {
            &&& find_macro(defs, name) is Some
            &&& vstd::utf8::encode_utf8(name).len() <= 30
            &&& find_macro(defs, name)->0.len() <= 70
        },
        _ => true,
    }
}

/// Whether a profile can be written to the device: collection sizes and
/// scalar ranges within the wire layout's bounds, a supported poll rate,
/// and every combo and macro reference in range.
pub open spec fn spec_profile_encodable(p: ProfileV) -> bool {
    &&& p.dpis.len() <= 8
    &&& p.dpi_colors.len() <= 8
    &&& p.button_actions.len() <= 16
    &&& (p.current_dpi_index is Some ==> p.current_dpi_index->0 < 8)
    &&& (p.lift_off_distance is Some ==> p.lift_off_distance->0 < 2)
    &&& (p.debounce_ms is Some ==> p.debounce_ms->0 < 16)
    &&& (p.peak_performance_time is Some ==> p.peak_performance_time->0 < 2551)
    &&& (p.poll_rate is Some ==> spec_poll_rate_byte(p.poll_rate->0) is Some)
    &&& (forall|i: int|
        0 <= i < p.button_actions.len() ==> spec_action_encodable(
            #[trigger] p.button_actions[i],
            p.macros,
        ))
}

/// The number of macro actions in an action list.
pub open spec fn num_macro_actions(actions: Seq<ActionV>) -> int
    decreases actions.len(),
{
    if actions.len() == 0 {
        0
    } else {
        num_macro_actions(actions.drop_last()) + if actions.last() is Macro {
            1int
        } else {
            0int
        }
    }
}

/// The raw action of one user action; a macro action carries the index of
/// its reserved macro slot.
pub open spec fn spec_raw_action_of(a: ActionV, macro_index: int) -> RawAction {
    match a {
        ActionV::Disabled => RawAction::Disabled,
        ActionV::LeftClick => RawAction::Button { id: 1 },
        ActionV::RightClick => RawAction::Button { id: 2 },
        ActionV::MiddleClick => RawAction::Button { id: 4 },
        ActionV::BackClick => RawAction::Button { id: 8 },
        ActionV::ForwardClick => RawAction::Button { id: 16 },
        ActionV::DpiLoop => RawAction::DpiLoop,
        ActionV::DpiUp => RawAction::DpiUp,
        ActionV::DpiDown => RawAction::DpiDown,
        ActionV::DpiLock { dpi } => RawAction::DpiLock { dpi: spec_dpi_to_raw(dpi) },
        ActionV::PollRateLoop => RawAction::PollRateLoop,
        ActionV::WheelLeft => RawAction::WheelLeft,
        ActionV::WheelRight => RawAction::WheelRight,
        ActionV::WheelUp => RawAction::WheelUp,
        ActionV::WheelDown => RawAction::WheelDown,
        ActionV::Fire { interval, repeat } => RawAction::Fire { interval, repeat },
        ActionV::Combo { events: _ } => RawAction::Combo,
        ActionV::Macro { name: _ } => RawAction::Macro { index: macro_index as u8 },
    }
}

/// The raw action slots of a user action list: every slot present, macro
/// actions numbered in order of appearance.
pub open spec fn spec_raw_actions(actions: Seq<ActionV>) -> Seq<Option<RawAction>> {
    Seq::new(
        actions.len(),
        |i: int| Some(spec_raw_action_of(actions[i], num_macro_actions(actions.take(i)))),
    )
}

/// The combo slots of a user action list: one per combo action, at that
/// action's index.
pub open spec fn spec_combos_of(actions: Seq<ActionV>) -> Seq<Option<Seq<RawKeyEvent>>> {
    Seq::new(
        actions.len(),
        |i: int|
            match actions[i] {
                ActionV::Combo { events } => Some(spec_raw_events_of_key_events(events)),
                _ => None,
            },
    )
}

/// The macro slots of a user action list, in order of appearance of the
/// macro actions that reserve them.
pub open spec fn spec_macro_slots(actions: Seq<ActionV>, defs: Seq<MacroDefV>) -> Seq<RawMacroV>
    decreases actions.len(),
{
    if actions.len() == 0 {
        Seq::empty()
    } else {
        spec_macro_slots(actions.drop_last(), defs) + match actions.last() {
            ActionV::Macro { name } => seq![
                RawMacroV {
                    name,
                    events: spec_raw_events_of_macro_events(
                        match find_macro(defs, name) {
                            Some(es) => es,
                            None => Seq::empty(),
                        },
                    ),
                },
            ],
            _ => Seq::empty(),
        }
    }
}

/// The raw profile an encodable user profile translates to.
pub open spec fn spec_user_to_raw(p: ProfileV) -> RawProfileV {
    let stage_count = if p.dpis.len() >= p.dpi_colors.len() {
        p.dpis.len() as int
    } else {
        p.dpi_colors.len() as int
    };
    RawProfileV {
        poll_rate: match p.poll_rate {
            Some(hz) => spec_poll_rate_byte(hz),
            None => None,
        },
        dpi_count: if stage_count == 0 {
            None
        } else {
            Some(stage_count as u8)
        },
        current_dpi_index: match p.current_dpi_index {
            Some(i) => Some(i as u8),
            None => None,
        },
        lift_off_distance: p.lift_off_distance,
        dpis: Seq::new(p.dpis.len(), |i: int| Some(spec_raw_of_dpi(p.dpis[i]))),
        dpi_colors: Seq::new(
            p.dpi_colors.len(),
            |i: int|
                Some(
                    RawColor {
                        red: p.dpi_colors[i].red,
                        green: p.dpi_colors[i].green,
                        blue: p.dpi_colors[i].blue,
                    },
                ),
        ),
        button_actions: spec_raw_actions(p.button_actions),
        debounce_ms: p.debounce_ms,
        motion_sync: spec_bool_byte(p.motion_sync),
        angle_snapping: spec_bool_byte(p.angle_snapping),
        ripple_control: spec_bool_byte(p.ripple_control),
        peak_performance: spec_bool_byte(p.peak_performance),
        peak_performance_time: match p.peak_performance_time {
            Some(ms) => Some((ms / 10) as u8),
            None => None,
        },
        high_performance: spec_bool_byte(p.high_performance),
        combos: spec_combos_of(p.button_actions),
        macros: spec_macro_slots(p.button_actions, p.macros).map_values(
            |m: RawMacroV| Some(m),
        ),
    }
}

/// Finds the first macro definition with the given name.
fn lookup_macro<'a>(defs: &'a Vec<MacroDef>, name: &String) -> (r: Option<&'a MacroDef>)
    ensures
        find_macro(view_defs(defs@), name@) is Some <==> r is Some,
        r matches Some(d) ==> d@.name == name@ && Some(d@.events) == find_macro(
            view_defs(defs@),
            name@,
        ),
{
    let mut j: usize = 0;
    proof {
        assert(view_defs(defs@).skip(0) =~= view_defs(defs@));
    }
    while j < defs.len()
        invariant
            j <= defs@.len(),
            find_macro(view_defs(defs@), name@) == find_macro(
                view_defs(defs@).skip(j as int),
                name@,
            ),
            forall|k: int| 0 <= k < j ==> (#[trigger] defs@[k])@.name != name@,
        decreases defs@.len() - j,
    {
        proof {
            assert(view_defs(defs@).skip(j as int).first() == defs@[j as int]@);
            assert(view_defs(defs@).skip(j as int).drop_first() =~= view_defs(defs@).skip(j + 1));
        }
        if defs[j].name == *name {
            return Some(&defs[j]);
        }
        j = j + 1;
    }
    proof {
        assert(view_defs(defs@).skip(defs@.len() as int) =~= Seq::<MacroDefV>::empty());
    }
    None
}

/// The mathematical values of a list of macro definitions.
pub open spec fn view_defs(defs: Seq<MacroDef>) -> Seq<MacroDefV> {
    Seq::new(defs.len(), |i: int| defs[i]@)
}

impl RawProfile {
    /// Translates a user profile to its raw form.
    ///
    /// Returns [`Error::InvalidConversion`] exactly when the profile is not
    /// encodable: an out-of-range scalar, an unsupported poll rate, more
    /// than 8 DPI stages or colours or 16 button actions, a combo of more
    /// than 6 events, or a macro reference that dangles, has a name longer
    /// than 30 UTF-8 bytes, or more than 70 events.
    #[verifier::rlimit(100)]
    #[verifier::loop_isolation(false)]
    pub fn from_profile(profile: &Profile) -> (r: Result<Self, Error>)
        ensures
            spec_profile_encodable(profile@) <==> r is Ok,
            r matches Ok(rp) ==> rp@ == spec_user_to_raw(profile@) && rp@.wf(),
            r matches Err(e) ==> e matches Error::InvalidConversion(_),
    {
        if profile.dpis.len() > 8 {
            return Err(Error::InvalidConversion("More than 8 DPI stages".to_owned()));
        }
        if profile.dpi_colors.len() > 8 {
            return Err(Error::InvalidConversion("More than 8 DPI colours".to_owned()));
        }
        if profile.button_actions.len() > 16 {
            return Err(Error::InvalidConversion("More than 16 button actions".to_owned()));
        }
        if let Some(i) = profile.current_dpi_index {
            if i >= 8 {
                return Err(Error::InvalidConversion("DPI index out of range".to_owned()));
            }
        }
        if let Some(d) = profile.lift_off_distance {
            if d >= 2 {
                return Err(Error::InvalidConversion("Lift-off distance out of range".to_owned()));
            }
        }
        if let Some(d) = profile.debounce_ms {
            if d >= 16 {
                return Err(Error::InvalidConversion("Debounce time out of range".to_owned()));
            }
        }
        if let Some(t) = profile.peak_performance_time {
            if t >= 2551 {
                return Err(
                    Error::InvalidConversion("Peak performance time out of range".to_owned()),
                );
            }
        }
        let poll_rate: Option<u8> = match profile.poll_rate {
            Some(1000) => Some(1),
            Some(500) => Some(2),
            Some(250) => Some(4),
            Some(125) => Some(8),
            Some(_) => {
                return Err(
                    Error::InvalidConversion(
                        "Invalid poll rate value to write to mouse".to_owned(),
                    ),
                );
            },
            None => None,
        };
        let mut button_actions: Vec<Option<RawAction>> = Vec::new();
        let mut combos: Vec<Option<RawCombo>> = Vec::new();
        let mut macros: Vec<Option<RawMacro>> = Vec::new();
        let mut macro_index: usize = 0;
        let mut i: usize = 0;
        while i < profile.button_actions.len()
            invariant
                i <= profile@.button_actions.len(),
                macro_index == num_macro_actions(profile@.button_actions.take(i as int)),
                macro_index <= i,
                forall|k: int|
                    0 <= k < i ==> spec_action_encodable(
                        #[trigger] profile@.button_actions[k],
                        profile@.macros,
                    ),
                button_actions@ =~= spec_raw_actions(profile@.button_actions).take(i as int),
                combos@.len() == i,
                forall|k: int|
                    0 <= k < i ==> {
                        let s = spec_combos_of(profile@.button_actions)[k];
                        match #[trigger] combos@[k] {
                            Some(c) => s is Some && c@ == s->0,
                            None => s is None,
                        }
                    },
                macros@.len() == macro_index,
                spec_macro_slots(profile@.button_actions.take(i as int), profile@.macros).len()
                    == macro_index,
                forall|k: int|
                    0 <= k < macro_index ==> (#[trigger] macros@[k]) is Some && macros@[k]->0@
                        == spec_macro_slots(
                        profile@.button_actions.take(i as int),
                        profile@.macros,
                    )[k],
            decreases profile@.button_actions.len() - i,
        {
            let ghost prefix = profile@.button_actions.take(i as int);
            let ghost prefix1 = profile@.button_actions.take(i + 1);
            proof {
                assert(prefix1.drop_last() =~= prefix);
                assert(prefix1.last() == profile@.button_actions[i as int]);
                assert(profile@.button_actions[i as int] == profile.button_actions@[i as int]@);
            }
            let raw_action: RawAction = match &profile.button_actions[i] {
                Action::Disabled => RawAction::Disabled,
                Action::LeftClick => RawAction::Button { id: 1 },
                Action::RightClick => RawAction::Button { id: 2 },
                Action::MiddleClick => RawAction::Button { id: 4 },
                Action::BackClick => RawAction::Button { id: 8 },
                Action::ForwardClick => RawAction::Button { id: 16 },
                Action::DpiLoop => RawAction::DpiLoop,
                Action::DpiUp => RawAction::DpiUp,
                Action::DpiDown => RawAction::DpiDown,
                Action::DpiLock { dpi } => RawAction::DpiLock {
                    dpi: crate::raw_data::dpi_to_raw(*dpi),
                },
                Action::PollRateLoop => RawAction::PollRateLoop,
                Action::WheelLeft => RawAction::WheelLeft,
                Action::WheelRight => RawAction::WheelRight,
                Action::WheelUp => RawAction::WheelUp,
                Action::WheelDown => RawAction::WheelDown,
                Action::Fire { interval, repeat } => RawAction::Fire {
                    interval: *interval,
                    repeat: *repeat,
                },
                Action::Combo { events } => {
                    if events.len() > 6 {
                        return Err(
                            Error::InvalidConversion("Combo has more than 6 events".to_owned()),
                        );
                    }
                    RawAction::Combo
                },
                Action::Macro { name } => {
                    match lookup_macro(&profile.macros, name) {
                        Some(def) => {
                            if def.name.as_str().as_bytes().len() > 30 {
                                return Err(
                                    Error::InvalidConversion(
                                        "Macro name longer than 30 bytes".to_owned(),
                                    ),
                                );
                            }
                            if def.events.len() > 70 {
                                return Err(
                                    Error::InvalidConversion(
                                        "Macro has more than 70 events".to_owned(),
                                    ),
                                );
                            }
                            RawAction::Macro { index: macro_index as u8 }
                        },
                        None => {
                            return Err(
                                Error::InvalidConversion("Macro does not exist".to_owned()),
                            );
                        },
                    }
                },
            };
            match &profile.button_actions[i] {
                Action::Combo { events } => {
                    combos.push(Some(RawCombo::from_key_events(events)));
                },
                _ => {
                    combos.push(None);
                },
            }
            match &profile.button_actions[i] {
                Action::Macro { name } => {
                    let def = match lookup_macro(&profile.macros, name) {
                        Some(d) => d,
                        None => {
                            return Err(
                                Error::InvalidConversion("Macro does not exist".to_owned()),
                            );
                        },
                    };
                    let raw_events = crate::raw_data::raw_events_of_macro_events(&def.events);
                    macros.push(Some(RawMacro { name: def.name.clone(), events: raw_events }));
                    macro_index = macro_index + 1;
                },
                _ => {},
            }
            button_actions.push(Some(raw_action));
            proof {
                assert(view_defs(profile.macros@) =~= profile@.macros);
                lemma_macro_slots_bound(prefix, profile@.macros);
                lemma_macro_slots_bound(prefix1, profile@.macros);
                assert(num_macro_actions(prefix1) == macro_index);
                assert(spec_action_encodable(profile@.button_actions[i as int], profile@.macros));
                assert(button_actions@ =~= spec_raw_actions(profile@.button_actions).take(i + 1));
                assert(spec_macro_slots(prefix1, profile@.macros) =~= spec_macro_slots(
                    prefix,
                    profile@.macros,
                ) + match profile@.button_actions[i as int] {
                    ActionV::Macro { name } => seq![
                        RawMacroV {
                            name,
                            events: spec_raw_events_of_macro_events(
                                match find_macro(profile@.macros, name) {
                                    Some(es) => es,
                                    None => Seq::empty(),
                                },
                            ),
                        },
                    ],
                    _ => Seq::<RawMacroV>::empty(),
                });
            }
            i = i + 1;
        }
        proof {
            assert(profile@.button_actions.take(profile@.button_actions.len() as int)
                =~= profile@.button_actions);
            lemma_macro_slots_bound(profile@.button_actions, profile@.macros);
        }
        let stage_count = if profile.dpis.len() >= profile.dpi_colors.len() {
            profile.dpis.len()
        } else {
            profile.dpi_colors.len()
        };
        let mut dpis: Vec<Option<RawDpi>> = Vec::new();
        let mut i: usize = 0;
        while i < profile.dpis.len()
            invariant
                i <= profile@.dpis.len(),
                dpis@ =~= Seq::new(i as nat, |k: int| Some(spec_raw_of_dpi(profile@.dpis[k]))),
            decreases profile@.dpis.len() - i,
        {
            dpis.push(Some(RawDpi::from_dpi(&profile.dpis[i])));
            proof {
                assert(dpis@ =~= Seq::new(
                    (i + 1) as nat,
                    |k: int| Some(spec_raw_of_dpi(profile@.dpis[k])),
                ));
            }
            i = i + 1;
        }
        let mut dpi_colors: Vec<Option<RawColor>> = Vec::new();
        let mut i: usize = 0;
        while i < profile.dpi_colors.len()
            invariant
                i <= profile@.dpi_colors.len(),
                dpi_colors@ =~= Seq::new(
                    i as nat,
                    |k: int|
                        Some(
                            RawColor {
                                red: profile@.dpi_colors[k].red,
                                green: profile@.dpi_colors[k].green,
                                blue: profile@.dpi_colors[k].blue,
                            },
                        ),
                ),
            decreases profile@.dpi_colors.len() - i,
        {
            dpi_colors.push(Some(RawColor::from_color(&profile.dpi_colors[i])));
            proof {
                assert(dpi_colors@ =~= Seq::new(
                    (i + 1) as nat,
                    |k: int|
                        Some(
                            RawColor {
                                red: profile@.dpi_colors[k].red,
                                green: profile@.dpi_colors[k].green,
                                blue: profile@.dpi_colors[k].blue,
                            },
                        ),
                ));
            }
            i = i + 1;
        }
        let rp = RawProfile {
            poll_rate,
            dpi_count: if stage_count == 0 {
                None
            } else {
                Some(stage_count as u8)
            },
            current_dpi_index: match profile.current_dpi_index {
                Some(i) => Some(i as u8),
                None => None,
            },
            lift_off_distance: profile.lift_off_distance,
            dpis,
            dpi_colors,
            button_actions,
            debounce_ms: profile.debounce_ms,
            motion_sync: bool_byte(profile.motion_sync),
            angle_snapping: bool_byte(profile.angle_snapping),
            ripple_control: bool_byte(profile.ripple_control),
            peak_performance: bool_byte(profile.peak_performance),
            peak_performance_time: match profile.peak_performance_time {
                Some(ms) => Some((ms / 10) as u8),
                None => None,
            },
            high_performance: bool_byte(profile.high_performance),
            combos,
            macros,
        };
        proof {
            let v = spec_user_to_raw(profile@);
            assert(rp@.combos =~= v.combos);
            assert(rp@.macros =~= v.macros);
            assert(rp@ =~= v);
            lemma_user_to_raw_wf(profile@);
        }
        Ok(rp)
    }
}

/// The byte of an optional boolean setting.
fn bool_byte(v: Option<bool>) -> (r: Option<u8>)
    ensures
        r == spec_bool_byte(v),
{
    match v {
        Some(true) => Some(1),
        Some(false) => Some(0),
        None => None,
    }
}

/// The raw form of an encodable profile is well formed for the wire layout.
pub proof fn lemma_user_to_raw_wf(p: ProfileV)
    requires
        spec_profile_encodable(p),
    ensures
        spec_user_to_raw(p).wf(),
{
    let r = spec_user_to_raw(p);
    lemma_macro_slots_bound(p.button_actions, p.macros);
    assert forall|i: int| 0 <= i < r.combos.len() && r.combos[i] is Some implies (
    #[trigger] r.combos[i])->0.len() <= 6 by {
        assert(spec_action_encodable(p.button_actions[i], p.macros));
    }
    assert forall|i: int| 0 <= i < r.macros.len() && r.macros[i] is Some implies {
        let m = (#[trigger] r.macros[i])->0;
        vstd::utf8::encode_utf8(m.name).len() <= 30 && m.events.len() <= 70
    } by {
        lemma_macro_slots_encodable(p.button_actions, p.macros, i);
    }
}

/// There are as many macro slots as macro actions.
pub proof fn lemma_macro_slots_bound(actions: Seq<ActionV>, defs: Seq<MacroDefV>)
    ensures
        spec_macro_slots(actions, defs).len() == num_macro_actions(actions),
        num_macro_actions(actions) <= actions.len(),
    decreases actions.len(),
{
    if actions.len() > 0 {
        lemma_macro_slots_bound(actions.drop_last(), defs);
    }
}

/// Every macro slot of an encodable action list fits the wire layout.
proof fn lemma_macro_slots_encodable(actions: Seq<ActionV>, defs: Seq<MacroDefV>, i: int)
    requires
        forall|k: int|
            0 <= k < actions.len() ==> spec_action_encodable(#[trigger] actions[k], defs),
        0 <= i < spec_macro_slots(actions, defs).len(),
    ensures
        vstd::utf8::encode_utf8(spec_macro_slots(actions, defs)[i].name).len() <= 30,
        spec_macro_slots(actions, defs)[i].events.len() <= 70,
    decreases actions.len(),
{
    lemma_macro_slots_bound(actions, defs);
    if actions.len() > 0 {
        lemma_macro_slots_bound(actions.drop_last(), defs);
        if i < spec_macro_slots(actions.drop_last(), defs).len() {
            lemma_macro_slots_encodable(actions.drop_last(), defs, i);
        } else {
            let a = actions.last();
            assert(spec_action_encodable(a, defs));
            match a {
                ActionV::Macro { name } => {
                    let es = find_macro(defs, name)->0;
                    assert(spec_raw_events_of_macro_events(es).len() == es.len());
                },
                _ => {},
            }
        }
    }
}

// ---------------------------------------------------------------------------
// Raw to user
// ---------------------------------------------------------------------------

/// The kinds of failure of raw-to-user translation: a slot that was
/// expected to be present is absent, or present bytes decode to no known
/// value.
pub enum RawToUserErr {
    BadChecksum,
    Invalid,
}

/// Inserts or replaces a macro definition: the first definition of the same
/// name is replaced, otherwise the definition is appended.
pub open spec fn upsert_macro(
    defs: Seq<MacroDefV>,
    name: Seq<char>,
    events: Seq<MacroEvent>,
) -> Seq<MacroDefV> {
    if find_macro(defs, name) is Some {
        defs.update(find_macro_index(defs, name), MacroDefV { name, events })
    } else {
        defs.push(MacroDefV { name, events })
    }
}

/// The user action of raw action slot `i`, or the failure decoding it.
pub open spec fn spec_action_of_raw(r: RawProfileV, i: int) -> Result<ActionV, RawToUserErr> {
    match r.button_actions[i] {
        None => Err(RawToUserErr::BadChecksum),
        Some(a) => match a {
            RawAction::Disabled => Ok(ActionV::Disabled),
            RawAction::Button { id } => {
                if id == 1 {
                    Ok(ActionV::LeftClick)
                } else if id == 2 {
                    Ok(ActionV::RightClick)
                } else if id == 4 {
                    Ok(ActionV::MiddleClick)
                } else if id == 8 {
                    Ok(ActionV::BackClick)
                } else if id == 16 {
                    Ok(ActionV::ForwardClick)
                } else {
                    Err(RawToUserErr::Invalid)
                }
            },
            RawAction::DpiLoop => Ok(ActionV::DpiLoop),
            RawAction::DpiUp => Ok(ActionV::DpiUp),
            RawAction::DpiDown => Ok(ActionV::DpiDown),
            RawAction::WheelLeft => Ok(ActionV::WheelLeft),
            RawAction::WheelRight => Ok(ActionV::WheelRight),
            RawAction::Fire { interval, repeat } => Ok(ActionV::Fire { interval, repeat }),
            RawAction::Combo => {
                if 0 <= i < r.combos.len() && r.combos[i] is Some {
                    match spec_key_events_of_raw(r.combos[i]->0) {
                        Some(es) => Ok(ActionV::Combo { events: es }),
                        None => Err(RawToUserErr::Invalid),
                    }
                } else {
                    Err(RawToUserErr::Invalid)
                }
            },
            RawAction::Macro { index } => {
                if index < r.macros.len() && r.macros[index as int] is Some {
                    match spec_macro_events_of_raw(r.macros[index as int]->0.events) {
                        Some(_) => Ok(ActionV::Macro { name: r.macros[index as int]->0.name }),
                        None => Err(RawToUserErr::Invalid),
                    }
                } else {
                    Err(RawToUserErr::Invalid)
                }
            },
            RawAction::PollRateLoop => Ok(ActionV::PollRateLoop),
            RawAction::DpiLock { dpi } => Ok(ActionV::DpiLock { dpi: spec_dpi_from_raw(dpi) }),
            RawAction::WheelUp => Ok(ActionV::WheelUp),
            RawAction::WheelDown => Ok(ActionV::WheelDown),
        },
    }
}

/// The macro definitions after handling raw action slot `i`: decoding a
/// macro action records its macro under the macro's stored name, the last
/// write to a name winning.
pub open spec fn spec_defs_step(r: RawProfileV, i: int, defs: Seq<MacroDefV>) -> Seq<MacroDefV> {
    match r.button_actions[i] {
        Some(RawAction::Macro { index }) => {
            if index < r.macros.len() && r.macros[index as int] is Some
                && spec_macro_events_of_raw(r.macros[index as int]->0.events) is Some {
                upsert_macro(
                    defs,
                    r.macros[index as int]->0.name,
                    spec_macro_events_of_raw(r.macros[index as int]->0.events)->0,
                )
            } else {
                defs
            }
        },
        _ => defs,
    }
}

/// The user actions and macro definitions of the first `n` raw action
/// slots.
pub open spec fn spec_actions_macros_of_raw(r: RawProfileV, n: int) -> Result<
    (Seq<ActionV>, Seq<MacroDefV>),
    RawToUserErr,
>
    decreases n,
{
    if n <= 0 {
        Ok((Seq::empty(), Seq::empty()))
    } else {
        match spec_actions_macros_of_raw(r, n - 1) {
            Err(e) => Err(e),
            Ok((acts, defs)) => match spec_action_of_raw(r, n - 1) {
                Err(e) => Err(e),
                Ok(a) => Ok((acts.push(a), spec_defs_step(r, n - 1, defs))),
            },
        }
    }
}

/// The user profile a raw profile translates to, or the failure kind.
///
/// A present poll rate byte outside {1, 2, 4, 8} and undecodable action,
/// combo or macro bytes are invalid; an absent DPI, colour or action slot
/// within the decoded ranges is a checksum failure.
pub open spec fn spec_raw_to_user(r: RawProfileV) -> Result<ProfileV, RawToUserErr> {
    if r.poll_rate is Some && spec_poll_rate_of_byte(r.poll_rate->0) is None {
        Err(RawToUserErr::Invalid)
    } else if !(forall|i: int| 0 <= i < r.dpis.len() ==> (#[trigger] r.dpis[i]) is Some) {
        Err(RawToUserErr::BadChecksum)
    } else if !(forall|i: int|
        0 <= i < r.dpi_colors.len() ==> (#[trigger] r.dpi_colors[i]) is Some) {
        Err(RawToUserErr::BadChecksum)
    } else {
        match spec_actions_macros_of_raw(r, r.button_actions.len() as int) {
            Err(RawToUserErr::BadChecksum) => Err(RawToUserErr::BadChecksum),
            Err(RawToUserErr::Invalid) => Err(RawToUserErr::Invalid),
            Ok((acts, defs)) => Ok(
                ProfileV {
                    poll_rate: match r.poll_rate {
                        Some(b) => spec_poll_rate_of_byte(b),
                        None => None,
                    },
                    current_dpi_index: match r.current_dpi_index {
                        Some(b) => Some(b as usize),
                        None => None,
                    },
                    lift_off_distance: r.lift_off_distance,
                    debounce_ms: r.debounce_ms,
                    motion_sync: spec_byte_bool(r.motion_sync),
                    angle_snapping: spec_byte_bool(r.angle_snapping),
                    ripple_control: spec_byte_bool(r.ripple_control),
                    peak_performance: spec_byte_bool(r.peak_performance),
                    peak_performance_time: match r.peak_performance_time {
                        Some(b) => Some((b * 10) as u16),
                        None => None,
                    },
                    high_performance: spec_byte_bool(r.high_performance),
                    dpis: Seq::new(r.dpis.len(), |i: int| spec_dpi_of_raw(r.dpis[i]->0)),
                    dpi_colors: Seq::new(
                        r.dpi_colors.len(),
                        |i: int|
                            crate::data::Color {
                                red: r.dpi_colors[i]->0.red,
                                green: r.dpi_colors[i]->0.green,
                                blue: r.dpi_colors[i]->0.blue,
                            },
                    ),
                    button_actions: acts,
                    macros: defs,
                },
            ),
        }
    }
}

/// The optional boolean of an optional setting byte: any non-zero byte is
/// true.
pub open spec fn spec_byte_bool(v: Option<u8>) -> Option<bool> {
    match v {
        Some(b) => Some(b != 0),
        None => None,
    }
}

/// Walking a prefix of the definitions without a match skips it.
proof fn lemma_find_macro_skip(defs: Seq<MacroDefV>, name: Seq<char>, j: int)
    requires
        0 <= j <= defs.len(),
        forall|k: int| 0 <= k < j ==> (#[trigger] defs[k]).name != name,
    ensures
        find_macro(defs, name) == find_macro(defs.skip(j), name),
        find_macro(defs.skip(j), name) is Some ==> find_macro_index(defs, name) == j
            + find_macro_index(defs.skip(j), name),
    decreases j,
{
    if j > 0 {
        assert(defs.first().name != name);
        assert(defs.drop_first().skip(j - 1) =~= defs.skip(j));
        assert(forall|k: int|
            0 <= k < j - 1 ==> (#[trigger] defs.drop_first()[k]).name == defs[k + 1].name);
        lemma_find_macro_skip(defs.drop_first(), name, j - 1);
    } else {
        assert(defs.skip(0) =~= defs);
    }
}

/// Inserts or replaces a macro definition in the list.
#[verifier::loop_isolation(false)]
fn upsert_def(defs: &mut Vec<MacroDef>, name: String, events: Vec<MacroEvent>)
    ensures
        view_defs(final(defs)@) == upsert_macro(view_defs(old(defs)@), name@, events@),
{
    let ghost dv = view_defs(defs@);
    let mut j: usize = 0;
    while j < defs.len()
        invariant
            j <= defs@.len(),
            defs@ == old(defs)@,
            forall|k: int| 0 <= k < j ==> (#[trigger] dv[k]).name != name@,
        decreases defs@.len() - j,
    {
        if defs[j].name == name {
            proof {
                lemma_find_macro_skip(dv, name@, j as int);
                assert(dv.skip(j as int).first() == dv[j as int]);
                assert(find_macro_index(dv.skip(j as int), name@) == 0);
            }
            defs.set(j, MacroDef { name, events });
            proof {
                assert(view_defs(defs@) =~= dv.update(
                    j as int,
                    MacroDefV { name: name@, events: events@ },
                ));
            }
            return ;
        }
        j = j + 1;
    }
    proof {
        lemma_find_macro_skip(dv, name@, defs@.len() as int);
        assert(dv.skip(defs@.len() as int) =~= Seq::<MacroDefV>::empty());
    }
    defs.push(MacroDef { name, events });
    proof {
        assert(view_defs(defs@) =~= dv.push(MacroDefV { name: name@, events: events@ }));
    }
}

impl Profile {
    /// Translates a raw profile read from the device to a user profile.
    ///
    /// Returns [`Error::BadChecksum`] when a DPI, colour or action slot
    /// that the decoded counts require is absent, and
    /// [`Error::InvalidConversion`] when present bytes decode to no known
    /// poll rate, button id, key event or macro reference.
    #[verifier::rlimit(100)]
    #[verifier::loop_isolation(false)]
    pub fn from_raw(raw: &RawProfile) -> (r: Result<Self, Error>)
        ensures
            spec_raw_to_user(raw@) matches Ok(v) ==> (r matches Ok(p) && p@ == v),
            spec_raw_to_user(raw@) == Err::<ProfileV, _>(RawToUserErr::BadChecksum) ==> r == Err::<
                Self,
                Error,
            >(Error::BadChecksum),
            spec_raw_to_user(raw@) == Err::<ProfileV, _>(RawToUserErr::Invalid) ==> (r matches Err(
                e,
            ) && e matches Error::InvalidConversion(_)),
    {
        let poll_rate: Option<u16> = match raw.poll_rate {
            Some(1) => Some(1000),
            Some(2) => Some(500),
            Some(4) => Some(250),
            Some(8) => Some(125),
            Some(_) => {
                return Err(
                    Error::InvalidConversion(
                        "Invalid raw poll rate value from mouse".to_owned(),
                    ),
                );
            },
            None => None,
        };
        let mut dpis: Vec<crate::data::Dpi> = Vec::new();
        let mut i: usize = 0;
        while i < raw.dpis.len()
            invariant
                i <= raw@.dpis.len(),
                forall|k: int| 0 <= k < i ==> (#[trigger] raw@.dpis[k]) is Some,
                dpis@ =~= Seq::new(i as nat, |k: int| spec_dpi_of_raw(raw@.dpis[k]->0)),
            decreases raw@.dpis.len() - i,
        {
            match &raw.dpis[i] {
                Some(d) => {
                    dpis.push(d.to_dpi());
                    proof {
                        assert(dpis@ =~= Seq::new(
                            (i + 1) as nat,
                            |k: int| spec_dpi_of_raw(raw@.dpis[k]->0),
                        ));
                    }
                },
                None => {
                    return Err(Error::BadChecksum);
                },
            }
            i = i + 1;
        }
        let mut dpi_colors: Vec<crate::data::Color> = Vec::new();
        let mut i: usize = 0;
        while i < raw.dpi_colors.len()
            invariant
                i <= raw@.dpi_colors.len(),
                forall|k: int| 0 <= k < i ==> (#[trigger] raw@.dpi_colors[k]) is Some,
                dpi_colors@ =~= Seq::new(
                    i as nat,
                    |k: int|
                        crate::data::Color {
                            red: raw@.dpi_colors[k]->0.red,
                            green: raw@.dpi_colors[k]->0.green,
                            blue: raw@.dpi_colors[k]->0.blue,
                        },
                ),
            decreases raw@.dpi_colors.len() - i,
        {
            match &raw.dpi_colors[i] {
                Some(c) => {
                    dpi_colors.push(c.to_color());
                    proof {
                        assert(dpi_colors@ =~= Seq::new(
                            (i + 1) as nat,
                            |k: int|
                                crate::data::Color {
                                    red: raw@.dpi_colors[k]->0.red,
                                    green: raw@.dpi_colors[k]->0.green,
                                    blue: raw@.dpi_colors[k]->0.blue,
                                },
                        ));
                    }
                },
                None => {
                    return Err(Error::BadChecksum);
                },
            }
            i = i + 1;
        }
        let mut button_actions: Vec<Action> = Vec::new();
        let mut macros: Vec<MacroDef> = Vec::new();
        let mut i: usize = 0;
        while i < raw.button_actions.len()
            invariant
                i <= raw@.button_actions.len(),
                spec_actions_macros_of_raw(raw@, i as int) matches Ok((acts, defs))
                    && acts =~= Seq::new(
                    button_actions@.len(),
                    |k: int| button_actions@[k]@,
                ) && defs =~= view_defs(macros@),
            decreases raw@.button_actions.len() - i,
        {
            let a: Action = match &raw.button_actions[i] {
                None => {
                    proof {
                        lemma_actions_prefix_err(raw@, i + 1, raw@.button_actions.len() as int);
                    }
                    return Err(Error::BadChecksum);
                },
                Some(ra) => match ra {
                    RawAction::Disabled => Action::Disabled,
                    RawAction::Button { id } => match id {
                        1 => Action::LeftClick,
                        2 => Action::RightClick,
                        4 => Action::MiddleClick,
                        8 => Action::BackClick,
                        16 => Action::ForwardClick,
                        _ => {
                            proof {
                                lemma_actions_prefix_err(
                                    raw@,
                                    i + 1,
                                    raw@.button_actions.len() as int,
                                );
                            }
                            return Err(
                                Error::InvalidConversion("Invalid button ID from raw".to_owned()),
                            );
                        },
                    },
                    RawAction::DpiLoop => Action::DpiLoop,
                    RawAction::DpiUp => Action::DpiUp,
                    RawAction::DpiDown => Action::DpiDown,
                    RawAction::WheelLeft => Action::WheelLeft,
                    RawAction::WheelRight => Action::WheelRight,
                    RawAction::Fire { interval, repeat } => Action::Fire {
                        interval: *interval,
                        repeat: *repeat,
                    },
                    RawAction::Combo => {
                        if i >= raw.combos.len() {
                            proof {
                                lemma_actions_prefix_err(
                                    raw@,
                                    i + 1,
                                    raw@.button_actions.len() as int,
                                );
                            }
                            return Err(
                                Error::InvalidConversion("Raw combo does not exist".to_owned()),
                            );
                        }
                        match &raw.combos[i] {
                            Some(combo) => match combo.to_key_events() {
                                Some(events) => Action::Combo { events },
                                None => {
                                    proof {
                                        lemma_actions_prefix_err(
                                            raw@,
                                            i + 1,
                                            raw@.button_actions.len() as int,
                                        );
                                    }
                                    return Err(
                                        Error::InvalidConversion(
                                            "Invalid combo key event from raw".to_owned(),
                                        ),
                                    );
                                },
                            },
                            None => {
                                proof {
                                    lemma_actions_prefix_err(
                                        raw@,
                                        i + 1,
                                        raw@.button_actions.len() as int,
                                    );
                                }
                                return Err(
                                    Error::InvalidConversion(
                                        "Raw combo does not exist".to_owned(),
                                    ),
                                );
                            },
                        }
                    },
                    RawAction::Macro { index } => {
                        if (*index as usize) >= raw.macros.len() {
                            proof {
                                lemma_actions_prefix_err(
                                    raw@,
                                    i + 1,
                                    raw@.button_actions.len() as int,
                                );
                            }
                            return Err(
                                Error::InvalidConversion("Raw macro does not exist".to_owned()),
                            );
                        }
                        match &raw.macros[*index as usize] {
                            Some(mac) => match crate::raw_data::macro_events_of_raw(&mac.events) {
                                Some(events) => {
                                    let name = mac.name.clone();
                                    upsert_def(&mut macros, name.clone(), events);
                                    Action::Macro { name }
                                },
                                None => {
                                    proof {
                                        lemma_actions_prefix_err(
                                            raw@,
                                            i + 1,
                                            raw@.button_actions.len() as int,
                                        );
                                    }
                                    return Err(
                                        Error::InvalidConversion(
                                            "Invalid macro key event from raw".to_owned(),
                                        ),
                                    );
                                },
                            },
                            None => {
                                proof {
                                    lemma_actions_prefix_err(
                                        raw@,
                                        i + 1,
                                        raw@.button_actions.len() as int,
                                    );
                                }
                                return Err(
                                    Error::InvalidConversion(
                                        "Raw macro does not exist".to_owned(),
                                    ),
                                );
                            },
                        }
                    },
                    RawAction::PollRateLoop => Action::PollRateLoop,
                    RawAction::DpiLock { dpi } => Action::DpiLock {
                        dpi: crate::raw_data::dpi_from_raw(*dpi),
                    },
                    RawAction::WheelUp => Action::WheelUp,
                    RawAction::WheelDown => Action::WheelDown,
                },
            };
            button_actions.push(a);
            proof {
                assert(spec_actions_macros_of_raw(raw@, i + 1) matches Ok((acts, defs))
                    && acts =~= Seq::new(button_actions@.len(), |k: int| button_actions@[k]@)
                    && defs =~= view_defs(macros@));
            }
            i = i + 1;
        }
        let p = Profile {
            poll_rate,
            current_dpi_index: match raw.current_dpi_index {
                Some(b) => Some(b as usize),
                None => None,
            },
            lift_off_distance: raw.lift_off_distance,
            debounce_ms: raw.debounce_ms,
            motion_sync: byte_bool(raw.motion_sync),
            angle_snapping: byte_bool(raw.angle_snapping),
            ripple_control: byte_bool(raw.ripple_control),
            peak_performance: byte_bool(raw.peak_performance),
            peak_performance_time: match raw.peak_performance_time {
                Some(b) => Some(b as u16 * 10),
                None => None,
            },
            high_performance: byte_bool(raw.high_performance),
            dpis,
            dpi_colors,
            button_actions,
            macros,
        };
        proof {
            let v = spec_raw_to_user(raw@)->Ok_0;
            assert(p@.dpis =~= v.dpis);
            assert(p@.dpi_colors =~= v.dpi_colors);
            assert(p@.button_actions =~= v.button_actions);
            assert(p@.macros =~= v.macros);
            assert(p@ =~= v);
        }
        Ok(p)
    }
}

/// The optional boolean of an optional setting byte.
fn byte_bool(v: Option<u8>) -> (r: Option<bool>)
    ensures
        r == spec_byte_bool(v),
{
    match v {
        Some(b) => Some(b != 0),
        None => None,
    }
}

/// If decoding some action slot fails, decoding any longer prefix fails
/// the same way.
pub(crate) proof fn lemma_actions_prefix_err(r: RawProfileV, j: int, n: int)
    requires
        0 < j <= n,
        spec_actions_macros_of_raw(r, j) is Err,
    ensures
        spec_actions_macros_of_raw(r, n) == spec_actions_macros_of_raw(r, j),
    decreases n - j,
{
    if j < n {
        lemma_actions_prefix_err(r, j + 1, n);
    }
}

} // verus!
