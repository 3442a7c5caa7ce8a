//! The library's cross-function laws, stated and proved over the
//! specification-level codecs.

use crate::convert::{
    find_macro, num_macro_actions, spec_action_of_raw, spec_actions_macros_of_raw,
    spec_defs_step, spec_macro_slots, spec_profile_encodable, spec_raw_to_user,
    spec_user_to_raw, upsert_macro, RawToUserErr,
};
use crate::data::ActionV;
use crate::profile::{MacroDefV, ProfileV};
use crate::raw_data::{
    lemma_key_events_round_trip, lemma_macro_events_round_trip, spec_dpi_from_raw,
    spec_dpi_of_raw, spec_dpi_to_raw, spec_raw_of_dpi, RawAction,
};
use crate::raw_profile::{RawProfileV, SegmentV};
use vstd::prelude::*;

verus! {

/// Whether an action's scalar payloads survive their byte encoding
/// exactly: a DPI lock value must be a multiple of 50 between 50 and
/// 12800.
pub open spec fn action_values_exact(a: ActionV) -> bool {
    match a {
        ActionV::DpiLock { dpi } => spec_dpi_from_raw(spec_dpi_to_raw(dpi)) == dpi,
        _ => true,
    }
}

/// Whether some macro action of the list refers to `name`.
pub open spec fn references(actions: Seq<ActionV>, name: Seq<char>) -> bool {
    exists|k: int|
        0 <= k < actions.len() && ((#[trigger] actions[k]) matches ActionV::Macro {
            name: n,
        } && n == name)
}

/// Poll rate law: a decoded profile's poll rate, when present, is one of
/// 125, 250, 500 or 1000 Hz, and encoding any other rate is an error.
pub proof fn lemma_poll_rate_law(p: ProfileV, r: RawProfileV)
    ensures
        spec_raw_to_user(r) is Ok && (spec_raw_to_user(r)->Ok_0).poll_rate is Some ==> {
            let hz = (spec_raw_to_user(r)->Ok_0).poll_rate->0;
            hz == 125 || hz == 250 || hz == 500 || hz == 1000
        },
        p.poll_rate is Some && !{
            let hz = p.poll_rate->0;
            hz == 125 || hz == 250 || hz == 500 || hz == 1000
        } ==> !spec_profile_encodable(p),
{
}

/// Looking up a name after an upsert finds the new events for that name
/// and is unchanged for every other name.
proof fn lemma_upsert_find(
    defs: Seq<MacroDefV>,
    name: Seq<char>,
    events: Seq<crate::data::MacroEvent>,
    other: Seq<char>,
)
    ensures
        other == name ==> find_macro(upsert_macro(defs, name, events), other) == Some(events),
        other != name ==> find_macro(upsert_macro(defs, name, events), other) == find_macro(
            defs,
            other,
        ),
    decreases defs.len(),
{
    let up = upsert_macro(defs, name, events);
    if defs.len() == 0 {
        assert(up =~= seq![MacroDefV { name, events }]);
        assert(up.drop_first() =~= Seq::<MacroDefV>::empty());
    } else {
        if defs.first().name == name {
            assert(up =~= defs.update(0, MacroDefV { name, events }));
            assert(up.first() == MacroDefV { name, events });
            assert(up.drop_first() =~= defs.drop_first());
        } else {
            lemma_upsert_find(defs.drop_first(), name, events, other);
            if find_macro(defs, name) is Some {
                lemma_find_index_in_range(defs, name);
                assert(crate::convert::find_macro_index(defs, name) == 1
                    + crate::convert::find_macro_index(defs.drop_first(), name));
                lemma_find_index_in_range(defs.drop_first(), name);
                assert(up.first() == defs.first());
                assert(up.drop_first() =~= upsert_macro(defs.drop_first(), name, events)) by {
                    assert(defs.update(
                        crate::convert::find_macro_index(defs, name),
                        MacroDefV { name, events },
                    ).drop_first() =~= defs.drop_first().update(
                        crate::convert::find_macro_index(defs, name) - 1,
                        MacroDefV { name, events },
                    ));
                }
            } else {
                assert(up.first() == defs.first());
                assert(up.drop_first() =~= upsert_macro(defs.drop_first(), name, events)) by {
                    assert(defs.push(MacroDefV { name, events }).drop_first()
                        =~= defs.drop_first().push(MacroDefV { name, events }));
                }
            }
        }
        assert(up.len() > 0);
        assert(find_macro(up, other) == if up.first().name == other {
            Some(up.first().events)
        } else {
            find_macro(up.drop_first(), other)
        });
        assert(find_macro(defs, other) == if defs.first().name == other {
            Some(defs.first().events)
        } else {
            find_macro(defs.drop_first(), other)
        });
    }
}

/// The index of a found macro definition is in range and names it.
proof fn lemma_find_index_in_range(defs: Seq<MacroDefV>, name: Seq<char>)
    requires
        find_macro(defs, name) is Some,
    ensures
        0 <= crate::convert::find_macro_index(defs, name) < defs.len(),
        defs[crate::convert::find_macro_index(defs, name)].name == name,
    decreases defs.len(),
{
    if defs.len() > 0 && defs.first().name != name {
        lemma_find_index_in_range(defs.drop_first(), name);
    }
}

/// Every name of an upserted list is either `name` or a name the list
/// already had.
proof fn lemma_upsert_names(
    defs: Seq<MacroDefV>,
    name: Seq<char>,
    events: Seq<crate::data::MacroEvent>,
    j: int,
)
    requires
        0 <= j < upsert_macro(defs, name, events).len(),
    ensures
        upsert_macro(defs, name, events)[j].name == name || (j < defs.len() && defs[j].name
            == upsert_macro(defs, name, events)[j].name),
{
    if find_macro(defs, name) is Some {
        lemma_find_index_in_range(defs, name);
    }
}

/// A prefix of the action list has at most as many macro actions.
proof fn lemma_num_take_le(actions: Seq<ActionV>, j: int)
    requires
        0 <= j <= actions.len(),
    ensures
        num_macro_actions(actions.take(j)) <= num_macro_actions(actions),
        0 <= num_macro_actions(actions.take(j)),
    decreases actions.len() - j,
{
    crate::convert::lemma_macro_slots_bound(actions.take(j), Seq::empty());
    if j == actions.len() {
        assert(actions.take(j) =~= actions);
    } else {
        assert(actions.take(j + 1).drop_last() =~= actions.take(j));
        lemma_num_take_le(actions, j + 1);
    }
}

/// A prefix of the action list reserves a prefix of the macro slots.
proof fn lemma_macro_slots_prefix(actions: Seq<ActionV>, defs: Seq<MacroDefV>, j: int)
    requires
        0 <= j <= actions.len(),
    ensures
        spec_macro_slots(actions.take(j), defs) == spec_macro_slots(actions, defs).take(
            num_macro_actions(actions.take(j)),
        ),
    decreases actions.len() - j,
{
    crate::convert::lemma_macro_slots_bound(actions.take(j), defs);
    if j == actions.len() {
        assert(actions.take(j) =~= actions);
        assert(spec_macro_slots(actions, defs).take(spec_macro_slots(actions, defs).len() as int)
            =~= spec_macro_slots(actions, defs));
    } else {
        lemma_macro_slots_prefix(actions, defs, j + 1);
        assert(actions.take(j + 1).drop_last() =~= actions.take(j));
        assert(actions.take(j + 1).last() == actions[j]);
        crate::convert::lemma_macro_slots_bound(actions.take(j + 1), defs);
        crate::convert::lemma_macro_slots_bound(actions, defs);
        lemma_num_take_le(actions, j);
        lemma_num_take_le(actions, j + 1);
        let n0 = num_macro_actions(actions.take(j));
        let n1 = num_macro_actions(actions.take(j + 1));
        let full = spec_macro_slots(actions, defs);
        assert(spec_macro_slots(actions.take(j), defs) =~= spec_macro_slots(
            actions.take(j + 1),
            defs,
        ).take(n0));
        assert(full.take(n1).take(n0) =~= full.take(n0));
    }
}

/// Round-trip law: translating an encodable profile to its raw form and
/// back yields the profile again.
///
/// Every scalar field, DPI stage, colour and button action comes back
/// exactly.  The macro definitions come back as a list that agrees with
/// the profile's on every referenced name, and contains only referenced
/// names: definitions that no button action refers to are never written to
/// the device, so they cannot come back.
///
/// The scalar hypotheses are exactly the values the wire format can carry:
/// DPI values that are multiples of 50 between 50 and 12800, and a peak
/// performance time that is a multiple of 10.
#[verifier::rlimit(100)]
pub proof fn lemma_profile_round_trip(p: ProfileV)
    requires
        spec_profile_encodable(p),
        forall|i: int|
            0 <= i < p.dpis.len() ==> spec_dpi_of_raw(spec_raw_of_dpi(#[trigger] p.dpis[i]))
                == p.dpis[i],
        forall|i: int|
            0 <= i < p.button_actions.len() ==> action_values_exact(
                #[trigger] p.button_actions[i],
            ),
        p.peak_performance_time is Some ==> p.peak_performance_time->0 % 10 == 0,
    ensures
        spec_raw_to_user(spec_user_to_raw(p)) is Ok,
        ({
            let q = spec_raw_to_user(spec_user_to_raw(p))->Ok_0;
            &&& q.poll_rate == p.poll_rate
            &&& q.current_dpi_index == p.current_dpi_index
            &&& q.lift_off_distance == p.lift_off_distance
            &&& q.debounce_ms == p.debounce_ms
            &&& q.motion_sync == p.motion_sync
            &&& q.angle_snapping == p.angle_snapping
            &&& q.ripple_control == p.ripple_control
            &&& q.peak_performance == p.peak_performance
            &&& q.peak_performance_time == p.peak_performance_time
            &&& q.high_performance == p.high_performance
            &&& q.dpis == p.dpis
            &&& q.dpi_colors == p.dpi_colors
            &&& q.button_actions == p.button_actions
            &&& (forall|name: Seq<char>|
                references(p.button_actions, name) ==> #[trigger] find_macro(q.macros, name)
                    == find_macro(p.macros, name))
            &&& (forall|j: int|
                0 <= j < q.macros.len() ==> references(
                    p.button_actions,
                    (#[trigger] q.macros[j]).name,
                ))
        }),
{
    let r = spec_user_to_raw(p);
    let n = p.button_actions.len() as int;
    crate::convert::lemma_macro_slots_bound(p.button_actions, p.macros);
    lemma_round_trip_actions(p, n);
    assert(r.button_actions.len() == n);
    let q = spec_raw_to_user(r)->Ok_0;
    assert(q.dpis =~= p.dpis);
    assert(q.dpi_colors =~= p.dpi_colors);
    let acts = spec_actions_macros_of_raw(r, n)->Ok_0.0;
    assert(acts =~= p.button_actions.take(n));
    assert(p.button_actions.take(n) =~= p.button_actions);
    match p.peak_performance_time {
        Some(t) => {
            assert((t / 10) * 10 == t);
            assert(((t / 10) as u8) as int == t / 10);
        },
        None => {},
    }
}

/// Induction core of the round-trip law: decoding the first `n` raw action
/// slots yields the first `n` actions back, with macro definitions that
/// agree with the profile's on every name referenced so far and contain
/// only such names.
#[verifier::rlimit(100)]
proof fn lemma_round_trip_actions(p: ProfileV, n: int)
    requires
        spec_profile_encodable(p),
        forall|i: int|
            0 <= i < p.button_actions.len() ==> action_values_exact(
                #[trigger] p.button_actions[i],
            ),
        0 <= n <= p.button_actions.len(),
    ensures
        spec_actions_macros_of_raw(spec_user_to_raw(p), n) matches Ok((acts, defs)) && {
            &&& acts == p.button_actions.take(n)
            &&& (forall|name: Seq<char>|
                references(p.button_actions.take(n), name) ==> #[trigger] find_macro(defs, name)
                    == find_macro(p.macros, name))
            &&& (forall|j: int|
                0 <= j < defs.len() ==> references(
                    p.button_actions.take(n),
                    (#[trigger] defs[j]).name,
                ))
        },
    decreases n,
{
    let r = spec_user_to_raw(p);
    crate::convert::lemma_macro_slots_bound(p.button_actions, p.macros);
    if n == 0 {
        assert(spec_actions_macros_of_raw(r, 0) == Ok::<_, RawToUserErr>((
            Seq::<ActionV>::empty(),
            Seq::<MacroDefV>::empty(),
        )));
        assert(p.button_actions.take(0) =~= Seq::<ActionV>::empty());
    } else {
        lemma_round_trip_actions(p, n - 1);
        let i = n - 1;
        let a = p.button_actions[i];
        let mi = num_macro_actions(p.button_actions.take(i));
        assert(r.button_actions[i] == Some(crate::convert::spec_raw_action_of(a, mi)));
        assert(crate::convert::spec_action_encodable(a, p.macros));
        let (acts, defs) = spec_actions_macros_of_raw(r, i)->Ok_0;
        crate::convert::lemma_macro_slots_bound(p.button_actions.take(i), p.macros);
        crate::convert::lemma_macro_slots_bound(p.button_actions.take(n), p.macros);
        assert(p.button_actions.take(n).drop_last() =~= p.button_actions.take(i));
        assert(p.button_actions.take(n).last() == a);
        match a {
            ActionV::Combo { events } => {
                assert(r.combos[i] == Some(
                    crate::raw_data::spec_raw_events_of_key_events(events),
                ));
                lemma_key_events_round_trip(events);
                assert(spec_action_of_raw(r, i) == Ok::<_, RawToUserErr>(a));
            },
            ActionV::Macro { name } => {
                lemma_macro_slots_prefix(p.button_actions, p.macros, i);
                lemma_macro_slots_prefix(p.button_actions, p.macros, n);
                lemma_num_take_le(p.button_actions, i);
                lemma_num_take_le(p.button_actions, n);
                let slots = spec_macro_slots(p.button_actions, p.macros);
                let slots_n = spec_macro_slots(p.button_actions.take(n), p.macros);
                assert(slots_n == spec_macro_slots(p.button_actions.take(i), p.macros) + seq![
                    crate::raw_data::RawMacroV {
                        name,
                        events: crate::raw_data::spec_raw_events_of_macro_events(
                            match find_macro(p.macros, name) {
                                Some(es) => es,
                                None => Seq::empty(),
                            },
                        ),
                    },
                ]);
                assert(slots_n.len() == mi + 1);
                assert(slots_n[mi] == slots.take(num_macro_actions(p.button_actions.take(n)))[mi]);
                assert(slots[mi] == (crate::raw_data::RawMacroV {
                    name,
                    events: crate::raw_data::spec_raw_events_of_macro_events(
                        find_macro(p.macros, name)->0,
                    ),
                }));
                assert(r.macros[mi] == Some(slots[mi]));
                assert((mi as u8) as int == mi);
                lemma_macro_events_round_trip(find_macro(p.macros, name)->0);
                assert(spec_action_of_raw(r, i) == Ok::<_, RawToUserErr>(a));
                let es = find_macro(p.macros, name)->0;
                assert(spec_defs_step(r, i, defs) == upsert_macro(defs, name, es));
                assert forall|n2: Seq<char>|
                    references(p.button_actions.take(n), n2) implies #[trigger] find_macro(
                    upsert_macro(defs, name, es),
                    n2,
                ) == find_macro(p.macros, n2) by {
                    lemma_upsert_find(defs, name, es, n2);
                    if n2 == name {
                    } else {
                        let k = choose|k: int|
                            0 <= k < p.button_actions.take(n).len() && ((
                            #[trigger] p.button_actions.take(n)[k]) matches ActionV::Macro {
                                name: m,
                            } && m == n2);
                        assert(k < i ==> references(p.button_actions.take(i), n2)) by {
                            if k < i {
                                assert(p.button_actions.take(i)[k] == p.button_actions.take(n)[k]);
                            }
                        }
                    }
                }
                assert forall|j: int|
                    0 <= j < upsert_macro(defs, name, es).len() implies references(
                    p.button_actions.take(n),
                    (#[trigger] upsert_macro(defs, name, es)[j]).name,
                ) by {
                    lemma_upsert_names(defs, name, es, j);
                    let nm = upsert_macro(defs, name, es)[j].name;
                    if nm == name {
                        assert((p.button_actions.take(n)[i] matches ActionV::Macro { name: m }
                            && m == name));
                    } else {
                        assert(references(p.button_actions.take(i), nm));
                        let k = choose|k: int|
                            0 <= k < p.button_actions.take(i).len() && ((
                            #[trigger] p.button_actions.take(i)[k]) matches ActionV::Macro {
                                name: m,
                            } && m == nm);
                        assert(p.button_actions.take(n)[k] == p.button_actions.take(i)[k]);
                    }
                }
            },
            _ => {
                assert(spec_action_of_raw(r, i) == Ok::<_, RawToUserErr>(a));
                assert(spec_defs_step(r, i, defs) == defs);
                assert forall|n2: Seq<char>|
                    references(p.button_actions.take(n), n2) implies #[trigger] find_macro(
                    defs,
                    n2,
                ) == find_macro(p.macros, n2) by {
                    let k = choose|k: int|
                        0 <= k < p.button_actions.take(n).len() && ((
                        #[trigger] p.button_actions.take(n)[k]) matches ActionV::Macro {
                            name: m,
                        } && m == n2);
                    assert(p.button_actions.take(i)[k] == p.button_actions.take(n)[k]);
                }
                assert forall|j: int|
                    0 <= j < defs.len() implies references(
                    p.button_actions.take(n),
                    (#[trigger] defs[j]).name,
                ) by {
                    assert(references(p.button_actions.take(i), defs[j].name));
                    let k = choose|k: int|
                        0 <= k < p.button_actions.take(i).len() && ((
                        #[trigger] p.button_actions.take(i)[k]) matches ActionV::Macro {
                            name: m,
                        } && m == defs[j].name);
                    assert(p.button_actions.take(n)[k] == p.button_actions.take(i)[k]);
                }
            },
        }
        assert(spec_actions_macros_of_raw(r, n) matches Ok((acts2, _)) && acts2
            =~= p.button_actions.take(n));
    }
}

// ---------------------------------------------------------------------------
// Image round trip
// ---------------------------------------------------------------------------

/// The image after one segment is written into it.
pub open spec fn spec_write_segment(img: Seq<u8>, s: SegmentV) -> Seq<u8> {
    Seq::new(
        img.len(),
        |i: int|
            if s.address <= i < s.address + s.bytes.len() {
                s.bytes[i - s.address]
            } else {
                img[i]
            },
    )
}

/// The image after a list of segments is written into it, in order.
pub open spec fn spec_apply_segments(img: Seq<u8>, segs: Seq<SegmentV>) -> Seq<u8>
    decreases segs.len(),
{
    if segs.len() == 0 {
        img
    } else {
        spec_write_segment(spec_apply_segments(img, segs.drop_last()), segs.last())
    }
}

/// Whether every segment lies within the image and repeats the image's own
/// bytes.
pub open spec fn segs_match(img: Seq<u8>, segs: Seq<SegmentV>) -> bool {
    forall|k: int|
        0 <= k < segs.len() ==> {
            let s = #[trigger] segs[k];
            &&& 0 <= s.address
            &&& s.address + s.bytes.len() <= img.len()
            &&& s.bytes == img.subrange(s.address, s.address + s.bytes.len())
        }
}

/// Matching segments concatenate to matching segments.
proof fn lemma_segs_match_concat(img: Seq<u8>, a: Seq<SegmentV>, b: Seq<SegmentV>)
    requires
        segs_match(img, a),
        segs_match(img, b),
    ensures
        segs_match(img, a + b),
{
    assert forall|k: int| 0 <= k < (a + b).len() implies {
        let s = #[trigger] (a + b)[k];
        &&& 0 <= s.address
        &&& s.address + s.bytes.len() <= img.len()
        &&& s.bytes == img.subrange(s.address, s.address + s.bytes.len())
    } by {
        if k < a.len() {
            assert((a + b)[k] == a[k]);
        } else {
            assert((a + b)[k] == b[k - a.len()]);
        }
    }
}

/// Writing segments that repeat the image's own bytes leaves it unchanged.
proof fn lemma_apply_matching_segments(img: Seq<u8>, segs: Seq<SegmentV>)
    requires
        segs_match(img, segs),
    ensures
        spec_apply_segments(img, segs) == img,
    decreases segs.len(),
{
    if segs.len() > 0 {
        assert(segs_match(img, segs.drop_last())) by {
            assert(forall|k: int|
                0 <= k < segs.len() - 1 ==> #[trigger] segs.drop_last()[k] == segs[k]);
        }
        lemma_apply_matching_segments(img, segs.drop_last());
        assert(segs.last() == segs[segs.len() - 1]);
        assert(spec_write_segment(img, segs.last()) =~= img);
    }
}

/// The single segment of one present fixed-length slot repeats the slot's
/// bytes: the content is the image's own content, and the trailing
/// checksum equals the image's, by the slot checksum law.
proof fn lemma_slot_segment_match(img: Seq<u8>, addr: int, init: u8, content: Seq<u8>)
    requires
        0 <= addr,
        addr + content.len() + 1 <= img.len(),
        content == img.subrange(addr, addr + content.len()),
        crate::raw_profile::slot_present(img, addr, content.len() + 1 as int, init),
    ensures
        segs_match(img, seq![crate::raw_profile::slot_segment(addr, init, content)]),
{
    let len = content.len() + 1;
    crate::raw_profile::lemma_present_slot_final_byte(img, addr, len as int, init);
    crate::checksum::lemma_chk_closed_form(init, content);
    let s = crate::raw_profile::slot_segment(addr, init, content);
    assert(s.bytes =~= img.subrange(addr, addr + len));
}

/// The segments of an optional scalar slot repeat the image.
proof fn lemma_byte_slot_match(img: Seq<u8>, addr: int)
    requires
        0 <= addr,
        addr + 2 <= img.len(),
    ensures
        segs_match(img, crate::raw_profile::opt_byte_segments(
            addr,
            crate::raw_profile::byte_slot(img, addr),
        )),
{
    match crate::raw_profile::byte_slot(img, addr) {
        Some(b) => {
            assert(seq![b] =~= img.subrange(addr, addr + 1));
            lemma_slot_segment_match(img, addr, crate::raw_profile::SLOT_SEED as u8, seq![b]);
        },
        None => {},
    }
}

/// Re-encoding a decodable key event reproduces its 3 wire bytes.
proof fn lemma_key_event_bytes_identity(b0: u8, b1: u8, b2: u8)
    requires
        crate::raw_data::spec_key_event_of_bytes(b0, b1, b2) is Some,
    ensures
        crate::raw_data::spec_key_event_bytes(
            crate::raw_data::spec_key_event_of_bytes(b0, b1, b2)->0,
        ) == seq![b0, b1, b2],
{
    let v = (b1 + b2 * 256) as u16;
    assert(v % 256 == b1 && v / 256 == b2) by (nonlinear_arith)
        requires
            v == b1 + b2 * 256,
            b1 < 256,
            b2 < 256,
    ;
    let e = crate::raw_data::spec_key_event_of_bytes(b0, b1, b2)->0;
    if b0 == 0x84 || b0 == 0x44 {
        assert(crate::raw_data::spec_key_event_bytes(e) =~= seq![b0, b1, b2]);
    } else {
        assert(crate::raw_data::spec_key_event_bytes(e) =~= seq![b0, b1, b2]);
    }
}

/// Re-encoding a parsed key event region reproduces its bytes.
proof fn lemma_parse_key_events_identity(b: Seq<u8>)
    requires
        crate::raw_data::spec_parse_key_events(b) is Some,
    ensures
        crate::raw_data::spec_key_events_bytes(crate::raw_data::spec_parse_key_events(b)->0)
            == b,
        3 * crate::raw_data::spec_parse_key_events(b)->0.len() == b.len(),
    decreases b.len(),
{
    if b.len() == 0 {
        assert(crate::raw_data::spec_key_events_bytes(Seq::<
            crate::raw_data::RawKeyEvent,
        >::empty()) =~= Seq::<u8>::empty());
    } else {
        let n = b.len() as int;
        lemma_parse_key_events_identity(b.take(n - 3));
        lemma_key_event_bytes_identity(b[n - 3], b[n - 2], b[n - 1]);
        let es = crate::raw_data::spec_parse_key_events(b)->0;
        assert(es.drop_last() == crate::raw_data::spec_parse_key_events(b.take(n - 3))->0);
        assert(crate::raw_data::spec_key_events_bytes(es) =~= b);
    }
}

/// Re-encoding a decodable macro event reproduces its 5 wire bytes.
proof fn lemma_macro_event_bytes_identity(b: Seq<u8>)
    requires
        b.len() == 5,
        crate::raw_data::spec_macro_event_of_bytes(b) is Some,
    ensures
        crate::raw_data::spec_macro_event_bytes(
            crate::raw_data::spec_macro_event_of_bytes(b)->0,
        ) == b,
{
    lemma_key_event_bytes_identity(b[0], b[1], b[2]);
    let d = (b[3] * 256 + b[4]) as u16;
    assert(d / 256 == b[3] && d % 256 == b[4]) by (nonlinear_arith)
        requires
            d == b[3] * 256 + b[4],
            b[3] < 256,
            b[4] < 256,
    ;
    assert(crate::raw_data::spec_macro_event_bytes(
        crate::raw_data::spec_macro_event_of_bytes(b)->0,
    ) =~= b);
}

/// Re-encoding a parsed macro event region reproduces its bytes.
proof fn lemma_parse_macro_events_identity(b: Seq<u8>)
    requires
        crate::raw_data::spec_parse_macro_events(b) is Some,
    ensures
        crate::raw_data::spec_macro_events_bytes(
            crate::raw_data::spec_parse_macro_events(b)->0,
        ) == b,
        5 * crate::raw_data::spec_parse_macro_events(b)->0.len() == b.len(),
    decreases b.len(),
{
    if b.len() == 0 {
        assert(crate::raw_data::spec_macro_events_bytes(Seq::<
            crate::raw_data::RawMacroEvent,
        >::empty()) =~= Seq::<u8>::empty());
    } else {
        let n = b.len() as int;
        lemma_parse_macro_events_identity(b.take(n - 5));
        lemma_macro_event_bytes_identity(b.subrange(n - 5, n));
        let es = crate::raw_data::spec_parse_macro_events(b)->0;
        assert(es.drop_last() == crate::raw_data::spec_parse_macro_events(b.take(n - 5))->0);
        assert(crate::raw_data::spec_macro_events_bytes(es) =~= b);
    }
}

/// The segments of a DPI slot list read from the image repeat the image.
proof fn lemma_dpi_segments_match(img: Seq<u8>, ds: Seq<Option<crate::raw_data::RawDpi>>)
    requires
        img.len() == crate::raw_profile::DATA_END,
        ds.len() <= 8,
        forall|i: int|
            0 <= i < ds.len() ==> #[trigger] ds[i] == crate::raw_profile::dpi_slot(
                img,
                crate::raw_profile::DPIS_ADDR + 4 * i,
            ),
        forall|i: int|
            0 <= i < ds.len() && ds[i] is Some ==> img[crate::raw_profile::DPIS_ADDR + 4 * i
                + 2] == 0,
    ensures
        segs_match(img, crate::raw_profile::dpi_segments(ds)),
    decreases ds.len(),
{
    if ds.len() > 0 {
        let i = ds.len() - 1;
        assert(forall|k: int| 0 <= k < i ==> #[trigger] ds.drop_last()[k] == ds[k]);
        lemma_dpi_segments_match(img, ds.drop_last());
        let a = crate::raw_profile::DPIS_ADDR + 4 * i;
        match ds[i] {
            Some(d) => {
                let content = crate::raw_profile::spec_dpi_content(d);
                assert(content =~= img.subrange(a, a + 3));
                lemma_slot_segment_match(img, a, crate::raw_profile::SLOT_SEED as u8, content);
                lemma_segs_match_concat(
                    img,
                    crate::raw_profile::dpi_segments(ds.drop_last()),
                    seq![
                        crate::raw_profile::slot_segment(
                            a,
                            crate::raw_profile::SLOT_SEED as u8,
                            content,
                        ),
                    ],
                );
            },
            None => {
                assert(crate::raw_profile::dpi_segments(ds) =~= crate::raw_profile::dpi_segments(
                    ds.drop_last(),
                ));
            },
        }
    }
}

/// The segments of a colour slot list read from the image repeat the
/// image.
proof fn lemma_color_segments_match(img: Seq<u8>, cs: Seq<Option<crate::raw_data::RawColor>>)
    requires
        img.len() == crate::raw_profile::DATA_END,
        cs.len() <= 8,
        forall|i: int|
            0 <= i < cs.len() ==> #[trigger] cs[i] == crate::raw_profile::color_slot(
                img,
                crate::raw_profile::DPI_COLORS_ADDR + 4 * i,
            ),
    ensures
        segs_match(img, crate::raw_profile::color_segments(cs)),
    decreases cs.len(),
{
    if cs.len() > 0 {
        let i = cs.len() - 1;
        assert(forall|k: int| 0 <= k < i ==> #[trigger] cs.drop_last()[k] == cs[k]);
        lemma_color_segments_match(img, cs.drop_last());
        let a = crate::raw_profile::DPI_COLORS_ADDR + 4 * i;
        match cs[i] {
            Some(c) => {
                let content = crate::raw_profile::spec_color_content(c);
                assert(content =~= img.subrange(a, a + 3));
                lemma_slot_segment_match(img, a, crate::raw_profile::SLOT_SEED as u8, content);
                lemma_segs_match_concat(
                    img,
                    crate::raw_profile::color_segments(cs.drop_last()),
                    seq![
                        crate::raw_profile::slot_segment(
                            a,
                            crate::raw_profile::SLOT_SEED as u8,
                            content,
                        ),
                    ],
                );
            },
            None => {
                assert(crate::raw_profile::color_segments(cs)
                    =~= crate::raw_profile::color_segments(cs.drop_last()));
            },
        }
    }
}

/// The segments of an action slot list whose payloads repeat the image's
/// payload bytes repeat the image.
proof fn lemma_action_segments_match(img: Seq<u8>, az: Seq<Option<RawAction>>)
    requires
        img.len() == crate::raw_profile::DATA_END,
        az.len() <= 16,
        forall|i: int|
            0 <= i < az.len() && (#[trigger] az[i]) is Some ==> {
                let a = crate::raw_profile::ACTIONS_ADDR + 4 * i;
                &&& crate::raw_profile::slot_present(
                    img,
                    a,
                    4,
                    crate::raw_profile::SLOT_SEED as u8,
                )
                &&& crate::raw_data::spec_action_payload(az[i]->0) == img.subrange(a, a + 3)
            },
    ensures
        segs_match(img, crate::raw_profile::action_segments(az)),
    decreases az.len(),
{
    if az.len() > 0 {
        let i = az.len() - 1;
        assert(forall|k: int| 0 <= k < i ==> #[trigger] az.drop_last()[k] == az[k]);
        lemma_action_segments_match(img, az.drop_last());
        let a = crate::raw_profile::ACTIONS_ADDR + 4 * i;
        match az[i] {
            Some(act) => {
                let content = crate::raw_data::spec_action_payload(act);
                lemma_slot_segment_match(img, a, crate::raw_profile::SLOT_SEED as u8, content);
                lemma_segs_match_concat(
                    img,
                    crate::raw_profile::action_segments(az.drop_last()),
                    seq![
                        crate::raw_profile::slot_segment(
                            a,
                            crate::raw_profile::SLOT_SEED as u8,
                            content,
                        ),
                    ],
                );
            },
            None => {
                assert(crate::raw_profile::action_segments(az)
                    =~= crate::raw_profile::action_segments(az.drop_last()));
            },
        }
    }
}

/// The segments of a combo slot list read from the image repeat the
/// image.
proof fn lemma_combo_segments_match(
    img: Seq<u8>,
    cs: Seq<Option<Seq<crate::raw_data::RawKeyEvent>>>,
)
    requires
        img.len() == crate::raw_profile::DATA_END,
        cs.len() <= 16,
        forall|i: int|
            0 <= i < cs.len() ==> #[trigger] cs[i] == crate::raw_profile::combo_slot(
                img,
                crate::raw_profile::COMBOS_ADDR + crate::raw_profile::COMBO_SLOT_LEN * i,
            ),
    ensures
        segs_match(img, crate::raw_profile::combo_segments(cs)),
    decreases cs.len(),
{
    if cs.len() > 0 {
        let i = cs.len() - 1;
        assert(forall|k: int| 0 <= k < i ==> #[trigger] cs.drop_last()[k] == cs[k]);
        lemma_combo_segments_match(img, cs.drop_last());
        let a = crate::raw_profile::COMBOS_ADDR + crate::raw_profile::COMBO_SLOT_LEN * i;
        match cs[i] {
            Some(es) => {
                let m = img[a] as int;
                let region = img.subrange(a + 1, a + 1 + 3 * m);
                lemma_parse_key_events_identity(region);
                let content = crate::raw_profile::spec_combo_content(es);
                assert(content =~= img.subrange(a, a + 1 + 3 * m));
                lemma_slot_segment_match(img, a, crate::raw_profile::SLOT_SEED as u8, content);
                lemma_segs_match_concat(
                    img,
                    crate::raw_profile::combo_segments(cs.drop_last()),
                    seq![
                        crate::raw_profile::slot_segment(
                            a,
                            crate::raw_profile::SLOT_SEED as u8,
                            content,
                        ),
                    ],
                );
            },
            None => {
                assert(crate::raw_profile::combo_segments(cs)
                    =~= crate::raw_profile::combo_segments(cs.drop_last()));
            },
        }
    }
}

/// The segments of a macro slot list read from the image repeat the image,
/// provided the unused part of each present slot's name field is zero.
proof fn lemma_macro_segments_match(img: Seq<u8>, ms: Seq<Option<crate::raw_data::RawMacroV>>)
    requires
        img.len() == crate::raw_profile::DATA_END,
        ms.len() <= 16,
        forall|i: int|
            0 <= i < ms.len() ==> #[trigger] ms[i] == crate::raw_profile::macro_slot(
                img,
                crate::raw_profile::MACROS_ADDR + crate::raw_profile::MACRO_SLOT_LEN * i,
            ),
        forall|i: int, j: int|
            #![trigger ms[i], img[j]]
            0 <= i < ms.len() && ms[i] is Some && {
                let a = crate::raw_profile::MACROS_ADDR + crate::raw_profile::MACRO_SLOT_LEN * i;
                a + 1 + img[a] <= j < a + 31
            } ==> img[j] == 0,
    ensures
        segs_match(img, crate::raw_profile::macro_segments(ms)),
    decreases ms.len(),
{
    if ms.len() > 0 {
        let i = ms.len() - 1;
        assert(forall|k: int| 0 <= k < i ==> #[trigger] ms.drop_last()[k] == ms[k]);
        lemma_macro_segments_match(img, ms.drop_last());
        let a = crate::raw_profile::MACROS_ADDR + crate::raw_profile::MACRO_SLOT_LEN * i;
        match ms[i] {
            Some(mv) => {
                let nl = img[a] as int;
                let el = img[a + 31] as int;
                let nb = crate::raw_profile::macro_slot_name_bytes(img, a);
                vstd::utf8::decode_utf8_encode_utf8(nb);
                let region = img.subrange(a + 32, a + 32 + 5 * el);
                lemma_parse_macro_events_identity(region);
                let content = crate::raw_profile::spec_macro_content(mv);
                assert(vstd::utf8::encode_utf8(mv.name) == nb);
                assert forall|j: int| a + 1 + nl <= j < a + 31 implies #[trigger] img[j] == 0 by {}
                assert(content =~= img.subrange(a, a + 32 + 5 * el));
                lemma_slot_segment_match(img, a, crate::raw_profile::MACRO_SEED as u8, content);
                lemma_segs_match_concat(
                    img,
                    crate::raw_profile::macro_segments(ms.drop_last()),
                    seq![
                        crate::raw_profile::slot_segment(
                            a,
                            crate::raw_profile::MACRO_SEED as u8,
                            content,
                        ),
                    ],
                );
            },
            None => {
                assert(crate::raw_profile::macro_segments(ms)
                    =~= crate::raw_profile::macro_segments(ms.drop_last()));
            },
        }
    }
}

/// Whether an image is in the encoder's own canonical form at its valid
/// slots: pad bytes of present DPI slots are zero, present action slots
/// hold exactly the encoder's payload bytes, and the unused part of each
/// present macro slot's name field is zero.
pub open spec fn image_canonical(img: Seq<u8>, num_buttons: int) -> bool {
    let n = RawProfileV::stage_count(img);
    &&& (forall|i: int|
        0 <= i < n && crate::raw_profile::dpi_slot(
            img,
            crate::raw_profile::DPIS_ADDR + 4 * i,
        ) is Some ==> #[trigger] img[crate::raw_profile::DPIS_ADDR + 4 * i + 2] == 0)
    &&& (forall|i: int|
        0 <= i < num_buttons && crate::raw_profile::slot_present(
            img,
            crate::raw_profile::ACTIONS_ADDR + 4 * i,
            4,
            crate::raw_profile::SLOT_SEED as u8,
        ) ==> #[trigger] crate::raw_data::spec_action_payload(
            crate::raw_profile::action_slot_payload(
                img,
                crate::raw_profile::ACTIONS_ADDR + 4 * i,
            )->0,
        ) == img.subrange(
            crate::raw_profile::ACTIONS_ADDR + 4 * i,
            crate::raw_profile::ACTIONS_ADDR + 4 * i + 3,
        ))
    &&& (forall|i: int, j: int|
        #![trigger crate::raw_profile::macro_slot(
            img,
            crate::raw_profile::MACROS_ADDR + crate::raw_profile::MACRO_SLOT_LEN * i,
        ), img[j]]
        0 <= i < num_buttons && crate::raw_profile::macro_slot(
            img,
            crate::raw_profile::MACROS_ADDR + crate::raw_profile::MACRO_SLOT_LEN * i,
        ) is Some && {
            let a = crate::raw_profile::MACROS_ADDR + crate::raw_profile::MACRO_SLOT_LEN * i;
            a + 1 + img[a] <= j < a + 31
        } ==> img[j] == 0)
}

/// Image round-trip law: re-encoding the raw profile decoded from a
/// canonical memory image writes back exactly the image's own bytes, so
/// the image is unchanged at every slot — valid slots are rewritten
/// byte-for-byte, and absent slots are skipped.
pub proof fn lemma_image_round_trip(img: Seq<u8>, num_buttons: int)
    requires
        img.len() == crate::raw_profile::DATA_END,
        0 <= num_buttons <= 16,
        crate::raw_profile::spec_decode_image(img, num_buttons) is Some,
        image_canonical(img, num_buttons),
    ensures
        spec_apply_segments(
            img,
            crate::raw_profile::spec_encode_raw(
                crate::raw_profile::spec_decode_image(img, num_buttons)->0,
            ),
        ) == img,
{
    let rv = crate::raw_profile::spec_decode_image(img, num_buttons)->0;
    lemma_byte_slot_match(img, crate::raw_profile::POLL_RATE_ADDR as int);
    lemma_byte_slot_match(img, crate::raw_profile::DPI_COUNT_ADDR as int);
    lemma_byte_slot_match(img, crate::raw_profile::CURRENT_DPI_INDEX_ADDR as int);
    lemma_byte_slot_match(img, crate::raw_profile::LIFT_OFF_ADDR as int);
    lemma_byte_slot_match(img, crate::raw_profile::DEBOUNCE_ADDR as int);
    lemma_byte_slot_match(img, crate::raw_profile::MOTION_SYNC_ADDR as int);
    lemma_byte_slot_match(img, crate::raw_profile::ANGLE_SNAPPING_ADDR as int);
    lemma_byte_slot_match(img, crate::raw_profile::RIPPLE_CONTROL_ADDR as int);
    lemma_byte_slot_match(img, crate::raw_profile::PEAK_PERFORMANCE_ADDR as int);
    lemma_byte_slot_match(img, crate::raw_profile::PEAK_PERFORMANCE_TIME_ADDR as int);
    lemma_byte_slot_match(img, crate::raw_profile::HIGH_PERFORMANCE_ADDR as int);
    lemma_dpi_segments_match(img, rv.dpis);
    lemma_color_segments_match(img, rv.dpi_colors);
    lemma_action_segments_match(img, rv.button_actions);
    lemma_combo_segments_match(img, rv.combos);
    lemma_macro_segments_match(img, rv.macros);
    let segs = crate::raw_profile::spec_encode_raw(rv);
    assert(segs_match(img, segs)) by {
        lemma_segs_match_concat(
            img,
            crate::raw_profile::opt_byte_segments(
                crate::raw_profile::POLL_RATE_ADDR as int,
                rv.poll_rate,
            ),
            crate::raw_profile::opt_byte_segments(
                crate::raw_profile::DPI_COUNT_ADDR as int,
                rv.dpi_count,
            ),
        );
        let s2 = crate::raw_profile::opt_byte_segments(
            crate::raw_profile::POLL_RATE_ADDR as int,
            rv.poll_rate,
        ) + crate::raw_profile::opt_byte_segments(
            crate::raw_profile::DPI_COUNT_ADDR as int,
            rv.dpi_count,
        );
        lemma_segs_match_concat(
            img,
            s2,
            crate::raw_profile::opt_byte_segments(
                crate::raw_profile::CURRENT_DPI_INDEX_ADDR as int,
                rv.current_dpi_index,
            ),
        );
        let s3 = s2 + crate::raw_profile::opt_byte_segments(
            crate::raw_profile::CURRENT_DPI_INDEX_ADDR as int,
            rv.current_dpi_index,
        );
        lemma_segs_match_concat(
            img,
            s3,
            crate::raw_profile::opt_byte_segments(
                crate::raw_profile::LIFT_OFF_ADDR as int,
                rv.lift_off_distance,
            ),
        );
        let s4 = s3 + crate::raw_profile::opt_byte_segments(
            crate::raw_profile::LIFT_OFF_ADDR as int,
            rv.lift_off_distance,
        );
        lemma_segs_match_concat(img, s4, crate::raw_profile::dpi_segments(rv.dpis));
        let s5 = s4 + crate::raw_profile::dpi_segments(rv.dpis);
        lemma_segs_match_concat(img, s5, crate::raw_profile::color_segments(rv.dpi_colors));
        let s6 = s5 + crate::raw_profile::color_segments(rv.dpi_colors);
        lemma_segs_match_concat(img, s6, crate::raw_profile::action_segments(rv.button_actions));
        let s7 = s6 + crate::raw_profile::action_segments(rv.button_actions);
        lemma_segs_match_concat(
            img,
            s7,
            crate::raw_profile::opt_byte_segments(
                crate::raw_profile::DEBOUNCE_ADDR as int,
                rv.debounce_ms,
            ),
        );
        let s8 = s7 + crate::raw_profile::opt_byte_segments(
            crate::raw_profile::DEBOUNCE_ADDR as int,
            rv.debounce_ms,
        );
        lemma_segs_match_concat(
            img,
            s8,
            crate::raw_profile::opt_byte_segments(
                crate::raw_profile::MOTION_SYNC_ADDR as int,
                rv.motion_sync,
            ),
        );
        let s9 = s8 + crate::raw_profile::opt_byte_segments(
            crate::raw_profile::MOTION_SYNC_ADDR as int,
            rv.motion_sync,
        );
        lemma_segs_match_concat(
            img,
            s9,
            crate::raw_profile::opt_byte_segments(
                crate::raw_profile::ANGLE_SNAPPING_ADDR as int,
                rv.angle_snapping,
            ),
        );
        let s10 = s9 + crate::raw_profile::opt_byte_segments(
            crate::raw_profile::ANGLE_SNAPPING_ADDR as int,
            rv.angle_snapping,
        );
        lemma_segs_match_concat(
            img,
            s10,
            crate::raw_profile::opt_byte_segments(
                crate::raw_profile::RIPPLE_CONTROL_ADDR as int,
                rv.ripple_control,
            ),
        );
        let s11 = s10 + crate::raw_profile::opt_byte_segments(
            crate::raw_profile::RIPPLE_CONTROL_ADDR as int,
            rv.ripple_control,
        );
        lemma_segs_match_concat(
            img,
            s11,
            crate::raw_profile::opt_byte_segments(
                crate::raw_profile::PEAK_PERFORMANCE_ADDR as int,
                rv.peak_performance,
            ),
        );
        let s12 = s11 + crate::raw_profile::opt_byte_segments(
            crate::raw_profile::PEAK_PERFORMANCE_ADDR as int,
            rv.peak_performance,
        );
        lemma_segs_match_concat(
            img,
            s12,
            crate::raw_profile::opt_byte_segments(
                crate::raw_profile::PEAK_PERFORMANCE_TIME_ADDR as int,
                rv.peak_performance_time,
            ),
        );
        let s13 = s12 + crate::raw_profile::opt_byte_segments(
            crate::raw_profile::PEAK_PERFORMANCE_TIME_ADDR as int,
            rv.peak_performance_time,
        );
        lemma_segs_match_concat(
            img,
            s13,
            crate::raw_profile::opt_byte_segments(
                crate::raw_profile::HIGH_PERFORMANCE_ADDR as int,
                rv.high_performance,
            ),
        );
        let s14 = s13 + crate::raw_profile::opt_byte_segments(
            crate::raw_profile::HIGH_PERFORMANCE_ADDR as int,
            rv.high_performance,
        );
        lemma_segs_match_concat(img, s14, crate::raw_profile::combo_segments(rv.combos));
        let s15 = s14 + crate::raw_profile::combo_segments(rv.combos);
        lemma_segs_match_concat(img, s15, crate::raw_profile::macro_segments(rv.macros));
        assert(segs == s15 + crate::raw_profile::macro_segments(rv.macros));
    }
    lemma_apply_matching_segments(img, segs);
}

// ---------------------------------------------------------------------------
// Raw-level round trip
// ---------------------------------------------------------------------------

/// Re-encoding a decodable raw key event yields it back.
proof fn lemma_raw_key_event_identity(r: crate::raw_data::RawKeyEvent)
    requires
        crate::raw_data::spec_key_event_of_raw(r) is Some,
    ensures
        crate::raw_data::spec_raw_of_key_event(crate::raw_data::spec_key_event_of_raw(r)->0)
            == r,
{
}

/// Re-encoding a decodable raw key event sequence yields it back.
proof fn lemma_raw_key_events_identity(rs: Seq<crate::raw_data::RawKeyEvent>)
    requires
        crate::raw_data::spec_key_events_of_raw(rs) is Some,
    ensures
        crate::raw_data::spec_raw_events_of_key_events(
            crate::raw_data::spec_key_events_of_raw(rs)->0,
        ) == rs,
    decreases rs.len(),
{
    let es = crate::raw_data::spec_key_events_of_raw(rs)->0;
    if rs.len() == 0 {
        assert(crate::raw_data::spec_raw_events_of_key_events(es) =~= rs);
    } else {
        lemma_raw_key_events_identity(rs.drop_last());
        lemma_raw_key_event_identity(rs.last());
        let prev = crate::raw_data::spec_key_events_of_raw(rs.drop_last())->0;
        let last = crate::raw_data::spec_key_event_of_raw(rs.last())->0;
        assert(es == prev.push(last));
        assert forall|t: int|
            0 <= t < rs.len() implies crate::raw_data::spec_raw_events_of_key_events(es)[t]
            == rs[t] by {
            if t < rs.len() - 1 {
                assert(es[t] == prev[t]);
                assert(crate::raw_data::spec_raw_events_of_key_events(prev)[t]
                    == rs.drop_last()[t]);
            } else {
                assert(es[t] == last);
            }
        }
        assert(crate::raw_data::spec_raw_events_of_key_events(es) =~= rs);
    }
}

/// Re-encoding a decodable raw macro event sequence yields it back.
proof fn lemma_raw_macro_events_identity(rs: Seq<crate::raw_data::RawMacroEvent>)
    requires
        crate::raw_data::spec_macro_events_of_raw(rs) is Some,
    ensures
        crate::raw_data::spec_raw_events_of_macro_events(
            crate::raw_data::spec_macro_events_of_raw(rs)->0,
        ) == rs,
    decreases rs.len(),
{
    let es = crate::raw_data::spec_macro_events_of_raw(rs)->0;
    if rs.len() == 0 {
        assert(crate::raw_data::spec_raw_events_of_macro_events(es) =~= rs);
    } else {
        lemma_raw_macro_events_identity(rs.drop_last());
        lemma_raw_key_event_identity(rs.last().key_event);
        let prev = crate::raw_data::spec_macro_events_of_raw(rs.drop_last())->0;
        let last = crate::data::MacroEvent {
            key_event: crate::raw_data::spec_key_event_of_raw(rs.last().key_event)->0,
            delay_ms: rs.last().delay_ms,
        };
        assert(es == prev.push(last));
        assert forall|t: int|
            0 <= t < rs.len() implies crate::raw_data::spec_raw_events_of_macro_events(es)[t]
            == rs[t] by {
            if t < rs.len() - 1 {
                assert(es[t] == prev[t]);
                assert(crate::raw_data::spec_raw_events_of_macro_events(prev)[t]
                    == rs.drop_last()[t]);
            } else {
                assert(es[t] == last);
            }
        }
        assert(crate::raw_data::spec_raw_events_of_macro_events(es) =~= rs);
    }
}

/// Every raw DPI byte survives decoding to a DPI value and encoding back.
proof fn lemma_raw_dpi_byte_identity(b: u8)
    ensures
        spec_dpi_to_raw(spec_dpi_from_raw(b)) == b,
{
    assert(((b + 1) * 50) / 50 == b + 1) by (nonlinear_arith)
        requires
            b < 256,
    ;
}

/// Every raw DPI pair survives decoding and encoding back.
proof fn lemma_raw_dpi_identity(d: crate::raw_data::RawDpi)
    ensures
        crate::raw_data::spec_raw_of_dpi(spec_dpi_of_raw(d)) == d,
{
    lemma_raw_dpi_byte_identity(d.dpi_x);
    lemma_raw_dpi_byte_identity(d.dpi_y);
    assert((d.dpi_x + 1) * 50 == (d.dpi_y + 1) * 50 ==> d.dpi_x == d.dpi_y) by (nonlinear_arith);
}

/// The number of macro raw actions among the first `n` action slots.
pub open spec fn num_raw_macro_actions(az: Seq<Option<RawAction>>, n: int) -> int
    decreases n,
{
    if n <= 0 {
        0
    } else {
        num_raw_macro_actions(az, n - 1) + if az[n - 1] matches Some(RawAction::Macro { .. }) {
            1int
        } else {
            0int
        }
    }
}

/// Whether a raw profile is in the translator's own canonical form, so
/// that translating to a user profile and back reproduces it: boolean
/// bytes are 0 or 1, the DPI and colour lists both have `dpi_count`
/// entries, macro actions carry indices in order of appearance, every
/// combo slot belongs to a combo action, and every macro slot is
/// referenced once under a distinct name.
pub open spec fn raw_canonical(rv: RawProfileV) -> bool {
    &&& (rv.motion_sync is Some ==> rv.motion_sync->0 <= 1)
    &&& (rv.angle_snapping is Some ==> rv.angle_snapping->0 <= 1)
    &&& (rv.ripple_control is Some ==> rv.ripple_control->0 <= 1)
    &&& (rv.peak_performance is Some ==> rv.peak_performance->0 <= 1)
    &&& (rv.high_performance is Some ==> rv.high_performance->0 <= 1)
    &&& rv.dpis.len() == rv.dpi_colors.len()
    &&& (match rv.dpi_count {
        Some(n) => rv.dpis.len() == n && n > 0,
        None => rv.dpis.len() == 0,
    })
    &&& rv.combos.len() == rv.button_actions.len()
    &&& (forall|i: int|
        0 <= i < rv.button_actions.len() ==> ((#[trigger] rv.button_actions[i]) matches Some(
            RawAction::Macro { index },
        ) ==> index == num_raw_macro_actions(rv.button_actions, i)))
    &&& (forall|i: int|
        0 <= i < rv.combos.len() && (#[trigger] rv.combos[i]) is Some
            ==> rv.button_actions[i] == Some(RawAction::Combo))
    &&& rv.macros.len() == num_raw_macro_actions(rv.button_actions, rv.button_actions.len() as int)
    &&& (forall|k: int| 0 <= k < rv.macros.len() ==> (#[trigger] rv.macros[k]) is Some)
    &&& (forall|k1: int, k2: int|
        #![trigger rv.macros[k1], rv.macros[k2]]
        0 <= k1 < k2 < rv.macros.len() ==> rv.macros[k1]->0.name != rv.macros[k2]->0.name)
}

/// The list of macro definitions the translator accumulates from the
/// first `k` macro slots, in slot order.
spec fn slot_defs(rv: RawProfileV, k: int) -> Seq<MacroDefV>
    decreases k,
{
    if k <= 0 {
        Seq::empty()
    } else {
        slot_defs(rv, k - 1).push(
            MacroDefV {
                name: rv.macros[k - 1]->0.name,
                events: crate::raw_data::spec_macro_events_of_raw(rv.macros[k - 1]->0.events)->0,
            },
        )
    }
}

/// Looking up any of the first `k` slot names in the accumulated list
/// finds that slot's events, given distinct names.
proof fn lemma_slot_defs_find(rv: RawProfileV, k: int, j: int)
    requires
        raw_canonical(rv),
        0 <= j < k <= rv.macros.len(),
    ensures
        find_macro(slot_defs(rv, k), rv.macros[j]->0.name) == Some(
            crate::raw_data::spec_macro_events_of_raw(rv.macros[j]->0.events)->0,
        ),
    decreases k,
{
    lemma_find_push_distinct(rv, k, j);
}

/// Helper for [`lemma_slot_defs_find`]: find distributes over push.
proof fn lemma_find_push_distinct(rv: RawProfileV, k: int, j: int)
    requires
        raw_canonical(rv),
        0 <= j < k <= rv.macros.len(),
    ensures
        find_macro(slot_defs(rv, k), rv.macros[j]->0.name) == Some(
            crate::raw_data::spec_macro_events_of_raw(rv.macros[j]->0.events)->0,
        ),
    decreases k,
{
    let name = rv.macros[j]->0.name;
    if j == k - 1 {
        lemma_slot_defs_names(rv, k - 1);
        assert forall|t: int| 0 <= t < slot_defs(rv, k - 1).len() implies (
        #[trigger] slot_defs(rv, k - 1)[t]).name != name by {
            assert(rv.macros[t] is Some && rv.macros[j] is Some);
            assert(rv.macros[t]->0.name != rv.macros[j]->0.name);
        }
        lemma_find_in_push(slot_defs(rv, k - 1), MacroDefV {
            name,
            events: crate::raw_data::spec_macro_events_of_raw(rv.macros[j]->0.events)->0,
        });
    } else {
        lemma_find_push_distinct(rv, k - 1, j);
        lemma_find_some_after_push(slot_defs(rv, k - 1), MacroDefV {
            name: rv.macros[k - 1]->0.name,
            events: crate::raw_data::spec_macro_events_of_raw(rv.macros[k - 1]->0.events)->0,
        }, name);
    }
}

/// The accumulated list's entries carry the slot names in order.
proof fn lemma_slot_defs_names(rv: RawProfileV, k: int)
    requires
        raw_canonical(rv),
        0 <= k <= rv.macros.len(),
    ensures
        slot_defs(rv, k).len() == k,
        forall|t: int|
            0 <= t < k ==> (#[trigger] slot_defs(rv, k)[t]).name == rv.macros[t]->0.name,
    decreases k,
{
    if k > 0 {
        lemma_slot_defs_names(rv, k - 1);
    }
}

/// A name held by no entry is not found.
proof fn lemma_find_none_when_no_name(defs: Seq<MacroDefV>, name: Seq<char>)
    requires
        forall|t: int| 0 <= t < defs.len() ==> (#[trigger] defs[t]).name != name,
    ensures
        find_macro(defs, name) is None,
    decreases defs.len(),
{
    if defs.len() > 0 {
        assert(defs.first() == defs[0]);
        assert(forall|t: int|
            0 <= t < defs.drop_first().len() ==> (#[trigger] defs.drop_first()[t]).name == defs[t + 1].name);
        lemma_find_none_when_no_name(defs.drop_first(), name);
    }
}

/// A pushed definition is found when its name was absent.
proof fn lemma_find_in_push(defs: Seq<MacroDefV>, d: MacroDefV)
    requires
        forall|t: int| 0 <= t < defs.len() ==> (#[trigger] defs[t]).name != d.name,
    ensures
        find_macro(defs.push(d), d.name) == Some(d.events),
    decreases defs.len(),
{
    if defs.len() == 0 {
        assert(defs.push(d).first() == d);
    } else {
        assert(defs.push(d).first() == defs[0]);
        assert(defs.push(d).drop_first() =~= defs.drop_first().push(d));
        assert(forall|t: int|
            0 <= t < defs.drop_first().len() ==> (#[trigger] defs.drop_first()[t]).name == defs[t + 1].name);
        lemma_find_in_push(defs.drop_first(), d);
    }
}

/// A name found before a push is still found with the same events.
proof fn lemma_find_some_after_push(defs: Seq<MacroDefV>, d: MacroDefV, name: Seq<char>)
    requires
        find_macro(defs, name) is Some,
    ensures
        find_macro(defs.push(d), name) == find_macro(defs, name),
    decreases defs.len(),
{
    if defs.len() > 0 {
        assert(defs.push(d).first() == defs[0]);
        assert(defs.push(d).drop_first() =~= defs.drop_first().push(d));
        if defs.first().name != name {
            lemma_find_some_after_push(defs.drop_first(), d, name);
        }
    }
}

/// Induction core of the raw round trip: decoding the first `n` raw
/// action slots and re-encoding reproduces them, their combo slots and
/// their macro slots.
#[verifier::rlimit(100)]
proof fn lemma_raw_actions_round_trip(rv: RawProfileV, n: int)
    requires
        raw_canonical(rv),
        spec_actions_macros_of_raw(rv, rv.button_actions.len() as int) is Ok,
        0 <= n <= rv.button_actions.len(),
    ensures
        spec_actions_macros_of_raw(rv, n) matches Ok((acts, defs)) && {
            let big_k = num_raw_macro_actions(rv.button_actions, rv.button_actions.len() as int);
            &&& acts.len() == n
            &&& num_macro_actions(acts) == num_raw_macro_actions(rv.button_actions, n)
            &&& defs == slot_defs(rv, num_raw_macro_actions(rv.button_actions, n))
            &&& (forall|i: int|
                0 <= i < n ==> Some(
                    crate::convert::spec_raw_action_of(
                        #[trigger] acts[i],
                        num_macro_actions(acts.take(i)),
                    ),
                ) == rv.button_actions[i])
            &&& (forall|i: int|
                0 <= i < n ==> match #[trigger] acts[i] {
                    ActionV::Combo { events } => Some(
                        crate::raw_data::spec_raw_events_of_key_events(events),
                    ) == rv.combos[i],
                    _ => rv.combos[i] is None,
                })
            &&& spec_macro_slots(acts, slot_defs(rv, big_k)) =~= Seq::new(
                num_raw_macro_actions(rv.button_actions, n) as nat,
                |k: int| rv.macros[k]->0,
            )
        },
    decreases n,
{
    let len = rv.button_actions.len() as int;
    let big_k = num_raw_macro_actions(rv.button_actions, len);
    if n == 0 {
        let acts = spec_actions_macros_of_raw(rv, 0)->Ok_0.0;
        assert(spec_macro_slots(acts, slot_defs(rv, big_k)) =~= Seq::new(
            0nat,
            |k: int| rv.macros[k]->0,
        ));
    } else {
        if spec_actions_macros_of_raw(rv, n) is Err {
            crate::convert::lemma_actions_prefix_err(rv, n, len);
            assert(false);
        }
        lemma_raw_actions_round_trip(rv, n - 1);
        let i = n - 1;
        let (acts0, defs0) = spec_actions_macros_of_raw(rv, i)->Ok_0;
        let (acts, defs) = spec_actions_macros_of_raw(rv, n)->Ok_0;
        let a = spec_action_of_raw(rv, i)->Ok_0;
        assert(acts == acts0.push(a));
        assert(acts.take(i) =~= acts0);
        assert(forall|t: int| 0 <= t < i ==> #[trigger] acts.take(t) =~= acts0.take(t));
        assert(acts.drop_last() =~= acts0);
        let kn = num_raw_macro_actions(rv.button_actions, n);
        let ki = num_raw_macro_actions(rv.button_actions, i);
        match rv.button_actions[i] {
            Some(RawAction::Macro { index }) => {
                assert(index == ki);
                assert(index < rv.macros.len());
                let mv = rv.macros[index as int]->0;
                let decoded = crate::raw_data::spec_macro_events_of_raw(mv.events)->0;
                assert(a == ActionV::Macro { name: mv.name });
                assert(defs == upsert_macro(defs0, mv.name, decoded));
                lemma_slot_defs_names(rv, ki);
                assert forall|t: int| 0 <= t < slot_defs(rv, ki).len() implies (
                #[trigger] slot_defs(rv, ki)[t]).name != mv.name by {
                    assert(rv.macros[t] is Some && rv.macros[index as int] is Some);
                    assert(rv.macros[t]->0.name != rv.macros[index as int]->0.name);
                }
                lemma_find_none_when_no_name(slot_defs(rv, ki), mv.name);
                assert(defs =~= slot_defs(rv, kn));
                assert(num_macro_actions(acts) == kn);
                assert(index < big_k) by {
                    lemma_num_raw_monotone(rv.button_actions, n, len);
                }
                lemma_slot_defs_find(rv, big_k, index as int);
                lemma_raw_macro_events_identity(mv.events);
                assert(spec_macro_slots(acts, slot_defs(rv, big_k)) =~= Seq::new(
                    kn as nat,
                    |k: int| rv.macros[k]->0,
                ));
            },
            Some(RawAction::Combo) => {
                assert(rv.combos[i] is Some);
                let events = crate::raw_data::spec_key_events_of_raw(rv.combos[i]->0)->0;
                assert(a == ActionV::Combo { events });
                lemma_raw_key_events_identity(rv.combos[i]->0);
                assert(defs == defs0);
                assert(num_macro_actions(acts) == kn);
                assert(spec_macro_slots(acts, slot_defs(rv, big_k))
                    =~= spec_macro_slots(acts0, slot_defs(rv, big_k)));
            },
            _ => {
                match rv.button_actions[i]->0 {
                    RawAction::DpiLock { dpi } => {
                        lemma_raw_dpi_byte_identity(dpi);
                    },
                    _ => {},
                }
                assert(defs == defs0);
                assert(num_macro_actions(acts) == kn);
                assert(spec_macro_slots(acts, slot_defs(rv, big_k))
                    =~= spec_macro_slots(acts0, slot_defs(rv, big_k)));
            },
        }
        assert forall|t: int|
            0 <= t < n implies Some(
            crate::convert::spec_raw_action_of(
                #[trigger] acts[t],
                num_macro_actions(acts.take(t)),
            ),
        ) == rv.button_actions[t] by {
            if t < i {
                assert(acts[t] == acts0[t]);
                assert(acts.take(t) =~= acts0.take(t));
            } else {
                assert(acts.take(i) =~= acts0);
            }
        }
    }
}

/// Counting raw macro actions is monotone in the prefix length.
proof fn lemma_num_raw_monotone(az: Seq<Option<RawAction>>, n: int, m: int)
    requires
        0 <= n <= m,
    ensures
        num_raw_macro_actions(az, n) <= num_raw_macro_actions(az, m),
    decreases m - n,
{
    if n < m {
        lemma_num_raw_monotone(az, n + 1, m);
    }
}

/// Raw round-trip law: translating a canonical raw profile to a user
/// profile and back yields the raw profile again.  Composed with the image
/// round trip, re-encoding the user profile decoded from a canonical image
/// reproduces the image's bytes at every valid slot.
#[verifier::rlimit(100)]
pub proof fn lemma_raw_round_trip(rv: RawProfileV)
    requires
        spec_raw_to_user(rv) is Ok,
        raw_canonical(rv),
    ensures
        spec_user_to_raw(spec_raw_to_user(rv)->Ok_0) == rv,
{
    let pv = spec_raw_to_user(rv)->Ok_0;
    let r2 = spec_user_to_raw(pv);
    let len = rv.button_actions.len() as int;
    let big_k = num_raw_macro_actions(rv.button_actions, len);
    lemma_raw_actions_round_trip(rv, len);
    let (acts, defs) = spec_actions_macros_of_raw(rv, len)->Ok_0;
    assert(pv.button_actions == acts);
    assert(pv.macros == defs);
    assert(defs == slot_defs(rv, big_k));
    assert(r2.dpis =~= rv.dpis) by {
        assert forall|i: int| 0 <= i < rv.dpis.len() implies #[trigger] r2.dpis[i]
            == rv.dpis[i] by {
            assert(rv.dpis[i] is Some);
            lemma_raw_dpi_identity(rv.dpis[i]->0);
        }
    }
    assert(r2.dpi_colors =~= rv.dpi_colors) by {
        assert forall|i: int| 0 <= i < rv.dpi_colors.len() implies #[trigger] r2.dpi_colors[i]
            == rv.dpi_colors[i] by {
            assert(rv.dpi_colors[i] is Some);
        }
    }
    assert(r2.button_actions =~= rv.button_actions);
    assert(r2.combos =~= rv.combos) by {
        assert forall|i: int| 0 <= i < rv.combos.len() implies #[trigger] r2.combos[i]
            == rv.combos[i] by {
            match acts[i] {
                ActionV::Combo { events } => {},
                _ => {},
            }
        }
    }
    assert(r2.macros =~= rv.macros) by {
        assert(spec_macro_slots(acts, defs) =~= Seq::new(big_k as nat, |k: int| rv.macros[k]->0));
        assert forall|k: int| 0 <= k < rv.macros.len() implies #[trigger] r2.macros[k]
            == rv.macros[k] by {
            assert(r2.macros[k] == Some(spec_macro_slots(acts, defs)[k]));
            assert(rv.macros[k] is Some);
        }
    }
    match rv.peak_performance_time {
        Some(b) => {
            assert(((b * 10) as u16) / 10 == b) by (nonlinear_arith)
                requires
                    b < 256,
            ;
        },
        None => {},
    }
    assert(r2.poll_rate == rv.poll_rate);
    assert(r2.dpi_count == rv.dpi_count);
    assert(r2.current_dpi_index == rv.current_dpi_index);
    assert(r2.lift_off_distance == rv.lift_off_distance);
    assert(r2.debounce_ms == rv.debounce_ms);
    assert(r2.motion_sync == rv.motion_sync);
    assert(r2.angle_snapping == rv.angle_snapping);
    assert(r2.ripple_control == rv.ripple_control);
    assert(r2.peak_performance == rv.peak_performance);
    assert(r2.peak_performance_time == rv.peak_performance_time);
    assert(r2.high_performance == rv.high_performance);
    assert(r2 =~= rv);
}

/// Memory image round-trip law: for a canonical image, decoding to a user
/// profile, translating back and writing the segments reproduces the image
/// exactly — every slot whose checksum was valid is rewritten
/// byte-for-byte, and every absent slot is left untouched.
pub proof fn lemma_memory_image_round_trip(img: Seq<u8>, num_buttons: int)
    requires
        img.len() == crate::raw_profile::DATA_END,
        0 <= num_buttons <= 16,
        crate::raw_profile::spec_decode_image(img, num_buttons) is Some,
        spec_raw_to_user(crate::raw_profile::spec_decode_image(img, num_buttons)->0) is Ok,
        image_canonical(img, num_buttons),
        raw_canonical(crate::raw_profile::spec_decode_image(img, num_buttons)->0),
    ensures
        spec_apply_segments(
            img,
            crate::raw_profile::spec_encode_raw(
                spec_user_to_raw(
                    spec_raw_to_user(
                        crate::raw_profile::spec_decode_image(img, num_buttons)->0,
                    )->Ok_0,
                ),
            ),
        ) == img,
{
    let rv = crate::raw_profile::spec_decode_image(img, num_buttons)->0;
    lemma_raw_round_trip(rv);
    lemma_image_round_trip(img, num_buttons);
}

} // verus!
