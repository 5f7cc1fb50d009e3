//! Session-wide laws of the engine, proved over the specification
//! functions that the handlers' contracts are stated with.

use vstd::prelude::*;

use crate::plan::{
    disabled_scale_msg, disabled_transform_msg, invalid_scale_msg, preserve_directive,
    resolve_toggle_mode, spec_find_by_name, spec_find_mode_by_id, spec_find_mode_triple,
    spec_find_preferred, spec_preserve_all, spec_scale_rows, spec_set_scale_plan,
    spec_switch_rows, spec_target_enabled, spec_toggle_save, spec_transform_rows,
};
use crate::state::{
    changed_events, clear_changed, has_monitor, spec_step_manager, ActionKind, EventView,
    ManagerEvent, ManagerView,
};
use crate::wl_monitor::{MonitorView, WlMonitorMode, WlScale, WlTransform};

verus! {

/// Outcome of feeding a whole sequence of manager-object events into the
/// session, one [`spec_step_manager`] step after another: the final state
/// and everything emitted, in order.
pub open spec fn spec_run_manager_events(s: ManagerView, evs: Seq<ManagerEvent>) -> (
    ManagerView,
    Seq<EventView>,
)
    decreases evs.len(),
{
    if evs.len() == 0 {
        (s, Seq::<EventView>::empty())
    } else {
        let (s1, out1) = spec_step_manager(s, evs[0]);
        let (s2, out2) = spec_run_manager_events(s1, evs.drop_first());
        (s2, out1 + out2)
    }
}

/// How many `InitialState` events a sequence holds.
pub open spec fn count_initial_state(evs: Seq<EventView>) -> nat
    decreases evs.len(),
{
    if evs.len() == 0 {
        0
    } else {
        count_initial_state(evs.drop_last()) + (if evs.last() is InitialState {
            1nat
        } else {
            0nat
        })
    }
}

/// Whether a sequence of manager events holds a synchronization point.
pub open spec fn has_done(evs: Seq<ManagerEvent>) -> bool {
    exists|i: int| 0 <= i < evs.len() && evs[i] is Done
}

/// Counting `InitialState` events distributes over concatenation.
proof fn lemma_count_initial_state_add(a: Seq<EventView>, b: Seq<EventView>)
    ensures
        count_initial_state(a + b) == count_initial_state(a) + count_initial_state(b),
    decreases b.len(),
{
    if b.len() == 0 {
        assert(a + b =~= a);
    } else {
        lemma_count_initial_state_add(a, b.drop_last());
        assert((a + b).drop_last() =~= a + b.drop_last());
        assert((a + b).last() == b.last());
    }
}

/// An already-initialized session never emits `InitialState` again, no
/// matter how many further synchronization points occur.
pub proof fn lemma_initialized_no_initial_state(s: ManagerView, evs: Seq<ManagerEvent>)
    requires
        s.initialized,
    ensures
        count_initial_state(spec_run_manager_events(s, evs).1) == 0,
        spec_run_manager_events(s, evs).0.initialized,
    decreases evs.len(),
{
    if evs.len() == 0 {
    } else {
        let (s1, out1) = spec_step_manager(s, evs[0]);
        assert(s1.initialized);
        assert(count_initial_state(out1) == 0);
        lemma_initialized_no_initial_state(s1, evs.drop_first());
        lemma_count_initial_state_add(out1, spec_run_manager_events(s1, evs.drop_first()).1);
    }
}

/// `InitialState` is emitted exactly once per session: a session that has
/// not yet reached its first synchronization point emits it exactly once
/// over any event sequence holding a `Done`, and never otherwise. (By
/// [`spec_step_manager`], the one event carries every monitor known at
/// that first synchronization point.)
pub proof fn lemma_initial_state_once(s: ManagerView, evs: Seq<ManagerEvent>)
    requires
        !s.initialized,
    ensures
        count_initial_state(spec_run_manager_events(s, evs).1) == (if has_done(evs) {
            1nat
        } else {
            0nat
        }),
    decreases evs.len(),
{
    if evs.len() == 0 {
    } else {
        let (s1, out1) = spec_step_manager(s, evs[0]);
        let rest = evs.drop_first();
        let out2 = spec_run_manager_events(s1, rest).1;
        lemma_count_initial_state_add(out1, out2);
        match evs[0] {
            ManagerEvent::Done { serial } => {
                assert(count_initial_state(out1) == 1) by {
                    let single = seq![EventView::InitialState(s.monitors)];
                    assert(out1 == single);
                    assert(single.drop_last() =~= Seq::<EventView>::empty());
                    assert(count_initial_state(Seq::<EventView>::empty()) == 0);
                    assert(single.last() is InitialState);
                }
                assert(s1.initialized);
                lemma_initialized_no_initial_state(s1, rest);
                assert(has_done(evs));
            },
            ManagerEvent::Head { head_id } => {
                assert(count_initial_state(out1) == 0);
                assert(!s1.initialized);
                lemma_initial_state_once(s1, rest);
                assert(has_done(evs) == has_done(rest)) by {
                    if has_done(rest) {
                        let i = choose|i: int| 0 <= i < rest.len() && rest[i] is Done;
                        assert(evs[i + 1] is Done);
                        assert(has_done(evs));
                    }
                    if has_done(evs) {
                        let i = choose|i: int| 0 <= i < evs.len() && evs[i] is Done;
                        assert(i != 0);
                        assert(rest[i - 1] is Done);
                        assert(has_done(rest));
                    }
                }
            },
        }
    }
}

/// A remembered mode identifier still present in the catalog is what a
/// toggle-on resolves to whenever no explicitly supplied triple matches
/// (in particular when none was supplied). Together with the toggle
/// contract (which records the current mode as `last_mode` when turning
/// an enabled monitor off), this says an off/on round trip restores the
/// mode the monitor held before being disabled.
pub proof fn lemma_toggle_restores_last_mode(
    modes: Seq<WlMonitorMode>,
    explicit: Option<(i32, i32, i32)>,
    mode_id: u64,
)
    requires
        exists|j: int| 0 <= j < modes.len() && modes[j].mode_id == mode_id,
        explicit matches Some((width, height, refresh_rate)) ==> spec_find_mode_triple(
            modes,
            width,
            height,
            refresh_rate,
        ) is None,
    ensures
        resolve_toggle_mode(modes, explicit, Some(mode_id)) matches Some(md) && md.mode_id
            == mode_id,
{
    lemma_find_by_id_finds(modes, mode_id);
}

/// A scale that is not finite and positive always fails with exactly one
/// `SetScale` notice, and the planned transaction preserves every
/// monitor unchanged, whatever the target name.
pub proof fn lemma_invalid_scale_preserves_all(
    mons: Seq<MonitorView>,
    name: Seq<char>,
    scale: WlScale,
)
    requires
        !scale.spec_valid(),
    ensures
        spec_set_scale_plan(mons, name, scale).0 == spec_preserve_all(mons),
        spec_set_scale_plan(mons, name, scale).1 == seq![
            EventView::ActionFailed {
                action: ActionKind::SetScale,
                reason: invalid_scale_msg(scale),
            },
        ],
{
}

/// A found name index is in bounds and names the monitor it points at.
proof fn lemma_find_by_name_bounds(mons: Seq<MonitorView>, name: Seq<char>)
    ensures
        spec_find_by_name(mons, name) matches Some(i) ==> 0 <= i < mons.len() && mons[i].name
            == name,
    decreases mons.len(),
{
    if mons.len() == 0 {
    } else if mons[0].name == name {
    } else {
        lemma_find_by_name_bounds(mons.drop_first(), name);
    }
}

/// Toggling an enabled monitor off records its current mode identifier
/// as the remembered last mode before the disable is planned.
pub proof fn lemma_toggle_off_saves_current_mode(mons: Seq<MonitorView>, name: Seq<char>)
    requires
        spec_target_enabled(mons, name),
    ensures
        spec_find_by_name(mons, name) matches Some(i) && (mons[i].current_mode is Some
            ==> spec_toggle_save(mons, name, true)[i].last_mode == mons[i].current_mode),
{
    lemma_find_by_name_bounds(mons, name);
}

/// The search by identifier finds a mode with that identifier whenever
/// the catalog holds one.
proof fn lemma_find_by_id_finds(modes: Seq<WlMonitorMode>, mode_id: u64)
    requires
        exists|j: int| 0 <= j < modes.len() && modes[j].mode_id == mode_id,
    ensures
        spec_find_mode_by_id(modes, mode_id) matches Some(md) && md.mode_id == mode_id,
    decreases modes.len(),
{
    if modes[0].mode_id == mode_id {
    } else {
        let j = choose|j: int| 0 <= j < modes.len() && modes[j].mode_id == mode_id;
        assert(modes.drop_first()[j - 1].mode_id == mode_id);
        lemma_find_by_id_finds(modes.drop_first(), mode_id);
    }
}

/// What the preferred-mode search returns: a preferred mode from the
/// catalog when one exists, nothing otherwise.
proof fn lemma_find_preferred_char(modes: Seq<WlMonitorMode>)
    ensures
        (exists|j: int| 0 <= j < modes.len() && modes[j].preferred) ==> (spec_find_preferred(modes)
            matches Some(md) && md.preferred && modes.contains(md)),
        !(exists|j: int| 0 <= j < modes.len() && modes[j].preferred) ==> spec_find_preferred(modes)
            is None,
    decreases modes.len(),
{
    if modes.len() == 0 {
    } else if modes[0].preferred {
        assert(modes.contains(modes[0]));
    } else {
        lemma_find_preferred_char(modes.drop_first());
        if exists|j: int| 0 <= j < modes.len() && modes[j].preferred {
            let j = choose|j: int| 0 <= j < modes.len() && modes[j].preferred;
            assert(modes.drop_first()[j - 1].preferred);
            let md = spec_find_preferred(modes.drop_first())->0;
            let k = choose|k: int|
                0 <= k < modes.drop_first().len() && modes.drop_first()[k] == md;
            assert(modes[k + 1] == md);
            assert(modes.contains(md));
        } else {
            assert forall|j: int| 0 <= j < modes.drop_first().len() implies !modes.drop_first()[j]
                .preferred by {
                assert(modes[j + 1] == modes.drop_first()[j]);
            }
        }
    }
}

/// A toggle-on with no explicit mode and no remembered mode resolves to
/// the mode flagged preferred when one exists, else to the first mode in
/// catalog order, and fails only on an empty catalog.
pub proof fn lemma_toggle_default_resolution(modes: Seq<WlMonitorMode>)
    ensures
        (exists|j: int| 0 <= j < modes.len() && modes[j].preferred) ==> (resolve_toggle_mode(
            modes,
            None,
            None,
        ) matches Some(md) && md.preferred && modes.contains(md)),
        !(exists|j: int| 0 <= j < modes.len() && modes[j].preferred) && modes.len() > 0
            ==> resolve_toggle_mode(modes, None, None) == Some(modes[0]),
        modes.len() == 0 ==> resolve_toggle_mode(modes, None, None) is None,
{
    lemma_find_preferred_char(modes);
}

/// A mode switch that matches nothing in the target's catalog leaves
/// every monitor's directive equal to its preserved current state.
pub proof fn lemma_switch_no_match_preserves_all(
    mons: Seq<MonitorView>,
    name: Seq<char>,
    width: i32,
    height: i32,
    refresh_rate: i32,
)
    requires
        forall|i: int|
            0 <= i < mons.len() && (#[trigger] mons[i]).name == name ==> spec_find_mode_triple(
                mons[i].modes,
                width,
                height,
                refresh_rate,
            ) is None,
    ensures
        spec_switch_rows(mons, name, width, height, refresh_rate).0 == spec_preserve_all(mons),
    decreases mons.len(),
{
    if mons.len() == 0 {
        assert(spec_switch_rows(mons, name, width, height, refresh_rate).0 =~= spec_preserve_all(
            mons,
        ));
    } else {
        let prefix = mons.drop_last();
        assert forall|i: int|
            0 <= i < prefix.len() && (#[trigger] prefix[i]).name == name
                implies spec_find_mode_triple(prefix[i].modes, width, height, refresh_rate)
            is None by {
            assert(mons[i] == prefix[i]);
        }
        lemma_switch_no_match_preserves_all(prefix, name, width, height, refresh_rate);
        assert(spec_preserve_all(mons) =~= spec_preserve_all(prefix).push(
            preserve_directive(mons.last()),
        ));
    }
}

/// A scale change whose target monitors are all disabled preserves every
/// monitor's directive, and (when a target exists) reports the failure
/// naming the monitor.
pub proof fn lemma_scale_disabled_target_preserved(
    mons: Seq<MonitorView>,
    name: Seq<char>,
    scale: WlScale,
)
    requires
        forall|i: int| 0 <= i < mons.len() && (#[trigger] mons[i]).name == name ==> !mons[i].enabled,
    ensures
        spec_scale_rows(mons, name, scale).0 == spec_preserve_all(mons),
        (exists|i: int| 0 <= i < mons.len() && (#[trigger] mons[i]).name == name)
            ==> spec_scale_rows(mons, name, scale).1.contains(
            EventView::ActionFailed { action: ActionKind::SetScale, reason: disabled_scale_msg(name) },
        ),
    decreases mons.len(),
{
    if mons.len() == 0 {
        assert(spec_scale_rows(mons, name, scale).0 =~= spec_preserve_all(mons));
    } else {
        let prefix = mons.drop_last();
        assert forall|i: int|
            0 <= i < prefix.len() && (#[trigger] prefix[i]).name == name implies !prefix[i]
            .enabled by {
            assert(mons[i] == prefix[i]);
        }
        lemma_scale_disabled_target_preserved(prefix, name, scale);
        assert(spec_preserve_all(mons) =~= spec_preserve_all(prefix).push(
            preserve_directive(mons.last()),
        ));
        let ev = EventView::ActionFailed {
            action: ActionKind::SetScale,
            reason: disabled_scale_msg(name),
        };
        let (ds, es) = spec_scale_rows(prefix, name, scale);
        if exists|i: int| 0 <= i < mons.len() && (#[trigger] mons[i]).name == name {
            let i = choose|i: int| 0 <= i < mons.len() && (#[trigger] mons[i]).name == name;
            if mons.last().name == name {
                assert(spec_scale_rows(mons, name, scale).1 == es.push(ev));
                assert(es.push(ev).last() == ev);
                assert(es.push(ev).contains(ev));
            } else {
                assert(i < prefix.len() && prefix[i].name == name);
                assert(es.contains(ev));
                let k = choose|k: int| 0 <= k < es.len() && es[k] == ev;
                assert(spec_scale_rows(mons, name, scale).1[k] == ev);
                assert(spec_scale_rows(mons, name, scale).1.contains(ev));
            }
        }
    }
}

/// A transform change whose target monitors are all disabled preserves
/// every monitor's directive, and (when a target exists) reports the
/// failure naming the monitor.
pub proof fn lemma_transform_disabled_target_preserved(
    mons: Seq<MonitorView>,
    name: Seq<char>,
    transform: WlTransform,
)
    requires
        forall|i: int| 0 <= i < mons.len() && (#[trigger] mons[i]).name == name ==> !mons[i].enabled,
    ensures
        spec_transform_rows(mons, name, transform).0 == spec_preserve_all(mons),
        (exists|i: int| 0 <= i < mons.len() && (#[trigger] mons[i]).name == name)
            ==> spec_transform_rows(mons, name, transform).1.contains(
            EventView::ActionFailed {
                action: ActionKind::SetTransform,
                reason: disabled_transform_msg(name),
            },
        ),
    decreases mons.len(),
{
    if mons.len() == 0 {
        assert(spec_transform_rows(mons, name, transform).0 =~= spec_preserve_all(mons));
    } else {
        let prefix = mons.drop_last();
        assert forall|i: int|
            0 <= i < prefix.len() && (#[trigger] prefix[i]).name == name implies !prefix[i]
            .enabled by {
            assert(mons[i] == prefix[i]);
        }
        lemma_transform_disabled_target_preserved(prefix, name, transform);
        assert(spec_preserve_all(mons) =~= spec_preserve_all(prefix).push(
            preserve_directive(mons.last()),
        ));
        let ev = EventView::ActionFailed {
            action: ActionKind::SetTransform,
            reason: disabled_transform_msg(name),
        };
        let (ds, es) = spec_transform_rows(prefix, name, transform);
        if exists|i: int| 0 <= i < mons.len() && (#[trigger] mons[i]).name == name {
            let i = choose|i: int| 0 <= i < mons.len() && (#[trigger] mons[i]).name == name;
            if mons.last().name == name {
                assert(spec_transform_rows(mons, name, transform).1 == es.push(ev));
                assert(es.push(ev).last() == ev);
                assert(es.push(ev).contains(ev));
            } else {
                assert(i < prefix.len() && prefix[i].name == name);
                assert(es.contains(ev));
                let k = choose|k: int| 0 <= k < es.len() && es[k] == ev;
                assert(spec_transform_rows(mons, name, transform).1[k] == ev);
                assert(spec_transform_rows(mons, name, transform).1.contains(ev));
            }
        }
    }
}

/// Each of the eight transform variants survives a wire round trip.
pub proof fn lemma_transform_wire_round_trip(t: WlTransform)
    ensures
        WlTransform::spec_from_wayland(t.spec_to_wayland()) == t,
{
}

/// An out-of-range wire value decodes to `Normal` without failure.
pub proof fn lemma_transform_unknown_wire_normalizes(v: u32)
    requires
        v > 7,
    ensures
        WlTransform::spec_from_wayland(v) == WlTransform::Normal,
{
}

/// Dirty flushes coalesce: a flush clears every dirty flag, so flushing
/// again right away emits nothing — at most one `Changed` event per
/// monitor per tick.
pub proof fn lemma_flush_coalesces(mons: Seq<MonitorView>)
    ensures
        changed_events(clear_changed(mons)) == Seq::<EventView>::empty(),
    decreases mons.len(),
{
    if mons.len() == 0 {
        assert(changed_events(clear_changed(mons)) =~= Seq::<EventView>::empty());
    } else {
        let c = clear_changed(mons);
        assert(c.drop_last() =~= clear_changed(mons.drop_last()));
        assert(!c.last().changed);
        lemma_flush_coalesces(mons.drop_last());
    }
}

/// After a head's removal no `Changed` event of a dirty flush references
/// its identifier. Together with the `Finished` contract of the head
/// handler (exactly one `Removed` event carrying the last-known name, and
/// no monitor with that identifier left in the table), this says a
/// removed head is reported exactly once and then falls silent.
pub proof fn lemma_removed_head_silent(mons: Seq<MonitorView>, head_id: u64)
    requires
        !has_monitor(mons, head_id),
    ensures
        forall|k: int|
            0 <= k < changed_events(mons).len() ==> !((#[trigger] changed_events(mons)[k]) matches
                EventView::Changed(mv) && mv.head_id == head_id),
    decreases mons.len(),
{
    if mons.len() == 0 {
    } else {
        let prefix = mons.drop_last();
        assert(!has_monitor(prefix, head_id)) by {
            if has_monitor(prefix, head_id) {
                let i = choose|i: int| 0 <= i < prefix.len() && prefix[i].head_id == head_id;
                assert(mons[i].head_id == head_id);
            }
        }
        lemma_removed_head_silent(prefix, head_id);
        assert(mons[mons.len() - 1].head_id != head_id);
    }
}

} // verus!
