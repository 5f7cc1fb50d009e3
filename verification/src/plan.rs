//! Resolving control actions into configuration transactions.
//!
//! A control action becomes an [`ActionPlan`]: per-head directives
//! (enable at a mode/position/transform/scale, or disable) plus any
//! failure events noticed while planning. Monitors not targeted by an
//! action are always preserved at their current observable state. The
//! row functions here say, monitor by monitor, what each action plans;
//! the engine's methods are proved against them.

use vstd::prelude::*;
use vstd::string::StringExecFns;

use crate::numfmt::{fmt_i32, spec_dec_int};
use crate::state::{ActionKind, EventView, WlMonitorEvent};
use crate::wl_monitor::{MonitorView, WlMonitor, WlMonitorMode, WlPosition, WlScale, WlTransform};

verus! {

/// One per-head directive of a configuration transaction.
#[derive(Debug, Clone, Copy, PartialEq, Eq)]
pub enum HeadDirective {
    /// Enable the head, activating the named mode (when one is given) at
    /// this position, transform and scale.
    Enable {
        head_id: u64,
        mode_id: Option<u64>,
        position: WlPosition,
        transform: WlTransform,
        scale: WlScale,
    },
    /// Leave the head disabled.
    Disable { head_id: u64 },
}

/// A resolved control action: the serial the transaction must be
/// submitted under, one directive per affected head, and the failure
/// events noticed while planning.
#[derive(Debug)]
pub struct ActionPlan {
    /// Serial to echo in `create_configuration`
    pub serial: u32,
    /// Per-head requests, in monitor-table order
    pub directives: Vec<HeadDirective>,
    /// `ActionFailed` events to report outward
    pub events: Vec<WlMonitorEvent>,
}

/// Mathematical value of an [`ActionPlan`].
#[verifier::ext_equal]
pub struct PlanView {
    pub serial: u32,
    pub directives: Seq<HeadDirective>,
    pub events: Seq<EventView>,
}

impl View for ActionPlan {
    type V = PlanView;

    open spec fn view(&self) -> PlanView {
        PlanView {
            serial: self.serial,
            directives: self.directives@,
            events: self.events@.map_values(|e: WlMonitorEvent| e@),
        }
    }
}

/// The directive that preserves a monitor's current observable state in a
/// transaction: enabled monitors are re-asserted at their current mode,
/// position, transform and scale; disabled monitors stay disabled.
pub open spec fn preserve_directive(m: MonitorView) -> HeadDirective {
    if m.enabled {
        HeadDirective::Enable {
            head_id: m.head_id,
            mode_id: m.current_mode,
            position: m.position,
            transform: m.transform,
            scale: m.scale,
        }
    } else {
        HeadDirective::Disable { head_id: m.head_id }
    }
}

/// One preserving directive per monitor, in table order.
pub open spec fn spec_preserve_all(mons: Seq<MonitorView>) -> Seq<HeadDirective> {
    mons.map_values(|m: MonitorView| preserve_directive(m))
}

/// First mode matching a width/height/refresh triple exactly.
pub open spec fn spec_find_mode_triple(
    modes: Seq<WlMonitorMode>,
    width: i32,
    height: i32,
    refresh_rate: i32,
) -> Option<WlMonitorMode>
    decreases modes.len(),
{
    if modes.len() == 0 {
        None
    } else if modes[0].spec_matches_triple(width, height, refresh_rate) {
        Some(modes[0])
    } else {
        spec_find_mode_triple(modes.drop_first(), width, height, refresh_rate)
    }
}

/// First mode with this identifier.
pub open spec fn spec_find_mode_by_id(modes: Seq<WlMonitorMode>, mode_id: u64) -> Option<
    WlMonitorMode,
>
    decreases modes.len(),
{
    if modes.len() == 0 {
        None
    } else if modes[0].mode_id == mode_id {
        Some(modes[0])
    } else {
        spec_find_mode_by_id(modes.drop_first(), mode_id)
    }
}

/// First mode flagged preferred.
pub open spec fn spec_find_preferred(modes: Seq<WlMonitorMode>) -> Option<WlMonitorMode>
    decreases modes.len(),
{
    if modes.len() == 0 {
        None
    } else if modes[0].preferred {
        Some(modes[0])
    } else {
        spec_find_preferred(modes.drop_first())
    }
}

/// The mode a toggle-on activates, by priority: an explicitly supplied
/// triple matched exactly, else the remembered last mode if still in the
/// catalog, else the preferred mode, else the first mode in catalog
/// order; `None` only when nothing resolves (an empty catalog).
pub open spec fn resolve_toggle_mode(
    modes: Seq<WlMonitorMode>,
    explicit: Option<(i32, i32, i32)>,
    last: Option<u64>,
) -> Option<WlMonitorMode> {
    let requested = match explicit {
        Some((width, height, refresh_rate)) => spec_find_mode_triple(
            modes,
            width,
            height,
            refresh_rate,
        ),
        None => None,
    };
    match requested {
        Some(md) => Some(md),
        None => {
            let remembered = match last {
                Some(mode_id) => spec_find_mode_by_id(modes, mode_id),
                None => None,
            };
            match remembered {
                Some(md) => Some(md),
                None => match spec_find_preferred(modes) {
                    Some(md) => Some(md),
                    None => if modes.len() > 0 {
                        Some(modes[0])
                    } else {
                        None
                    },
                },
            }
        },
    }
}

/// Index of the first monitor with this name.
pub open spec fn spec_find_by_name(mons: Seq<MonitorView>, name: Seq<char>) -> Option<int>
    decreases mons.len(),
{
    if mons.len() == 0 {
        None
    } else if mons[0].name == name {
        Some(0int)
    } else {
        match spec_find_by_name(mons.drop_first(), name) {
            Some(i) => Some(i + 1),
            None => None,
        }
    }
}

/// Whether the first monitor with this name is currently enabled
/// (`false` when no monitor has the name).
pub open spec fn spec_target_enabled(mons: Seq<MonitorView>, name: Seq<char>) -> bool {
    match spec_find_by_name(mons, name) {
        Some(i) => mons[i].enabled,
        None => false,
    }
}

/// Before an off-toggle, the first monitor with the target name remembers
/// its current mode identifier as its last mode (when it has one).
pub open spec fn spec_toggle_save(
    mons: Seq<MonitorView>,
    name: Seq<char>,
    target_enabled: bool,
) -> Seq<MonitorView> {
    if !target_enabled {
        mons
    } else {
        match spec_find_by_name(mons, name) {
            Some(i) => if mons[i].current_mode is Some {
                mons.update(i, (MonitorView { last_mode: mons[i].current_mode, ..mons[i] }))
            } else {
                mons
            },
            None => mons,
        }
    }
}

/// Reason text when a toggle-on finds no usable mode.
pub open spec fn toggle_no_mode_msg(name: Seq<char>) -> Seq<char> {
    "No valid mode available for monitor '"@ + name + "'"@
}

/// Reason text when a mode switch matches nothing in the catalog.
pub open spec fn switch_no_match_msg(
    width: i32,
    height: i32,
    refresh_rate: i32,
    name: Seq<char>,
) -> Seq<char> {
    "No matching mode "@ + spec_dec_int(width as int) + "x"@ + spec_dec_int(height as int) + "@"@
        + spec_dec_int(refresh_rate as int) + "Hz for monitor '"@ + name + "'"@
}

/// Reason text when a requested scale is not finite and positive.
pub open spec fn invalid_scale_msg(scale: WlScale) -> Seq<char> {
    "Invalid scale value '"@ + scale.spec_describe() + "': must be finite and > 0"@
}

/// Reason text when a scale change targets a disabled monitor.
pub open spec fn disabled_scale_msg(name: Seq<char>) -> Seq<char> {
    "Monitor '"@ + name + "' is disabled, cannot set scale"@
}

/// Reason text when a transform change targets a disabled monitor.
pub open spec fn disabled_transform_msg(name: Seq<char>) -> Seq<char> {
    "Monitor '"@ + name + "' is disabled, cannot set transform"@
}

/// Per-monitor outcome of a toggle transaction: other monitors are
/// preserved; when the target was enabled it is disabled; when it was
/// disabled it is enabled at the resolved mode, or reported as having no
/// usable mode (and then gets no directive at all).
pub open spec fn spec_toggle_rows(
    mons: Seq<MonitorView>,
    name: Seq<char>,
    explicit: Option<(i32, i32, i32)>,
    target_enabled: bool,
) -> (Seq<HeadDirective>, Seq<EventView>)
    decreases mons.len(),
{
    if mons.len() == 0 {
        (Seq::<HeadDirective>::empty(), Seq::<EventView>::empty())
    } else {
        let (ds, es) = spec_toggle_rows(mons.drop_last(), name, explicit, target_enabled);
        let m = mons.last();
        if m.name != name {
            (ds.push(preserve_directive(m)), es)
        } else if target_enabled {
            (ds.push(HeadDirective::Disable { head_id: m.head_id }), es)
        } else {
            match resolve_toggle_mode(m.modes, explicit, m.last_mode) {
                Some(md) => (
                    ds.push(
                        HeadDirective::Enable {
                            head_id: m.head_id,
                            mode_id: Some(md.mode_id),
                            position: m.position,
                            transform: m.transform,
                            scale: m.scale,
                        },
                    ),
                    es,
                ),
                None => (
                    ds,
                    es.push(
                        EventView::ActionFailed {
                            action: ActionKind::Toggle,
                            reason: toggle_no_mode_msg(name),
                        },
                    ),
                ),
            }
        }
    }
}

/// Per-monitor outcome of a mode switch: the target is enabled at the
/// exactly matching mode, or preserved unchanged with a failure event;
/// all other monitors are preserved.
pub open spec fn spec_switch_rows(
    mons: Seq<MonitorView>,
    name: Seq<char>,
    width: i32,
    height: i32,
    refresh_rate: i32,
) -> (Seq<HeadDirective>, Seq<EventView>)
    decreases mons.len(),
{
    if mons.len() == 0 {
        (Seq::<HeadDirective>::empty(), Seq::<EventView>::empty())
    } else {
        let (ds, es) = spec_switch_rows(mons.drop_last(), name, width, height, refresh_rate);
        let m = mons.last();
        if m.name != name {
            (ds.push(preserve_directive(m)), es)
        } else {
            match spec_find_mode_triple(m.modes, width, height, refresh_rate) {
                Some(md) => (
                    ds.push(
                        HeadDirective::Enable {
                            head_id: m.head_id,
                            mode_id: Some(md.mode_id),
                            position: m.position,
                            transform: m.transform,
                            scale: m.scale,
                        },
                    ),
                    es,
                ),
                None => (
                    ds.push(preserve_directive(m)),
                    es.push(
                        EventView::ActionFailed {
                            action: ActionKind::SwitchMode,
                            reason: switch_no_match_msg(width, height, refresh_rate, name),
                        },
                    ),
                ),
            }
        }
    }
}

/// Per-monitor outcome of a (valid) scale change: the target, when
/// enabled, is re-asserted at its current mode/position/transform with
/// the new scale; a disabled target is preserved with a failure event;
/// all other monitors are preserved.
pub open spec fn spec_scale_rows(mons: Seq<MonitorView>, name: Seq<char>, scale: WlScale) -> (
    Seq<HeadDirective>,
    Seq<EventView>,
)
    decreases mons.len(),
{
    if mons.len() == 0 {
        (Seq::<HeadDirective>::empty(), Seq::<EventView>::empty())
    } else {
        let (ds, es) = spec_scale_rows(mons.drop_last(), name, scale);
        let m = mons.last();
        if m.name != name {
            (ds.push(preserve_directive(m)), es)
        } else if !m.enabled {
            (
                ds.push(preserve_directive(m)),
                es.push(
                    EventView::ActionFailed {
                        action: ActionKind::SetScale,
                        reason: disabled_scale_msg(name),
                    },
                ),
            )
        } else {
            (
                ds.push(
                    HeadDirective::Enable {
                        head_id: m.head_id,
                        mode_id: m.current_mode,
                        position: m.position,
                        transform: m.transform,
                        scale,
                    },
                ),
                es,
            )
        }
    }
}

/// The whole outcome of a scale change, validity included: a scale that
/// is not finite and positive preserves every monitor unchanged and
/// reports exactly one failure; a valid one proceeds monitor by monitor.
pub open spec fn spec_set_scale_plan(mons: Seq<MonitorView>, name: Seq<char>, scale: WlScale) -> (
    Seq<HeadDirective>,
    Seq<EventView>,
) {
    if !scale.spec_valid() {
        (
            spec_preserve_all(mons),
            seq![
                EventView::ActionFailed {
                    action: ActionKind::SetScale,
                    reason: invalid_scale_msg(scale),
                },
            ],
        )
    } else {
        spec_scale_rows(mons, name, scale)
    }
}

/// Per-monitor outcome of a transform change: the target, when enabled,
/// is re-asserted at its current mode/position/scale with the new
/// transform; a disabled target is preserved with a failure event; all
/// other monitors are preserved.
pub open spec fn spec_transform_rows(
    mons: Seq<MonitorView>,
    name: Seq<char>,
    transform: WlTransform,
) -> (Seq<HeadDirective>, Seq<EventView>)
    decreases mons.len(),
{
    if mons.len() == 0 {
        (Seq::<HeadDirective>::empty(), Seq::<EventView>::empty())
    } else {
        let (ds, es) = spec_transform_rows(mons.drop_last(), name, transform);
        let m = mons.last();
        if m.name != name {
            (ds.push(preserve_directive(m)), es)
        } else if !m.enabled {
            (
                ds.push(preserve_directive(m)),
                es.push(
                    EventView::ActionFailed {
                        action: ActionKind::SetTransform,
                        reason: disabled_transform_msg(name),
                    },
                ),
            )
        } else {
            (
                ds.push(
                    HeadDirective::Enable {
                        head_id: m.head_id,
                        mode_id: m.current_mode,
                        position: m.position,
                        transform,
                        scale: m.scale,
                    },
                ),
                es,
            )
        }
    }
}

/// First mode of the catalog matching the triple exactly.
pub(crate) fn find_mode_triple(
    modes: &Vec<WlMonitorMode>,
    width: i32,
    height: i32,
    refresh_rate: i32,
) -> (r: Option<WlMonitorMode>)
    ensures
        r == spec_find_mode_triple(modes@, width, height, refresh_rate),
{
    let mut j: usize = 0;
    proof {
        assert(modes@.skip(0) =~= modes@);
    }
    while j < modes.len()
        invariant
            j <= modes@.len(),
            spec_find_mode_triple(modes@, width, height, refresh_rate) == spec_find_mode_triple(
                modes@.skip(j as int),
                width,
                height,
                refresh_rate,
            ),
        decreases modes@.len() - j,
    {
        let md = modes[j];
        proof {
            assert(modes@.skip(j as int)[0] == md);
        }
        if md.matches_triple(width, height, refresh_rate) {
            return Some(md);
        }
        j += 1;
        proof {
            assert(modes@.skip(j as int - 1).drop_first() =~= modes@.skip(j as int));
        }
    }
    None
}

/// First mode of the catalog with this identifier.
pub(crate) fn find_mode_by_id(modes: &Vec<WlMonitorMode>, mode_id: u64) -> (r: Option<WlMonitorMode>)
    ensures
        r == spec_find_mode_by_id(modes@, mode_id),
{
    let mut j: usize = 0;
    proof {
        assert(modes@.skip(0) =~= modes@);
    }
    while j < modes.len()
        invariant
            j <= modes@.len(),
            spec_find_mode_by_id(modes@, mode_id) == spec_find_mode_by_id(
                modes@.skip(j as int),
                mode_id,
            ),
        decreases modes@.len() - j,
    {
        let md = modes[j];
        proof {
            assert(modes@.skip(j as int)[0] == md);
        }
        if md.mode_id == mode_id {
            return Some(md);
        }
        j += 1;
        proof {
            assert(modes@.skip(j as int - 1).drop_first() =~= modes@.skip(j as int));
        }
    }
    None
}

/// First mode of the catalog flagged preferred.
pub(crate) fn find_preferred(modes: &Vec<WlMonitorMode>) -> (r: Option<WlMonitorMode>)
    ensures
        r == spec_find_preferred(modes@),
{
    let mut j: usize = 0;
    proof {
        assert(modes@.skip(0) =~= modes@);
    }
    while j < modes.len()
        invariant
            j <= modes@.len(),
            spec_find_preferred(modes@) == spec_find_preferred(modes@.skip(j as int)),
        decreases modes@.len() - j,
    {
        let md = modes[j];
        proof {
            assert(modes@.skip(j as int)[0] == md);
        }
        if md.preferred {
            return Some(md);
        }
        j += 1;
        proof {
            assert(modes@.skip(j as int - 1).drop_first() =~= modes@.skip(j as int));
        }
    }
    None
}

/// The mode a toggle-on activates, by the documented priority.
pub(crate) fn resolve_toggle_mode_exec(
    modes: &Vec<WlMonitorMode>,
    explicit: Option<(i32, i32, i32)>,
    last: Option<u64>,
) -> (r: Option<WlMonitorMode>)
    ensures
        r == resolve_toggle_mode(modes@, explicit, last),
{
    let requested = match explicit {
        Some((width, height, refresh_rate)) => find_mode_triple(
            modes,
            width,
            height,
            refresh_rate,
        ),
        None => None,
    };
    match requested {
        Some(md) => Some(md),
        None => {
            let remembered = match last {
                Some(mode_id) => find_mode_by_id(modes, mode_id),
                None => None,
            };
            match remembered {
                Some(md) => Some(md),
                None => match find_preferred(modes) {
                    Some(md) => Some(md),
                    None => if modes.len() > 0 {
                        Some(modes[0])
                    } else {
                        None
                    },
                },
            }
        },
    }
}

pub(crate) fn toggle_no_mode_message(name: &String) -> (s: String)
    ensures
        s@ == toggle_no_mode_msg(name@),
{
    let mut s = String::from_str("No valid mode available for monitor '");
    s.append(name.as_str());
    s.append("'");
    s
}

pub(crate) fn switch_no_match_message(width: i32, height: i32, refresh_rate: i32, name: &String) -> (s: String)
    ensures
        s@ == switch_no_match_msg(width, height, refresh_rate, name@),
{
    let mut s = String::from_str("No matching mode ");
    let w = fmt_i32(width);
    s.append(w.as_str());
    s.append("x");
    let h = fmt_i32(height);
    s.append(h.as_str());
    s.append("@");
    let r = fmt_i32(refresh_rate);
    s.append(r.as_str());
    s.append("Hz for monitor '");
    s.append(name.as_str());
    s.append("'");
    s
}

pub(crate) fn invalid_scale_message(scale: &WlScale) -> (s: String)
    ensures
        s@ == invalid_scale_msg(*scale),
{
    let mut s = String::from_str("Invalid scale value '");
    let d = scale.describe();
    s.append(d.as_str());
    s.append("': must be finite and > 0");
    s
}

pub(crate) fn disabled_scale_message(name: &String) -> (s: String)
    ensures
        s@ == disabled_scale_msg(name@),
{
    let mut s = String::from_str("Monitor '");
    s.append(name.as_str());
    s.append("' is disabled, cannot set scale");
    s
}

pub(crate) fn disabled_transform_message(name: &String) -> (s: String)
    ensures
        s@ == disabled_transform_msg(name@),
{
    let mut s = String::from_str("Monitor '");
    s.append(name.as_str());
    s.append("' is disabled, cannot set transform");
    s
}

/// The directive preserving one monitor's current observable state.
pub(crate) fn preserve_head(m: &WlMonitor) -> (d: HeadDirective)
    ensures
        d == preserve_directive(m@),
{
    if m.enabled {
        HeadDirective::Enable {
            head_id: m.head_id,
            mode_id: m.current_mode,
            position: m.position,
            transform: m.transform,
            scale: m.scale,
        }
    } else {
        HeadDirective::Disable { head_id: m.head_id }
    }
}

} // verus!
