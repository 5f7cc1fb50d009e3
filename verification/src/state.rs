//! The monitor-manager session state machine.
//!
//! [`WlMonitorManager`] mirrors the compositor's output state: a monitor
//! table keyed by opaque head identifiers, a secondary mode-to-head lookup
//! for routing mode-only events, the last synchronization serial, and the
//! outcome marker of the most recent configuration transaction. Decoded
//! wire events ([`ManagerEvent`], [`HeadEvent`], [`ModeEvent`],
//! [`ConfigEvent`]) drive it; it emits [`WlMonitorEvent`]s and resolves
//! [`WlMonitorAction`]s into [`ActionPlan`]s of per-head directives.

use vstd::prelude::*;
use vstd::string::StringExecFns;

use crate::plan::{
    disabled_scale_message, disabled_transform_message, find_mode_triple, invalid_scale_message,
    invalid_scale_msg, preserve_head, resolve_toggle_mode_exec, spec_find_by_name,
    spec_preserve_all, spec_scale_rows, spec_set_scale_plan, spec_switch_rows, spec_target_enabled,
    spec_toggle_rows,
    spec_toggle_save, spec_transform_rows, switch_no_match_message, toggle_no_mode_message,
    ActionPlan, HeadDirective,
};
use crate::wl_monitor::{
    MonitorView, WlMonitor, WlMonitorMode, WlPosition, WlResolution, WlScale, WlTransform,
};

verus! {

/// The kind of action that failed
#[derive(Debug, Clone, Copy, PartialEq, Eq, Structural)]
pub enum ActionKind {
    Toggle,
    ConfigApply,
    SwitchMode,
    SetScale,
    SetTransform,
}

/// Events emitted by the monitor manager
#[derive(Debug)]
pub enum WlMonitorEvent {
    /// Sent once when the initial state is received, containing all connected monitors
    InitialState(Vec<WlMonitor>),
    /// Sent when a monitor's properties have changed
    Changed(Box<WlMonitor>),
    /// Sent when a monitor is disconnected
    Removed { id: u64, name: String },
    /// Sent when an action fails (e.g., invalid mode specified)
    ActionFailed { action: ActionKind, reason: String },
}

/// Mathematical value of a [`WlMonitorEvent`].
#[verifier::ext_equal]
pub enum EventView {
    InitialState(Seq<MonitorView>),
    Changed(MonitorView),
    Removed { id: u64, name: Seq<char> },
    ActionFailed { action: ActionKind, reason: Seq<char> },
}

impl View for WlMonitorEvent {
    type V = EventView;

    open spec fn view(&self) -> EventView {
        match self {
            WlMonitorEvent::InitialState(mons) => EventView::InitialState(
                mons@.map_values(|m: WlMonitor| m@),
            ),
            WlMonitorEvent::Changed(m) => EventView::Changed(m@),
            WlMonitorEvent::Removed { id, name } => EventView::Removed { id: *id, name: name@ },
            WlMonitorEvent::ActionFailed { action, reason } => EventView::ActionFailed {
                action: *action,
                reason: reason@,
            },
        }
    }
}

/// Actions that can be sent to the monitor manager to control monitors
pub enum WlMonitorAction {
    /// Toggle a monitor on/off by name
    Toggle {
        /// Name of the monitor to toggle (e.g., "DP-1")
        name: String,
        /// Optional custom mode: (width, height, refresh_rate)
        mode: Option<(i32, i32, i32)>,
    },
    /// Switch a monitor to a specific mode
    SwitchMode {
        /// Name of the monitor to configure
        name: String,
        /// Desired width in pixels
        width: i32,
        /// Desired height in pixels
        height: i32,
        /// Desired refresh rate in Hz
        refresh_rate: i32,
    },
    /// Set a monitor's scale factor
    SetScale {
        /// Name of the monitor to configure (e.g., "DP-1")
        name: String,
        /// Scale factor to apply (must be finite and > 0)
        scale: WlScale,
    },
    /// Set a monitor's transform (rotation/flip)
    SetTransform {
        /// Name of the monitor to configure (e.g., "DP-1")
        name: String,
        /// The desired transform
        transform: WlTransform,
    },
}

/// Errors that can occur when using the monitor manager
#[derive(Debug)]
pub enum WlMonitorManagerError {
    /// Failed to establish the display connection
    ConnectionError(String),
    /// Error in the protocol event queue or a rejected configuration
    EventQueueError(String),
}

impl WlMonitorManagerError {
    /// The rendering used when an error is forwarded inside an event
    /// message: the variant name around the quoted cause.
    pub open spec fn spec_describe(self) -> Seq<char> {
        match self {
            WlMonitorManagerError::ConnectionError(m) => "ConnectionError(\""@ + m@ + "\")"@,
            WlMonitorManagerError::EventQueueError(m) => "EventQueueError(\""@ + m@ + "\")"@,
        }
    }

    pub fn describe(&self) -> (s: String)
        ensures
            s@ == self.spec_describe(),
    {
        match self {
            WlMonitorManagerError::ConnectionError(m) => {
                let mut s = String::from_str("ConnectionError(\"");
                s.append(m.as_str());
                s.append("\")");
                s
            },
            WlMonitorManagerError::EventQueueError(m) => {
                let mut s = String::from_str("EventQueueError(\"");
                s.append(m.as_str());
                s.append("\")");
                s
            },
        }
    }
}

/// Outcome marker of the most recent configuration transaction.
#[derive(Debug, Clone, Copy, PartialEq, Eq, Structural)]
pub enum ConfigResult {
    Idle,
    Succeeded,
    Failed,
    Cancelled,
}

/// One entry of the secondary lookup table: which head owns a mode.
#[derive(Debug, Clone, Copy, PartialEq, Eq, Structural)]
pub struct ModeOwner {
    /// Opaque protocol identifier of the mode
    pub mode_id: u64,
    /// Opaque protocol identifier of the owning head
    pub head_id: u64,
}

/// Decoded events of the protocol's manager object.
#[derive(Debug, Clone, Copy, PartialEq, Eq, Structural)]
pub enum ManagerEvent {
    /// A new head was announced
    Head { head_id: u64 },
    /// A synchronization point, stamping a consistent state snapshot
    Done { serial: u32 },
}

/// Decoded events of one head object.
#[derive(Debug)]
pub enum HeadEvent {
    Name { name: String },
    Description { description: String },
    Make { make: String },
    Model { model: String },
    SerialNumber { serial_number: String },
    /// 0 means disabled, anything else enabled
    Enabled { enabled: i32 },
    CurrentMode { mode_id: u64 },
    Position { x: i32, y: i32 },
    /// The scale as transported on the wire (always finite)
    Scale { scale: WlScale },
    /// The raw wire value of the head's transform
    Transform { transform: u32 },
    /// A new mode owned by this head was announced
    Mode { mode_id: u64 },
    /// The head was disconnected
    Finished,
}

/// Decoded events of one mode object.
#[derive(Debug, Clone, Copy, PartialEq, Eq, Structural)]
pub enum ModeEvent {
    Size { width: i32, height: i32 },
    /// Refresh in thousandths of Hz, as transported on the wire
    Refresh { refresh: i32 },
    Preferred,
}

/// Decoded events of a configuration-transaction object.
#[derive(Debug, Clone, Copy, PartialEq, Eq, Structural)]
pub enum ConfigEvent {
    Succeeded,
    Failed,
    Cancelled,
}

/// Whether some monitor in the table has this head identifier.
pub open spec fn has_monitor(mons: Seq<MonitorView>, head_id: u64) -> bool {
    exists|i: int| 0 <= i < mons.len() && mons[i].head_id == head_id
}

/// Whether this monitor's catalog contains a mode with this identifier.
pub open spec fn monitor_owns_mode(m: MonitorView, mode_id: u64) -> bool {
    exists|j: int| 0 <= j < m.modes.len() && m.modes[j].mode_id == mode_id
}

/// Whether any monitor's catalog contains a mode with this identifier.
pub open spec fn has_mode(mons: Seq<MonitorView>, mode_id: u64) -> bool {
    exists|i: int| 0 <= i < mons.len() && monitor_owns_mode(mons[i], mode_id)
}

/// Mathematical value of a [`WlMonitorManager`].
#[verifier::ext_equal]
pub struct ManagerView {
    pub monitors: Seq<MonitorView>,
    pub mode_owner: Seq<ModeOwner>,
    pub manager_bound: bool,
    pub serial: Option<u32>,
    pub initialized: bool,
    pub config_result: ConfigResult,
}

/// Head identifiers are pairwise distinct.
pub open spec fn head_ids_unique(mons: Seq<MonitorView>) -> bool {
    forall|i: int, j: int|
        #![trigger mons[i].head_id, mons[j].head_id]
        0 <= i < mons.len() && 0 <= j < mons.len() && i != j ==> mons[i].head_id != mons[j].head_id
}

/// Mode identifiers are pairwise distinct across all catalogs.
pub open spec fn mode_ids_unique(mons: Seq<MonitorView>) -> bool {
    forall|i1: int, j1: int, i2: int, j2: int|
        #![trigger mons[i1].modes[j1], mons[i2].modes[j2]]
        0 <= i1 < mons.len() && 0 <= j1 < mons[i1].modes.len() && 0 <= i2 < mons.len() && 0 <= j2
            < mons[i2].modes.len() && (i1 != i2 || j1 != j2) ==> mons[i1].modes[j1].mode_id
            != mons[i2].modes[j2].mode_id
}

/// The lookup table has an entry for a mode/head pair.
pub open spec fn owner_index_has(owners: Seq<ModeOwner>, mode_id: u64, head_id: u64) -> bool {
    owners.contains(ModeOwner { mode_id, head_id })
}

/// The lookup table with every entry of one head dropped, order kept.
pub open spec fn owners_without(owners: Seq<ModeOwner>, head_id: u64) -> Seq<ModeOwner>
    decreases owners.len(),
{
    if owners.len() == 0 {
        Seq::empty()
    } else {
        let rest = owners_without(owners.drop_last(), head_id);
        if owners.last().head_id == head_id {
            rest
        } else {
            rest.push(owners.last())
        }
    }
}

/// Dropping one head's entries keeps exactly the entries of other heads.
pub proof fn lemma_owners_without_membership(owners: Seq<ModeOwner>, head_id: u64)
    ensures
        forall|e: ModeOwner| #[trigger]
            owners_without(owners, head_id).contains(e) <==> (owners.contains(e) && e.head_id
                != head_id),
    decreases owners.len(),
{
    if owners.len() == 0 {
    } else {
        let prefix = owners.drop_last();
        lemma_owners_without_membership(prefix, head_id);
        let filtered = owners_without(owners, head_id);
        assert forall|e: ModeOwner| #[trigger]
            filtered.contains(e) implies (owners.contains(e) && e.head_id != head_id) by {
            if owners.last().head_id == head_id || e != owners.last() {
                assert(owners_without(prefix, head_id).contains(e));
                let k = choose|k: int| 0 <= k < prefix.len() && prefix[k] == e;
                assert(owners[k] == e);
            } else {
                assert(owners[owners.len() - 1] == e);
            }
        }
        assert forall|e: ModeOwner|
            owners.contains(e) && e.head_id != head_id implies #[trigger] filtered.contains(e) by {
            let k = choose|k: int| 0 <= k < owners.len() && owners[k] == e;
            if k < owners.len() - 1 {
                assert(prefix[k] == e);
                assert(owners_without(prefix, head_id).contains(e));
                let k2 = choose|k2: int|
                    0 <= k2 < owners_without(prefix, head_id).len() && owners_without(
                        prefix,
                        head_id,
                    )[k2] == e;
                assert(filtered[k2] == e);
            } else {
                assert(owners.last() == e);
                assert(filtered.last() == e);
            }
        }
    }
}

/// Every mode in some monitor's catalog has its lookup entry.
pub open spec fn owner_index_complete(mons: Seq<MonitorView>, owners: Seq<ModeOwner>) -> bool {
    forall|i: int, j: int|
        #![trigger mons[i].modes[j]]
        0 <= i < mons.len() && 0 <= j < mons[i].modes.len() ==> owner_index_has(
            owners,
            mons[i].modes[j].mode_id,
            mons[i].head_id,
        )
}

/// Some monitor in the table backs this lookup entry: it has the entry's
/// head identifier and owns the entry's mode.
pub open spec fn owner_entry_backed(mons: Seq<MonitorView>, e: ModeOwner) -> bool {
    exists|i: int|
        0 <= i < mons.len() && mons[i].head_id == e.head_id && monitor_owns_mode(
            mons[i],
            e.mode_id,
        )
}

/// Every lookup entry points at an existing monitor that owns the mode.
pub open spec fn owner_index_sound(mons: Seq<MonitorView>, owners: Seq<ModeOwner>) -> bool {
    forall|k: int|
        #![trigger owners[k]]
        0 <= k < owners.len() ==> owner_entry_backed(mons, owners[k])
}

/// Well-formedness of the two tables: identifiers are unique and the
/// secondary lookup table agrees exactly with the monitor table.
pub open spec fn tables_wf(mons: Seq<MonitorView>, owners: Seq<ModeOwner>) -> bool {
    &&& head_ids_unique(mons)
    &&& mode_ids_unique(mons)
    &&& owner_index_complete(mons, owners)
    &&& owner_index_sound(mons, owners)
}

impl ManagerView {
    /// The state right after connecting: nothing discovered yet.
    pub open spec fn init() -> ManagerView {
        ManagerView {
            monitors: Seq::empty(),
            mode_owner: Seq::empty(),
            manager_bound: false,
            serial: None,
            initialized: false,
            config_result: ConfigResult::Idle,
        }
    }

    /// Well-formedness of the session's tables.
    pub open spec fn wf(self) -> bool {
        tables_wf(self.monitors, self.mode_owner)
    }
}

/// What one manager-object event does to the session: a `Head`
/// announcement adds a fresh default monitor (known identifiers are left
/// alone), and a `Done` synchronization point stores the serial and, the
/// first time only, marks the session initialized and emits one
/// `InitialState` event carrying every monitor known at that moment.
pub open spec fn spec_step_manager(s: ManagerView, ev: ManagerEvent) -> (ManagerView, Seq<
    EventView,
>) {
    match ev {
        ManagerEvent::Head { head_id } => {
            if has_monitor(s.monitors, head_id) {
                (s, Seq::<EventView>::empty())
            } else {
                (
                    ManagerView { monitors: s.monitors.push(MonitorView::init(head_id)), ..s },
                    Seq::<EventView>::empty(),
                )
            }
        },
        ManagerEvent::Done { serial } => {
            if s.initialized {
                (ManagerView { serial: Some(serial), ..s }, Seq::<EventView>::empty())
            } else {
                (
                    ManagerView { serial: Some(serial), initialized: true, ..s },
                    seq![EventView::InitialState(s.monitors)],
                )
            }
        },
    }
}

/// Adding a monitor with a fresh head identifier and no modes keeps the
/// tables well-formed.
proof fn lemma_wf_push_monitor(mons: Seq<MonitorView>, owners: Seq<ModeOwner>, head_id: u64)
    requires
        tables_wf(mons, owners),
        !has_monitor(mons, head_id),
    ensures
        tables_wf(mons.push(MonitorView::init(head_id)), owners),
{
    let m2 = mons.push(MonitorView::init(head_id));
    let n = mons.len() as int;
    assert(m2[n] == MonitorView::init(head_id));
    assert forall|i: int, j: int|
        0 <= i < m2.len() && 0 <= j < m2.len() && i != j implies m2[i].head_id
        != m2[j].head_id by {
        if i < n && j < n {
            assert(mons[i].head_id != mons[j].head_id);
        } else if i == n {
            assert(mons[j].head_id != head_id);
        } else {
            assert(mons[i].head_id != head_id);
        }
    }
    assert forall|i1: int, j1: int, i2: int, j2: int|
        0 <= i1 < m2.len() && 0 <= j1 < m2[i1].modes.len() && 0 <= i2 < m2.len() && 0 <= j2
            < m2[i2].modes.len() && (i1 != i2 || j1 != j2) implies m2[i1].modes[j1].mode_id
        != m2[i2].modes[j2].mode_id by {
        assert(m2[n].modes.len() == 0);
        assert(i1 < n && i2 < n);
        assert(mons[i1].modes[j1].mode_id != mons[i2].modes[j2].mode_id);
    }
    assert forall|i: int, j: int|
        0 <= i < m2.len() && 0 <= j < m2[i].modes.len() implies owner_index_has(
        owners,
        m2[i].modes[j].mode_id,
        m2[i].head_id,
    ) by {
        assert(m2[n].modes.len() == 0);
        assert(i < n);
        assert(m2[i] == mons[i]);
    }
    assert forall|k: int| #![trigger owners[k]] 0 <= k < owners.len() implies owner_entry_backed(
        m2,
        owners[k],
    ) by {
        assert(owner_entry_backed(mons, owners[k]));
        let i = choose|i: int|
            0 <= i < mons.len() && mons[i].head_id == owners[k].head_id && monitor_owns_mode(
                mons[i],
                owners[k].mode_id,
            );
        assert(m2[i] == mons[i]);
        assert(0 <= i < m2.len() && m2[i].head_id == owners[k].head_id && monitor_owns_mode(
            m2[i],
            owners[k].mode_id,
        ));
    }
}

/// Removing a monitor, together with all of its lookup entries, keeps the
/// tables well-formed, and no monitor with that head identifier remains.
proof fn lemma_wf_remove_monitor(mons: Seq<MonitorView>, owners: Seq<ModeOwner>, i: int)
    requires
        tables_wf(mons, owners),
        0 <= i < mons.len(),
    ensures
        tables_wf(mons.remove(i), owners_without(owners, mons[i].head_id)),
        !has_monitor(mons.remove(i), mons[i].head_id),
{
    let h = mons[i].head_id;
    let m2 = mons.remove(i);
    let o2 = owners_without(owners, h);
    lemma_owners_without_membership(owners, h);
    mons.remove_ensures(i);
    assert forall|k1: int, k2: int|
        #![trigger m2[k1].head_id, m2[k2].head_id]
        0 <= k1 < m2.len() && 0 <= k2 < m2.len() && k1 != k2 implies m2[k1].head_id
        != m2[k2].head_id by {
        let o1: int = if k1 < i {
            k1
        } else {
            k1 + 1
        };
        let o2i: int = if k2 < i {
            k2
        } else {
            k2 + 1
        };
        assert(m2[k1] == mons[o1] && m2[k2] == mons[o2i]);
        assert(mons[o1].head_id != mons[o2i].head_id);
    }
    assert forall|k: int| #![trigger m2[k].head_id] 0 <= k < m2.len() implies m2[k].head_id != h by {
        let o1: int = if k < i {
            k
        } else {
            k + 1
        };
        assert(m2[k] == mons[o1]);
        assert(mons[o1].head_id != mons[i].head_id);
    }
    assert forall|i1: int, j1: int, i2: int, j2: int|
        #![trigger m2[i1].modes[j1], m2[i2].modes[j2]]
        0 <= i1 < m2.len() && 0 <= j1 < m2[i1].modes.len() && 0 <= i2 < m2.len() && 0 <= j2
            < m2[i2].modes.len() && (i1 != i2 || j1 != j2) implies m2[i1].modes[j1].mode_id
        != m2[i2].modes[j2].mode_id by {
        let o1: int = if i1 < i {
            i1
        } else {
            i1 + 1
        };
        let o2i: int = if i2 < i {
            i2
        } else {
            i2 + 1
        };
        assert(m2[i1] == mons[o1] && m2[i2] == mons[o2i]);
        assert(mons[o1].modes[j1].mode_id != mons[o2i].modes[j2].mode_id);
    }
    assert forall|k: int, j: int|
        #![trigger m2[k].modes[j]]
        0 <= k < m2.len() && 0 <= j < m2[k].modes.len() implies owner_index_has(
        o2,
        m2[k].modes[j].mode_id,
        m2[k].head_id,
    ) by {
        let o1: int = if k < i {
            k
        } else {
            k + 1
        };
        assert(m2[k] == mons[o1]);
        assert(owner_index_has(owners, mons[o1].modes[j].mode_id, mons[o1].head_id));
        assert(mons[o1].head_id != h);
        assert(o2.contains(ModeOwner { mode_id: mons[o1].modes[j].mode_id, head_id: mons[o1].head_id }));
    }
    assert forall|k: int| #![trigger o2[k]] 0 <= k < o2.len() implies owner_entry_backed(
        m2,
        o2[k],
    ) by {
        let e = o2[k];
        assert(o2.contains(e));
        assert(owners.contains(e) && e.head_id != h);
        let k0 = choose|k0: int| 0 <= k0 < owners.len() && owners[k0] == e;
        assert(owners[k0] == e);
        assert(owner_entry_backed(mons, e));
        let n0 = choose|n0: int|
            0 <= n0 < mons.len() && mons[n0].head_id == e.head_id && monitor_owns_mode(
                mons[n0],
                e.mode_id,
            );
        assert(n0 != i);
        let n: int = if n0 < i {
            n0
        } else {
            n0 - 1
        };
        assert(m2[n] == mons[n0]);
        assert(0 <= n < m2.len() && m2[n].head_id == e.head_id && monitor_owns_mode(
            m2[n],
            e.mode_id,
        ));
    }
}

/// Announcing a fresh mode under an existing head (adding it to the
/// head's catalog and to the lookup table together) keeps the tables
/// well-formed.
proof fn lemma_wf_push_mode(mons: Seq<MonitorView>, owners: Seq<ModeOwner>, i: int, mode_id: u64)
    requires
        tables_wf(mons, owners),
        0 <= i < mons.len(),
        !has_mode(mons, mode_id),
    ensures
        tables_wf(
            mons.update(
                i,
                (MonitorView {
                    modes: mons[i].modes.push(
                        WlMonitorMode::spec_new(mode_id, mons[i].head_id),
                    ),
                    ..mons[i]
                }),
            ),
            owners.push(ModeOwner { mode_id, head_id: mons[i].head_id }),
        ),
{
    let h = mons[i].head_id;
    let newmon = MonitorView { modes: mons[i].modes.push(WlMonitorMode::spec_new(mode_id, h)), ..mons[i] };
    let m2 = mons.update(i, newmon);
    let o2 = owners.push(ModeOwner { mode_id, head_id: h });
    let nj = mons[i].modes.len() as int;
    assert(m2[i].modes[nj].mode_id == mode_id);
    assert forall|k1: int, k2: int|
        #![trigger m2[k1].head_id, m2[k2].head_id]
        0 <= k1 < m2.len() && 0 <= k2 < m2.len() && k1 != k2 implies m2[k1].head_id
        != m2[k2].head_id by {
        assert(m2[k1].head_id == mons[k1].head_id && m2[k2].head_id == mons[k2].head_id);
        assert(mons[k1].head_id != mons[k2].head_id);
    }
    assert forall|i1: int, j1: int, i2: int, j2: int|
        #![trigger m2[i1].modes[j1], m2[i2].modes[j2]]
        0 <= i1 < m2.len() && 0 <= j1 < m2[i1].modes.len() && 0 <= i2 < m2.len() && 0 <= j2
            < m2[i2].modes.len() && (i1 != i2 || j1 != j2) implies m2[i1].modes[j1].mode_id
        != m2[i2].modes[j2].mode_id by {
        if (i1 != i || j1 < nj) && (i2 != i || j2 < nj) {
            assert(m2[i1].modes[j1] == mons[i1].modes[j1]);
            assert(m2[i2].modes[j2] == mons[i2].modes[j2]);
            assert(mons[i1].modes[j1].mode_id != mons[i2].modes[j2].mode_id);
        } else if i1 == i && j1 == nj {
            assert(m2[i2].modes[j2] == mons[i2].modes[j2]);
            assert(!monitor_owns_mode(mons[i2], mode_id));
            assert(mons[i2].modes[j2].mode_id != mode_id);
        } else {
            assert(i2 == i && j2 == nj);
            assert(m2[i1].modes[j1] == mons[i1].modes[j1]);
            assert(!monitor_owns_mode(mons[i1], mode_id));
            assert(mons[i1].modes[j1].mode_id != mode_id);
        }
    }
    assert forall|k: int, j: int|
        #![trigger m2[k].modes[j]]
        0 <= k < m2.len() && 0 <= j < m2[k].modes.len() implies owner_index_has(
        o2,
        m2[k].modes[j].mode_id,
        m2[k].head_id,
    ) by {
        if k == i && j == nj {
            assert(o2[owners.len() as int] == (ModeOwner { mode_id, head_id: h }));
            assert(o2.contains(ModeOwner { mode_id, head_id: h }));
        } else {
            assert(m2[k].modes[j] == mons[k].modes[j] && m2[k].head_id == mons[k].head_id);
            assert(owner_index_has(owners, mons[k].modes[j].mode_id, mons[k].head_id));
            let k0 = choose|k0: int|
                0 <= k0 < owners.len() && owners[k0] == (ModeOwner {
                    mode_id: mons[k].modes[j].mode_id,
                    head_id: mons[k].head_id,
                });
            assert(o2[k0] == owners[k0]);
            assert(o2.contains(ModeOwner {
                mode_id: mons[k].modes[j].mode_id,
                head_id: mons[k].head_id,
            }));
        }
    }
    assert forall|k: int| #![trigger o2[k]] 0 <= k < o2.len() implies owner_entry_backed(
        m2,
        o2[k],
    ) by {
        if k == owners.len() as int {
            assert(m2[i].head_id == h);
            assert(monitor_owns_mode(m2[i], mode_id));
        } else {
            assert(o2[k] == owners[k]);
            assert(owner_entry_backed(mons, owners[k]));
            let n0 = choose|n0: int|
                0 <= n0 < mons.len() && mons[n0].head_id == owners[k].head_id && monitor_owns_mode(
                    mons[n0],
                    owners[k].mode_id,
                );
            if n0 == i {
                let j0 = choose|j0: int|
                    0 <= j0 < mons[i].modes.len() && mons[i].modes[j0].mode_id
                        == owners[k].mode_id;
                assert(m2[i].modes[j0] == mons[i].modes[j0]);
                assert(monitor_owns_mode(m2[i], owners[k].mode_id));
            } else {
                assert(m2[n0] == mons[n0]);
                let j0 = choose|j0: int|
                    0 <= j0 < mons[n0].modes.len() && mons[n0].modes[j0].mode_id
                        == owners[k].mode_id;
                assert(monitor_owns_mode(m2[n0], owners[k].mode_id));
            }
        }
    }
}

/// Replacing one monitor by a value with the same head identifier and the
/// same mode identifiers (in order) keeps the tables well-formed.
proof fn lemma_wf_update_same_ids(
    mons: Seq<MonitorView>,
    owners: Seq<ModeOwner>,
    i: int,
    m2: MonitorView,
)
    requires
        tables_wf(mons, owners),
        0 <= i < mons.len(),
        m2.head_id == mons[i].head_id,
        m2.modes.len() == mons[i].modes.len(),
        forall|j: int| #![trigger m2.modes[j]]
            0 <= j < m2.modes.len() ==> m2.modes[j].mode_id == mons[i].modes[j].mode_id,
    ensures
        tables_wf(mons.update(i, m2), owners),
{
    let u = mons.update(i, m2);
    assert forall|k1: int, k2: int|
        #![trigger u[k1].head_id, u[k2].head_id]
        0 <= k1 < u.len() && 0 <= k2 < u.len() && k1 != k2 implies u[k1].head_id
        != u[k2].head_id by {
        assert(u[k1].head_id == mons[k1].head_id && u[k2].head_id == mons[k2].head_id);
        assert(mons[k1].head_id != mons[k2].head_id);
    }
    assert forall|i1: int, j1: int, i2: int, j2: int|
        #![trigger u[i1].modes[j1], u[i2].modes[j2]]
        0 <= i1 < u.len() && 0 <= j1 < u[i1].modes.len() && 0 <= i2 < u.len() && 0 <= j2
            < u[i2].modes.len() && (i1 != i2 || j1 != j2) implies u[i1].modes[j1].mode_id
        != u[i2].modes[j2].mode_id by {
        assert(u[i1].modes[j1].mode_id == mons[i1].modes[j1].mode_id);
        assert(u[i2].modes[j2].mode_id == mons[i2].modes[j2].mode_id);
        assert(mons[i1].modes[j1].mode_id != mons[i2].modes[j2].mode_id);
    }
    assert forall|k: int, j: int|
        #![trigger u[k].modes[j]]
        0 <= k < u.len() && 0 <= j < u[k].modes.len() implies owner_index_has(
        owners,
        u[k].modes[j].mode_id,
        u[k].head_id,
    ) by {
        assert(u[k].modes[j].mode_id == mons[k].modes[j].mode_id && u[k].head_id
            == mons[k].head_id);
        assert(owner_index_has(owners, mons[k].modes[j].mode_id, mons[k].head_id));
    }
    assert forall|k: int| #![trigger owners[k]] 0 <= k < owners.len() implies owner_entry_backed(
        u,
        owners[k],
    ) by {
        assert(owner_entry_backed(mons, owners[k]));
        let n0 = choose|n0: int|
            0 <= n0 < mons.len() && mons[n0].head_id == owners[k].head_id && monitor_owns_mode(
                mons[n0],
                owners[k].mode_id,
            );
        let j0 = choose|j0: int|
            0 <= j0 < mons[n0].modes.len() && mons[n0].modes[j0].mode_id == owners[k].mode_id;
        if n0 == i {
            assert(u[i].modes[j0].mode_id == owners[k].mode_id);
            assert(monitor_owns_mode(u[i], owners[k].mode_id));
        } else {
            assert(u[n0] == mons[n0]);
            assert(monitor_owns_mode(u[n0], owners[k].mode_id));
        }
    }
}

/// The per-field update a head event applies to one monitor. After the
/// first synchronization point any field event also marks the monitor
/// dirty. (`Mode` and `Finished` change the tables themselves and are
/// handled structurally, not here.)
pub open spec fn apply_head_field(m: MonitorView, ev: HeadEvent, initialized: bool) -> MonitorView {
    let m1 = match ev {
        HeadEvent::Name { name } => MonitorView { name: name@, ..m },
        HeadEvent::Description { description } => MonitorView { description: description@, ..m },
        HeadEvent::Make { make } => MonitorView { make: make@, ..m },
        HeadEvent::Model { model } => MonitorView { model: model@, ..m },
        HeadEvent::SerialNumber { serial_number } => MonitorView {
            serial_number: serial_number@,
            ..m
        },
        HeadEvent::Enabled { enabled } => MonitorView { enabled: enabled != 0, ..m },
        HeadEvent::CurrentMode { mode_id } => MonitorView {
            current_mode: Some(mode_id),
            modes: m.modes.map_values(
                |md: WlMonitorMode| WlMonitorMode { is_current: md.mode_id == mode_id, ..md },
            ),
            ..m
        },
        HeadEvent::Position { x, y } => MonitorView { position: WlPosition { x, y }, ..m },
        HeadEvent::Scale { scale } => MonitorView { scale: scale, ..m },
        HeadEvent::Transform { transform } => MonitorView {
            transform: WlTransform::spec_from_wayland(transform),
            ..m
        },
        HeadEvent::Mode { .. } => m,
        HeadEvent::Finished => m,
    };
    MonitorView { changed: m1.changed || initialized, ..m1 }
}

/// What one head-object event, routed to the monitor at index `i` (the one
/// whose head identifier matches), does to the session. `Finished` removes
/// the monitor and purges its lookup entries, announcing `Removed` with
/// the last-known name; `Mode` adds a fresh mode to the catalog and the
/// lookup table (known mode identifiers are left alone); any other event
/// updates one field via [`apply_head_field`]. Only `Finished` emits.
pub open spec fn head_step_at(
    s: ManagerView,
    i: int,
    head_id: u64,
    ev: HeadEvent,
    s2: ManagerView,
    out: Seq<EventView>,
) -> bool {
    match ev {
        HeadEvent::Finished => {
            &&& s2.monitors == s.monitors.remove(i)
            &&& s2.mode_owner == owners_without(s.mode_owner, head_id)
            &&& out == seq![EventView::Removed { id: head_id, name: s.monitors[i].name }]
        },
        HeadEvent::Mode { mode_id } => {
            if has_mode(s.monitors, mode_id) {
                s2 == s && out == Seq::<EventView>::empty()
            } else {
                &&& s2.monitors == s.monitors.update(
                    i,
                    (MonitorView {
                        modes: s.monitors[i].modes.push(
                            WlMonitorMode::spec_new(mode_id, head_id),
                        ),
                        ..s.monitors[i]
                    }),
                )
                &&& s2.mode_owner == s.mode_owner.push(ModeOwner { mode_id, head_id })
                &&& out == Seq::<EventView>::empty()
            }
        },
        _ => {
            &&& s2.monitors == s.monitors.update(
                i,
                apply_head_field(s.monitors[i], ev, s.initialized),
            )
            &&& s2.mode_owner == s.mode_owner
            &&& out == Seq::<EventView>::empty()
        },
    }
}

/// Refresh rate in whole Hz derived from the wire value in thousandths
/// of Hz: integer division by 1000, truncating toward zero.
pub open spec fn spec_refresh_hz(refresh: i32) -> i32 {
    (if refresh >= 0 {
        refresh as int / 1000
    } else {
        -((-(refresh as int)) / 1000)
    }) as i32
}

/// The update a mode event applies to one mode entry.
pub open spec fn apply_mode_field(md: WlMonitorMode, ev: ModeEvent) -> WlMonitorMode {
    match ev {
        ModeEvent::Size { width, height } => WlMonitorMode {
            resolution: WlResolution { height, width },
            ..md
        },
        ModeEvent::Refresh { refresh } => WlMonitorMode {
            refresh_rate: spec_refresh_hz(refresh),
            ..md
        },
        ModeEvent::Preferred => WlMonitorMode { preferred: true, ..md },
    }
}

/// Wire refresh (thousandths of Hz) to whole Hz.
fn refresh_to_hz(refresh: i32) -> (hz: i32)
    ensures
        hz == spec_refresh_hz(refresh),
{
    if refresh >= 0 {
        let q: u32 = (refresh as u32) / 1000;
        q as i32
    } else {
        let mag: i64 = -(refresh as i64);
        let q: i64 = mag / 1000;
        (-q) as i32
    }
}

/// A mode identifier without a lookup entry is in no monitor's catalog.
proof fn lemma_no_owner_entry_no_mode(s: ManagerView, mode_id: u64)
    requires
        s.wf(),
        forall|k: int|
            #![trigger s.mode_owner[k]]
            0 <= k < s.mode_owner.len() ==> s.mode_owner[k].mode_id != mode_id,
    ensures
        !has_mode(s.monitors, mode_id),
{
    if has_mode(s.monitors, mode_id) {
        let i0 = choose|i0: int|
            0 <= i0 < s.monitors.len() && monitor_owns_mode(s.monitors[i0], mode_id);
        let j0 = choose|j0: int|
            0 <= j0 < s.monitors[i0].modes.len() && s.monitors[i0].modes[j0].mode_id == mode_id;
        assert(owner_index_has(s.mode_owner, mode_id, s.monitors[i0].head_id));
        let k0 = choose|k0: int|
            0 <= k0 < s.mode_owner.len() && s.mode_owner[k0] == (ModeOwner {
                mode_id,
                head_id: s.monitors[i0].head_id,
            });
        assert(s.mode_owner[k0].mode_id == mode_id);
    }
}

/// Under unique head identifiers a step description established at one
/// matching index holds at every matching index: there is only one.
proof fn lemma_head_step_unique(
    s: ManagerView,
    i0: int,
    head_id: u64,
    ev: HeadEvent,
    s2: ManagerView,
    out: Seq<EventView>,
)
    requires
        head_ids_unique(s.monitors),
        0 <= i0 < s.monitors.len(),
        s.monitors[i0].head_id == head_id,
        head_step_at(s, i0, head_id, ev, s2, out),
    ensures
        forall|i: int|
            0 <= i < s.monitors.len() && #[trigger] s.monitors[i].head_id == head_id
                ==> head_step_at(s, i, head_id, ev, s2, out),
{
    assert forall|i: int|
        0 <= i < s.monitors.len() && #[trigger] s.monitors[i].head_id == head_id
            implies head_step_at(s, i, head_id, ev, s2, out) by {
        assert(i == i0);
    }
}

/// One monitor with its dirty flag cleared.
pub open spec fn mark_clean(m: MonitorView) -> MonitorView {
    MonitorView { changed: false, ..m }
}

/// The monitor table with every dirty flag cleared.
pub open spec fn clear_changed(mons: Seq<MonitorView>) -> Seq<MonitorView> {
    mons.map_values(|m: MonitorView| mark_clean(m))
}

/// The `Changed` events a dirty flush emits: one per dirty monitor, in
/// table order, each carrying the monitor's snapshot with the flag
/// already cleared.
pub open spec fn changed_events(mons: Seq<MonitorView>) -> Seq<EventView>
    decreases mons.len(),
{
    if mons.len() == 0 {
        Seq::empty()
    } else {
        let rest = changed_events(mons.drop_last());
        if mons.last().changed {
            rest.push(EventView::Changed(mark_clean(mons.last())))
        } else {
            rest
        }
    }
}

/// Clearing dirty flags changes no identifier, so it keeps the tables
/// well-formed.
proof fn lemma_wf_clear_changed(mons: Seq<MonitorView>, owners: Seq<ModeOwner>)
    requires
        tables_wf(mons, owners),
    ensures
        tables_wf(clear_changed(mons), owners),
{
    let c = clear_changed(mons);
    assert forall|k1: int, k2: int|
        #![trigger c[k1].head_id, c[k2].head_id]
        0 <= k1 < c.len() && 0 <= k2 < c.len() && k1 != k2 implies c[k1].head_id
        != c[k2].head_id by {
        assert(c[k1].head_id == mons[k1].head_id && c[k2].head_id == mons[k2].head_id);
        assert(mons[k1].head_id != mons[k2].head_id);
    }
    assert forall|i1: int, j1: int, i2: int, j2: int|
        #![trigger c[i1].modes[j1], c[i2].modes[j2]]
        0 <= i1 < c.len() && 0 <= j1 < c[i1].modes.len() && 0 <= i2 < c.len() && 0 <= j2
            < c[i2].modes.len() && (i1 != i2 || j1 != j2) implies c[i1].modes[j1].mode_id
        != c[i2].modes[j2].mode_id by {
        assert(c[i1].modes == mons[i1].modes && c[i2].modes == mons[i2].modes);
        assert(mons[i1].modes[j1].mode_id != mons[i2].modes[j2].mode_id);
    }
    assert forall|k: int, j: int|
        #![trigger c[k].modes[j]]
        0 <= k < c.len() && 0 <= j < c[k].modes.len() implies owner_index_has(
        owners,
        c[k].modes[j].mode_id,
        c[k].head_id,
    ) by {
        assert(c[k].modes == mons[k].modes && c[k].head_id == mons[k].head_id);
        assert(owner_index_has(owners, mons[k].modes[j].mode_id, mons[k].head_id));
    }
    assert forall|k: int| #![trigger owners[k]] 0 <= k < owners.len() implies owner_entry_backed(
        c,
        owners[k],
    ) by {
        assert(owner_entry_backed(mons, owners[k]));
        let n0 = choose|n0: int|
            0 <= n0 < mons.len() && mons[n0].head_id == owners[k].head_id && monitor_owns_mode(
                mons[n0],
                owners[k].mode_id,
            );
        let j0 = choose|j0: int|
            0 <= j0 < mons[n0].modes.len() && mons[n0].modes[j0].mode_id == owners[k].mode_id;
        assert(c[n0].modes == mons[n0].modes && c[n0].head_id == mons[n0].head_id);
        assert(monitor_owns_mode(c[n0], owners[k].mode_id));
    }
}

/// The protocol interface name the manager global is bound by.
pub open spec fn manager_interface_name() -> Seq<char> {
    "zwlr_output_manager_v1"@
}

/// Index of the first mode with this identifier in a catalog, if any.
fn find_mode_index(modes: &Vec<WlMonitorMode>, mode_id: u64) -> (idx: Option<usize>)
    ensures
        match idx {
            Some(j) => 0 <= j < modes@.len() && modes@[j as int].mode_id == mode_id,
            None => forall|j: int|
                #![trigger modes@[j]]
                0 <= j < modes@.len() ==> modes@[j].mode_id != mode_id,
        },
{
    let mut j: usize = 0;
    while j < modes.len()
        invariant
            j <= modes@.len(),
            forall|j2: int| #![trigger modes@[j2]] 0 <= j2 < j ==> modes@[j2].mode_id != mode_id,
        decreases modes@.len() - j,
    {
        if modes[j].mode_id == mode_id {
            return Some(j);
        }
        j += 1;
    }
    None
}

/// Recompute each mode's is-current flag by identifier match.
fn set_current_flags(modes: &mut Vec<WlMonitorMode>, mode_id: u64)
    ensures
        final(modes)@ == old(modes)@.map_values(
            |md: WlMonitorMode| WlMonitorMode { is_current: md.mode_id == mode_id, ..md },
        ),
{
    let mut j: usize = 0;
    while j < modes.len()
        invariant
            j <= modes@.len(),
            modes@.len() == old(modes)@.len(),
            forall|k: int|
                #![trigger modes@[k]]
                j <= k < modes@.len() ==> modes@[k] == old(modes)@[k],
            forall|k: int|
                #![trigger modes@[k]]
                0 <= k < j ==> modes@[k] == (WlMonitorMode {
                    is_current: old(modes)@[k].mode_id == mode_id,
                    ..old(modes)@[k]
                }),
        decreases modes@.len() - j,
    {
        let mut md = modes[j];
        md.is_current = md.mode_id == mode_id;
        modes[j] = md;
        j += 1;
    }
    proof {
        assert(modes@ =~= old(modes)@.map_values(
            |md: WlMonitorMode| WlMonitorMode { is_current: md.mode_id == mode_id, ..md },
        ));
    }
}

/// Manages the in-memory mirror of all outputs: decodes protocol events,
/// emits domain events, and resolves control actions into configuration
/// transactions. The host owns the connection and drives this state
/// machine from its event loop.
#[derive(Debug)]
pub struct WlMonitorManager {
    monitors: Vec<WlMonitor>,
    mode_owner: Vec<ModeOwner>,
    manager_bound: bool,
    serial: Option<u32>,
    initialized: bool,
    config_result: ConfigResult,
}

impl View for WlMonitorManager {
    type V = ManagerView;

    closed spec fn view(&self) -> ManagerView {
        ManagerView {
            monitors: self.monitors@.map_values(|m: WlMonitor| m@),
            mode_owner: self.mode_owner@,
            manager_bound: self.manager_bound,
            serial: self.serial,
            initialized: self.initialized,
            config_result: self.config_result,
        }
    }
}

impl WlMonitorManager {
    /// A fresh session: empty tables, no bound manager, no serial, not
    /// yet initialized, idle transaction marker.
    pub fn new() -> (m: WlMonitorManager)
        ensures
            m@ == ManagerView::init(),
            m@.wf(),
    {
        let m = WlMonitorManager {
            monitors: Vec::new(),
            mode_owner: Vec::new(),
            manager_bound: false,
            serial: None,
            initialized: false,
            config_result: ConfigResult::Idle,
        };
        proof {
            assert(m@ =~= ManagerView::init());
        }
        m
    }

    /// Index of the monitor with this head identifier, if present.
    fn find_monitor(&self, head_id: u64) -> (idx: Option<usize>)
        ensures
            match idx {
                Some(i) => 0 <= i < self@.monitors.len() && self@.monitors[i as int].head_id
                    == head_id,
                None => !has_monitor(self@.monitors, head_id),
            },
    {
        let mut i: usize = 0;
        while i < self.monitors.len()
            invariant
                i <= self.monitors.len(),
                forall|j: int| 0 <= j < i ==> self@.monitors[j].head_id != head_id,
            decreases self.monitors.len() - i,
        {
            if self.monitors[i].head_id == head_id {
                return Some(i);
            }
            i += 1;
        }
        None
    }

    /// Snapshot copies of every monitor, in table order.
    fn clone_monitors(&self) -> (v: Vec<WlMonitor>)
        ensures
            v@.map_values(|m: WlMonitor| m@) == self@.monitors,
    {
        let mut v: Vec<WlMonitor> = Vec::new();
        let mut i: usize = 0;
        while i < self.monitors.len()
            invariant
                i <= self.monitors.len(),
                v@.len() == i,
                v@.map_values(|m: WlMonitor| m@) == self@.monitors.subrange(0, i as int),
            decreases self.monitors.len() - i,
        {
            v.push(self.monitors[i].clone());
            i += 1;
            proof {
                assert(v@.map_values(|m: WlMonitor| m@) =~= self@.monitors.subrange(0, i as int));
            }
        }
        proof {
            assert(v@.map_values(|m: WlMonitor| m@) =~= self@.monitors);
        }
        v
    }

    /// Index of the first lookup entry for this mode identifier, if any.
    fn find_owner(&self, mode_id: u64) -> (idx: Option<usize>)
        ensures
            match idx {
                Some(k) => 0 <= k < self@.mode_owner.len() && self@.mode_owner[k as int].mode_id
                    == mode_id,
                None => forall|k: int|
                    #![trigger self@.mode_owner[k]]
                    0 <= k < self@.mode_owner.len() ==> self@.mode_owner[k].mode_id != mode_id,
            },
    {
        let mut k: usize = 0;
        while k < self.mode_owner.len()
            invariant
                k <= self.mode_owner.len(),
                forall|j: int|
                    #![trigger self@.mode_owner[j]]
                    0 <= j < k ==> self@.mode_owner[j].mode_id != mode_id,
            decreases self.mode_owner.len() - k,
        {
            if self.mode_owner[k].mode_id == mode_id {
                return Some(k);
            }
            k += 1;
        }
        None
    }

    /// Drop every lookup entry that points at this head.
    fn purge_owner_entries(&mut self, head_id: u64)
        ensures
            final(self)@ == (ManagerView {
                mode_owner: owners_without(old(self)@.mode_owner, head_id),
                ..old(self)@
            }),
    {
        let mut kept: Vec<ModeOwner> = Vec::new();
        let mut k: usize = 0;
        while k < self.mode_owner.len()
            invariant
                k <= self.mode_owner@.len(),
                kept@ == owners_without(self@.mode_owner.subrange(0, k as int), head_id),
            decreases self.mode_owner@.len() - k,
        {
            let e = self.mode_owner[k];
            if e.head_id != head_id {
                kept.push(e);
            }
            k += 1;
            proof {
                let s = self@.mode_owner;
                let kk = k as int;
                assert(s.subrange(0, kk).drop_last() =~= s.subrange(0, kk - 1));
                assert(s.subrange(0, kk).last() == s[kk - 1]);
                assert(kept@ =~= owners_without(s.subrange(0, kk), head_id));
            }
        }
        proof {
            assert(self@.mode_owner.subrange(0, self.mode_owner@.len() as int)
                =~= self@.mode_owner);
        }
        self.mode_owner = kept;
        proof {
            assert(self@ =~= (ManagerView {
                mode_owner: owners_without(old(self)@.mode_owner, head_id),
                ..old(self)@
            }));
        }
    }

    /// Apply one decoded head-object event, routed by the head's opaque
    /// identifier; events on unknown heads are ignored. Only a `Finished`
    /// event reports outward (one `Removed` carrying the last-known name).
    pub fn handle_head_event(&mut self, head_id: u64, ev: HeadEvent) -> (out: Vec<WlMonitorEvent>)
        requires
            old(self)@.wf(),
        ensures
            final(self)@.wf(),
            final(self)@.manager_bound == old(self)@.manager_bound,
            final(self)@.serial == old(self)@.serial,
            final(self)@.initialized == old(self)@.initialized,
            final(self)@.config_result == old(self)@.config_result,
            !has_monitor(old(self)@.monitors, head_id) ==> final(self)@ == old(self)@
                && out@.len() == 0,
            forall|i: int|
                0 <= i < old(self)@.monitors.len() && #[trigger] old(self)@.monitors[i].head_id
                    == head_id ==> head_step_at(
                    old(self)@,
                    i,
                    head_id,
                    ev,
                    final(self)@,
                    out@.map_values(|e: WlMonitorEvent| e@),
                ),
            ev is Finished ==> !has_monitor(final(self)@.monitors, head_id),
            forall|k: int| 0 <= k < out@.len() ==> !(#[trigger] out@[k]@ is InitialState),
    {
        let ghost gev = ev;
        let idx = self.find_monitor(head_id);
        match idx {
            None => {
                let out: Vec<WlMonitorEvent> = Vec::new();
                proof {
                    assert(self@ =~= old(self)@);
                }
                out
            },
            Some(i) => {
                let ghost gi = i as int;
                match ev {
                    HeadEvent::Finished => {
                        let name = self.monitors[i].name.clone();
                        let _removed = self.monitors.remove(i);
                        self.purge_owner_entries(head_id);
                        let mut out: Vec<WlMonitorEvent> = Vec::new();
                        out.push(WlMonitorEvent::Removed { id: head_id, name });
                        proof {
                            old(self)@.monitors.remove_ensures(gi);
                            assert(self@.monitors =~= old(self)@.monitors.remove(gi));
                            lemma_wf_remove_monitor(
                                old(self)@.monitors,
                                old(self)@.mode_owner,
                                gi,
                            );
                            assert(out@.map_values(|e: WlMonitorEvent| e@) =~= seq![
                                EventView::Removed {
                                    id: head_id,
                                    name: old(self)@.monitors[gi].name,
                                },
                            ]);
                            assert(head_step_at(
                                old(self)@,
                                gi,
                                head_id,
                                gev,
                                self@,
                                out@.map_values(|e: WlMonitorEvent| e@),
                            ));
                            lemma_head_step_unique(old(self)@, gi, head_id, gev, self@, out@.map_values(|e: WlMonitorEvent| e@));
                        }
                        out
                    },
                    HeadEvent::Mode { mode_id } => {
                        let known = self.find_owner(mode_id);
                        match known {
                            Some(k) => {
                                proof {
                                    assert(owner_entry_backed(
                                        old(self)@.monitors,
                                        old(self)@.mode_owner[k as int],
                                    ));
                                    assert(has_mode(old(self)@.monitors, mode_id));
                                    assert(self@ =~= old(self)@);
                                    assert(head_step_at(
                                        old(self)@,
                                        gi,
                                        head_id,
                                        gev,
                                        self@,
                                        Seq::<EventView>::empty(),
                                    ));
                                }
                            },
                            None => {
                                proof {
                                    assert(!has_mode(old(self)@.monitors, mode_id)) by {
                                        if has_mode(old(self)@.monitors, mode_id) {
                                            let i0 = choose|i0: int|
                                                0 <= i0 < old(self)@.monitors.len()
                                                    && monitor_owns_mode(
                                                    old(self)@.monitors[i0],
                                                    mode_id,
                                                );
                                            let j0 = choose|j0: int|
                                                0 <= j0 < old(self)@.monitors[i0].modes.len()
                                                    && old(self)@.monitors[i0].modes[j0].mode_id
                                                    == mode_id;
                                            assert(owner_index_has(
                                                old(self)@.mode_owner,
                                                mode_id,
                                                old(self)@.monitors[i0].head_id,
                                            ));
                                            let k0 = choose|k0: int|
                                                0 <= k0 < old(self)@.mode_owner.len() && old(
                                                    self,
                                                )@.mode_owner[k0] == (ModeOwner {
                                                    mode_id,
                                                    head_id: old(self)@.monitors[i0].head_id,
                                                });
                                            assert(old(self)@.mode_owner[k0].mode_id == mode_id);
                                        }
                                    }
                                }
                                self.mode_owner.push(ModeOwner { mode_id, head_id });
                                let mut mon = self.monitors[i].clone();
                                mon.modes.push(WlMonitorMode::new(mode_id, head_id));
                                proof {
                                    assert(mon@ =~= (MonitorView {
                                        modes: old(self)@.monitors[gi].modes.push(
                                            WlMonitorMode::spec_new(mode_id, head_id),
                                        ),
                                        ..old(self)@.monitors[gi]
                                    }));
                                }
                                self.monitors[i] = mon;
                                proof {
                                    assert(self@.monitors =~= old(self)@.monitors.update(
                                        gi,
                                        (MonitorView {
                                            modes: old(self)@.monitors[gi].modes.push(
                                                WlMonitorMode::spec_new(mode_id, head_id),
                                            ),
                                            ..old(self)@.monitors[gi]
                                        }),
                                    ));
                                    assert(self@.mode_owner =~= old(self)@.mode_owner.push(
                                        ModeOwner { mode_id, head_id },
                                    ));
                                    lemma_wf_push_mode(
                                        old(self)@.monitors,
                                        old(self)@.mode_owner,
                                        gi,
                                        mode_id,
                                    );
                                    assert(head_step_at(
                                        old(self)@,
                                        gi,
                                        head_id,
                                        gev,
                                        self@,
                                        Seq::<EventView>::empty(),
                                    ));
                                }
                            },
                        }
                        let out: Vec<WlMonitorEvent> = Vec::new();
                        proof {
                            assert(out@.map_values(|e: WlMonitorEvent| e@)
                                =~= Seq::<EventView>::empty());
                            lemma_head_step_unique(old(self)@, gi, head_id, gev, self@, out@.map_values(|e: WlMonitorEvent| e@));
                        }
                        out
                    },
                    field_ev => {
                        let initialized = self.initialized;
                        let mut mon = self.monitors[i].clone();
                        match field_ev {
                            HeadEvent::Name { name } => {
                                mon.name = name;
                            },
                            HeadEvent::Description { description } => {
                                mon.description = description;
                            },
                            HeadEvent::Make { make } => {
                                mon.make = make;
                            },
                            HeadEvent::Model { model } => {
                                mon.model = model;
                            },
                            HeadEvent::SerialNumber { serial_number } => {
                                mon.serial_number = serial_number;
                            },
                            HeadEvent::Enabled { enabled } => {
                                mon.enabled = enabled != 0;
                            },
                            HeadEvent::CurrentMode { mode_id } => {
                                mon.current_mode = Some(mode_id);
                                set_current_flags(&mut mon.modes, mode_id);
                            },
                            HeadEvent::Position { x, y } => {
                                mon.position = WlPosition { x, y };
                            },
                            HeadEvent::Scale { scale } => {
                                mon.scale = scale;
                            },
                            HeadEvent::Transform { transform } => {
                                mon.transform = WlTransform::from_wayland(transform);
                            },
                            HeadEvent::Mode { .. } | HeadEvent::Finished => {
                            },
                        }
                        if initialized {
                            mon.changed = true;
                        }
                        proof {
                            assert(mon@ =~= apply_head_field(
                                old(self)@.monitors[gi],
                                gev,
                                old(self)@.initialized,
                            ));
                        }
                        self.monitors[i] = mon;
                        let out: Vec<WlMonitorEvent> = Vec::new();
                        proof {
                            let m2 = apply_head_field(
                                old(self)@.monitors[gi],
                                gev,
                                old(self)@.initialized,
                            );
                            assert(self@.monitors =~= old(self)@.monitors.update(gi, m2));
                            assert(m2.head_id == old(self)@.monitors[gi].head_id);
                            assert forall|j: int| #![trigger m2.modes[j]]
                                0 <= j < m2.modes.len() implies m2.modes[j].mode_id
                                == old(self)@.monitors[gi].modes[j].mode_id by {}
                            lemma_wf_update_same_ids(
                                old(self)@.monitors,
                                old(self)@.mode_owner,
                                gi,
                                m2,
                            );
                            assert(out@.map_values(|e: WlMonitorEvent| e@)
                                =~= Seq::<EventView>::empty());
                            assert(head_step_at(
                                old(self)@,
                                gi,
                                head_id,
                                gev,
                                self@,
                                out@.map_values(|e: WlMonitorEvent| e@),
                            ));
                            lemma_head_step_unique(old(self)@, gi, head_id, gev, self@, out@.map_values(|e: WlMonitorEvent| e@));
                        }
                        out
                    },
                }
            },
        }
    }

    /// Apply one decoded mode-object event, routed through the secondary
    /// lookup table to the owning head's catalog entry; events on unknown
    /// modes are ignored. Mode events never report outward on their own:
    /// the owning head's field-change path emits `Changed`.
    pub fn handle_mode_event(&mut self, mode_id: u64, ev: ModeEvent)
        requires
            old(self)@.wf(),
        ensures
            final(self)@.wf(),
            final(self)@.mode_owner == old(self)@.mode_owner,
            final(self)@.manager_bound == old(self)@.manager_bound,
            final(self)@.serial == old(self)@.serial,
            final(self)@.initialized == old(self)@.initialized,
            final(self)@.config_result == old(self)@.config_result,
            !has_mode(old(self)@.monitors, mode_id) ==> final(self)@ == old(self)@,
            forall|i: int, j: int|
                #![trigger old(self)@.monitors[i].modes[j]]
                0 <= i < old(self)@.monitors.len() && 0 <= j < old(self)@.monitors[i].modes.len()
                    && old(self)@.monitors[i].modes[j].mode_id == mode_id ==> final(self)@.monitors
                    == old(self)@.monitors.update(
                    i,
                    (MonitorView {
                        modes: old(self)@.monitors[i].modes.update(
                            j,
                            apply_mode_field(old(self)@.monitors[i].modes[j], ev),
                        ),
                        ..old(self)@.monitors[i]
                    }),
                ),
    {
        let known = self.find_owner(mode_id);
        match known {
            None => {
                proof {
                    lemma_no_owner_entry_no_mode(old(self)@, mode_id);
                    assert(self@ =~= old(self)@);
                }
            },
            Some(k) => {
                let head_id = self.mode_owner[k].head_id;
                proof {
                    assert(owner_entry_backed(old(self)@.monitors, old(self)@.mode_owner[k as int]));
                }
                match self.find_monitor(head_id) {
                    None => {
                        // cannot happen: a lookup entry always points at an
                        // existing monitor
                        proof {
                            let n0 = choose|n0: int|
                                0 <= n0 < old(self)@.monitors.len() && old(self)@.monitors[n0].head_id
                                    == old(self)@.mode_owner[k as int].head_id && monitor_owns_mode(
                                    old(self)@.monitors[n0],
                                    old(self)@.mode_owner[k as int].mode_id,
                                );
                            assert(has_monitor(old(self)@.monitors, head_id));
                            assert(false);
                        }
                    },
                    Some(i) => {
                        let ghost gi = i as int;
                        let found = find_mode_index(&self.monitors[i].modes, mode_id);
                        match found {
                            None => {
                                // cannot happen: the entry's monitor owns the
                                // mode
                                proof {
                                    let n0 = choose|n0: int|
                                        0 <= n0 < old(self)@.monitors.len()
                                            && old(self)@.monitors[n0].head_id
                                            == old(self)@.mode_owner[k as int].head_id
                                            && monitor_owns_mode(
                                            old(self)@.monitors[n0],
                                            old(self)@.mode_owner[k as int].mode_id,
                                        );
                                    assert(n0 == gi);
                                    assert(old(self)@.mode_owner[k as int].mode_id != mode_id
                                        || monitor_owns_mode(old(self)@.monitors[gi], mode_id));
                                    assert(false);
                                }
                            },
                            Some(j) => {
                                let ghost gj = j as int;
                                let mut mon = self.monitors[i].clone();
                                let mut md = mon.modes[j];
                                match ev {
                                    ModeEvent::Size { width, height } => {
                                        md.resolution = WlResolution { height, width };
                                    },
                                    ModeEvent::Refresh { refresh } => {
                                        md.refresh_rate = refresh_to_hz(refresh);
                                    },
                                    ModeEvent::Preferred => {
                                        md.preferred = true;
                                    },
                                }
                                mon.modes[j] = md;
                                proof {
                                    assert(mon@ =~= (MonitorView {
                                        modes: old(self)@.monitors[gi].modes.update(
                                            gj,
                                            apply_mode_field(
                                                old(self)@.monitors[gi].modes[gj],
                                                ev,
                                            ),
                                        ),
                                        ..old(self)@.monitors[gi]
                                    }));
                                }
                                self.monitors[i] = mon;
                                proof {
                                    let m2 = MonitorView {
                                        modes: old(self)@.monitors[gi].modes.update(
                                            gj,
                                            apply_mode_field(
                                                old(self)@.monitors[gi].modes[gj],
                                                ev,
                                            ),
                                        ),
                                        ..old(self)@.monitors[gi]
                                    };
                                    assert(self@.monitors =~= old(self)@.monitors.update(gi, m2));
                                    assert forall|j2: int|
                                        #![trigger m2.modes[j2]]
                                        0 <= j2 < m2.modes.len() implies m2.modes[j2].mode_id
                                        == old(self)@.monitors[gi].modes[j2].mode_id by {}
                                    lemma_wf_update_same_ids(
                                        old(self)@.monitors,
                                        old(self)@.mode_owner,
                                        gi,
                                        m2,
                                    );
                                    assert forall|i2: int, j2: int|
                                        #![trigger old(self)@.monitors[i2].modes[j2]]
                                        0 <= i2 < old(self)@.monitors.len() && 0 <= j2 < old(
                                            self,
                                        )@.monitors[i2].modes.len() && old(
                                            self,
                                        )@.monitors[i2].modes[j2].mode_id == mode_id
                                            implies self@.monitors == old(self)@.monitors.update(
                                            i2,
                                            (MonitorView {
                                                modes: old(self)@.monitors[i2].modes.update(
                                                    j2,
                                                    apply_mode_field(
                                                        old(self)@.monitors[i2].modes[j2],
                                                        ev,
                                                    ),
                                                ),
                                                ..old(self)@.monitors[i2]
                                            }),
                                        ) by {
                                        assert(old(self)@.monitors[gi].modes[gj].mode_id
                                            == mode_id);
                                        assert(i2 == gi && j2 == gj);
                                    }
                                }
                            },
                        }
                    },
                }
            },
        }
    }

    /// Apply one decoded manager-object event; the returned events are
    /// what the session reports outward for it.
    pub fn handle_manager_event(&mut self, ev: ManagerEvent) -> (out: Vec<WlMonitorEvent>)
        requires
            old(self)@.wf(),
        ensures
            final(self)@.wf(),
            final(self)@ == spec_step_manager(old(self)@, ev).0,
            out@.map_values(|e: WlMonitorEvent| e@) == spec_step_manager(old(self)@, ev).1,
    {
        match ev {
            ManagerEvent::Head { head_id } => {
                let existing = self.find_monitor(head_id);
                if existing.is_none() {
                    self.monitors.push(WlMonitor::new(head_id));
                    proof {
                        assert(self@.monitors =~= old(self)@.monitors.push(
                            MonitorView::init(head_id),
                        ));
                        assert(self@ =~= spec_step_manager(old(self)@, ev).0);
                        lemma_wf_push_monitor(
                            old(self)@.monitors,
                            old(self)@.mode_owner,
                            head_id,
                        );
                    }
                } else {
                    proof {
                        assert(has_monitor(old(self)@.monitors, head_id));
                        assert(self@ =~= spec_step_manager(old(self)@, ev).0);
                    }
                }
                let out: Vec<WlMonitorEvent> = Vec::new();
                proof {
                    assert(out@.map_values(|e: WlMonitorEvent| e@) =~= Seq::<EventView>::empty());
                }
                out
            },
            ManagerEvent::Done { serial } => {
                self.serial = Some(serial);
                let mut out: Vec<WlMonitorEvent> = Vec::new();
                if !self.initialized {
                    self.initialized = true;
                    let snapshot = self.clone_monitors();
                    out.push(WlMonitorEvent::InitialState(snapshot));
                    proof {
                        assert(self@ =~= spec_step_manager(old(self)@, ev).0);
                        assert(out@.map_values(|e: WlMonitorEvent| e@) =~= seq![
                            EventView::InitialState(old(self)@.monitors),
                        ]);
                    }
                } else {
                    proof {
                        assert(self@ =~= spec_step_manager(old(self)@, ev).0);
                        assert(out@.map_values(|e: WlMonitorEvent| e@)
                            =~= Seq::<EventView>::empty());
                    }
                }
                out
            },
        }
    }

    /// Index of the first monitor with this name, if any.
    fn find_by_name(&self, name: &String) -> (idx: Option<usize>)
        ensures
            match idx {
                Some(i) => 0 <= i < self@.monitors.len() && self@.monitors[i as int].name == name@
                    && spec_find_by_name(self@.monitors, name@) == Some(i as int),
                None => spec_find_by_name(self@.monitors, name@) is None,
            },
    {
        let mut i: usize = 0;
        proof {
            assert(self@.monitors.skip(0) =~= self@.monitors);
        }
        while i < self.monitors.len()
            invariant
                i <= self@.monitors.len(),
                self@.monitors.len() == self.monitors@.len(),
                spec_find_by_name(self@.monitors, name@) == (match spec_find_by_name(
                    self@.monitors.skip(i as int),
                    name@,
                ) {
                    Some(k) => Some(k + i as int),
                    None => None::<int>,
                }),
            decreases self.monitors@.len() - i,
        {
            proof {
                assert(self@.monitors.skip(i as int)[0] == self@.monitors[i as int]);
                assert(self.monitors@[i as int]@ == self@.monitors[i as int]);
            }
            if self.monitors[i].name == *name {
                return Some(i);
            }
            i += 1;
            proof {
                assert(self@.monitors.skip(i as int - 1).drop_first() =~= self@.monitors.skip(
                    i as int,
                ));
            }
        }
        None
    }

    /// Resolve a toggle: remember the target's current mode when turning
    /// it off, then emit one directive per monitor (preserving the
    /// others) and any failure notice.
    fn configure_toggle(&mut self, name: &String, mode: Option<(i32, i32, i32)>) -> (r: (
        Vec<HeadDirective>,
        Vec<WlMonitorEvent>,
    ))
        requires
            old(self)@.wf(),
        ensures
            final(self)@.wf(),
            ({
                let te = spec_target_enabled(old(self)@.monitors, name@);
                let saved = spec_toggle_save(old(self)@.monitors, name@, te);
                &&& final(self)@ == (ManagerView { monitors: saved, ..old(self)@ })
                &&& (r.0@, r.1@.map_values(|e: WlMonitorEvent| e@)) == spec_toggle_rows(
                    saved,
                    name@,
                    mode,
                    te,
                )
            }),
    {
        let ghost te = spec_target_enabled(old(self)@.monitors, name@);
        let idx = self.find_by_name(name);
        let mut target_enabled = false;
        if let Some(i) = idx {
            proof {
                assert(self.monitors@[i as int]@ == self@.monitors[i as int]);
            }
            target_enabled = self.monitors[i].enabled;
        }
        proof {
            assert(target_enabled == te);
        }
        if target_enabled {
            if let Some(i) = idx {
                let ghost gi = i as int;
                let mut mon = self.monitors[i].clone();
                if mon.current_mode.is_some() {
                    mon.last_mode = mon.current_mode;
                    proof {
                        assert(self.monitors@[gi]@ == self@.monitors[gi]);
                        assert(mon@ =~= (MonitorView {
                            last_mode: old(self)@.monitors[gi].current_mode,
                            ..old(self)@.monitors[gi]
                        }));
                    }
                    self.monitors[i] = mon;
                    proof {
                        let m2 = MonitorView {
                            last_mode: old(self)@.monitors[gi].current_mode,
                            ..old(self)@.monitors[gi]
                        };
                        assert(self@.monitors =~= old(self)@.monitors.update(gi, m2));
                        assert forall|j: int|
                            #![trigger m2.modes[j]]
                            0 <= j < m2.modes.len() implies m2.modes[j].mode_id == old(
                            self,
                        )@.monitors[gi].modes[j].mode_id by {}
                        lemma_wf_update_same_ids(
                            old(self)@.monitors,
                            old(self)@.mode_owner,
                            gi,
                            m2,
                        );
                        assert(self@.monitors =~= spec_toggle_save(
                            old(self)@.monitors,
                            name@,
                            te,
                        ));
                    }
                } else {
                    proof {
                        assert(self@.monitors =~= spec_toggle_save(
                            old(self)@.monitors,
                            name@,
                            te,
                        ));
                    }
                }
            }
        } else {
            proof {
                assert(self@.monitors =~= spec_toggle_save(old(self)@.monitors, name@, te));
            }
        }
        let ghost saved = self@.monitors;
        let mut directives: Vec<HeadDirective> = Vec::new();
        let mut events: Vec<WlMonitorEvent> = Vec::new();
        let mut i: usize = 0;
        proof {
            assert(saved.subrange(0, 0) =~= Seq::<MonitorView>::empty());
            assert(directives@ =~= spec_toggle_rows(saved.subrange(0, 0), name@, mode, te).0);
            assert(events@.map_values(|e: WlMonitorEvent| e@) =~= spec_toggle_rows(
                saved.subrange(0, 0),
                name@,
                mode,
                te,
            ).1);
        }
        while i < self.monitors.len()
            invariant
                i <= self.monitors@.len(),
                self.monitors@.len() == saved.len(),
                self@.monitors == saved,
                directives@ == spec_toggle_rows(
                    saved.subrange(0, i as int),
                    name@,
                    mode,
                    target_enabled,
                ).0,
                events@.map_values(|e: WlMonitorEvent| e@) == spec_toggle_rows(
                    saved.subrange(0, i as int),
                    name@,
                    mode,
                    target_enabled,
                ).1,
            decreases self.monitors@.len() - i,
        {
            proof {
                assert(self.monitors@[i as int]@ == self@.monitors[i as int]);
            }
            let m = &self.monitors[i];
            if m.name == *name {
                if target_enabled {
                    directives.push(HeadDirective::Disable { head_id: m.head_id });
                } else {
                    match resolve_toggle_mode_exec(&m.modes, mode, m.last_mode) {
                        Some(md) => {
                            directives.push(
                                HeadDirective::Enable {
                                    head_id: m.head_id,
                                    mode_id: Some(md.mode_id),
                                    position: m.position,
                                    transform: m.transform,
                                    scale: m.scale,
                                },
                            );
                        },
                        None => {
                            events.push(
                                WlMonitorEvent::ActionFailed {
                                    action: ActionKind::Toggle,
                                    reason: toggle_no_mode_message(name),
                                },
                            );
                        },
                    }
                }
            } else {
                let d = preserve_head(m);
                directives.push(d);
            }
            i += 1;
            proof {
                assert(saved.subrange(0, i as int).drop_last() =~= saved.subrange(
                    0,
                    i as int - 1,
                ));
                assert(saved.subrange(0, i as int).last() == saved[i as int - 1]);
                assert(directives@ =~= spec_toggle_rows(
                    saved.subrange(0, i as int),
                    name@,
                    mode,
                    target_enabled,
                ).0);
                assert(events@.map_values(|e: WlMonitorEvent| e@) =~= spec_toggle_rows(
                    saved.subrange(0, i as int),
                    name@,
                    mode,
                    target_enabled,
                ).1);
            }
        }
        proof {
            assert(saved.subrange(0, saved.len() as int) =~= saved);
            assert(self@ =~= (ManagerView { monitors: saved, ..old(self)@ }));
        }
        (directives, events)
    }

    /// Resolve a mode switch: one directive per monitor, enabling the
    /// target at the exactly matching mode or preserving it (with a
    /// failure notice) when nothing matches.
    fn configure_switch_mode(
        &self,
        name: &String,
        width: i32,
        height: i32,
        refresh_rate: i32,
    ) -> (r: (Vec<HeadDirective>, Vec<WlMonitorEvent>))
        ensures
            (r.0@, r.1@.map_values(|e: WlMonitorEvent| e@)) == spec_switch_rows(
                self@.monitors,
                name@,
                width,
                height,
                refresh_rate,
            ),
    {
        let ghost mons = self@.monitors;
        let mut directives: Vec<HeadDirective> = Vec::new();
        let mut events: Vec<WlMonitorEvent> = Vec::new();
        let mut i: usize = 0;
        proof {
            assert(mons.subrange(0, 0) =~= Seq::<MonitorView>::empty());
            assert(directives@ =~= spec_switch_rows(
                mons.subrange(0, 0),
                name@,
                width,
                height,
                refresh_rate,
            ).0);
            assert(events@.map_values(|e: WlMonitorEvent| e@) =~= spec_switch_rows(
                mons.subrange(0, 0),
                name@,
                width,
                height,
                refresh_rate,
            ).1);
        }
        while i < self.monitors.len()
            invariant
                i <= self.monitors@.len(),
                self.monitors@.len() == mons.len(),
                self@.monitors == mons,
                directives@ == spec_switch_rows(
                    mons.subrange(0, i as int),
                    name@,
                    width,
                    height,
                    refresh_rate,
                ).0,
                events@.map_values(|e: WlMonitorEvent| e@) == spec_switch_rows(
                    mons.subrange(0, i as int),
                    name@,
                    width,
                    height,
                    refresh_rate,
                ).1,
            decreases self.monitors@.len() - i,
        {
            proof {
                assert(self.monitors@[i as int]@ == self@.monitors[i as int]);
            }
            let m = &self.monitors[i];
            if m.name == *name {
                match find_mode_triple(&m.modes, width, height, refresh_rate) {
                    Some(md) => {
                        directives.push(
                            HeadDirective::Enable {
                                head_id: m.head_id,
                                mode_id: Some(md.mode_id),
                                position: m.position,
                                transform: m.transform,
                                scale: m.scale,
                            },
                        );
                    },
                    None => {
                        let d = preserve_head(m);
                        directives.push(d);
                        events.push(
                            WlMonitorEvent::ActionFailed {
                                action: ActionKind::SwitchMode,
                                reason: switch_no_match_message(width, height, refresh_rate, name),
                            },
                        );
                    },
                }
            } else {
                let d = preserve_head(m);
                directives.push(d);
            }
            i += 1;
            proof {
                assert(mons.subrange(0, i as int).drop_last() =~= mons.subrange(0, i as int - 1));
                assert(mons.subrange(0, i as int).last() == mons[i as int - 1]);
                assert(directives@ =~= spec_switch_rows(
                    mons.subrange(0, i as int),
                    name@,
                    width,
                    height,
                    refresh_rate,
                ).0);
                assert(events@.map_values(|e: WlMonitorEvent| e@) =~= spec_switch_rows(
                    mons.subrange(0, i as int),
                    name@,
                    width,
                    height,
                    refresh_rate,
                ).1);
            }
        }
        proof {
            assert(mons.subrange(0, mons.len() as int) =~= mons);
        }
        (directives, events)
    }

    /// Preserve every monitor unchanged (used when a whole transaction is
    /// planned as a no-op).
    fn preserve_all(&self) -> (directives: Vec<HeadDirective>)
        ensures
            directives@ == spec_preserve_all(self@.monitors),
    {
        let ghost mons = self@.monitors;
        let mut directives: Vec<HeadDirective> = Vec::new();
        let mut i: usize = 0;
        proof {
            assert(directives@ =~= spec_preserve_all(mons.subrange(0, 0)));
        }
        while i < self.monitors.len()
            invariant
                i <= self.monitors@.len(),
                self.monitors@.len() == mons.len(),
                self@.monitors == mons,
                directives@ == spec_preserve_all(mons.subrange(0, i as int)),
            decreases self.monitors@.len() - i,
        {
            proof {
                assert(self.monitors@[i as int]@ == self@.monitors[i as int]);
            }
            let d = preserve_head(&self.monitors[i]);
            directives.push(d);
            i += 1;
            proof {
                assert(directives@ =~= spec_preserve_all(mons.subrange(0, i as int)));
            }
        }
        proof {
            assert(mons.subrange(0, mons.len() as int) =~= mons);
        }
        directives
    }

    /// Resolve a scale change: an invalid scale preserves everything and
    /// reports one failure; otherwise the target, when enabled, is
    /// re-asserted with the new scale.
    fn configure_set_scale(&self, name: &String, scale: WlScale) -> (r: (
        Vec<HeadDirective>,
        Vec<WlMonitorEvent>,
    ))
        ensures
            (r.0@, r.1@.map_values(|e: WlMonitorEvent| e@)) == spec_set_scale_plan(
                self@.monitors,
                name@,
                scale,
            ),
    {
        if !scale.is_valid() {
            let mut events: Vec<WlMonitorEvent> = Vec::new();
            events.push(
                WlMonitorEvent::ActionFailed {
                    action: ActionKind::SetScale,
                    reason: invalid_scale_message(&scale),
                },
            );
            let directives = self.preserve_all();
            proof {
                assert(events@.map_values(|e: WlMonitorEvent| e@) =~= seq![
                    EventView::ActionFailed {
                        action: ActionKind::SetScale,
                        reason: invalid_scale_msg(scale),
                    },
                ]);
            }
            return (directives, events);
        }
        let ghost mons = self@.monitors;
        let mut directives: Vec<HeadDirective> = Vec::new();
        let mut events: Vec<WlMonitorEvent> = Vec::new();
        let mut i: usize = 0;
        proof {
            assert(mons.subrange(0, 0) =~= Seq::<MonitorView>::empty());
            assert(directives@ =~= spec_scale_rows(mons.subrange(0, 0), name@, scale).0);
            assert(events@.map_values(|e: WlMonitorEvent| e@) =~= spec_scale_rows(
                mons.subrange(0, 0),
                name@,
                scale,
            ).1);
        }
        while i < self.monitors.len()
            invariant
                i <= self.monitors@.len(),
                self.monitors@.len() == mons.len(),
                self@.monitors == mons,
                directives@ == spec_scale_rows(mons.subrange(0, i as int), name@, scale).0,
                events@.map_values(|e: WlMonitorEvent| e@) == spec_scale_rows(
                    mons.subrange(0, i as int),
                    name@,
                    scale,
                ).1,
            decreases self.monitors@.len() - i,
        {
            proof {
                assert(self.monitors@[i as int]@ == self@.monitors[i as int]);
            }
            let m = &self.monitors[i];
            if m.name == *name {
                if !m.enabled {
                    let d = preserve_head(m);
                    directives.push(d);
                    events.push(
                        WlMonitorEvent::ActionFailed {
                            action: ActionKind::SetScale,
                            reason: disabled_scale_message(name),
                        },
                    );
                } else {
                    directives.push(
                        HeadDirective::Enable {
                            head_id: m.head_id,
                            mode_id: m.current_mode,
                            position: m.position,
                            transform: m.transform,
                            scale,
                        },
                    );
                }
            } else {
                let d = preserve_head(m);
                directives.push(d);
            }
            i += 1;
            proof {
                assert(mons.subrange(0, i as int).drop_last() =~= mons.subrange(0, i as int - 1));
                assert(mons.subrange(0, i as int).last() == mons[i as int - 1]);
                assert(directives@ =~= spec_scale_rows(mons.subrange(0, i as int), name@, scale).0);
                assert(events@.map_values(|e: WlMonitorEvent| e@) =~= spec_scale_rows(
                    mons.subrange(0, i as int),
                    name@,
                    scale,
                ).1);
            }
        }
        proof {
            assert(mons.subrange(0, mons.len() as int) =~= mons);
        }
        (directives, events)
    }

    /// Resolve a transform change: the target, when enabled, is
    /// re-asserted with the new transform; a disabled target is preserved
    /// with a failure notice.
    fn configure_set_transform(&self, name: &String, transform: WlTransform) -> (r: (
        Vec<HeadDirective>,
        Vec<WlMonitorEvent>,
    ))
        ensures
            (r.0@, r.1@.map_values(|e: WlMonitorEvent| e@)) == spec_transform_rows(
                self@.monitors,
                name@,
                transform,
            ),
    {
        let ghost mons = self@.monitors;
        let mut directives: Vec<HeadDirective> = Vec::new();
        let mut events: Vec<WlMonitorEvent> = Vec::new();
        let mut i: usize = 0;
        proof {
            assert(mons.subrange(0, 0) =~= Seq::<MonitorView>::empty());
            assert(directives@ =~= spec_transform_rows(mons.subrange(0, 0), name@, transform).0);
            assert(events@.map_values(|e: WlMonitorEvent| e@) =~= spec_transform_rows(
                mons.subrange(0, 0),
                name@,
                transform,
            ).1);
        }
        while i < self.monitors.len()
            invariant
                i <= self.monitors@.len(),
                self.monitors@.len() == mons.len(),
                self@.monitors == mons,
                directives@ == spec_transform_rows(
                    mons.subrange(0, i as int),
                    name@,
                    transform,
                ).0,
                events@.map_values(|e: WlMonitorEvent| e@) == spec_transform_rows(
                    mons.subrange(0, i as int),
                    name@,
                    transform,
                ).1,
            decreases self.monitors@.len() - i,
        {
            proof {
                assert(self.monitors@[i as int]@ == self@.monitors[i as int]);
            }
            let m = &self.monitors[i];
            if m.name == *name {
                if !m.enabled {
                    let d = preserve_head(m);
                    directives.push(d);
                    events.push(
                        WlMonitorEvent::ActionFailed {
                            action: ActionKind::SetTransform,
                            reason: disabled_transform_message(name),
                        },
                    );
                } else {
                    directives.push(
                        HeadDirective::Enable {
                            head_id: m.head_id,
                            mode_id: m.current_mode,
                            position: m.position,
                            transform,
                            scale: m.scale,
                        },
                    );
                }
            } else {
                let d = preserve_head(m);
                directives.push(d);
            }
            i += 1;
            proof {
                assert(mons.subrange(0, i as int).drop_last() =~= mons.subrange(0, i as int - 1));
                assert(mons.subrange(0, i as int).last() == mons[i as int - 1]);
                assert(directives@ =~= spec_transform_rows(
                    mons.subrange(0, i as int),
                    name@,
                    transform,
                ).0);
                assert(events@.map_values(|e: WlMonitorEvent| e@) =~= spec_transform_rows(
                    mons.subrange(0, i as int),
                    name@,
                    transform,
                ).1);
            }
        }
        proof {
            assert(mons.subrange(0, mons.len() as int) =~= mons);
        }
        (directives, events)
    }

    /// Resolve one inbound control action into a configuration
    /// transaction: a serial to submit under, one directive per monitor
    /// (monitors not targeted are preserved as they stand), and any
    /// failure events noticed while planning. Fails without touching
    /// anything when no serial or no bound manager is available yet.
    pub fn plan_action(&mut self, action: WlMonitorAction) -> (res: Result<
        ActionPlan,
        WlMonitorManagerError,
    >)
        requires
            old(self)@.wf(),
        ensures
            final(self)@.wf(),
            old(self)@.serial is None ==> final(self)@ == old(self)@ && (res matches Err(
                WlMonitorManagerError::EventQueueError(m),
            ) && m@ == "no serial available"@),
            old(self)@.serial is Some && !old(self)@.manager_bound ==> final(self)@ == old(self)@
                && (res matches Err(WlMonitorManagerError::EventQueueError(m)) && m@
                == "no manager available"@),
            old(self)@.serial is Some && old(self)@.manager_bound ==> (res matches Ok(plan) && {
                &&& plan@.serial == old(self)@.serial->0
                &&& (action matches WlMonitorAction::Toggle { name, mode } ==> {
                    let te = spec_target_enabled(old(self)@.monitors, name@);
                    let saved = spec_toggle_save(old(self)@.monitors, name@, te);
                    &&& final(self)@ == (ManagerView { monitors: saved, ..old(self)@ })
                    &&& (plan@.directives, plan@.events) == spec_toggle_rows(
                        saved,
                        name@,
                        mode,
                        te,
                    )
                })
                &&& (action matches WlMonitorAction::SwitchMode {
                    name,
                    width,
                    height,
                    refresh_rate,
                } ==> final(self)@ == old(self)@ && (plan@.directives, plan@.events)
                    == spec_switch_rows(old(self)@.monitors, name@, width, height, refresh_rate))
                &&& (action matches WlMonitorAction::SetScale { name, scale } ==> final(self)@
                    == old(self)@ && (plan@.directives, plan@.events) == spec_set_scale_plan(
                    old(self)@.monitors,
                    name@,
                    scale,
                ))
                &&& (action matches WlMonitorAction::SetTransform { name, transform }
                    ==> final(self)@ == old(self)@ && (plan@.directives, plan@.events)
                    == spec_transform_rows(
                    old(self)@.monitors,
                    name@,
                    transform,
                ))
            }),
    {
        let serial = match self.serial {
            Some(s) => s,
            None => {
                return Err(
                    WlMonitorManagerError::EventQueueError(
                        String::from_str("no serial available"),
                    ),
                );
            },
        };
        if !self.manager_bound {
            return Err(
                WlMonitorManagerError::EventQueueError(String::from_str("no manager available")),
            );
        }
        let (directives, events) = match action {
            WlMonitorAction::Toggle { name, mode } => self.configure_toggle(&name, mode),
            WlMonitorAction::SwitchMode { name, width, height, refresh_rate } => self
                .configure_switch_mode(&name, width, height, refresh_rate),
            WlMonitorAction::SetScale { name, scale } => self.configure_set_scale(&name, scale),
            WlMonitorAction::SetTransform { name, transform } => self.configure_set_transform(
                &name,
                transform,
            ),
        };
        Ok(ActionPlan { serial, directives, events })
    }

    /// Once initialized, scan all monitors: clear each dirty flag and
    /// emit one `Changed` snapshot per dirty monitor, in table order.
    /// Before initialization this does nothing.
    pub fn flush_changed(&mut self) -> (out: Vec<WlMonitorEvent>)
        requires
            old(self)@.wf(),
        ensures
            final(self)@.wf(),
            !old(self)@.initialized ==> final(self)@ == old(self)@ && out@.len() == 0,
            old(self)@.initialized ==> final(self)@ == (ManagerView {
                monitors: clear_changed(old(self)@.monitors),
                ..old(self)@
            }),
            old(self)@.initialized ==> out@.map_values(|e: WlMonitorEvent| e@) == changed_events(
                old(self)@.monitors,
            ),
            forall|k: int| 0 <= k < out@.len() ==> (#[trigger] out@[k]@) is Changed,
    {
        if !self.initialized {
            let out: Vec<WlMonitorEvent> = Vec::new();
            proof {
                assert(self@ =~= old(self)@);
            }
            return out;
        }
        let mut out: Vec<WlMonitorEvent> = Vec::new();
        let mut i: usize = 0;
        while i < self.monitors.len()
            invariant
                i <= self.monitors@.len(),
                self.monitors@.len() == old(self)@.monitors.len(),
                self@.mode_owner == old(self)@.mode_owner,
                self@.manager_bound == old(self)@.manager_bound,
                self@.serial == old(self)@.serial,
                self@.initialized == old(self)@.initialized,
                self@.config_result == old(self)@.config_result,
                forall|k: int|
                    #![trigger self@.monitors[k]]
                    i <= k < self@.monitors.len() ==> self@.monitors[k] == old(self)@.monitors[k],
                forall|k: int|
                    #![trigger self@.monitors[k]]
                    0 <= k < i ==> self@.monitors[k] == mark_clean(old(self)@.monitors[k]),
                out@.map_values(|e: WlMonitorEvent| e@) == changed_events(
                    old(self)@.monitors.subrange(0, i as int),
                ),
                forall|k: int| 0 <= k < out@.len() ==> (#[trigger] out@[k]@) is Changed,
            decreases self.monitors@.len() - i,
        {
            let ghost pre = self@.monitors;
            if self.monitors[i].changed {
                let mut mon = self.monitors[i].clone();
                mon.changed = false;
                proof {
                    assert(self.monitors@[i as int]@ == self@.monitors[i as int]);
                    assert(self@.monitors[i as int] == old(self)@.monitors[i as int]);
                    assert(mon@ =~= mark_clean(old(self)@.monitors[i as int]));
                }
                let snapshot = mon.clone();
                self.monitors[i] = mon;
                out.push(WlMonitorEvent::Changed(Box::new(snapshot)));
                proof {
                    assert(out@.last()@ == EventView::Changed(mark_clean(
                        old(self)@.monitors[i as int],
                    )));
                    assert forall|k: int|
                        #![trigger self@.monitors[k]]
                        0 <= k < self@.monitors.len() && k != i as int
                            implies self@.monitors[k] == pre[k] by {
                        assert(self.monitors@[k]@ == self@.monitors[k]);
                        assert(pre[k] == self.monitors@[k]@);
                    }
                    assert(self@.monitors[i as int] == mark_clean(old(self)@.monitors[i as int]));
                }
            } else {
                proof {
                    assert(self.monitors@[i as int]@ == self@.monitors[i as int]);
                    assert(self@.monitors[i as int] == old(self)@.monitors[i as int]);
                    assert(!old(self)@.monitors[i as int].changed);
                    assert(old(self)@.monitors[i as int] =~= mark_clean(
                        old(self)@.monitors[i as int],
                    ));
                }
            }
            i += 1;
            proof {
                let s = old(self)@.monitors;
                let ii = i as int;
                assert(s.subrange(0, ii).drop_last() =~= s.subrange(0, ii - 1));
                assert(s.subrange(0, ii).last() == s[ii - 1]);
                assert(out@.map_values(|e: WlMonitorEvent| e@) =~= changed_events(
                    s.subrange(0, ii),
                ));
            }
        }
        proof {
            assert(old(self)@.monitors.subrange(0, old(self)@.monitors.len() as int) =~= old(
                self,
            )@.monitors);
            assert(self@.monitors =~= clear_changed(old(self)@.monitors));
            assert(self@ =~= (ManagerView {
                monitors: clear_changed(old(self)@.monitors),
                ..old(self)@
            }));
            lemma_wf_clear_changed(old(self)@.monitors, old(self)@.mode_owner);
        }
        out
    }

    /// Decide whether a registry global is the output-manager interface;
    /// when it is, record that a manager handle is bound (last bind wins).
    /// The caller performs the actual bind on the connection.
    pub fn handle_registry_global(&mut self, interface: &str) -> (bound: bool)
        ensures
            bound == (interface@ == manager_interface_name()),
            bound ==> final(self)@ == (ManagerView { manager_bound: true, ..old(self)@ }),
            !bound ==> final(self)@ == old(self)@,
            old(self)@.wf() ==> final(self)@.wf(),
    {
        let name = interface.to_owned();
        let expected = String::from_str("zwlr_output_manager_v1");
        if name == expected {
            self.manager_bound = true;
            proof {
                assert(self@ =~= (ManagerView { manager_bound: true, ..old(self)@ }));
            }
            true
        } else {
            proof {
                assert(self@ =~= old(self)@);
            }
            false
        }
    }

    /// Reset the transaction marker before waiting for a configuration
    /// outcome.
    pub fn begin_config_wait(&mut self)
        ensures
            final(self)@ == (ManagerView { config_result: ConfigResult::Idle, ..old(self)@ }),
            old(self)@.wf() ==> final(self)@.wf(),
    {
        self.config_result = ConfigResult::Idle;
        proof {
            assert(self@ =~= (ManagerView { config_result: ConfigResult::Idle, ..old(self)@ }));
        }
    }

    /// Record the compositor's verdict on the pending configuration
    /// transaction. The marker is a small state machine: it moves only
    /// from `Idle`, and only these three protocol events drive it.
    pub fn handle_config_event(&mut self, ev: ConfigEvent)
        ensures
            old(self)@.config_result is Idle ==> final(self)@ == (ManagerView {
                config_result: match ev {
                    ConfigEvent::Succeeded => ConfigResult::Succeeded,
                    ConfigEvent::Failed => ConfigResult::Failed,
                    ConfigEvent::Cancelled => ConfigResult::Cancelled,
                },
                ..old(self)@
            }),
            !(old(self)@.config_result is Idle) ==> final(self)@ == old(self)@,
            old(self)@.wf() ==> final(self)@.wf(),
    {
        match self.config_result {
            ConfigResult::Idle => {
                self.config_result = match ev {
                    ConfigEvent::Succeeded => ConfigResult::Succeeded,
                    ConfigEvent::Failed => ConfigResult::Failed,
                    ConfigEvent::Cancelled => ConfigResult::Cancelled,
                };
                proof {
                    assert(self@ =~= (ManagerView {
                        config_result: self.config_result,
                        ..old(self)@
                    }));
                }
            },
            _ => {
                proof {
                    assert(self@ =~= old(self)@);
                }
            },
        }
    }

    /// Whether the session is still waiting for a transaction verdict.
    pub fn awaiting_result(&self) -> (b: bool)
        ensures
            b == (self@.config_result is Idle),
    {
        match self.config_result {
            ConfigResult::Idle => true,
            _ => false,
        }
    }

    /// Translate the recorded transaction verdict into the session's
    /// result: success, or the fixed error text for a rejection or a
    /// cancellation (stale serial).
    pub fn config_outcome(&self) -> (r: Result<(), WlMonitorManagerError>)
        requires
            self@.config_result !is Idle,
        ensures
            self@.config_result is Succeeded <==> r is Ok,
            self@.config_result is Failed ==> (r matches Err(
                WlMonitorManagerError::EventQueueError(m),
            ) && m@ == "compositor rejected the configuration"@),
            self@.config_result is Cancelled ==> (r matches Err(
                WlMonitorManagerError::EventQueueError(m),
            ) && m@ == "configuration cancelled (serial outdated)"@),
    {
        match self.config_result {
            ConfigResult::Succeeded => Ok(()),
            ConfigResult::Failed => Err(
                WlMonitorManagerError::EventQueueError(
                    String::from_str("compositor rejected the configuration"),
                ),
            ),
            _ => Err(
                WlMonitorManagerError::EventQueueError(
                    String::from_str("configuration cancelled (serial outdated)"),
                ),
            ),
        }
    }
}

/// The event a host reports when a submitted configuration transaction
/// came back rejected or cancelled.
pub fn config_failure_event(err: &WlMonitorManagerError) -> (e: WlMonitorEvent)
    ensures
        e@ == (EventView::ActionFailed {
            action: ActionKind::ConfigApply,
            reason: err.spec_describe(),
        }),
{
    WlMonitorEvent::ActionFailed { action: ActionKind::ConfigApply, reason: err.describe() }
}

} // verus!
