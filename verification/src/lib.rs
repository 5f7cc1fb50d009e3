//! Client-side model of display outputs managed through the
//! wlr-output-management compositor protocol.
//!
//! The crate mirrors the protocol's object graph as plain data: monitors
//! (heads) with their modes, geometry, scale and transform. Decoded wire
//! events drive a session state machine ([`WlMonitorManager`]) that keeps
//! the authoritative monitor table, emits domain events
//! ([`WlMonitorEvent`]), and resolves control actions
//! ([`WlMonitorAction`]) into configuration-transaction directives. The
//! host drives the connection itself and hands decoded events in and
//! directives out.

pub mod laws;
pub mod numfmt;
pub mod plan;
pub mod state;
pub mod wl_monitor;

pub use plan::{ActionPlan, HeadDirective};
pub use state::{
    config_failure_event, ActionKind, ConfigEvent, ConfigResult, HeadEvent, ManagerEvent,
    ModeEvent, ModeOwner, WlMonitorAction, WlMonitorEvent, WlMonitorManager,
    WlMonitorManagerError,
};
pub use wl_monitor::{WlMonitor, WlMonitorMode, WlPosition, WlResolution, WlScale, WlTransform};
