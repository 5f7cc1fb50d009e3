use wlx_monitors::{
    config_failure_event, ActionKind, ConfigEvent, HeadDirective, HeadEvent, ManagerEvent,
    ModeEvent, WlMonitor, WlMonitorAction, WlMonitorEvent, WlMonitorManager,
    WlMonitorManagerError, WlPosition, WlResolution, WlScale, WlTransform,
};

/// Drive a session to the state of the running example: "DP-1" enabled
/// with modes 1920x1080@60 (current, preferred) and 2560x1440@75, and
/// "HDMI-A-1" disabled with one preferred mode 1920x1080@60. No
/// synchronization point has been reached yet.
fn scenario_session() -> WlMonitorManager {
    let mut mgr = WlMonitorManager::new();
    assert!(mgr.handle_registry_global("zwlr_output_manager_v1"));

    assert!(mgr.handle_manager_event(ManagerEvent::Head { head_id: 1 }).is_empty());
    mgr.handle_head_event(1, HeadEvent::Name { name: "DP-1".to_string() });
    mgr.handle_head_event(1, HeadEvent::Description { description: "27in display".to_string() });
    mgr.handle_head_event(1, HeadEvent::Enabled { enabled: 1 });
    mgr.handle_head_event(1, HeadEvent::Mode { mode_id: 101 });
    mgr.handle_mode_event(101, ModeEvent::Size { width: 1920, height: 1080 });
    mgr.handle_mode_event(101, ModeEvent::Refresh { refresh: 60000 });
    mgr.handle_mode_event(101, ModeEvent::Preferred);
    mgr.handle_head_event(1, HeadEvent::Mode { mode_id: 102 });
    mgr.handle_mode_event(102, ModeEvent::Size { width: 2560, height: 1440 });
    mgr.handle_mode_event(102, ModeEvent::Refresh { refresh: 75000 });
    mgr.handle_head_event(1, HeadEvent::CurrentMode { mode_id: 101 });
    mgr.handle_head_event(1, HeadEvent::Position { x: 0, y: 0 });
    mgr.handle_head_event(1, HeadEvent::Scale { scale: WlScale::one() });
    mgr.handle_head_event(1, HeadEvent::Transform { transform: 0 });

    assert!(mgr.handle_manager_event(ManagerEvent::Head { head_id: 2 }).is_empty());
    mgr.handle_head_event(2, HeadEvent::Name { name: "HDMI-A-1".to_string() });
    mgr.handle_head_event(2, HeadEvent::Enabled { enabled: 0 });
    mgr.handle_head_event(2, HeadEvent::Mode { mode_id: 201 });
    mgr.handle_mode_event(201, ModeEvent::Size { width: 1920, height: 1080 });
    mgr.handle_mode_event(201, ModeEvent::Refresh { refresh: 60000 });
    mgr.handle_mode_event(201, ModeEvent::Preferred);

    mgr
}

/// The same session after its first synchronization point (serial 7).
fn synced_session() -> WlMonitorManager {
    let mut mgr = scenario_session();
    let events = mgr.handle_manager_event(ManagerEvent::Done { serial: 7 });
    assert_eq!(events.len(), 1);
    mgr
}

fn initial_state(events: &[WlMonitorEvent]) -> &Vec<WlMonitor> {
    match &events[0] {
        WlMonitorEvent::InitialState(monitors) => monitors,
        other => panic!("expected InitialState, got {:?}", other),
    }
}

#[test]
fn initial_state_reports_both_monitors_exactly() {
    let mut mgr = scenario_session();
    let events = mgr.handle_manager_event(ManagerEvent::Done { serial: 7 });
    assert_eq!(events.len(), 1);
    let monitors = initial_state(&events);
    assert_eq!(monitors.len(), 2);

    let dp = &monitors[0];
    assert_eq!(dp.name, "DP-1");
    assert_eq!(dp.description, "27in display");
    assert!(dp.enabled);
    assert_eq!(dp.current_mode, Some(101));
    assert_eq!(dp.position, WlPosition { x: 0, y: 0 });
    assert_eq!(dp.scale, WlScale { units: 256, finite: true });
    assert_eq!(dp.transform, WlTransform::Normal);
    assert_eq!(dp.modes.len(), 2);
    assert_eq!(dp.modes[0].mode_id, 101);
    assert_eq!(dp.modes[0].resolution, WlResolution { height: 1080, width: 1920 });
    assert_eq!(dp.modes[0].refresh_rate, 60);
    assert!(dp.modes[0].preferred);
    assert!(dp.modes[0].is_current);
    assert_eq!(dp.modes[1].mode_id, 102);
    assert_eq!(dp.modes[1].resolution, WlResolution { height: 1440, width: 2560 });
    assert_eq!(dp.modes[1].refresh_rate, 75);
    assert!(!dp.modes[1].preferred);
    assert!(!dp.modes[1].is_current);

    let hdmi = &monitors[1];
    assert_eq!(hdmi.name, "HDMI-A-1");
    assert!(!hdmi.enabled);
    assert_eq!(hdmi.current_mode, None);
    assert_eq!(hdmi.modes.len(), 1);
    assert_eq!(hdmi.modes[0].mode_id, 201);
    assert_eq!(hdmi.modes[0].resolution, WlResolution { height: 1080, width: 1920 });
    assert_eq!(hdmi.modes[0].refresh_rate, 60);
    assert!(hdmi.modes[0].preferred);
}

#[test]
fn initial_state_emitted_only_once() {
    let mut mgr = scenario_session();
    let first = mgr.handle_manager_event(ManagerEvent::Done { serial: 7 });
    assert_eq!(first.len(), 1);
    let second = mgr.handle_manager_event(ManagerEvent::Done { serial: 8 });
    assert!(second.is_empty());
    let third = mgr.handle_manager_event(ManagerEvent::Done { serial: 9 });
    assert!(third.is_empty());
}

#[test]
fn no_events_before_synchronization() {
    let mut mgr = scenario_session();
    // field updates before the first Done mark nothing dirty and a flush
    // reports nothing
    let flushed = mgr.flush_changed();
    assert!(flushed.is_empty());
}

#[test]
fn refresh_rate_truncates_thousandths() {
    let mut mgr = WlMonitorManager::new();
    mgr.handle_manager_event(ManagerEvent::Head { head_id: 1 });
    mgr.handle_head_event(1, HeadEvent::Mode { mode_id: 11 });
    mgr.handle_head_event(1, HeadEvent::Mode { mode_id: 12 });
    mgr.handle_mode_event(11, ModeEvent::Refresh { refresh: 59950 });
    mgr.handle_mode_event(12, ModeEvent::Refresh { refresh: 60000 });
    let events = mgr.handle_manager_event(ManagerEvent::Done { serial: 1 });
    let monitors = initial_state(&events);
    assert_eq!(monitors[0].modes[0].refresh_rate, 59);
    assert_eq!(monitors[0].modes[1].refresh_rate, 60);
}

fn preserve_both() -> Vec<HeadDirective> {
    vec![
        HeadDirective::Enable {
            head_id: 1,
            mode_id: Some(101),
            position: WlPosition { x: 0, y: 0 },
            transform: WlTransform::Normal,
            scale: WlScale { units: 256, finite: true },
        },
        HeadDirective::Disable { head_id: 2 },
    ]
}

fn failure(events: &[WlMonitorEvent]) -> (ActionKind, String) {
    assert_eq!(events.len(), 1);
    match &events[0] {
        WlMonitorEvent::ActionFailed { action, reason } => (*action, reason.clone()),
        other => panic!("expected ActionFailed, got {:?}", other),
    }
}

#[test]
fn toggle_enables_disabled_monitor_at_preferred_mode() {
    let mut mgr = synced_session();
    let plan = mgr
        .plan_action(WlMonitorAction::Toggle { name: "HDMI-A-1".to_string(), mode: None })
        .expect("plan");
    assert_eq!(plan.serial, 7);
    assert!(plan.events.is_empty());
    assert_eq!(
        plan.directives,
        vec![
            HeadDirective::Enable {
                head_id: 1,
                mode_id: Some(101),
                position: WlPosition { x: 0, y: 0 },
                transform: WlTransform::Normal,
                scale: WlScale { units: 256, finite: true },
            },
            HeadDirective::Enable {
                head_id: 2,
                mode_id: Some(201),
                position: WlPosition { x: 0, y: 0 },
                transform: WlTransform::Normal,
                scale: WlScale { units: 256, finite: true },
            },
        ]
    );
}

#[test]
fn toggle_off_then_on_restores_last_mode() {
    let mut mgr = synced_session();
    // switch DP-1 to its non-preferred mode first, as the compositor
    // would confirm it
    mgr.handle_head_event(1, HeadEvent::CurrentMode { mode_id: 102 });
    mgr.flush_changed();

    let off = mgr
        .plan_action(WlMonitorAction::Toggle { name: "DP-1".to_string(), mode: None })
        .expect("plan");
    assert_eq!(
        off.directives,
        vec![HeadDirective::Disable { head_id: 1 }, HeadDirective::Disable { head_id: 2 }]
    );

    // the compositor applies the change and reports DP-1 disabled
    mgr.handle_head_event(1, HeadEvent::Enabled { enabled: 0 });
    mgr.flush_changed();

    let on = mgr
        .plan_action(WlMonitorAction::Toggle { name: "DP-1".to_string(), mode: None })
        .expect("plan");
    match on.directives[0] {
        HeadDirective::Enable { head_id, mode_id, .. } => {
            assert_eq!(head_id, 1);
            assert_eq!(mode_id, Some(102));
        },
        ref other => panic!("expected Enable, got {:?}", other),
    }
}

#[test]
fn toggle_with_explicit_mode_matches_exactly() {
    let mut mgr = synced_session();
    mgr.handle_head_event(1, HeadEvent::Enabled { enabled: 0 });
    mgr.flush_changed();
    let plan = mgr
        .plan_action(WlMonitorAction::Toggle {
            name: "DP-1".to_string(),
            mode: Some((2560, 1440, 75)),
        })
        .expect("plan");
    match plan.directives[0] {
        HeadDirective::Enable { head_id, mode_id, .. } => {
            assert_eq!(head_id, 1);
            assert_eq!(mode_id, Some(102));
        },
        ref other => panic!("expected Enable, got {:?}", other),
    }
}

#[test]
fn toggle_with_unmatched_explicit_triple_falls_back_to_last_mode() {
    let mut mgr = synced_session();
    // run DP-1 at its non-preferred mode, remember it by toggling off,
    // and let the compositor confirm the disable
    mgr.handle_head_event(1, HeadEvent::CurrentMode { mode_id: 102 });
    mgr.flush_changed();
    mgr.plan_action(WlMonitorAction::Toggle { name: "DP-1".to_string(), mode: None })
        .expect("plan");
    mgr.handle_head_event(1, HeadEvent::Enabled { enabled: 0 });
    mgr.flush_changed();
    // the requested triple matches nothing, so the remembered mode wins
    // over the preferred one
    let plan = mgr
        .plan_action(WlMonitorAction::Toggle {
            name: "DP-1".to_string(),
            mode: Some((3840, 2160, 60)),
        })
        .expect("plan");
    assert!(plan.events.is_empty());
    match plan.directives[0] {
        HeadDirective::Enable { head_id, mode_id, .. } => {
            assert_eq!(head_id, 1);
            assert_eq!(mode_id, Some(102));
        },
        ref other => panic!("expected Enable, got {:?}", other),
    }
}

#[test]
fn toggle_without_preferred_mode_falls_back_to_first() {
    let mut mgr = WlMonitorManager::new();
    assert!(mgr.handle_registry_global("zwlr_output_manager_v1"));
    mgr.handle_manager_event(ManagerEvent::Head { head_id: 3 });
    mgr.handle_head_event(3, HeadEvent::Name { name: "DVI-1".to_string() });
    mgr.handle_head_event(3, HeadEvent::Mode { mode_id: 31 });
    mgr.handle_mode_event(31, ModeEvent::Size { width: 1280, height: 1024 });
    mgr.handle_mode_event(31, ModeEvent::Refresh { refresh: 60000 });
    mgr.handle_head_event(3, HeadEvent::Mode { mode_id: 32 });
    mgr.handle_mode_event(32, ModeEvent::Size { width: 1024, height: 768 });
    mgr.handle_mode_event(32, ModeEvent::Refresh { refresh: 75000 });
    mgr.handle_manager_event(ManagerEvent::Done { serial: 2 });
    let plan = mgr
        .plan_action(WlMonitorAction::Toggle { name: "DVI-1".to_string(), mode: None })
        .expect("plan");
    assert!(plan.events.is_empty());
    match plan.directives[0] {
        HeadDirective::Enable { head_id, mode_id, .. } => {
            assert_eq!(head_id, 3);
            assert_eq!(mode_id, Some(31));
        },
        ref other => panic!("expected Enable, got {:?}", other),
    }
}

#[test]
fn refresh_rate_truncates_toward_zero() {
    let mut mgr = WlMonitorManager::new();
    mgr.handle_manager_event(ManagerEvent::Head { head_id: 1 });
    mgr.handle_head_event(1, HeadEvent::Mode { mode_id: 11 });
    mgr.handle_mode_event(11, ModeEvent::Refresh { refresh: -1500 });
    let events = mgr.handle_manager_event(ManagerEvent::Done { serial: 1 });
    let monitors = initial_state(&events);
    assert_eq!(monitors[0].modes[0].refresh_rate, -1);
}

#[test]
fn toggle_without_any_usable_mode_fails() {
    let mut mgr = WlMonitorManager::new();
    assert!(mgr.handle_registry_global("zwlr_output_manager_v1"));
    mgr.handle_manager_event(ManagerEvent::Head { head_id: 5 });
    mgr.handle_head_event(5, HeadEvent::Name { name: "eDP-1".to_string() });
    mgr.handle_manager_event(ManagerEvent::Done { serial: 3 });
    let plan = mgr
        .plan_action(WlMonitorAction::Toggle { name: "eDP-1".to_string(), mode: None })
        .expect("plan");
    assert!(plan.directives.is_empty());
    let (kind, reason) = failure(&plan.events);
    assert_eq!(kind, ActionKind::Toggle);
    assert_eq!(reason, "No valid mode available for monitor 'eDP-1'");
}

#[test]
fn switch_mode_without_match_preserves_everything() {
    let mut mgr = synced_session();
    let plan = mgr
        .plan_action(WlMonitorAction::SwitchMode {
            name: "DP-1".to_string(),
            width: 1920,
            height: 1080,
            refresh_rate: 75,
        })
        .expect("plan");
    assert_eq!(plan.directives, preserve_both());
    let (kind, reason) = failure(&plan.events);
    assert_eq!(kind, ActionKind::SwitchMode);
    assert_eq!(reason, "No matching mode 1920x1080@75Hz for monitor 'DP-1'");
}

#[test]
fn switch_mode_with_match_activates_it() {
    let mut mgr = synced_session();
    let plan = mgr
        .plan_action(WlMonitorAction::SwitchMode {
            name: "DP-1".to_string(),
            width: 2560,
            height: 1440,
            refresh_rate: 75,
        })
        .expect("plan");
    assert!(plan.events.is_empty());
    match plan.directives[0] {
        HeadDirective::Enable { head_id, mode_id, .. } => {
            assert_eq!(head_id, 1);
            assert_eq!(mode_id, Some(102));
        },
        ref other => panic!("expected Enable, got {:?}", other),
    }
}

#[test]
fn set_scale_zero_fails_and_preserves() {
    let mut mgr = synced_session();
    let plan = mgr
        .plan_action(WlMonitorAction::SetScale {
            name: "DP-1".to_string(),
            scale: WlScale { units: 0, finite: true },
        })
        .expect("plan");
    assert_eq!(plan.directives, preserve_both());
    let (kind, reason) = failure(&plan.events);
    assert_eq!(kind, ActionKind::SetScale);
    assert_eq!(reason, "Invalid scale value '0/256': must be finite and > 0");
}

#[test]
fn set_scale_negative_fails_and_preserves() {
    let mut mgr = synced_session();
    let plan = mgr
        .plan_action(WlMonitorAction::SetScale {
            name: "DP-1".to_string(),
            scale: WlScale { units: -512, finite: true },
        })
        .expect("plan");
    assert_eq!(plan.directives, preserve_both());
    let (kind, _) = failure(&plan.events);
    assert_eq!(kind, ActionKind::SetScale);
}

#[test]
fn set_scale_non_finite_fails_and_preserves() {
    let mut mgr = synced_session();
    let plan = mgr
        .plan_action(WlMonitorAction::SetScale {
            name: "DP-1".to_string(),
            scale: WlScale { units: 256, finite: false },
        })
        .expect("plan");
    assert_eq!(plan.directives, preserve_both());
    let (kind, reason) = failure(&plan.events);
    assert_eq!(kind, ActionKind::SetScale);
    assert_eq!(reason, "Invalid scale value 'non-finite': must be finite and > 0");
}

#[test]
fn set_scale_on_disabled_monitor_fails_naming_it() {
    let mut mgr = synced_session();
    let plan = mgr
        .plan_action(WlMonitorAction::SetScale {
            name: "HDMI-A-1".to_string(),
            scale: WlScale { units: 512, finite: true },
        })
        .expect("plan");
    assert_eq!(plan.directives, preserve_both());
    let (kind, reason) = failure(&plan.events);
    assert_eq!(kind, ActionKind::SetScale);
    assert_eq!(reason, "Monitor 'HDMI-A-1' is disabled, cannot set scale");
}

#[test]
fn set_scale_on_enabled_monitor_applies() {
    let mut mgr = synced_session();
    let plan = mgr
        .plan_action(WlMonitorAction::SetScale {
            name: "DP-1".to_string(),
            scale: WlScale { units: 512, finite: true },
        })
        .expect("plan");
    assert!(plan.events.is_empty());
    assert_eq!(
        plan.directives[0],
        HeadDirective::Enable {
            head_id: 1,
            mode_id: Some(101),
            position: WlPosition { x: 0, y: 0 },
            transform: WlTransform::Normal,
            scale: WlScale { units: 512, finite: true },
        }
    );
}

#[test]
fn set_transform_on_disabled_monitor_fails_naming_it() {
    let mut mgr = synced_session();
    let plan = mgr
        .plan_action(WlMonitorAction::SetTransform {
            name: "HDMI-A-1".to_string(),
            transform: WlTransform::Rotate90,
        })
        .expect("plan");
    assert_eq!(plan.directives, preserve_both());
    let (kind, reason) = failure(&plan.events);
    assert_eq!(kind, ActionKind::SetTransform);
    assert_eq!(reason, "Monitor 'HDMI-A-1' is disabled, cannot set transform");
}

#[test]
fn set_transform_on_enabled_monitor_applies() {
    let mut mgr = synced_session();
    let plan = mgr
        .plan_action(WlMonitorAction::SetTransform {
            name: "DP-1".to_string(),
            transform: WlTransform::Flipped180,
        })
        .expect("plan");
    assert!(plan.events.is_empty());
    assert_eq!(
        plan.directives[0],
        HeadDirective::Enable {
            head_id: 1,
            mode_id: Some(101),
            position: WlPosition { x: 0, y: 0 },
            transform: WlTransform::Flipped180,
            scale: WlScale { units: 256, finite: true },
        }
    );
}

#[test]
fn action_without_serial_is_rejected() {
    let mut mgr = scenario_session();
    let err = mgr
        .plan_action(WlMonitorAction::Toggle { name: "DP-1".to_string(), mode: None })
        .expect_err("no serial yet");
    match err {
        WlMonitorManagerError::EventQueueError(m) => assert_eq!(m, "no serial available"),
        other => panic!("expected EventQueueError, got {:?}", other),
    }
}

#[test]
fn action_without_bound_manager_is_rejected() {
    let mut mgr = WlMonitorManager::new();
    mgr.handle_manager_event(ManagerEvent::Done { serial: 4 });
    let err = mgr
        .plan_action(WlMonitorAction::Toggle { name: "DP-1".to_string(), mode: None })
        .expect_err("no manager bound");
    match err {
        WlMonitorManagerError::EventQueueError(m) => assert_eq!(m, "no manager available"),
        other => panic!("expected EventQueueError, got {:?}", other),
    }
}

#[test]
fn registry_binds_only_the_manager_interface() {
    let mut mgr = WlMonitorManager::new();
    assert!(!mgr.handle_registry_global("wl_output"));
    assert!(!mgr.handle_registry_global("zwlr_output_manager"));
    assert!(mgr.handle_registry_global("zwlr_output_manager_v1"));
}

#[test]
fn dirty_monitors_flush_once_per_tick() {
    let mut mgr = synced_session();
    mgr.handle_head_event(1, HeadEvent::Name { name: "DP-1-renamed".to_string() });
    mgr.handle_head_event(1, HeadEvent::Position { x: 100, y: 50 });
    let flushed = mgr.flush_changed();
    assert_eq!(flushed.len(), 1);
    match &flushed[0] {
        WlMonitorEvent::Changed(m) => {
            assert_eq!(m.name, "DP-1-renamed");
            assert_eq!(m.position, WlPosition { x: 100, y: 50 });
            assert!(!m.changed);
        },
        other => panic!("expected Changed, got {:?}", other),
    }
    // coalesced: nothing left to report on the next tick
    assert!(mgr.flush_changed().is_empty());
}

#[test]
fn finished_head_reports_removed_once_and_falls_silent() {
    let mut mgr = synced_session();
    let events = mgr.handle_head_event(2, HeadEvent::Finished);
    assert_eq!(events.len(), 1);
    match &events[0] {
        WlMonitorEvent::Removed { id, name } => {
            assert_eq!(*id, 2);
            assert_eq!(name, "HDMI-A-1");
        },
        other => panic!("expected Removed, got {:?}", other),
    }
    // a second Finished for the same head reports nothing
    assert!(mgr.handle_head_event(2, HeadEvent::Finished).is_empty());
    // no Changed event references the removed head afterward
    mgr.handle_head_event(1, HeadEvent::Enabled { enabled: 0 });
    let flushed = mgr.flush_changed();
    assert_eq!(flushed.len(), 1);
    match &flushed[0] {
        WlMonitorEvent::Changed(m) => assert_eq!(m.head_id, 1),
        other => panic!("expected Changed, got {:?}", other),
    }
    // mode events for the removed head's modes are dropped too
    mgr.handle_mode_event(201, ModeEvent::Refresh { refresh: 144000 });
    assert!(mgr.flush_changed().is_empty());
}

#[test]
fn cancelled_configuration_surfaces_fixed_text() {
    let mut mgr = synced_session();
    mgr.begin_config_wait();
    assert!(mgr.awaiting_result());
    mgr.handle_config_event(ConfigEvent::Cancelled);
    assert!(!mgr.awaiting_result());
    let err = mgr.config_outcome().expect_err("cancelled");
    match &err {
        WlMonitorManagerError::EventQueueError(m) => {
            assert_eq!(m, "configuration cancelled (serial outdated)")
        },
        other => panic!("expected EventQueueError, got {:?}", other),
    }
    match config_failure_event(&err) {
        WlMonitorEvent::ActionFailed { action, reason } => {
            assert_eq!(action, ActionKind::ConfigApply);
            assert_eq!(reason, "EventQueueError(\"configuration cancelled (serial outdated)\")");
        },
        other => panic!("expected ActionFailed, got {:?}", other),
    }
}

#[test]
fn rejected_configuration_surfaces_fixed_text() {
    let mut mgr = synced_session();
    mgr.begin_config_wait();
    mgr.handle_config_event(ConfigEvent::Failed);
    let err = mgr.config_outcome().expect_err("failed");
    match err {
        WlMonitorManagerError::EventQueueError(m) => {
            assert_eq!(m, "compositor rejected the configuration")
        },
        other => panic!("expected EventQueueError, got {:?}", other),
    }
}

#[test]
fn succeeded_configuration_is_ok() {
    let mut mgr = synced_session();
    mgr.begin_config_wait();
    mgr.handle_config_event(ConfigEvent::Succeeded);
    assert!(mgr.config_outcome().is_ok());
}

#[test]
fn events_on_unknown_heads_and_modes_are_ignored() {
    let mut mgr = synced_session();
    assert!(mgr.handle_head_event(99, HeadEvent::Name { name: "ghost".to_string() }).is_empty());
    mgr.handle_mode_event(999, ModeEvent::Preferred);
    assert!(mgr.flush_changed().is_empty());
}
