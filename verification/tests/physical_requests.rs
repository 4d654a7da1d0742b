use leopardwm::app_state::{
    AppState, DragState, ExitProvenance, LayoutModeConfig, LayoutTransition, MonitorWorkspaces,
};
use leopardwm::physical_placement::{
    monitor_rects, parking_clears_monitors, ConstrainedAxes, PhysicalKind,
};
use leopardwm::physical_state::PhysicalState;
use leopardwm::scroll::Easing;
use leopardwm::types::{
    MonitorId, MonitorInfo, NativeWindow, PlacementLanding, Rect, Visibility, WindowId,
    WindowPlacement,
};
use leopardwm::workspace::{Column, Workspace};
use std::collections::{HashMap, HashSet};

fn monitor(id: MonitorId, x: i32, y: i32, w: i32, h: i32) -> MonitorInfo {
    MonitorInfo {
        id,
        rect: Rect::new(x, y, w, h),
        viewport: Rect::new(x, y, w, h),
        scale_milli: 1000,
    }
}

fn placement(wid: u64, rect: Rect, visibility: Visibility) -> WindowPlacement {
    WindowPlacement {
        window_id: wid,
        rect,
        visibility,
        column_index: 0,
    }
}

fn empty_workspace() -> Workspace {
    Workspace {
        columns: Vec::new(),
        minimized_windows: HashSet::new(),
        floating: HashSet::new(),
        fullscreen: None,
        focused_column: 0,
        focused_window_in_column: 0,
        focus_reel: None,
        reduce_motion: false,
        scroll_duration_ms: 200,
        scroll_easing: Easing::default(),
        tab_sync_pending: false,
    }
}

fn state_on(monitors: Vec<MonitorInfo>) -> AppState {
    let workspaces = monitors
        .iter()
        .map(|monitor| MonitorWorkspaces {
            monitor_id: monitor.id,
            active: 0,
            list: vec![empty_workspace()],
        })
        .collect();
    AppState {
        focused_monitor: monitors[0].id,
        monitors,
        workspaces,
        mode: LayoutModeConfig::Scroll,
        layout_duration_ms: 200,
        easing: Easing::default(),
        reduce_motion: false,
        paused: false,
        reel_transition: None,
        reel_thumbnails: HashSet::new(),
        reel_last_squared_focus: None,
        natives: HashMap::new(),
        application_fullscreen: HashSet::new(),
        drag_state: None,
        layout_transition: None,
        park_sentinel: -100_000,
        physical: PhysicalState::new(),
    }
}

fn insert_window(state: &mut AppState, id: WindowId) {
    state.workspaces[0].list[0]
        .columns
        .push(Column { windows: vec![id] });
}

fn remove_window(state: &mut AppState, id: WindowId) {
    state.workspaces[0].list[0]
        .columns
        .retain(|column| !column.windows.contains(&id));
}

fn start_workspace_switch(state: &mut AppState, id: WindowId) {
    let provenance = ExitProvenance {
        owner: state.owner_id_for_window(id).unwrap(),
        eligible: state.exit_projection_eligible(id),
    };
    state.layout_transition = Some(LayoutTransition {
        exit_provenance: HashMap::from([(id, provenance)]),
    });
}

fn maximized() -> NativeWindow {
    NativeWindow {
        insets: (0, 0, 0, 0),
        style_bits: 0,
        maximized: true,
    }
}

#[test]
fn missing_outer_readback_blocks_containment_without_fallback() {
    let mut state = state_on(vec![
            monitor(1, 0, 0, 1920, 1080),
            monitor(2, 1920, 0, 1920, 1080),
        ]);
    insert_window(&mut state, 100);
    let dispatched = state.apply_physical_projection(vec![placement(
        100,
        Rect::new(1800, 0, 400, 600),
        Visibility::Visible,
    )]);
    let (request_id, invalidation_id) = state.physical_request_ids();
    let follow_up = state.consume_physical_landings(
        request_id,
        invalidation_id,
        &[PlacementLanding {
            window_id: 100,
            requested_rect: dispatched[0].rect,
            requested_visibility: Visibility::Visible,
            actual_visible_rect: Some(Rect::new(1800, 0, 400, 600)),
            actual_outer_rect: None,
            failed: false,
            unreadable: false,
        }],
        &dispatched,
    );
    assert!(follow_up.is_empty());
    assert!(!state.physical.last_presentations[&100].confirmed);
}

#[test]
fn failed_unchanged_landing_disables_physical_fast_path() {
    let mut state = state_on(vec![monitor(1, 0, 0, 1920, 1080)]);
    insert_window(&mut state, 100);
    let dispatched = state.apply_physical_projection(vec![placement(
        100,
        Rect::new(100, 0, 400, 600),
        Visibility::Visible,
    )]);
    let (request_id, invalidation_id) = state.physical_request_ids();
    state.consume_physical_landings(
        request_id,
        invalidation_id,
        &[PlacementLanding {
            window_id: 100,
            requested_rect: dispatched[0].rect,
            requested_visibility: Visibility::Visible,
            actual_visible_rect: None,
            actual_outer_rect: None,
            failed: true,
            unreadable: false,
        }],
        &dispatched,
    );
    assert!(!state.physical.last_presentations[&100].confirmed);
    assert!(
        !state.physical_fast_path_ok(),
        "a failed unchanged placement must be retried rather than treated as native success"
    );
}

#[test]
fn confirmed_unchanged_landing_allows_physical_fast_path() {
    let mut state = state_on(vec![monitor(1, 0, 0, 1920, 1080)]);
    insert_window(&mut state, 100);
    let dispatched = state.apply_physical_projection(vec![placement(
        100,
        Rect::new(100, 0, 400, 600),
        Visibility::Visible,
    )]);
    let (request_id, invalidation_id) = state.physical_request_ids();
    state.consume_physical_landings(
        request_id,
        invalidation_id,
        &[PlacementLanding {
            window_id: 100,
            requested_rect: dispatched[0].rect,
            requested_visibility: Visibility::Visible,
            actual_visible_rect: Some(dispatched[0].rect),
            actual_outer_rect: Some(dispatched[0].rect),
            failed: false,
            unreadable: false,
        }],
        &dispatched,
    );
    assert!(state.physical.pending_presentations.is_empty());
    assert_eq!(state.expected_physical_rect(100), Some(dispatched[0].rect));
    assert!(state.physical.last_presentations[&100].confirmed);
    assert!(state.physical_fast_path_ok());
}

#[test]
fn confirmed_landing_releases_a_revoked_ghost_source() {
    let mut state = state_on(vec![monitor(1, 0, 0, 1920, 1080)]);
    insert_window(&mut state, 100);
    let dispatched = state.apply_physical_projection(vec![placement(
        100,
        Rect::new(100, 0, 400, 600),
        Visibility::Visible,
    )]);
    let (request_id, invalidation_id) = state.physical_request_ids();
    state.consume_physical_landings(
        request_id,
        invalidation_id,
        &[PlacementLanding {
            window_id: 100,
            requested_rect: dispatched[0].rect,
            requested_visibility: Visibility::Visible,
            actual_visible_rect: Some(dispatched[0].rect),
            actual_outer_rect: Some(dispatched[0].rect),
            failed: false,
            unreadable: false,
        }],
        &dispatched,
    );
    let mut ghost_sources_pending_safe_landing = HashSet::from([100]);

    ghost_sources_pending_safe_landing.retain(|id| !state.physical_landing_is_safe_to_expose(*id));

    assert!(!ghost_sources_pending_safe_landing.contains(&100));
}

#[test]
fn synthetic_exit_uses_snapshot_provenance_after_membership_changes() {
    let mut state = state_on(vec![
            monitor(1, 0, 0, 1920, 1080),
            monitor(2, 1920, 0, 1920, 1080),
        ]);
    insert_window(&mut state, 100);
    start_workspace_switch(&mut state, 100);
    remove_window(&mut state, 100);

    let dispatched = state.apply_physical_projection(vec![placement(
        100,
        Rect::new(1800, 0, 400, 600),
        Visibility::Visible,
    )]);

    assert_eq!(dispatched[0].rect, Rect::new(1800, 0, 120, 600));
    assert_eq!(
        state.physical.last_presentations.get(&100).map(|_| ()),
        None,
        "projection remains pending until its landing is consumed"
    );
    assert_eq!(
        state.physical.pending_presentations[&100].kind,
        PhysicalKind::Constrained,
        "a tiled exit remains eligible even after source membership changes"
    );
}

#[test]
fn synthetic_exit_preserves_original_floating_exemption() {
    let mut state = state_on(vec![
            monitor(1, 0, 0, 1920, 1080),
            monitor(2, 1920, 0, 1920, 1080),
        ]);
    state.workspaces[0].list[0].floating.insert(200);
    start_workspace_switch(&mut state, 200);
    state.workspaces[0].list[0].floating.remove(&200);

    let dispatched = state.apply_physical_projection(vec![placement(
        200,
        Rect::new(1800, 0, 400, 600),
        Visibility::Visible,
    )]);

    assert_eq!(dispatched[0].rect, Rect::new(1800, 0, 400, 600));
    assert_eq!(
        state.physical.pending_presentations[&200].kind,
        PhysicalKind::Unchanged,
        "a synthetic exit must retain its source floating exemption"
    );
}

#[test]
fn synthetic_exit_preserves_original_native_and_other_exemptions() {
    let adjacent_monitors = || {
        vec![
            monitor(1, 0, 0, 1920, 1080),
            monitor(2, 1920, 0, 1920, 1080),
        ]
    };
    let exit_rect = Rect::new(1800, -1080, 400, 600);
    let boundary_rect = Rect::new(1800, 0, 400, 600);

    let mut application_fullscreen =
        state_on(adjacent_monitors());
    insert_window(&mut application_fullscreen, 300);
    application_fullscreen.application_fullscreen.insert(300);
    start_workspace_switch(&mut application_fullscreen, 300);
    application_fullscreen.application_fullscreen.remove(&300);
    remove_window(&mut application_fullscreen, 300);
    let dispatched = application_fullscreen.apply_physical_projection(vec![placement(
        300,
        boundary_rect,
        Visibility::Visible,
    )]);
    assert_eq!(
        application_fullscreen
            .layout_transition
            .as_ref()
            .unwrap()
            .exit_provenance[&300]
            .eligible,
        false
    );
    assert_eq!(
        application_fullscreen
            .layout_transition
            .as_ref()
            .unwrap()
            .exit_provenance[&300]
            .owner,
        1
    );
    assert_eq!(dispatched[0].rect, boundary_rect);
    assert_eq!(
        application_fullscreen.physical.pending_presentations[&300].kind,
        PhysicalKind::Unchanged
    );

    let mut layout_fullscreen =
        state_on(adjacent_monitors());
    insert_window(&mut layout_fullscreen, 400);
    layout_fullscreen.workspaces[0].list[0].fullscreen = Some(400);
    start_workspace_switch(&mut layout_fullscreen, 400);
    remove_window(&mut layout_fullscreen, 400);
    let dispatched = layout_fullscreen.apply_physical_projection(vec![placement(
        400,
        boundary_rect,
        Visibility::Visible,
    )]);
    assert_eq!(
        layout_fullscreen
            .layout_transition
            .as_ref()
            .unwrap()
            .exit_provenance[&400]
            .eligible,
        false
    );
    assert_eq!(
        layout_fullscreen
            .layout_transition
            .as_ref()
            .unwrap()
            .exit_provenance[&400]
            .owner,
        1
    );
    assert_eq!(dispatched[0].rect, boundary_rect);
    assert_eq!(
        layout_fullscreen.physical.pending_presentations[&400].kind,
        PhysicalKind::Unchanged
    );

    let mut dragging =
        state_on(adjacent_monitors());
    insert_window(&mut dragging, 500);
    dragging.drag_state = Some(DragState {
        hwnd: 500,
        is_tiled: true,
    });
    start_workspace_switch(&mut dragging, 500);
    dragging.drag_state = None;
    remove_window(&mut dragging, 500);
    let dispatched = dragging.apply_physical_projection(vec![placement(
        500,
        boundary_rect,
        Visibility::Visible,
    )]);
    assert_eq!(
        dragging.layout_transition.as_ref().unwrap().exit_provenance[&500].eligible,
        false
    );
    assert_eq!(
        dragging.layout_transition.as_ref().unwrap().exit_provenance[&500].owner,
        1
    );
    assert_eq!(dispatched[0].rect, boundary_rect);
    assert_eq!(
        dragging.physical.pending_presentations[&500].kind,
        PhysicalKind::Unchanged
    );

    let mut native_maximized =
        state_on(adjacent_monitors());
    insert_window(&mut native_maximized, 600);
    native_maximized.natives.insert(600, maximized());
    start_workspace_switch(&mut native_maximized, 600);
    native_maximized.natives.remove(&600);
    remove_window(&mut native_maximized, 600);
    let dispatched = native_maximized.apply_physical_projection(vec![placement(
        600,
        boundary_rect,
        Visibility::Visible,
    )]);
    let provenance = &native_maximized
        .layout_transition
        .as_ref()
        .unwrap()
        .exit_provenance[&600];
    assert_eq!(provenance.owner, 1);
    assert!(!provenance.eligible);
    assert_eq!(dispatched[0].rect, boundary_rect);
    assert_eq!(
        native_maximized.physical.pending_presentations[&600].kind,
        PhysicalKind::Unchanged
    );
}

#[test]
fn rejected_slice_uses_outer_size_for_one_full_batch_fallback() {
    let mut state = state_on(vec![
            monitor(1, 0, 0, 1920, 1080),
            monitor(2, 1920, 0, 1920, 1080),
        ]);
    insert_window(&mut state, 100);
    insert_window(&mut state, 200);
    let dispatched = state.apply_physical_projection(vec![
        placement(100, Rect::new(1800, 0, 400, 600), Visibility::Visible),
        placement(200, Rect::new(100, 0, 400, 600), Visibility::Visible),
    ]);
    let (request_id, invalidation_id) = state.physical_request_ids();
    let follow_up = state.consume_physical_landings(
        request_id,
        invalidation_id,
        &[
            PlacementLanding {
                window_id: 100,
                requested_rect: dispatched[0].rect,
                requested_visibility: Visibility::Visible,
                actual_visible_rect: Some(Rect::new(1800, 0, 400, 600)),
                actual_outer_rect: Some(Rect::new(1800, 0, 450, 650)),
                failed: false,
                unreadable: false,
            },
            PlacementLanding {
                window_id: 200,
                requested_rect: dispatched[1].rect,
                requested_visibility: Visibility::Visible,
                actual_visible_rect: Some(dispatched[1].rect),
                actual_outer_rect: Some(dispatched[1].rect),
                failed: false,
                unreadable: false,
            },
        ],
        &dispatched,
    );
    assert_eq!(follow_up.len(), 2);
    let parked = follow_up
        .iter()
        .find(|placement| placement.window_id == 100)
        .unwrap();
    assert_eq!(parked.visibility, Visibility::OffScreenRight);
    assert_eq!(parked.rect.width, 450);
    assert!(parking_clears_monitors(
        parked.rect,
        &monitor_rects(&state.monitors)
    ));
    assert_eq!(
        follow_up
            .iter()
            .find(|placement| placement.window_id == 200)
            .unwrap()
            .rect,
        dispatched[1].rect
    );
    assert!(state
        .consume_physical_landings(request_id, invalidation_id, &[], &dispatched)
        .is_empty());
}

#[test]
fn pending_presentation_precedes_last_until_consumed_and_fallback_remains_current() {
    let mut state = state_on(vec![
            monitor(1, 0, 0, 1920, 1080),
            monitor(2, 1920, 0, 1920, 1080),
        ]);
    insert_window(&mut state, 100);
    let logical = placement(100, Rect::new(1800, 0, 400, 600), Visibility::Visible);
    let first = state.apply_physical_projection(vec![logical.clone()]);
    let mut previous = state.physical.pending_presentations[&100].clone();
    previous.kind = PhysicalKind::Unchanged;
    previous.physical.rect = logical.rect;
    previous.confirmed = true;
    state.physical.last_presentations.insert(100, previous);
    assert_eq!(state.expected_physical_rect(100), Some(first[0].rect));
    assert!(!state.is_physically_parked(100));

    let (request_id, invalidation_id) = state.physical_request_ids();
    let fallback = state.consume_physical_landings(
        request_id,
        invalidation_id,
        &[PlacementLanding {
            window_id: 100,
            requested_rect: first[0].rect,
            requested_visibility: Visibility::Visible,
            actual_visible_rect: Some(logical.rect),
            actual_outer_rect: Some(Rect::new(1800, 0, 450, 650)),
            failed: false,
            unreadable: false,
        }],
        &first,
    );
    assert!(state.physical.pending_presentations.is_empty());
    state.begin_physical_follow_up(&fallback);
    assert!(state.is_physically_parked(100));
    assert_eq!(
        state.expected_physical_rect(100),
        Some(fallback[0].rect),
        "the confirmed fallback replaces the consumed pending slice"
    );
}

#[test]
fn stale_landing_consumption_preserves_a_newer_pending_presentation() {
    let mut state = state_on(vec![monitor(1, 0, 0, 1920, 1080)]);
    insert_window(&mut state, 100);
    let first = state.apply_physical_projection(vec![placement(
        100,
        Rect::new(100, 0, 400, 600),
        Visibility::Visible,
    )]);
    let (old_request, old_invalidation) = state.physical_request_ids();
    let newer = state.apply_physical_projection(vec![placement(
        100,
        Rect::new(200, 0, 400, 600),
        Visibility::Visible,
    )]);
    assert!(state
        .consume_physical_landings(old_request, old_invalidation, &[], &first)
        .is_empty());
    assert_eq!(state.expected_physical_rect(100), Some(newer[0].rect));
    assert_eq!(
        state.physical.pending_request_id,
        old_request.wrapping_add(1)
    );
}

#[test]
fn context_change_discards_rejection_but_same_context_reuses_it() {
    let mut state = state_on(vec![
            monitor(1, 0, 0, 1920, 1080),
            monitor(2, 1920, 0, 1920, 1080),
        ]);
    insert_window(&mut state, 100);
    let a = placement(100, Rect::new(1800, 0, 400, 600), Visibility::Visible);
    let rejected = state.apply_physical_projection(vec![a.clone()]);
    let (request_id, invalidation_id) = state.physical_request_ids();
    state.consume_physical_landings(
        request_id,
        invalidation_id,
        &[PlacementLanding {
            window_id: 100,
            requested_rect: rejected[0].rect,
            requested_visibility: Visibility::Visible,
            actual_visible_rect: Some(a.rect),
            actual_outer_rect: Some(Rect::new(1800, 0, 450, 650)),
            failed: false,
            unreadable: false,
        }],
        &rejected,
    );
    assert!(state.physical.observations.contains_key(&100));

    let repeat = state.apply_physical_projection(vec![a.clone()]);
    assert_eq!(
        state.physical.pending_presentations[&100].kind,
        PhysicalKind::Parked,
        "the same rejected context must avoid another constrained probe"
    );
    let (request_id, invalidation_id) = state.physical_request_ids();
    state.consume_physical_landings(
        request_id,
        invalidation_id,
        &[PlacementLanding {
            window_id: 100,
            requested_rect: repeat[0].rect,
            requested_visibility: Visibility::OffScreenRight,
            actual_visible_rect: None,
            actual_outer_rect: Some(repeat[0].rect),
            failed: false,
            unreadable: false,
        }],
        &repeat,
    );
    assert!(
        state.physical.observations.contains_key(&100),
        "parking in the unchanged context keeps the rejection observation"
    );

    state.monitors[0] = monitor(1, 0, 0, 1000, 1080);
    state.monitors[1] = monitor(2, 1000, 0, 1920, 1080);
    let parked_in_b = state.apply_physical_projection(vec![a.clone()]);
    assert_eq!(
        state.physical.pending_presentations[&100].kind,
        PhysicalKind::Parked,
        "a changed topology can park the window before another constrained probe"
    );
    assert!(
        !state.physical.observations.contains_key(&100),
        "the changed parked context discards the old rejection"
    );
    let (request_id, invalidation_id) = state.physical_request_ids();
    state.consume_physical_landings(
        request_id,
        invalidation_id,
        &[PlacementLanding {
            window_id: 100,
            requested_rect: parked_in_b[0].rect,
            requested_visibility: Visibility::OffScreenRight,
            actual_visible_rect: None,
            actual_outer_rect: Some(parked_in_b[0].rect),
            failed: false,
            unreadable: false,
        }],
        &parked_in_b,
    );

    state.monitors[0] = monitor(1, 0, 0, 1920, 1080);
    state.monitors[1] = monitor(2, 1920, 0, 1920, 1080);
    let retry_a = state.apply_physical_projection(vec![a]);
    assert_eq!(
        state.physical.pending_presentations[&100].kind,
        PhysicalKind::Constrained,
        "the original rejection must not revive after another context landed"
    );
    assert_eq!(retry_a[0].visibility, Visibility::Visible);
}

#[test]
fn empty_acknowledgement_ignores_stale_and_superseded_requests() {
    let mut state = state_on(vec![monitor(1, 0, 0, 1920, 1080)]);
    state.apply_physical_projection(Vec::new());
    let (stale_request, stale_invalidation) = state.physical_request_ids();
    let applied = state.physical.last_applied_invalidation;
    let topology = state.physical.last_topology_signature.clone();

    state.bump_physical_invalidation();
    state.acknowledge_empty_physical_state(stale_request, stale_invalidation, true);
    assert_eq!(state.physical.last_applied_invalidation, applied);
    assert_eq!(state.physical.last_topology_signature, topology);
    assert_eq!(state.physical.pending_request_id, stale_request);
    assert_eq!(state.physical.inflight_request_id, Some(stale_request));
    assert!(state.physical.inflight_origins.contains_key(&stale_request));

    state.apply_physical_projection(Vec::new());
    let (newer_request, newer_invalidation) = state.physical_request_ids();
    assert_ne!(newer_request, stale_request);
    state.acknowledge_empty_physical_state(stale_request, stale_invalidation, true);
    assert_eq!(state.physical.pending_request_id, newer_request);
    assert_eq!(state.physical.pending_invalidation_id, newer_invalidation);
    assert_eq!(state.physical.inflight_request_id, Some(newer_request));
    assert!(state.physical.inflight_origins.contains_key(&newer_request));
    assert!(!state.physical.inflight_origins.contains_key(&stale_request));
    assert_eq!(state.physical.last_applied_invalidation, applied);
    assert_eq!(state.physical.last_topology_signature, topology);
}

#[test]
fn empty_acknowledgement_is_fail_closed_without_logical_emptiness_or_prior_evidence() {
    let mut state = state_on(vec![monitor(1, 0, 0, 1920, 1080)]);
    state.apply_physical_projection(Vec::new());
    let (empty_request, empty_invalidation) = state.physical_request_ids();
    let applied = state.physical.last_applied_invalidation;
    let topology = state.physical.last_topology_signature.clone();
    state.acknowledge_empty_physical_state(empty_request, empty_invalidation, false);
    assert_eq!(state.physical.last_applied_invalidation, applied);
    assert_eq!(state.physical.last_topology_signature, topology);
    assert_eq!(state.physical.pending_request_id, empty_request);

    insert_window(&mut state, 100);
    state.apply_physical_projection(vec![placement(
        100,
        Rect::new(0, 0, 800, 1040),
        Visibility::Visible,
    )]);
    let (failed_request, failed_invalidation) = state.physical_request_ids();
    state.abandon_physical_request(failed_request, failed_invalidation);
    assert!(!state.physical.last_presentations[&100].confirmed);
    let applied = state.physical.last_applied_invalidation;
    let topology = state.physical.last_topology_signature.clone();
    state.apply_physical_projection(Vec::new());
    let (later_request, later_invalidation) = state.physical_request_ids();
    state.acknowledge_empty_physical_state(later_request, later_invalidation, true);
    assert_eq!(state.physical.last_applied_invalidation, applied);
    assert_eq!(state.physical.last_topology_signature, topology);
    assert!(!state.physical.last_presentations[&100].confirmed);
    assert_eq!(state.physical.pending_request_id, later_request);
    assert!(state.physical.inflight_origins.contains_key(&later_request));
}

fn two_monitors() -> AppState {
    let mut state = state_on(vec![
        monitor(1, 0, 0, 1920, 1080),
        monitor(2, 1920, 0, 1920, 1080),
    ]);
    insert_window(&mut state, 100);
    state
}

fn landing(id: WindowId, visible: Option<Rect>, outer: Option<Rect>) -> PlacementLanding {
    PlacementLanding {
        window_id: id,
        requested_rect: Rect::new(0, 0, 0, 0),
        requested_visibility: Visibility::Visible,
        actual_visible_rect: visible,
        actual_outer_rect: outer,
        failed: false,
        unreadable: false,
    }
}

const CROSSING: Rect = Rect {
    x: 1800,
    y: 0,
    width: 400,
    height: 600,
};

const SLICE: Rect = Rect {
    x: 1800,
    y: 0,
    width: 120,
    height: 600,
};

#[test]
fn windows_without_an_owner_pass_through() {
    let mut state = two_monitors();
    let stray = placement(999, CROSSING, Visibility::Visible);
    let batch = state.apply_physical_projection(vec![
        stray,
        placement(100, CROSSING, Visibility::Visible),
    ]);
    assert_eq!(batch[0], stray);
    assert_eq!(batch[1].rect, SLICE);
    assert!(!state.physical.pending_presentations.contains_key(&999));
    assert_eq!(state.find_window_workspace(100), Some((1, 0)));
    assert_eq!(state.find_window_workspace(999), None);
}

#[test]
fn placements_outside_the_columns_are_exempt() {
    let mut state = two_monitors();
    let mut outside = placement(100, CROSSING, Visibility::Visible);
    outside.column_index = usize::MAX;
    assert!(state.is_projection_exempt(&outside));
    assert_eq!(
        state.apply_physical_projection(vec![outside])[0].rect,
        CROSSING
    );
    assert!(state.is_projection_exempt(&placement(100, CROSSING, Visibility::OffScreenLeft)));
    assert!(!state.is_projection_exempt(&placement(100, CROSSING, Visibility::Visible)));
}

#[test]
fn a_kept_slice_is_confirmed() {
    let mut state = two_monitors();
    let batch =
        state.apply_physical_projection(vec![placement(100, CROSSING, Visibility::Visible)]);
    let (request, invalidation) = state.physical_request_ids();
    let presentation = state.current_pending_physical_presentation(100).unwrap();
    assert_eq!(
        presentation.axes,
        ConstrainedAxes {
            right: true,
            ..ConstrainedAxes::default()
        }
    );
    assert_eq!(presentation.context.scale_milli, 1000);
    assert!(!state.allows_core_size_feedback(request, 100));
    assert!(state.allows_core_size_feedback(request, 5));
    let follow_up = state.consume_physical_landings(
        request,
        invalidation,
        &[landing(100, Some(SLICE), Some(SLICE))],
        &batch,
    );
    assert!(follow_up.is_empty());
    assert!(state.physical_landing_is_safe_to_expose(100));
    assert!(state.physical_fast_path_ok());
    assert!(state.physical.observations.is_empty());
    assert!(state.allows_core_size_feedback(request, 100));
}

#[test]
fn the_last_landing_of_a_window_counts() {
    let mut state = two_monitors();
    let batch =
        state.apply_physical_projection(vec![placement(100, CROSSING, Visibility::Visible)]);
    let (request, invalidation) = state.physical_request_ids();
    let follow_up = state.consume_physical_landings(
        request,
        invalidation,
        &[
            landing(100, Some(CROSSING), Some(CROSSING)),
            landing(100, Some(SLICE), Some(SLICE)),
        ],
        &batch,
    );
    assert!(follow_up.is_empty());
    assert!(state.physical.last_presentations[&100].confirmed);
}

#[test]
fn a_rejected_slice_teaches_its_size() {
    let mut state = two_monitors();
    let batch =
        state.apply_physical_projection(vec![placement(100, CROSSING, Visibility::Visible)]);
    let (request, invalidation) = state.physical_request_ids();
    let before = state.physical.invalidation_id;
    let grown = Rect::new(1800, 0, 300, 700);
    let outer = Rect::new(1793, 0, 314, 708);
    let follow_up = state.consume_physical_landings(
        request,
        invalidation,
        &[landing(100, Some(grown), Some(outer))],
        &batch,
    );
    let seen = &state.physical.observations[&100];
    assert_eq!((seen.required_width, seen.required_height), (300, 700));
    assert_eq!(
        (seen.retained_outer_width, seen.retained_outer_height),
        (314, 708)
    );
    assert!(seen.width_affected && seen.height_affected && seen.coupled);
    assert_eq!(state.physical.invalidation_id, before + 1);
    assert_eq!(
        state.physical.last_applied_invalidation,
        state.physical.invalidation_id
    );
    assert_eq!(follow_up[0].rect, Rect::new(-100_000, -100_000, 314, 708));
    assert!(!state.physical_fast_path_ok());

    state.begin_physical_follow_up(&follow_up);
    state.complete_physical_follow_up(&[landing(100, None, Some(CROSSING))]);
    assert!(!state.physical.last_presentations[&100].confirmed);
    state.complete_physical_follow_up(&[landing(100, None, Some(follow_up[0].rect))]);
    assert!(state.physical.last_presentations[&100].confirmed);
    assert!(state.is_physically_parked(100));
    assert!(!state.physical_landing_is_safe_to_expose(100));
    assert_eq!(state.project_decoration_rect(100, CROSSING), None);

    state.clear_physical_window_state(100);
    assert!(state.physical.observations.is_empty());
    assert_eq!(state.expected_physical_rect(100), None);
    assert_eq!(state.physical.invalidation_id, before + 2);
}

#[test]
fn an_unread_failure_teaches_nothing() {
    let mut state = two_monitors();
    let batch =
        state.apply_physical_projection(vec![placement(100, CROSSING, Visibility::Visible)]);
    let (request, invalidation) = state.physical_request_ids();
    let follow_up = state.consume_physical_landings(
        request,
        invalidation,
        &[landing(100, None, Some(CROSSING))],
        &batch,
    );
    assert_eq!(follow_up.len(), 1);
    assert!(state.physical.observations.is_empty());
    assert_eq!(state.physical.invalidation_id, invalidation);
}

#[test]
fn invalidation_makes_results_stale() {
    let mut state = two_monitors();
    let batch =
        state.apply_physical_projection(vec![placement(100, CROSSING, Visibility::Visible)]);
    let (request, invalidation) = state.physical_request_ids();
    assert!(state.physical_result_is_current(request, invalidation));
    assert_eq!(state.bump_physical_invalidation(), invalidation + 1);
    assert!(state.physical_result_matches_inflight(request, invalidation));
    assert!(!state.physical_result_is_current(request, invalidation));
    let landings = [landing(100, Some(CROSSING), Some(CROSSING))];
    assert!(state
        .consume_physical_landings(request, invalidation, &landings, &batch)
        .is_empty());
    assert!(state.physical.inflight_origins.contains_key(&request));
    assert!(state.physical.last_presentations.is_empty());
    state.physical.invalidation_id = u64::MAX;
    assert_eq!(state.bump_physical_invalidation(), 0);
}

#[test]
fn an_abandoned_request_is_the_best_guess() {
    let mut state = two_monitors();
    state.apply_physical_projection(vec![placement(100, CROSSING, Visibility::Visible)]);
    let (request, invalidation) = state.physical_request_ids();
    state.abandon_physical_request(request + 1, invalidation);
    assert_eq!(state.physical_request_ids(), (request, invalidation));
    state.abandon_physical_request(request, invalidation);
    assert_eq!(state.physical_request_ids(), (0, 0));
    assert_eq!(state.expected_physical_rect(100), Some(SLICE));
    assert!(!state.physical_landing_is_safe_to_expose(100));
    assert!(!state.physical_fast_path_ok());
    assert_eq!(state.physical.inflight_request_id, None);
}

#[test]
fn an_empty_layout_is_acknowledged() {
    let mut state = two_monitors();
    state.apply_physical_projection(Vec::new());
    let (request, invalidation) = state.physical_request_ids();
    assert!(!state.physical_fast_path_ok());
    state.acknowledge_empty_physical_state(request, invalidation, true);
    assert!(state.physical_fast_path_ok());
}

#[test]
fn sweeps_meet_touching_edges_only() {
    let state = two_monitors();
    let inside = Rect::new(100, 0, 400, 600);
    assert!(state.swept_rect_meets_protected_boundary(100, inside, CROSSING));
    assert!(!state.swept_rect_meets_protected_boundary(100, inside, inside));
    assert!(!state.swept_rect_meets_protected_boundary(999, inside, CROSSING));
    assert_eq!(state.project_decoration_rect(100, CROSSING), Some(SLICE));
    assert_eq!(state.project_decoration_rect(100, inside), Some(inside));
    assert_eq!(
        state.project_decoration_rect(100, Rect::new(1920, 0, 50, 50)),
        None
    );
    assert_eq!(state.project_decoration_rect(999, inside), None);
}

#[test]
fn presentations_stay_under_their_own_window() {
    let mut state = two_monitors();
    assert!(state.physical.is_well_formed());
    let batch = vec![placement(
        100,
        Rect::new(1800, 0, 400, 600),
        Visibility::Visible,
    )];
    let dispatched = state.apply_physical_projection(batch);
    assert!(state.physical.is_well_formed());
    let (request, invalidation) = state.physical_request_ids();
    let outer = Rect::new(1800, 0, 400, 600);
    let follow_up = state.consume_physical_landings(
        request,
        invalidation,
        &[landing(100, Some(outer), Some(outer))],
        &dispatched,
    );
    assert_eq!(follow_up.len(), 1);
    assert!(state.physical.is_well_formed());
    state.begin_physical_follow_up(&follow_up);
    assert!(state.physical.is_well_formed());
    let parked = follow_up[0].rect;
    state.complete_physical_follow_up(&[landing(100, None, Some(parked))]);
    assert!(state.physical.last_presentations[&100].confirmed);
    assert!(state.physical.is_well_formed());

    let moved = state.physical.last_presentations.remove(&100).unwrap();
    state.physical.last_presentations.insert(7, moved.clone());
    assert!(!state.physical.is_well_formed());
    state.physical.last_presentations.clear();
    assert!(state.physical.is_well_formed());
    state
        .physical
        .inflight_origins
        .insert(3, HashMap::from([(7, moved)]));
    assert!(!state.physical.is_well_formed());
}
