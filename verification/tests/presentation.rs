use leopardwm::app_state::{AppState, LayoutModeConfig, MonitorWorkspaces};
use leopardwm::focus_reel::FocusReelState;
use leopardwm::physical_state::PhysicalState;
use leopardwm::presentation::{
    plan_reel_presentation, presentation_rects, tween_origin, ReelPresentationPlan, ReelSlotPlan,
    ReelTransition,
};
use leopardwm::reel_geometry::{ReelGeometry, ReelSide};
use leopardwm::reel_layout::ReelFrame;
use leopardwm::reel_pass::{ReelPass, ThumbnailUpdate};
use leopardwm::scroll::{Easing, Offset, Retarget};
use leopardwm::types::{MonitorInfo, Rect, Visibility, WindowId, WindowPlacement};
use leopardwm::workspace::{Column, Workspace};
use std::collections::{HashMap, HashSet};

/// One detent of a classic mouse wheel.
const WHEEL_DELTA: f64 = 120.0;

fn offset(value: f64) -> Offset {
    Offset {
        bits: value.to_bits(),
    }
}

fn value(offset: Offset) -> f64 {
    f64::from_bits(offset.bits)
}

/// The rendered offset under an ease-out curve.
fn offset_of(reel: &FocusReelState) -> f64 {
    let eased = match reel.animation() {
        Some(animation) => {
            let t = (animation.elapsed_ms as f64 / animation.duration_ms as f64).clamp(0.0, 1.0);
            let eased = 1.0 - (1.0 - t) * (1.0 - t) * (1.0 - t);
            let (start, target) = (value(animation.start), value(animation.target));
            start + (target - start) * eased
        }
        None => 0.0,
    };
    value(reel.effective_offset(offset(eased)))
}

fn step_to(reel: &FocusReelState, target: f64) -> Retarget {
    let start = offset_of(reel);
    Retarget {
        eased: offset(start),
        target: offset(target),
        close: (target - start).abs() < 0.001,
    }
}

fn scroll_by(reel: &mut FocusReelState, delta: f64) {
    let step = step_to(reel, value(reel.scroll_heading()) + delta);
    reel.scroll_by(offset(delta), step);
}

fn tick(reel: &mut FocusReelState, delta_ms: u64) -> bool {
    let rest = value(reel.scroll_heading());
    let step = Retarget {
        eased: offset(rest),
        target: offset(rest.round()),
        close: (rest.round() - rest).abs() < 0.001,
    };
    reel.tick(delta_ms, step)
}

fn frame(reel: &FocusReelState, viewport: Rect) -> ReelFrame {
    let geometry = reel.geometry().sanitized();
    let rendered = offset_of(reel);
    let base = rendered.floor() as i64;
    let height = geometry.resolved_slot_height(viewport) as f64;
    let drops = (0..geometry.visible_slots as i64 + 3)
        .map(|k| (((base - 1 + k) as f64 - rendered) * height).round() as i32)
        .collect();
    ReelFrame {
        offset: offset(rendered),
        base,
        drops,
    }
}

fn empty_workspace() -> Workspace {
    Workspace {
        columns: Vec::new(),
        minimized_windows: HashSet::new(),
        floating: HashSet::new(),
        fullscreen: None,
        focused_column: 0,
        focused_window_in_column: 0,
        focus_reel: None,
        reduce_motion: false,
        scroll_duration_ms: 200,
        scroll_easing: Easing::default(),
        tab_sync_pending: false,
    }
}

/// A new column after the focused one, which takes focus.
fn insert_window(workspace: &mut Workspace, id: WindowId) {
    let at = if workspace.columns.is_empty() {
        0
    } else {
        workspace.focused_column + 1
    };
    workspace.columns.insert(at, Column { windows: vec![id] });
    workspace.focused_column = at;
    workspace.focused_window_in_column = 0;
    workspace.reel_note_added(id);
    workspace.reel_sync_focus_from_columns();
}

fn test_monitors() -> Vec<MonitorInfo> {
    vec![MonitorInfo {
        id: 1,
        rect: Rect::new(0, 0, 2560, 1440),
        viewport: Rect::new(0, 0, 2560, 1440),
        scale_milli: 1000,
    }]
}

/// Flush to the work area, mirrored with every promotion.
fn reel_geometry() -> ReelGeometry {
    ReelGeometry {
        main_height: 0,
        top_inset: 0,
        bottom_inset: 0,
        flip_side_on_promote: true,
        ..ReelGeometry::default()
    }
}

fn state_in(mode: LayoutModeConfig) -> AppState {
    let mut workspace = empty_workspace();
    if mode == LayoutModeConfig::Serval {
        workspace.enable_focus_reel(reel_geometry());
    }
    AppState {
        focused_monitor: 1,
        monitors: test_monitors(),
        workspaces: vec![MonitorWorkspaces {
            monitor_id: 1,
            active: 0,
            list: vec![workspace],
        }],
        mode,
        layout_duration_ms: 200,
        easing: Easing::default(),
        reduce_motion: false,
        paused: false,
        reel_transition: None,
        reel_thumbnails: HashSet::new(),
        reel_last_squared_focus: None,
        natives: HashMap::new(),
        application_fullscreen: HashSet::new(),
        drag_state: None,
        layout_transition: None,
        park_sentinel: -100_000,
        physical: PhysicalState::new(),
    }
}

fn reel_state() -> AppState {
    let mut state = state_in(LayoutModeConfig::Serval);
    let workspace = &mut state.workspaces[0].list[0];
    for id in [100, 200, 300, 400, 500, 600] {
        insert_window(workspace, id);
    }
    // Seeding promotes each new window, which alternates the reel side
    // under flip-on-promote; normalize for geometry asserts.
    workspace.reel_set_side(ReelSide::Right);
    state
}

fn frames(state: &AppState) -> Vec<ReelFrame> {
    state
        .monitors
        .iter()
        .map(|monitor| {
            let reel = state
                .active_workspace(monitor.id)
                .and_then(|(at, index)| state.workspaces[at].list[index].focus_reel());
            match reel {
                Some(reel) => frame(reel, monitor.viewport),
                None => ReelFrame {
                    offset: Offset::zero(),
                    base: 0,
                    drops: Vec::new(),
                },
            }
        })
        .collect()
}

fn plan(state: &AppState) -> ReelPresentationPlan {
    plan_reel_presentation(state, &frames(state))
}

fn wheel(state: &mut AppState, delta: i32, x: i32, y: i32) -> bool {
    // Wheel-up shows earlier content: positive turns advance.
    let turn = -(delta as f64) / WHEEL_DELTA;
    let step = match state.workspaces[0].list[0].focus_reel() {
        Some(reel) => step_to(reel, value(reel.scroll_heading()) + turn),
        None => Retarget {
            eased: Offset::zero(),
            target: Offset::zero(),
            close: true,
        },
    };
    let frames = frames(state);
    state.handle_reel_wheel(offset(turn), step, x, y, &frames)
}

fn click(state: &mut AppState, x: i32, y: i32) -> bool {
    let frames = frames(state);
    state.handle_reel_click(x, y, &frames)
}

fn is_animating(state: &AppState) -> bool {
    let reel = state.workspaces[0].list[0].focus_reel();
    state.reel_transition.is_some() || reel.is_some_and(|reel| reel.is_animating())
}

fn tick_animations(state: &mut AppState, delta_ms: u64) {
    if let Some(reel) = state.workspaces[0].list[0].focus_reel_mut() {
        tick(reel, delta_ms);
    }
    let ended = match state.reel_transition.as_mut() {
        Some(transition) => !transition.tick(delta_ms),
        None => false,
    };
    if ended {
        state.reel_transition = None;
    }
}

#[test]
fn plan_lists_visible_slots_and_click_region() {
    let state = reel_state();
    let plan = plan(&state);
    assert_eq!(plan.focus, Some((600, Rect::new(0, 0, 2048, 1440))));
    // 1440 / 4 = 360: the four visible slots tile the reel column exactly.
    assert_eq!(plan.slots.len(), 4);
    // Each inserted window took focus, so the most recent demotions sit
    // at the top of the reel: focus 600, ring [500, 400, 300, 200, 100].
    assert_eq!(plan.slots[0].window_id, 500);
    assert_eq!(plan.slots[0].rect, Rect::new(2048, 0, 512, 360));
    assert_eq!(plan.hidden, vec![100]);
    let region = plan.click_region.expect("focused monitor region");
    assert_eq!(region, Rect::new(2048, 0, 512, 1440));
}

#[test]
fn wheel_over_the_reel_animates_the_offset() {
    let mut state = reel_state();
    // Wheel down (negative OS delta) advances toward later items.
    assert!(wheel(&mut state, -120, 2300, 400));
    // The offset eases toward the target instead of jumping.
    let mut guard = 0;
    while is_animating(&state) && guard < 500 {
        tick_animations(&mut state, 16);
        guard += 1;
    }
    let offset = state.workspaces[0].list[0]
        .focus_reel()
        .map(offset_of);
    assert!((offset.unwrap() - 1.0).abs() < 1e-9);

    // Wheel up returns toward the first item.
    assert!(wheel(&mut state, 120, 2300, 400));
    let mut guard = 0;
    while is_animating(&state) && guard < 500 {
        tick_animations(&mut state, 16);
        guard += 1;
    }
    let offset = state.workspaces[0].list[0]
        .focus_reel()
        .map(offset_of);
    assert!(offset.unwrap().abs() < 1e-9);
}

#[test]
fn wheel_over_the_focus_window_is_ignored() {
    let mut state = reel_state();
    assert!(!wheel(&mut state, -120, 1000, 400));
}

#[test]
fn wheel_outside_focus_reel_mode_is_ignored() {
    let mut state = state_in(LayoutModeConfig::Scroll);
    let workspace = &mut state.workspaces[0].list[0];
    for id in [100, 200, 300, 400, 500, 600] {
        insert_window(workspace, id);
    }
    assert!(!wheel(&mut state, -120, 2300, 400));
}

#[test]
fn click_on_a_slot_promotes_that_window() {
    let mut state = reel_state();
    // Second slot starts at 360 (fill mode: 1440 / 4).
    assert!(click(&mut state, 2300, 360 + 10));
    let focused = state.workspaces[0].list[0].column_focused_window();
    assert_eq!(focused, Some(400));
}

#[test]
fn click_on_the_focus_window_is_ignored() {
    let mut state = reel_state();
    assert!(!click(&mut state, 1000, 400));
}

#[test]
fn wheel_does_not_scroll_a_reel_that_fits() {
    let mut state = state_in(LayoutModeConfig::Serval);
    let workspace = &mut state.workspaces[0].list[0];
    insert_window(workspace, 100);
    insert_window(workspace, 200);
    workspace.reel_set_side(ReelSide::Right);
    // Focus 200 + one small window: the reel fits, so the wheel is ignored.
    assert!(!wheel(&mut state, 120, 2300, 100));
    assert_eq!(
        state.workspaces[0].list[0].focus_reel().map(offset_of),
        Some(0.0),
        "offset stays at the top"
    );
}

#[test]
fn click_below_the_last_slot_is_ignored() {
    let mut state = state_in(LayoutModeConfig::Serval);
    let workspace = &mut state.workspaces[0].list[0];
    insert_window(workspace, 100);
    insert_window(workspace, 200);
    workspace.reel_set_side(ReelSide::Right);
    // Focus 200 + one reel item (100) => a single slot at the top.
    let plan = plan(&state);
    assert_eq!(plan.click_region, Some(Rect::new(2048, 0, 512, 360)));
    assert!(
        !click(&mut state, 2300, 600),
        "blank space under the reel column must not wrap around the ring"
    );
    assert!(click(&mut state, 2300, 300));
}

#[test]
fn promoting_a_right_reel_item_mirrors_the_layout() {
    let mut state = reel_state();
    let before = plan(&state);
    assert_eq!(before.slots[0].rect.x, 2048, "reel starts on the right");
    assert_eq!(before.focus.unwrap().1.x, 0, "main starts on the left");

    // Promote the second slot of the right-hand reel.
    assert!(click(&mut state, 2300, 360 + 10));

    let after = plan(&state);
    let (promoted, main) = after.focus.expect("focus window");
    assert_eq!(promoted, 400, "clicked slot became the focus");
    assert_eq!(main.x, 512, "promoted window grew into the right-hand main");
    assert_eq!(main.width, 2048);
    assert_eq!(after.slots[0].rect.x, 0, "reel mirrored to the left");
    let side = state.workspaces[0].list[0]
        .focus_reel()
        .map(|reel| reel.side());
    assert_eq!(side, Some(ReelSide::Left));

    // The next promotion flips back to the original orientation.
    assert!(click(&mut state, 100, 288 + 10));
    let back = plan(&state);
    assert_eq!(back.slots[0].rect.x, 2048);
    assert_eq!(back.focus.unwrap().1.x, 0);
}

#[test]
fn promotion_tween_suppresses_the_live_focus_move() {
    let mut state = reel_state();
    assert!(click(&mut state, 2300, 360 + 10));
    assert_eq!(
        state
            .reel_transition
            .as_ref()
            .and_then(|transition| transition.focus_window),
        Some(400),
        "the promoted window is the one whose live move is deferred"
    );

    let mut placements = vec![
        WindowPlacement {
            window_id: 400,
            rect: Rect::new(512, 0, 2048, 1440),
            visibility: Visibility::Visible,
            column_index: 0,
        },
        WindowPlacement {
            window_id: 600,
            rect: Rect::new(-2560, 0, 2048, 1440),
            visibility: Visibility::OffScreenLeft,
            column_index: 0,
        },
    ];
    state.suppress_reel_transition_focus(&mut placements);
    assert!(
        placements
            .iter()
            .all(|placement| placement.window_id != 400),
        "the live focus placement is held back during the tween"
    );
    assert_eq!(placements.len(), 1);
}

#[test]
fn monitor_at_point_resolves_the_focused_display() {
    let state = reel_state();
    assert_eq!(state.monitor_at_point(100, 100), Some(1));
    assert_eq!(state.monitor_at_point(-10, 100), None);
}

#[test]
fn click_starts_a_promotion_tween() {
    let mut state = reel_state();
    assert!(click(&mut state, 2300, 360 + 10));
    assert!(
        state.reel_transition.is_some(),
        "promotion arms the thumbnail tween"
    );
}

#[test]
fn promotion_tween_clears_after_its_duration() {
    let mut state = reel_state();
    assert!(click(&mut state, 2300, 360 + 10));
    let mut ticks = 0;
    while state.reel_transition.is_some() {
        tick_animations(&mut state, 50);
        ticks += 1;
        assert!(ticks < 100, "tween must terminate");
    }
    assert!(!is_animating(&state));
}

#[test]
fn reduce_motion_skips_the_promotion_tween() {
    let mut state = reel_state();
    state.reduce_motion = true;
    assert!(click(&mut state, 2300, 360 + 10));
    assert!(state.reel_transition.is_none());
}

/// Drive a pass to its end; windows in `broken` fail to register.
fn run_pass(
    state: &mut AppState,
    pass: &mut ReelPass,
    broken: &[WindowId],
) -> (Vec<WindowId>, Vec<ThumbnailUpdate>) {
    let mut registered = Vec::new();
    let mut updates = Vec::new();
    while !pass.is_over() {
        let registers = match state.next_thumbnail_registration(pass) {
            Some(id) => {
                let works = !broken.contains(&id);
                if works {
                    registered.push(id);
                }
                works
            }
            None => true,
        };
        if let Some(update) = state.next_thumbnail_update(pass, registers) {
            updates.push(update);
        }
    }
    (registered, updates)
}

#[test]
fn a_pass_registers_the_slots_and_shows_them() {
    let mut state = reel_state();
    let frames = frames(&state);
    let mut pass = state.sync_reel_presentation(&frames);
    assert!(pass.input_enabled && !pass.restore_corners);
    assert_eq!(pass.square, Some(600));
    assert_eq!(pass.overlay, None);
    assert_eq!(pass.region(), Some(Rect::new(2048, 0, 512, 1440)));
    let (registered, updates) = run_pass(&mut state, &mut pass, &[]);
    assert_eq!(registered, vec![500, 400, 300, 200]);
    assert_eq!(updates.len(), 4, "the hidden window was never registered");
    assert_eq!(
        updates[0],
        ThumbnailUpdate {
            window_id: 500,
            from: None,
            target: Rect::new(2048, 0, 512, 360),
            clip: None,
            visible: true,
        }
    );
    assert_eq!(state.reel_thumbnails, HashSet::from([500, 400, 300, 200]));

    let mut again = state.sync_reel_presentation(&frames);
    assert_eq!(again.square, None, "corners are squared once");
    let (registered, updates) = run_pass(&mut state, &mut again, &[]);
    assert!(registered.is_empty());
    assert_eq!(updates.len(), 4);
}

#[test]
fn a_window_that_does_not_register_is_passed_over() {
    let mut state = reel_state();
    let frames = frames(&state);
    let mut pass = state.sync_reel_presentation(&frames);
    let (_, updates) = run_pass(&mut state, &mut pass, &[400]);
    let shown: Vec<WindowId> = updates.iter().map(|update| update.window_id).collect();
    assert_eq!(shown, vec![500, 300, 200]);
    assert!(!state.reel_thumbnails.contains(&400));
}

#[test]
fn a_promotion_grows_an_overlay_and_hides_what_scrolled_out() {
    let mut state = reel_state();
    let first = frames(&state);
    let mut pass = state.sync_reel_presentation(&first);
    run_pass(&mut state, &mut pass, &[]);
    assert!(click(&mut state, 2300, 360 + 10));
    let second = frames(&state);
    let mut pass = state.sync_reel_presentation(&second);
    let main = Rect::new(512, 0, 2048, 1440);
    assert_eq!(pass.overlay, Some((400, main)));
    assert_eq!(pass.square, Some(400));
    let (registered, updates) = run_pass(&mut state, &mut pass, &[]);
    // The ring is now [300, 200, 100, 600, 500].
    assert_eq!(registered, vec![100, 600]);
    assert_eq!(updates.len(), 6);
    assert_eq!(
        updates[0].from,
        Some(Rect::new(2048, 720, 512, 360)),
        "slots slide from where they were"
    );
    assert_eq!(
        updates[2].from, None,
        "a window that was not shown has no place to come from"
    );
    assert_eq!(
        updates[4],
        ThumbnailUpdate {
            window_id: 400,
            from: Some(Rect::new(2048, 360, 512, 360)),
            target: main,
            clip: None,
            visible: true,
        }
    );
    assert_eq!(
        updates[5],
        ThumbnailUpdate {
            window_id: 500,
            from: None,
            target: Rect::new(0, 0, 0, 0),
            clip: None,
            visible: false,
        }
    );
    state.reel_transition = None;
    let mut settled = state.sync_reel_presentation(&second);
    assert_eq!(settled.overlay, None);
    assert!(!state.reel_thumbnails.contains(&400), "the focus is live again");
    run_pass(&mut state, &mut settled, &[]);
}

#[test]
fn partially_scrolled_slots_are_clipped() {
    let mut state = reel_state();
    let reel = state.workspaces[0].list[0].focus_reel_mut().unwrap();
    reel.set_reduce_motion(true);
    scroll_by(reel, 0.5);
    let frames = frames(&state);
    let mut pass = state.sync_reel_presentation(&frames);
    let (_, updates) = run_pass(&mut state, &mut pass, &[]);
    assert_eq!(updates.len(), 5);
    assert_eq!(updates[0].target, Rect::new(2048, -180, 512, 360));
    assert_eq!(updates[0].clip, Some(Rect::new(2048, 0, 512, 1440)));
    assert_eq!(updates[1].clip, None);
}

#[test]
fn leaving_the_mode_clears_the_presentation() {
    let mut state = reel_state();
    let frames = frames(&state);
    let mut pass = state.sync_reel_presentation(&frames);
    run_pass(&mut state, &mut pass, &[]);
    state.mode = LayoutModeConfig::Scroll;
    let pass = state.sync_reel_presentation(&frames);
    assert!(pass.is_over() && pass.restore_corners && !pass.input_enabled);
    assert_eq!(pass.region(), None);
    assert!(state.reel_thumbnails.is_empty());
    assert_eq!(state.reel_last_squared_focus, None);
}

#[test]
fn pausing_releases_the_input_only() {
    let mut state = reel_state();
    state.paused = true;
    let frames = frames(&state);
    let pass = state.sync_reel_presentation(&frames);
    assert!(!pass.input_enabled && !pass.restore_corners);
    assert_eq!(pass.plan.slots.len(), 4);
}

#[test]
fn a_fullscreen_window_hides_the_reel() {
    let mut state = reel_state();
    state.workspaces[0].list[0].fullscreen = Some(600);
    let plan = plan(&state);
    assert_eq!(plan, ReelPresentationPlan::default());
    assert!(!click(&mut state, 2300, 370));
    assert!(!wheel(&mut state, -120, 2300, 370));
}

#[test]
fn a_wheel_turn_that_goes_nowhere_is_not_taken() {
    let mut state = reel_state();
    state.focused_monitor = 9;
    assert!(!wheel(&mut state, 0, 2300, 400));
    let reel = state.workspaces[0].list[0].focus_reel().unwrap();
    assert_eq!(offset_of(reel), 0.0);
    assert!(!reel.is_animating());
    assert_eq!(state.focused_monitor, 9);

    let frames = frames(&state);
    let nowhere = Retarget {
        eased: Offset::zero(),
        target: offset(f64::INFINITY),
        close: false,
    };
    for (turn, target) in [
        (f64::NAN, 1.0),
        (f64::INFINITY, 1.0),
        (f64::MAX, f64::INFINITY),
    ] {
        let step = Retarget {
            target: offset(target),
            ..nowhere
        };
        assert!(!state.handle_reel_wheel(offset(turn), step, 2300, 400, &frames));
    }
    assert_eq!(state.focused_monitor, 9);
    assert!(wheel(&mut state, -120, 2300, 400));
    assert_eq!(state.focused_monitor, 1, "a real turn brings the focus along");
}

#[test]
fn no_frame_is_needed_where_no_reel_is_shown() {
    let mut state = reel_state();
    let none: Vec<ReelFrame> = Vec::new();
    let step = Retarget {
        eased: Offset::zero(),
        target: offset(1.0),
        close: false,
    };
    assert!(!state.handle_reel_wheel(offset(1.0), step, -10, 400, &none));
    assert!(!state.handle_reel_click(-10, 400, &none));
    state.mode = LayoutModeConfig::Scroll;
    assert!(!state.handle_reel_wheel(offset(1.0), step, 2300, 400, &none));
    assert!(!state.handle_reel_click(2300, 400, &none));
    assert!(state.sync_reel_presentation(&none).is_over());
}

#[test]
fn only_the_focused_monitor_intercepts_input() {
    let mut state = reel_state();
    state.focused_monitor = 9;
    let plan = plan(&state);
    assert_eq!(plan.click_region, None);
    assert_eq!(plan.slots.len(), 4);
    assert!(click(&mut state, 2300, 370));
    assert_eq!(state.focused_monitor, 1, "a click brings the focus along");
}

#[test]
fn input_leaves_identities_and_other_monitors_alone() {
    let mut state = reel_state();
    let mut other = state.monitors[0];
    other.id = 2;
    other.rect = Rect::new(2560, 0, 2560, 1440);
    other.viewport = other.rect;
    state.monitors.push(other);
    state.workspaces.push(MonitorWorkspaces {
        monitor_id: 2,
        active: 0,
        list: vec![empty_workspace()],
    });
    assert!(wheel(&mut state, -120, 2300, 400));
    assert!(click(&mut state, 2300, 370));
    let monitors: Vec<_> = state.monitors.iter().map(|monitor| monitor.id).collect();
    let owners: Vec<_> = state.workspaces.iter().map(|list| list.monitor_id).collect();
    assert_eq!((monitors, owners), (vec![1, 2], vec![1, 2]));
    assert_eq!(state.active_workspace(2), Some((1, 0)));
    assert!(state.workspaces[1].list[0].columns.is_empty());
}

#[test]
fn tweens_start_where_windows_were() {
    let here = Rect::new(0, 0, 10, 10);
    let there = Rect::new(50, 0, 10, 10);
    let transition = Some(ReelTransition {
        elapsed_ms: 0,
        duration_ms: 100,
        easing: Easing::default(),
        from_rects: HashMap::from([(1, here)]),
        focus_window: None,
    });
    assert_eq!(tween_origin(&transition, 1, there), Some(here));
    assert_eq!(tween_origin(&transition, 1, here), None);
    assert_eq!(tween_origin(&transition, 2, there), None);
    assert_eq!(tween_origin(&None, 1, there), None);
    let mut transition = transition.unwrap();
    assert!(transition.tick(99));
    assert!(!transition.tick(1));
    assert!(!transition.tick(u64::MAX));
    assert_eq!(transition.elapsed_ms, u64::MAX);
}

#[test]
fn snapshots_hold_focus_and_slots() {
    let slot = ReelSlotPlan {
        window_id: 2,
        rect: Rect::new(5, 5, 5, 5),
        clip: Rect::new(0, 0, 9, 9),
        fully_visible: true,
    };
    let plan = ReelPresentationPlan {
        focus: Some((1, Rect::new(1, 1, 1, 1))),
        slots: vec![slot],
        hidden: vec![3],
        click_region: None,
    };
    let rects = presentation_rects(&plan);
    assert_eq!(rects.len(), 2);
    assert_eq!(rects[&1], Rect::new(1, 1, 1, 1));
    assert_eq!(rects[&2], slot.rect);
}

#[test]
fn an_empty_snapshot_starts_no_tween() {
    let mut state = reel_state();
    state.begin_reel_transition(HashMap::new(), Some(1));
    assert!(state.reel_transition.is_none());
    state.layout_duration_ms = 0;
    let rect = Rect::new(0, 0, 1, 1);
    state.begin_reel_transition(HashMap::from([(1, rect)]), Some(1));
    assert!(state.reel_transition.is_none());
}
