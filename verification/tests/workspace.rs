use leopardwm::focus_reel::FocusReelState;
use leopardwm::reel_geometry::{ReelGeometry, ReelSide};
use leopardwm::reel_layout::{ReelFrame, ReelLayout};
use leopardwm::scroll::{Easing, Offset, Retarget};
use leopardwm::types::{Rect, WindowId};
use leopardwm::workspace::{Column, Workspace};
use std::collections::HashSet;

fn offset(value: f64) -> Offset {
    Offset {
        bits: value.to_bits(),
    }
}

fn value(offset: Offset) -> f64 {
    f64::from_bits(offset.bits)
}

/// The rendered offset under an ease-out curve.
fn offset_of(reel: &FocusReelState) -> f64 {
    let eased = match reel.animation() {
        Some(animation) => {
            let t = (animation.elapsed_ms as f64 / animation.duration_ms as f64).clamp(0.0, 1.0);
            let eased = 1.0 - (1.0 - t) * (1.0 - t) * (1.0 - t);
            let (start, target) = (value(animation.start), value(animation.target));
            start + (target - start) * eased
        }
        None => 0.0,
    };
    value(reel.effective_offset(offset(eased)))
}

fn step_to(reel: &FocusReelState, target: f64) -> Retarget {
    let start = offset_of(reel);
    Retarget {
        eased: offset(start),
        target: offset(target),
        close: (target - start).abs() < 0.001,
    }
}

fn tick(reel: &mut FocusReelState, delta_ms: u64) -> bool {
    let rest = value(reel.scroll_heading());
    let step = Retarget {
        eased: offset(rest),
        target: offset(rest.round()),
        close: (rest.round() - rest).abs() < 0.001,
    };
    reel.tick(delta_ms, step)
}

fn frame(reel: &FocusReelState, viewport: Rect) -> ReelFrame {
    let geometry = reel.geometry().sanitized();
    let rendered = offset_of(reel);
    let base = rendered.floor() as i64;
    let height = geometry.resolved_slot_height(viewport) as f64;
    let drops = (0..geometry.visible_slots as i64 + 3)
        .map(|k| (((base - 1 + k) as f64 - rendered) * height).round() as i32)
        .collect();
    ReelFrame {
        offset: offset(rendered),
        base,
        drops,
    }
}

fn viewport() -> Rect {
    Rect::new(0, 0, 2560, 1440)
}

fn empty_workspace() -> Workspace {
    Workspace {
        columns: Vec::new(),
        minimized_windows: HashSet::new(),
        floating: HashSet::new(),
        fullscreen: None,
        focused_column: 0,
        focused_window_in_column: 0,
        focus_reel: None,
        reduce_motion: false,
        scroll_duration_ms: 200,
        scroll_easing: Easing::default(),
        tab_sync_pending: false,
    }
}

/// A new column after the focused one, which takes focus.
fn insert_window(workspace: &mut Workspace, id: WindowId) {
    let at = if workspace.columns.is_empty() {
        0
    } else {
        workspace.focused_column + 1
    };
    workspace.columns.insert(at, Column { windows: vec![id] });
    workspace.focused_column = at;
    workspace.focused_window_in_column = 0;
    workspace.reel_note_added(id);
    workspace.reel_sync_focus_from_columns();
}

fn append_window_no_focus(workspace: &mut Workspace, id: WindowId) {
    workspace.columns.push(Column { windows: vec![id] });
    workspace.reel_note_added(id);
}

fn remove_window(workspace: &mut Workspace, id: WindowId) {
    let (column, _) = workspace.find_window_location(id).unwrap();
    workspace.columns.remove(column);
    if workspace.focused_column > column {
        workspace.focused_column -= 1;
    }
    workspace.reel_note_removed(id);
}

fn mark_minimized(workspace: &mut Workspace, id: WindowId) -> bool {
    let changed = workspace.minimized_windows.insert(id);
    workspace.reel_note_removed(id);
    changed
}

fn mark_restored(workspace: &mut Workspace, id: WindowId) -> bool {
    let changed = workspace.minimized_windows.remove(&id);
    workspace.reel_note_added(id);
    changed
}

fn reel_layout(workspace: &Workspace, viewport: Rect) -> Option<ReelLayout> {
    match workspace.focus_reel() {
        Some(reel) => workspace.reel_layout(viewport, &frame(reel, viewport)),
        None => None,
    }
}

fn seeded_workspace() -> Workspace {
    let mut workspace = empty_workspace();
    for id in [100, 200, 300, 400, 500, 600] {
        insert_window(&mut workspace, id);
    }
    workspace.enable_focus_reel(ReelGeometry::default());
    workspace
}

fn scroll_workspace_by(workspace: &mut Workspace, delta: f64) {
    let reel = workspace.focus_reel().unwrap();
    let step = step_to(reel, value(reel.scroll_heading()) + delta);
    workspace.reel_scroll_by(offset(delta), step);
}

fn settle_workspace(workspace: &mut Workspace) {
    let reel = workspace.focus_reel().unwrap();
    let step = step_to(reel, value(reel.scroll_heading()).round());
    workspace.reel_settle(step);
}

fn tick_workspace(workspace: &mut Workspace, delta_ms: u64) -> bool {
    tick(workspace.focus_reel_mut().unwrap(), delta_ms)
}

#[test]
fn reel_layout_exposes_slot_rects_for_presentation() {
    let workspace = seeded_workspace();
    let layout = reel_layout(&workspace, viewport()).expect("reel active");
    assert_eq!(layout.focus.unwrap().0, 600);
    assert_eq!(layout.slots.len(), 4);
    assert_eq!(layout.slots[0].rect, Rect::new(2048, 216, 512, 288));
    assert_eq!(layout.slots[0].window_id, 100);
    assert_eq!(layout.hidden.len(), 1);
}

#[test]
fn promote_keeps_column_focus_in_sync() {
    let mut workspace = seeded_workspace();
    let promoted = workspace.reel_promote(1).expect("promoted");
    assert_eq!(promoted, 200);
    assert_eq!(workspace.column_focused_window(), Some(200));
    assert_eq!(workspace.reel_focused_window(), Some(200));
    let (column, window) = workspace.find_window_location(200).unwrap();
    assert_eq!(workspace.focused_column, column);
    assert_eq!(workspace.focused_window_in_column, window);
}

#[test]
fn focus_navigation_routes_through_the_reel() {
    let mut workspace = seeded_workspace();
    workspace.reel_focus_next();
    assert_eq!(workspace.column_focused_window(), Some(100));
    workspace.reel_focus_prev();
    assert_eq!(workspace.column_focused_window(), Some(600));
    workspace.reel_focus_next();
    assert_eq!(workspace.column_focused_window(), Some(100));
}

#[test]
fn move_window_commands_rotate_the_reel_instead_of_columns() {
    let mut workspace = seeded_workspace();
    let before = workspace.focus_reel().unwrap().ring();
    assert!(workspace.reel_rotate_ring(1));
    let after = workspace.focus_reel().unwrap().ring();
    assert_ne!(before, after);
    assert_eq!(workspace.column_focused_window(), Some(600), "focus unchanged");
    assert!(workspace.reel_rotate_ring(-1));
    assert_eq!(
        workspace.focus_reel().unwrap().ring(),
        before,
        "left/right rotate back"
    );
}

#[test]
fn insert_and_remove_keep_ring_membership_in_sync() {
    let mut workspace = seeded_workspace();
    insert_window(&mut workspace, 700);
    let reel = workspace.focus_reel().unwrap();
    assert!(reel.contains(700));
    assert_eq!(reel.focus(), Some(700));

    remove_window(&mut workspace, 200);
    assert!(!workspace.focus_reel().unwrap().contains(200));
    assert_eq!(workspace.focus_reel().unwrap().len(), 6);
}

#[test]
fn removing_focus_promotes_the_next_reel_item() {
    let mut workspace = seeded_workspace();
    remove_window(&mut workspace, 600);
    assert_eq!(workspace.column_focused_window(), Some(100));
    assert!(!workspace.focus_reel().unwrap().contains(600));
}

#[test]
fn append_window_no_focus_does_not_steal_reel_focus() {
    let mut workspace = seeded_workspace();
    assert_eq!(workspace.column_focused_window(), Some(600));
    append_window_no_focus(&mut workspace, 700);
    assert_eq!(workspace.column_focused_window(), Some(600));
    assert!(workspace.focus_reel().unwrap().contains(700));
}

#[test]
fn minimized_windows_leave_the_ring_and_return_on_restore() {
    let mut workspace = seeded_workspace();
    assert!(mark_minimized(&mut workspace, 300));
    let reel = workspace.focus_reel().unwrap();
    assert!(!reel.contains(300));
    assert!(mark_restored(&mut workspace, 300));
    assert!(workspace.focus_reel().unwrap().contains(300));
}

#[test]
fn reel_scroll_animation_drives_workspace_animation_state() {
    let mut workspace = seeded_workspace();
    scroll_workspace_by(&mut workspace, 0.5);
    settle_workspace(&mut workspace);
    assert!(workspace.focus_reel().unwrap().is_animating());
    let mut ticks = 0;
    while tick_workspace(&mut workspace, 16) {
        ticks += 1;
        assert!(ticks < 100);
    }
    assert!(!workspace.focus_reel().unwrap().is_animating());
    assert_eq!(workspace.reel_offset(offset(0.0)).map(value), Some(1.0));
}

#[test]
fn enabling_seeds_the_reel_in_column_order() {
    let mut workspace = empty_workspace();
    for id in [10, 20, 30, 40] {
        insert_window(&mut workspace, id);
    }
    workspace.columns[1].windows.push(25);
    workspace.minimized_windows.insert(10);
    workspace.focused_column = 2;
    assert_eq!(workspace.tiled_window_ids(), vec![20, 25, 30, 40]);
    workspace.floating.insert(25);
    assert_eq!(workspace.tiled_window_ids(), vec![20, 30, 40]);
    workspace.floating.remove(&25);
    workspace.enable_focus_reel(ReelGeometry::default());
    assert!(workspace.is_focus_reel());
    assert_eq!(workspace.reel_focused_window(), Some(30));
    assert_eq!(workspace.focus_reel().unwrap().ring(), vec![40, 20, 25]);
}

#[test]
fn a_minimized_column_focus_stays_out_of_the_reel() {
    let mut workspace = empty_workspace();
    for id in [10, 20, 30] {
        insert_window(&mut workspace, id);
    }
    workspace.minimized_windows.insert(30);
    workspace.enable_focus_reel(ReelGeometry::default());
    assert_eq!(workspace.reel_focused_window(), Some(10));
    let reel = workspace.focus_reel().unwrap();
    assert_eq!(reel.ring(), vec![20]);
    assert!(!reel.contains(30));
    assert_eq!(reel.len(), workspace.tiled_window_ids().len());
}

#[test]
fn disable_restores_column_geometry() {
    let mut workspace = seeded_workspace();
    workspace.disable_focus_reel();
    assert!(!workspace.is_focus_reel());
    assert!(reel_layout(&workspace, viewport()).is_none());
    assert_eq!(workspace.columns.len(), 6);
    assert_eq!(
        workspace.tiled_window_ids(),
        vec![100, 200, 300, 400, 500, 600]
    );
}

#[test]
fn turning_the_reel_a_whole_lap_is_no_move() {
    let mut workspace = seeded_workspace();
    let before = workspace.focus_reel().unwrap().ring();
    assert!(!workspace.reel_rotate_ring(5));
    assert!(!workspace.reel_rotate_ring(-10));
    assert!(!workspace.reel_rotate_ring(0));
    assert_eq!(workspace.focus_reel().unwrap().ring(), before);
}

#[test]
fn a_workspace_without_a_reel_ignores_reel_commands() {
    let mut workspace = empty_workspace();
    insert_window(&mut workspace, 10);
    assert_eq!(workspace.reel_promote(0), None);
    assert_eq!(workspace.reel_focus_next(), None);
    assert_eq!(workspace.reel_focus_prev(), None);
    assert!(!workspace.reel_focus_window(10));
    assert!(!workspace.reel_can_scroll());
    assert_eq!(workspace.reel_flip_side(), None);
    assert!(!workspace.reel_move_in_ring(10, 1));
    assert!(!workspace.reel_rotate_ring(1));
    assert!(workspace.reel_offset(Offset::zero()).is_none());
    assert!(reel_layout(&workspace, viewport()).is_none());
    assert!(workspace.focus_reel_mut().is_none());
    assert_eq!(workspace.reel_focused_window(), None);
    assert!(!workspace.tab_sync_pending);
}

#[test]
fn focusing_a_member_moves_the_column_focus() {
    let mut workspace = seeded_workspace();
    assert!(workspace.reel_focus_window(300));
    assert_eq!(workspace.column_focused_window(), Some(300));
    assert!(workspace.tab_sync_pending);
    assert!(!workspace.reel_focus_window(300));
    assert!(!workspace.reel_focus_window(999));
}

#[test]
fn reel_settings_reach_the_reel() {
    let mut workspace = seeded_workspace();
    workspace.reel_set_side(ReelSide::Left);
    assert_eq!(workspace.focus_reel().unwrap().side(), ReelSide::Left);
    assert_eq!(workspace.reel_flip_side(), Some(ReelSide::Right));
    workspace.set_reel_geometry(ReelGeometry {
        visible_slots: 2,
        ..ReelGeometry::default()
    });
    assert!(workspace.reel_can_scroll());
    assert!(workspace.reel_move_in_ring(100, 1));
    assert_eq!(
        workspace.focus_reel().unwrap().ring(),
        vec![200, 100, 300, 400, 500]
    );
    let reel = workspace.focus_reel().unwrap();
    let hit = workspace.reel_hit_test(viewport(), 2300, 400, &frame(reel, viewport()));
    assert_eq!(hit, Some((0, 200)));
    workspace.disable_focus_reel();
    assert!(!workspace.is_focus_reel());
}

#[test]
fn minimized_windows_are_not_added() {
    let mut workspace = seeded_workspace();
    workspace.minimized_windows.insert(900);
    workspace.reel_note_added(900);
    assert!(!workspace.focus_reel().unwrap().contains(900));
}

#[test]
fn floating_and_fullscreen_windows_are_known() {
    let mut workspace = empty_workspace();
    workspace.floating.insert(5);
    assert!(workspace.is_floating(5) && !workspace.is_floating(6));
    assert!(!workspace.is_fullscreen());
    workspace.fullscreen = Some(7);
    assert!(workspace.is_fullscreen());
    assert_eq!(workspace.fullscreen_window_id(), Some(7));
}
