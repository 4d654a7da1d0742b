use leopardwm::focus_reel::{FocusReelState, REEL_SETTLE_DELAY_MS};
use leopardwm::reel_geometry::{ReelGeometry, ReelSide};
use leopardwm::reel_layout::{ReelFrame, ReelLayout};
use leopardwm::scroll::{Offset, Retarget, DEFAULT_ANIMATION_DURATION_MS};
use leopardwm::types::{Rect, WindowId};

fn offset(value: f64) -> Offset {
    Offset {
        bits: value.to_bits(),
    }
}

fn value(offset: Offset) -> f64 {
    f64::from_bits(offset.bits)
}

/// The rendered offset under an ease-out curve.
fn offset_of(reel: &FocusReelState) -> f64 {
    let eased = match reel.animation() {
        Some(animation) => {
            let t = (animation.elapsed_ms as f64 / animation.duration_ms as f64).clamp(0.0, 1.0);
            let eased = 1.0 - (1.0 - t) * (1.0 - t) * (1.0 - t);
            let (start, target) = (value(animation.start), value(animation.target));
            start + (target - start) * eased
        }
        None => 0.0,
    };
    value(reel.effective_offset(offset(eased)))
}

fn step_to(reel: &FocusReelState, target: f64) -> Retarget {
    let start = offset_of(reel);
    Retarget {
        eased: offset(start),
        target: offset(target),
        close: (target - start).abs() < 0.001,
    }
}

fn scroll_by(reel: &mut FocusReelState, delta: f64) {
    let step = step_to(reel, value(reel.scroll_heading()) + delta);
    reel.scroll_by(offset(delta), step);
}

fn settle(reel: &mut FocusReelState) {
    let step = step_to(reel, value(reel.scroll_heading()).round());
    reel.settle(step);
}

fn tick(reel: &mut FocusReelState, delta_ms: u64) -> bool {
    let rest = value(reel.scroll_heading());
    let step = Retarget {
        eased: offset(rest),
        target: offset(rest.round()),
        close: (rest.round() - rest).abs() < 0.001,
    };
    reel.tick(delta_ms, step)
}

fn scroll_to_window(reel: &mut FocusReelState, window_id: WindowId, slot: usize) -> bool {
    let target = match reel.scroll_target(window_id, slot) {
        Some(target) => target as f64,
        None => 0.0,
    };
    let step = step_to(reel, target);
    reel.scroll_to_window(window_id, step)
}

fn settled_offset(reel: &FocusReelState) -> i64 {
    value(reel.reel_offset()).round() as i64
}

fn frame(reel: &FocusReelState, viewport: Rect) -> ReelFrame {
    let geometry = reel.geometry().sanitized();
    let rendered = offset_of(reel);
    let base = rendered.floor() as i64;
    let height = geometry.resolved_slot_height(viewport) as f64;
    let drops = (0..geometry.visible_slots as i64 + 3)
        .map(|k| (((base - 1 + k) as f64 - rendered) * height).round() as i32)
        .collect();
    ReelFrame {
        offset: offset(rendered),
        base,
        drops,
    }
}

fn layout_of(reel: &FocusReelState, viewport: Rect) -> ReelLayout {
    reel.layout(viewport, &frame(reel, viewport))
}

fn hit_test(reel: &FocusReelState, viewport: Rect, x: i32, y: i32) -> Option<(i64, WindowId)> {
    reel.hit_test(viewport, x, y, &frame(reel, viewport))
}

fn viewport() -> Rect {
    Rect::new(0, 0, 2560, 1440)
}

fn reel_with(ids: &[WindowId]) -> FocusReelState {
    let mut reel = FocusReelState::new();
    for &id in ids {
        reel.push_back(id);
    }
    reel
}

/// Tick through the default 200ms scroll tween without waiting out the
/// idle settle timer.
fn run_scroll_tween(reel: &mut FocusReelState) {
    let frames = DEFAULT_ANIMATION_DURATION_MS / 16 + 2;
    for _ in 0..frames {
        tick(reel, 16);
    }
}

#[test]
fn reel_with_at_most_visible_slots_does_not_scroll() {
    // Focus + 4 ring members = 4 small windows: fits the 4 visible slots.
    let mut reel = reel_with(&[1, 2, 3, 4, 5]);
    assert!(!reel.can_scroll());
    scroll_by(&mut reel, 1.0);
    assert_eq!(offset_of(&reel), 0.0, "wheel is ignored");
    scroll_by(&mut reel, -3.0);
    assert_eq!(offset_of(&reel), 0.0);
    assert!(!reel.is_animating());
}

#[test]
fn reel_with_more_than_visible_slots_scrolls() {
    // Focus + 5 ring members = 5 small windows: scrolling is useful again.
    let mut reel = reel_with(&[1, 2, 3, 4, 5, 6]);
    assert!(reel.can_scroll());
    scroll_by(&mut reel, 1.0);
    assert!(reel.is_animating(), "wheel tick animates the offset");
    while reel.is_animating() {
        tick(&mut reel, 16);
    }
    assert_eq!(value(reel.reel_offset()), 1.0);
}

#[test]
fn removing_down_to_the_visible_slot_count_resets_the_offset() {
    let mut reel = reel_with(&[1, 2, 3, 4, 5, 6]);
    reel.set_reduce_motion(true);
    scroll_by(&mut reel, 2.0);
    assert_eq!(offset_of(&reel), 2.0);
    reel.remove(6); // 4 ring members left: nothing to scroll
    assert!(!reel.can_scroll());
    assert_eq!(value(reel.reel_offset()), 0.0);
    assert!(!reel.is_animating());
}

#[test]
fn sync_membership_resets_offset_when_the_reel_fits() {
    let mut reel = reel_with(&[1, 2, 3, 4, 5, 6]);
    scroll_by(&mut reel, 1.0);
    reel.sync_membership(&[1, 2, 3, 4], Some(1));
    assert!(!reel.can_scroll());
    assert_eq!(value(reel.reel_offset()), 0.0);
}

#[test]
fn push_back_seeds_focus_then_ring() {
    let reel = reel_with(&[1, 2, 3]);
    assert_eq!(reel.focus(), Some(1));
    assert_eq!(reel.ring(), vec![2, 3]);
    assert_eq!(reel.len(), 3);
}

#[test]
fn promote_slot_matches_the_cyclic_permutation() {
    // [F, R0, R1, R2, R3] -> [R2, R3, F, R0, R1]
    let mut reel = reel_with(&[10, 20, 21, 22, 23]);
    let promoted = reel.promote_slot(2);
    assert_eq!(promoted, Some(22));
    assert_eq!(reel.focus(), Some(22));
    assert_eq!(reel.ring(), vec![23, 10, 20, 21]);
    assert_eq!(value(reel.reel_offset()), 0.0);
}

#[test]
fn promote_slot_zero_is_a_one_step_advance() {
    let mut reel = reel_with(&[10, 20, 21, 22]);
    assert_eq!(reel.promote_slot(0), Some(20));
    assert_eq!(reel.ring(), vec![21, 22, 10]);
}

#[test]
fn promote_respects_a_scrolled_offset() {
    // Enough ring members for the reel to actually scroll (5 > visible 4).
    let mut reel = reel_with(&[10, 20, 21, 22, 23, 24]);
    scroll_by(&mut reel, 1.0);
    run_scroll_tween(&mut reel);
    // The top visible row is ordinal 1 (ring[1] = 21).
    assert_eq!(hit_test(&reel, viewport(), 2300, 216), Some((1, 21)));
    assert_eq!(reel.promote_slot(1), Some(21));
    assert_eq!(reel.ring(), vec![22, 23, 24, 10, 20]);
}

#[test]
fn repeated_promote_cycles_without_duplicates() {
    let mut reel = reel_with(&[1, 2, 3, 4]);
    for _ in 0..12 {
        reel.promote_slot(0);
        let all: Vec<WindowId> = std::iter::once(reel.focus().unwrap())
            .chain(reel.ring())
            .collect();
        let mut sorted = all.clone();
        sorted.sort_unstable();
        assert_eq!(sorted, vec![1, 2, 3, 4], "no duplicate / lost windows");
    }
}

#[test]
fn promote_with_single_ring_item_swaps_focus_and_reel() {
    let mut reel = reel_with(&[1, 2]);
    assert_eq!(reel.promote_slot(0), Some(2));
    assert_eq!(reel.focus(), Some(2));
    assert_eq!(reel.ring(), vec![1]);
}

#[test]
fn remove_focus_promotes_front_of_ring() {
    let mut reel = reel_with(&[1, 2, 3]);
    assert_eq!(reel.remove(1), Some(2));
    assert_eq!(reel.focus(), Some(2));
    assert_eq!(reel.ring(), vec![3]);
    assert_eq!(reel.remove(3), Some(2));
    assert_eq!(reel.reel_len(), 0);
    assert_eq!(reel.focus(), Some(2));
}

#[test]
fn remove_last_window_clears_focus() {
    let mut reel = reel_with(&[1]);
    assert_eq!(reel.remove(1), None);
    assert!(reel.is_empty());
}

#[test]
fn scroll_offset_is_continuous_and_settles_to_nearest() {
    let mut reel = reel_with(&[1, 2, 3, 4, 5, 6]);
    scroll_by(&mut reel, 0.4);
    assert!(
        reel.is_animating(),
        "wheel tick animates instead of jumping"
    );
    run_scroll_tween(&mut reel);
    assert!((value(reel.reel_offset()) - 0.4).abs() < 1e-9);
    scroll_by(&mut reel, 0.2);
    run_scroll_tween(&mut reel);
    assert!((value(reel.reel_offset()) - 0.6).abs() < 1e-9);
    settle(&mut reel);
    assert!(reel.is_animating());
    let mut ticks = 0;
    while tick(&mut reel, 16) {
        ticks += 1;
        assert!(ticks < 100, "animation must terminate");
    }
    assert_eq!(settled_offset(&reel), 1);
}

#[test]
fn wheel_tick_eases_instead_of_jumping() {
    let mut reel = reel_with(&[1, 2, 3, 4, 5, 6]);
    scroll_by(&mut reel, 1.0);
    assert_eq!(offset_of(&reel), 0.0, "starts where it was");
    tick(&mut reel, DEFAULT_ANIMATION_DURATION_MS / 2);
    let mid = offset_of(&reel);
    assert!(
        mid > 0.0 && mid < 1.0,
        "halfway through the tween the offset is in between: {mid}"
    );
}

#[test]
fn wheel_settle_fires_after_the_idle_delay() {
    let mut reel = reel_with(&[1, 2, 3, 4, 5, 6]);
    scroll_by(&mut reel, 0.4);
    assert!(reel.is_animating(), "pending settle counts as animating");
    assert!(tick(&mut reel, REEL_SETTLE_DELAY_MS - 1), "still waiting");
    assert!(tick(&mut reel, 1), "settle animation starts");
    let mut ticks = 0;
    while tick(&mut reel, 16) {
        ticks += 1;
        assert!(ticks < 100);
    }
    assert_eq!(settled_offset(&reel), 0);
    assert!(!reel.is_animating());
}

#[test]
fn reduced_motion_snaps_instantly() {
    let mut reel = reel_with(&[1, 2, 3, 4, 5, 6]);
    reel.set_reduce_motion(true);
    scroll_by(&mut reel, 0.6);
    // Continuous while the wheel is moving…
    assert!((value(reel.reel_offset()) - 0.6).abs() < 1e-9);
    // …then instant snap on release.
    settle(&mut reel);
    assert_eq!(value(reel.reel_offset()), 1.0);
    assert!(!reel.is_animating());
}

#[test]
fn layout_places_reference_geometry_on_the_right() {
    let mut reel = reel_with(&[10, 20, 21, 22, 23, 24]);
    reel.promote_slot(0); // focus 20, ring [21,22,23,24,10]
    let layout = layout_of(&reel, viewport());
    let (focus, main) = layout.focus.unwrap();
    assert_eq!(focus, 20);
    assert_eq!(main, Rect::new(0, 216, 2048, 1152));
    assert_eq!(layout.side, ReelSide::Right);
    assert_eq!(layout.slots.len(), 4);
    for (i, slot) in layout.slots.iter().enumerate() {
        assert_eq!(slot.rect.x, 2048);
        assert_eq!(slot.rect.y, 216 + i as i32 * 288);
        assert_eq!(slot.rect.width, 512);
        assert_eq!(slot.rect.height, 288);
        assert!(slot.fully_visible);
    }
    assert_eq!(layout.slots[0].window_id, 21);
    assert_eq!(layout.slots[3].window_id, 24);
    assert_eq!(layout.hidden, vec![10]);
}

#[test]
fn layout_mirrors_to_the_left_side() {
    let mut reel = reel_with(&[10, 20, 21, 22, 23]);
    reel.set_side(ReelSide::Left);
    reel.promote_slot(0);
    let layout = layout_of(&reel, viewport());
    let (_, main) = layout.focus.unwrap();
    assert_eq!(main, Rect::new(512, 216, 2048, 1152));
    for slot in &layout.slots {
        assert_eq!(slot.rect.x, 0);
    }
    assert_eq!(layout.side, ReelSide::Left);
}

#[test]
fn flip_on_promote_alternates_sides() {
    let geometry = ReelGeometry {
        flip_side_on_promote: true,
        ..ReelGeometry::default()
    };
    let mut reel = FocusReelState::with_geometry(geometry);
    for id in [1, 2, 3] {
        reel.push_back(id);
    }
    assert_eq!(reel.side(), ReelSide::Right);
    reel.promote_slot(0);
    assert_eq!(reel.side(), ReelSide::Left);
    reel.promote_slot(0);
    assert_eq!(reel.side(), ReelSide::Right);
}

#[test]
fn fractional_offset_moves_slots_continuously() {
    let mut reel = reel_with(&[1, 2, 3, 4, 5, 6]);
    reel.set_reduce_motion(true);
    scroll_by(&mut reel, 0.5);
    let layout = layout_of(&reel, viewport());
    // Ordinal 0 (ring[0] = 2) slides out of the top: 216 -> 72.
    assert_eq!(layout.slots[0].window_id, 2);
    assert_eq!(layout.slots[0].slot, 0);
    assert_eq!(layout.slots[0].rect.y, 216 - 144);
    assert!(!layout.slots[0].fully_visible);
    // Ordinal 1 (ring[1] = 3) slides in from below.
    assert_eq!(layout.slots[1].window_id, 3);
    assert_eq!(layout.slots[1].rect.y, 216 + 144);
    // Partially visible bottom entry is kept for clipped rendering.
    assert!(layout.slots.len() > 4);
}

#[test]
fn small_reel_does_not_repeat_slots() {
    let reel = reel_with(&[1, 2]);
    let layout = layout_of(&reel, viewport());
    assert_eq!(layout.slots.len(), 1, "focus 1 + ring [2] shows 2 once");
    assert_eq!(layout.slots[0].window_id, 2);
    assert_eq!(layout.hidden, Vec::<WindowId>::new());
}

#[test]
fn hidden_items_are_reported_for_large_rings() {
    let reel = reel_with(&[1, 2, 3, 4, 5, 6, 7]);
    let layout = layout_of(&reel, viewport());
    assert_eq!(layout.slots.len(), 4);
    assert_eq!(layout.hidden, vec![6, 7]);
}

#[test]
fn hit_test_maps_pixels_to_ring_members() {
    let mut reel = reel_with(&[10, 20, 21, 22, 23]);
    reel.promote_slot(0); // focus 20, ring [21,22,23,10]
                          // Top of the second slot.
    assert_eq!(hit_test(&reel, viewport(), 2300, 216 + 288), Some((1, 22)));
    // Above the band (widget strip) is not part of the reel.
    assert_eq!(hit_test(&reel, viewport(), 2300, 100), None);
    // Main window area is not a reel hit.
    assert_eq!(hit_test(&reel, viewport(), 1000, 400), None);
}

#[test]
fn hit_test_respects_fractional_scroll() {
    // 5 small windows so the reel is scrollable; a 0.5 offset shifts the
    // slots by half a stride.
    let mut reel = reel_with(&[1, 2, 3, 4, 5, 6]);
    reel.set_reduce_motion(true);
    scroll_by(&mut reel, 0.5);
    // At offset 0.5 the pixel row at the band top is the boundary between
    // ring[0] and ring[1]; the floor rule resolves it to ring[0] = 2.
    assert_eq!(hit_test(&reel, viewport(), 2300, 216), Some((0, 2)));
}

#[test]
fn hit_test_ignores_blank_reel_space() {
    // Focus 1 + one reel item: only y=216..504 has a rendered slot.
    let reel = reel_with(&[1, 2]);
    assert_eq!(hit_test(&reel, viewport(), 2300, 300), Some((0, 2)));
    assert_eq!(
        hit_test(&reel, viewport(), 2300, 900),
        None,
        "blank space under the column must not wrap around the ring"
    );
}

#[test]
fn rendered_region_shrinks_to_the_rendered_slots() {
    let reel = reel_with(&[1, 2]);
    let layout = layout_of(&reel, viewport());
    assert_eq!(
        layout.rendered_region(),
        Some(Rect::new(2048, 216, 512, 288)),
        "one reel item covers one slot, not the whole column"
    );

    let focus_only = reel_with(&[1]);
    let layout = layout_of(&focus_only, viewport());
    assert_eq!(layout.rendered_region(), None);
}

#[test]
fn compose_layout_centers_cluster_on_wide_viewports() {
    let geometry = ReelGeometry::default();
    let wide = Rect::new(0, 0, 3440, 1440);
    let mut reel = FocusReelState::with_geometry(geometry);
    for id in [1, 2, 3] {
        reel.push_back(id);
    }
    let layout = layout_of(&reel, wide);
    let (_, main) = layout.focus.unwrap();
    assert_eq!(main.width, 2048);
    assert_eq!(main.x, (3440 - 2560) / 2);
    assert_eq!(layout.slots[0].rect.x, main.x + 2048);
}

#[test]
fn small_viewport_clamps_focus_and_slots() {
    let mut reel = FocusReelState::new();
    for id in [1, 2, 3] {
        reel.push_back(id);
    }
    let small = Rect::new(0, 0, 1366, 768);
    let layout = layout_of(&reel, small);
    let (_, main) = layout.focus.unwrap();
    assert_eq!(main.width, 1366 - 512);
    // 768 - 216 - 72 = 480; 480 / 4 = 120 -> slot height squeezed to 120.
    assert_eq!(layout.slots[0].rect.height, 120);
    assert_eq!(layout.slots[1].rect.y, 216 + 120);
}

#[test]
fn gap_pads_between_windows_evenly() {
    let geometry = ReelGeometry {
        top_inset: 0,
        bottom_inset: 0,
        main_height: 0,
        gap: 2,
        ..ReelGeometry::default()
    };
    let mut reel = FocusReelState::with_geometry(geometry);
    for id in [1, 2, 3, 4, 5, 6] {
        reel.push_back(id);
    }
    let viewport = Rect::new(0, 0, 2560, 1368);
    let layout = layout_of(&reel, viewport);
    let (_, main) = layout.focus.unwrap();
    // Horizontal padding is split evenly: main 2048-1, reel 512-1.
    assert_eq!(main.width, 2047);
    assert_eq!(main.x, 0);
    assert_eq!(layout.slots[0].rect.width, 511);
    assert_eq!(layout.slots[0].rect.x, 2049);
    assert_eq!(layout.slots[0].rect.x - main.right(), 2);
    // Vertical padding: the fill-mode stride is span/4 = 342, and each
    // slot gives up the 2px gap from its content height.
    assert_eq!(layout.slots[0].rect.height, 340);
    assert_eq!(layout.slots[0].rect.y, 0, "first slot stays flush");
    assert_eq!(layout.slots[1].rect.y - layout.slots[0].rect.bottom(), 2);
    assert_eq!(layout.slots[2].rect.y - layout.slots[1].rect.bottom(), 2);
}

#[test]
fn flush_top_geometry_starts_both_sides_at_zero() {
    let geometry = ReelGeometry {
        top_inset: 0,
        bottom_inset: 0,
        main_height: 0,
        ..ReelGeometry::default()
    };
    let mut reel = FocusReelState::with_geometry(geometry);
    for id in [1, 2, 3, 4, 5, 6] {
        reel.push_back(id);
    }
    let viewport = Rect::new(0, 0, 2560, 1368);
    let layout = layout_of(&reel, viewport);
    let (_, main) = layout.focus.unwrap();
    assert_eq!(main.y, 0, "focus window starts at the top");
    assert_eq!(main.height, 1368, "focus window reaches the bottom");
    assert_eq!(layout.slots[0].rect.y, 0, "reel starts at the top");
    // Fill mode splits the whole span across the four visible slots:
    // 1368 / 4 = 342, tiling the column with no gap and no peek.
    assert_eq!(layout.slots[0].rect.height, 342);
    assert_eq!(layout.slots.len(), 4);
    assert!(layout.slots.iter().all(|slot| slot.fully_visible));
    assert_eq!(layout.slots[3].rect.bottom(), viewport.bottom());
}

#[test]
fn widget_inset_is_reserved_at_the_top() {
    let geometry = ReelGeometry::default();
    let band = geometry.reel_band(viewport());
    assert_eq!(band.y, 216);
    assert_eq!(band.height, 1440 - 216 - 72);
}

#[test]
fn focus_window_promotes_ring_member() {
    let mut reel = reel_with(&[10, 20, 21, 22]);
    assert!(reel.focus_window(21));
    assert_eq!(reel.focus(), Some(21));
    assert_eq!(reel.ring(), vec![22, 10, 20]);
    assert!(!reel.focus_window(21), "already focused");
    assert!(!reel.focus_window(999), "unknown window");
}

#[test]
fn focus_next_and_prev_walk_the_ring() {
    let mut reel = reel_with(&[1, 2, 3, 4]);
    assert_eq!(reel.focus_next(), Some(2));
    assert_eq!(reel.focus_next(), Some(3));
    assert_eq!(reel.focus_prev(), Some(2));
}

#[test]
fn move_in_ring_reorders_without_touching_focus() {
    let mut reel = reel_with(&[1, 2, 3, 4]);
    assert!(reel.move_in_ring(4, -1));
    assert_eq!(reel.focus(), Some(1));
    assert_eq!(reel.ring(), vec![2, 4, 3]);
    assert!(reel.move_in_ring(2, 1));
    assert_eq!(reel.ring(), vec![4, 2, 3]);
}

#[test]
fn rotate_ring_wraps_and_preserves_membership() {
    let mut reel = reel_with(&[1, 2, 3, 4]);
    assert!(reel.rotate_ring(1));
    assert_eq!(reel.focus(), Some(1));
    assert_eq!(reel.ring(), vec![3, 4, 2]);
    assert!(reel.rotate_ring(-1));
    assert_eq!(reel.ring(), vec![2, 3, 4]);
    assert!(!reel.rotate_ring(0));
    let all: Vec<WindowId> = std::iter::once(reel.focus().unwrap())
        .chain(reel.ring())
        .collect();
    assert_eq!(all.len(), 4);
}

#[test]
fn sync_membership_prunes_appends_and_reseeds_focus() {
    let mut reel = reel_with(&[1, 2, 3]);
    reel.sync_membership(&[1, 3, 4], Some(1));
    assert_eq!(reel.focus(), Some(1));
    assert_eq!(reel.ring(), vec![3, 4]);

    reel.remove(1);
    reel.sync_membership(&[3, 4], None);
    assert_eq!(reel.focus(), Some(3));

    reel.sync_membership(&[], None);
    assert!(reel.is_empty());
}

#[test]
fn sync_membership_preserves_order_across_workspace_reload() {
    let mut reel = reel_with(&[1, 2, 3]);
    // Workspace reloaded with the same windows in column order.
    reel.sync_membership(&[1, 2, 3, 4], Some(1));
    assert_eq!(reel.ring(), vec![2, 3, 4]);
}

#[test]
fn scroll_to_window_positions_the_item_in_the_requested_slot() {
    let mut reel = reel_with(&[1, 2, 3, 4, 5, 6, 7]);
    reel.set_reduce_motion(true);
    assert!(scroll_to_window(&mut reel, 5, 1));
    // ring order [2,3,4,5,6,7]; target offset puts 5 at visual slot 1.
    assert_eq!(settled_offset(&reel), 2);
}

#[test]
fn a_window_occupies_the_slot_it_is_scrolled_to() {
    let mut reel = reel_with(&[1, 2, 3, 4, 5, 6, 7]);
    assert_eq!(reel.scroll_target(5, 1), Some(2));
    assert_eq!(reel.scroll_target(2, 3), Some(-3));
    assert_eq!(reel.scroll_target(2, usize::MAX), Some(-(usize::MAX as i128)));
    assert_eq!(reel.scroll_target(1, 0), None, "the focus window has no slot");
    assert_eq!(reel.scroll_target(99, 0), None);
    reel.set_reduce_motion(true);
    for id in [2, 3, 4, 5, 6, 7] {
        for slot in 0..4 {
            assert!(scroll_to_window(&mut reel, id, slot));
            let layout = layout_of(&reel, viewport());
            assert_eq!(layout.slots[slot].window_id, id);
            assert_eq!(layout.slots[slot].rect.y, 216 + 288 * slot as i32);
            assert!(layout.slots[slot].fully_visible);
        }
    }
}

#[test]
fn focusing_next_once_per_window_comes_back_to_the_start() {
    let mut reel = reel_with(&[1, 2, 3, 4, 5]);
    let mut visited = Vec::new();
    for _ in 0..5 {
        visited.push(reel.focus_next().unwrap());
    }
    assert_eq!(visited, vec![2, 3, 4, 5, 1]);
    assert_eq!(reel.ring(), vec![2, 3, 4, 5]);
}

#[test]
fn previous_undoes_next_and_next_undoes_previous() {
    let mut reel = reel_with(&[1, 2, 3, 4]);
    reel.focus_next();
    reel.focus_prev();
    assert_eq!((reel.focus(), reel.ring()), (Some(1), vec![2, 3, 4]));
    reel.focus_prev();
    assert_eq!((reel.focus(), reel.ring()), (Some(4), vec![1, 2, 3]));
    reel.focus_next();
    assert_eq!((reel.focus(), reel.ring()), (Some(1), vec![2, 3, 4]));
}

#[test]
fn ordinals_wrap_in_both_directions() {
    let mut reel = reel_with(&[1, 2, 3, 4]);
    assert_eq!(reel.promote_slot(-1), Some(4));
    let mut reel = reel_with(&[1, 2, 3, 4]);
    assert_eq!(reel.promote_slot(4), Some(3));
    let mut reel = reel_with(&[1, 2, 3, 4]);
    assert_eq!(reel.promote_slot(i64::MIN), Some(3));
    let mut reel = reel_with(&[1]);
    assert_eq!(reel.promote_slot(7), Some(1));
}

#[test]
fn moving_a_member_back_restores_the_ring() {
    let mut reel = reel_with(&[1, 2, 3, 4, 5]);
    assert!(reel.move_in_ring(3, 6));
    assert_eq!(reel.ring(), vec![2, 4, 5, 3]);
    assert!(reel.move_in_ring(3, -6));
    assert_eq!(reel.ring(), vec![2, 3, 4, 5]);
    assert!(!reel.move_in_ring(3, 0));
    assert!(!reel.move_in_ring(99, 1));
    assert!(!reel.move_in_ring(1, 1), "the focus window is not in the ring");
}

#[test]
fn turning_a_ring_of_one_moves_nothing() {
    let mut reel = reel_with(&[1, 2]);
    assert!(!reel.rotate_ring(1));
    assert_eq!(reel.ring(), vec![2]);
}

#[test]
fn turning_by_a_whole_lap_moves_nothing() {
    let mut reel = reel_with(&[1, 2, 3, 4]);
    for delta in [3, -3, 6, 0] {
        assert!(!reel.rotate_ring(delta));
        assert_eq!(reel.ring(), vec![2, 3, 4]);
    }
    assert!(reel.rotate_ring(4));
    assert_eq!(reel.ring(), vec![3, 4, 2]);
}

#[test]
fn a_hint_seeds_a_missing_focus() {
    let mut reel = FocusReelState::new();
    reel.sync_membership(&[1, 2, 3], Some(2));
    assert_eq!((reel.focus(), reel.ring()), (Some(2), vec![1, 3]));

    let mut reel = FocusReelState::new();
    reel.sync_membership(&[1, 2, 3], Some(9));
    assert_eq!((reel.focus(), reel.ring()), (Some(1), vec![2, 3]));
    reel.sync_membership(&[2, 3], Some(3));
    assert_eq!(
        (reel.focus(), reel.ring()),
        (Some(2), vec![3]),
        "the next ring member replaces a lost focus"
    );
    reel.sync_membership(&[7, 8], Some(8));
    assert_eq!((reel.focus(), reel.ring()), (Some(8), vec![7]));
}

#[test]
fn sync_with_the_same_list_changes_nothing() {
    let mut reel = reel_with(&[3, 1, 2]);
    reel.sync_membership(&[1, 2, 3, 3, 4], None);
    assert_eq!((reel.focus(), reel.ring()), (Some(3), vec![1, 2, 4]));
    reel.sync_membership(&[1, 2, 3, 3, 4], Some(2));
    assert_eq!((reel.focus(), reel.ring()), (Some(3), vec![1, 2, 4]));
}

#[test]
fn restoring_mends_what_is_broken() {
    let geometry = ReelGeometry::default();
    let zero = Offset::zero();
    let reel = FocusReelState::restored(vec![5, 5, 7, 6], Some(7), zero, ReelSide::Left, geometry);
    assert_eq!((reel.focus(), reel.ring()), (Some(7), vec![5, 6]));
    assert_eq!((reel.len(), reel.side()), (3, ReelSide::Left));

    let lost = FocusReelState::restored(vec![5, 6, 5], None, zero, ReelSide::Left, geometry);
    assert_eq!((lost.focus(), lost.ring()), (None, vec![5, 6]));

    for broken in [f64::NAN, f64::INFINITY, f64::NEG_INFINITY] {
        let ring = vec![2, 3, 4, 5, 6];
        let reel =
            FocusReelState::restored(ring, Some(1), offset(broken), ReelSide::Right, geometry);
        assert_eq!(value(reel.reel_offset()), 0.0);
        assert_eq!(reel.len(), 6);
    }
}

#[test]
fn a_restored_reel_without_focus_waits_for_one() {
    let restore = || {
        FocusReelState::restored(
            vec![5, 6],
            None,
            Offset::zero(),
            ReelSide::Right,
            ReelGeometry::default(),
        )
    };
    let mut reel = restore();
    assert!(!reel.is_empty());
    assert_eq!((reel.len(), reel.reel_len()), (2, 2));
    assert!(layout_of(&reel, viewport()).focus.is_none());
    reel.sync_membership(&[5, 6], None);
    assert_eq!((reel.focus(), reel.ring()), (None, vec![5, 6]));
    reel.sync_membership(&[5, 6], Some(6));
    assert_eq!((reel.focus(), reel.ring()), (Some(6), vec![5]));

    let mut reel = restore();
    reel.sync_membership(&[5, 6, 7], None);
    assert_eq!((reel.focus(), reel.ring()), (Some(7), vec![5, 6]));

    let mut reel = restore();
    reel.push_back(9);
    assert_eq!((reel.focus(), reel.ring()), (Some(9), vec![5, 6]));

    let mut reel = restore();
    assert_eq!(reel.promote_slot(1), Some(6));
    assert_eq!((reel.focus(), reel.ring()), (Some(6), vec![5]));
}

#[test]
fn a_restored_reel_in_order_is_kept_as_it_is() {
    let ring = vec![2, 3, 4, 5, 6];
    let geometry = ReelGeometry::default();
    let reel = FocusReelState::restored(
        ring.clone(),
        Some(1),
        offset(-1.25),
        ReelSide::Left,
        geometry,
    );
    assert_eq!((reel.focus(), reel.ring()), (Some(1), ring));
    assert_eq!(value(reel.reel_offset()), -1.25);
    assert_eq!(reel.geometry(), geometry);
}

#[test]
fn offsets_stay_finite() {
    let mut reel = reel_with(&[1, 2, 3, 4, 5, 6]);
    reel.set_reduce_motion(true);
    scroll_by(&mut reel, f64::MAX);
    assert_eq!(value(reel.reel_offset()), f64::MAX);
    scroll_by(&mut reel, f64::MAX);
    assert!(value(reel.reel_offset()).is_finite());
    assert_eq!(value(reel.reel_offset()), f64::MAX);

    let mut reel = reel_with(&[1, 2, 3, 4, 5, 6]);
    scroll_by(&mut reel, f64::MAX);
    scroll_by(&mut reel, f64::MAX);
    while tick(&mut reel, 16) {
        assert!(value(reel.reel_offset()).is_finite());
    }
}

#[test]
fn a_reel_that_fits_does_not_scroll_to_a_window() {
    let mut reel = reel_with(&[1, 2, 3]);
    reel.set_reduce_motion(true);
    assert!(scroll_to_window(&mut reel, 3, 0));
    assert_eq!(value(reel.reel_offset()), 0.0);
    assert!(!reel.is_animating());
    assert!(!scroll_to_window(&mut reel, 1, 0), "not in the ring");
}

#[test]
fn short_slots_do_not_add_rows() {
    let mut reel = FocusReelState::with_geometry(ReelGeometry {
        slot_height: 100,
        ..ReelGeometry::default()
    });
    for id in [1, 2, 3, 4, 5, 6, 7, 8] {
        reel.push_back(id);
    }
    let layout = layout_of(&reel, viewport());
    assert_eq!(layout.slots.len(), 4);
    assert_eq!(layout.slots[3].rect, Rect::new(2048, 216 + 300, 512, 100));
    assert_eq!(layout.hidden, vec![6, 7, 8]);
    assert_eq!(hit_test(&reel, viewport(), 2300, 216 + 399), Some((3, 5)));
    assert_eq!(hit_test(&reel, viewport(), 2300, 216 + 400), None);
}

#[test]
fn a_point_hits_exactly_the_slot_that_covers_it() {
    let mut reel = FocusReelState::with_geometry(ReelGeometry {
        gap: 6,
        ..ReelGeometry::default()
    });
    for id in [1, 2, 3, 4, 5, 6, 7] {
        reel.push_back(id);
    }
    reel.set_reduce_motion(true);
    for turn in [0.0, 0.3, 0.45, -2.0] {
        scroll_by(&mut reel, turn);
        let layout = layout_of(&reel, viewport());
        for y in 0..1440 {
            let covering: Vec<(i64, WindowId)> = layout
                .slots
                .iter()
                .filter(|slot| slot.rect.y <= y && y < slot.rect.bottom())
                .filter(|slot| 216 <= y && y < 1440 - 72 && slot.rect.x <= 2300)
                .map(|slot| (slot.slot, slot.window_id))
                .collect();
            assert!(covering.len() <= 1, "slots overlap at {y}");
            assert_eq!(
                hit_test(&reel, viewport(), 2300, y),
                covering.first().copied(),
                "at {y}"
            );
        }
    }
}

#[test]
fn restored_reel_jumps_until_it_is_configured() {
    let geometry = ReelGeometry::default();
    let mut reel = FocusReelState::restored(
        vec![2, 3, 4, 5, 6],
        Some(1),
        offset(2.5),
        ReelSide::Right,
        geometry,
    );
    assert_eq!(offset_of(&reel), 2.5);
    scroll_by(&mut reel, 1.0);
    assert_eq!(value(reel.reel_offset()), 3.5);
    assert!(reel.animation().is_none());
}

#[test]
fn wheel_ignores_distances_that_are_no_numbers() {
    let mut reel = reel_with(&[1, 2, 3, 4, 5, 6]);
    for delta in [0.0, -0.0, f64::NAN, f64::INFINITY, f64::NEG_INFINITY] {
        scroll_by(&mut reel, delta);
        assert!(!reel.is_animating());
        assert_eq!(offset_of(&reel), 0.0);
    }
    assert!(offset(f64::MAX).is_finite());
    assert!(!offset(f64::NAN).is_finite());
    assert!(!offset(f64::NEG_INFINITY).is_finite());
    assert!(offset(-0.0).is_zero());
    assert!(!offset(f64::MIN_POSITIVE).is_zero());
}

#[test]
fn retargeting_starts_from_the_rendered_offset() {
    let mut reel = reel_with(&[1, 2, 3, 4, 5, 6]);
    scroll_by(&mut reel, 1.0);
    tick(&mut reel, 100);
    let rendered = offset_of(&reel);
    scroll_by(&mut reel, 1.0);
    let animation = reel.animation().unwrap();
    assert_eq!(value(animation.start), rendered);
    assert_eq!(value(animation.target), 2.0, "wheel ticks add up");
    assert_eq!(animation.elapsed_ms, 0);
}

#[test]
fn stopping_leaves_the_offset_where_it_is() {
    let mut reel = reel_with(&[1, 2, 3, 4, 5, 6]);
    scroll_by(&mut reel, 1.0);
    reel.stop_animation();
    assert!(!reel.is_animating());
    assert_eq!(value(reel.reel_offset()), 0.0);
}

#[test]
fn reduced_motion_finishes_a_running_animation() {
    let mut reel = reel_with(&[1, 2, 3, 4, 5, 6]);
    scroll_by(&mut reel, 1.0);
    reel.set_reduce_motion(true);
    assert!(reel.animation().is_none());
    assert_eq!(value(reel.reel_offset()), 1.0);
}

#[test]
fn every_ring_member_is_shown_or_hidden() {
    let mut reel = reel_with(&[1, 2, 3, 4, 5, 6, 7, 8]);
    reel.set_reduce_motion(true);
    scroll_by(&mut reel, 2.25);
    let layout = layout_of(&reel, viewport());
    let mut all: Vec<WindowId> = layout.slots.iter().map(|slot| slot.window_id).collect();
    all.extend(layout.hidden.iter().copied());
    all.sort_unstable();
    assert_eq!(all, vec![2, 3, 4, 5, 6, 7, 8]);
    for pair in layout.slots.windows(2) {
        assert!(pair[0].slot < pair[1].slot);
        assert!(pair[0].rect.y < pair[1].rect.y);
    }
}

#[test]
fn hits_name_the_window_that_promotion_brings() {
    let mut reel = reel_with(&[1, 2, 3, 4, 5, 6, 7]);
    reel.set_reduce_motion(true);
    scroll_by(&mut reel, -1.5);
    let (slot, id) = hit_test(&reel, viewport(), 2100, 500).unwrap();
    assert_eq!(reel.promote_slot(slot), Some(id));
    assert!(layout_of(&reel, viewport()).window_at_slot(0).is_some());
    assert_eq!(layout_of(&reel, viewport()).window_at_slot(99), None);
}

#[test]
fn geometry_is_sanitized_on_the_way_in() {
    let mut reel = FocusReelState::new();
    reel.set_geometry(ReelGeometry {
        main_width: -5,
        gap: 10_000,
        visible_slots: 0,
        ..ReelGeometry::default()
    });
    assert_eq!(reel.geometry().main_width, 0);
    assert_eq!(reel.geometry().gap, 144);
    assert_eq!(reel.geometry().visible_slots, 1);
    assert_eq!(reel.flip_side(), ReelSide::Left);
    assert_eq!(reel.flip_side(), ReelSide::Right);
}
