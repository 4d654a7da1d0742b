use leopardwm::physical_placement::{
    edge_end, evaluate_protected_axis_containment, expand_border_overlay, i32_sat, monitor_rects,
    overlap_len, parking_clears_monitors, rects_equal, rects_overlap_positive, sat_difference,
    sat_sum, sorted_topology, tab_strip_rect, topology_signature, union_rects, ConstrainedAxes,
    GeometryContext, PhysicalDecision, PhysicalKind, PhysicalRejectionObservation,
    CONTAINMENT_TOLERANCE,
};
use leopardwm::types::{MonitorId, MonitorInfo, NativeWindow, Rect, Visibility, WindowPlacement};
use std::collections::{HashMap, HashSet};

/// Far off-screen coordinate at which windows are parked.
const SENTINEL: i32 = -100_000;

fn project_physical_rect(window: Rect, owner: Rect, monitors: &[Rect]) -> PhysicalDecision {
    leopardwm::physical_placement::project_physical_rect(window, owner, monitors, SENTINEL)
}

fn decide_physical_rect(
    window: Rect,
    owner: Rect,
    monitors: &[Rect],
    observation: Option<&PhysicalRejectionObservation>,
    context: &GeometryContext,
) -> PhysicalDecision {
    leopardwm::physical_placement::decide_physical_rect(
        window,
        owner,
        monitors,
        observation,
        context,
        SENTINEL,
    )
}

fn offscreen_park_rect(window: Rect, monitors: &[Rect], insets: (i32, i32, i32, i32)) -> Rect {
    leopardwm::physical_placement::offscreen_park_rect(window, monitors, insets, SENTINEL)
}

fn convert_failed_slices_to_parks(
    placements: &[WindowPlacement],
    failed: &HashSet<u64>,
    retained: &HashMap<u64, Rect>,
    monitors: &[Rect],
) -> Vec<WindowPlacement> {
    leopardwm::physical_placement::convert_failed_slices_to_parks(
        placements, failed, retained, monitors, SENTINEL,
    )
}

fn park_offscreen_avoiding_neighbors(
    placements: &mut Vec<WindowPlacement>,
    owner_id: MonitorId,
    monitors: &Vec<MonitorInfo>,
) {
    let natives: HashMap<u64, NativeWindow> = HashMap::new();
    leopardwm::physical_placement::park_offscreen_avoiding_neighbors(
        placements, owner_id, monitors, &natives, SENTINEL,
    )
}

/// The outer frame of a visible rect.
fn frame_rect(rect: Rect, insets: (i32, i32, i32, i32)) -> Rect {
    let (left, top, right, bottom) = insets;
    Rect::new(
        rect.x - left,
        rect.y - top,
        rect.width + left + right,
        rect.height + top + bottom,
    )
}

fn is_parked_at_sentinel(rect: &Rect) -> bool {
    rect.x <= SENTINEL && rect.y <= SENTINEL
}

fn monitor(id: MonitorId, x: i32, y: i32, w: i32, h: i32) -> MonitorInfo {
    MonitorInfo {
        id,
        rect: Rect::new(x, y, w, h),
        viewport: Rect::new(x, y, w, h),
        scale_milli: 1000,
    }
}

fn placement(wid: u64, rect: Rect, visibility: Visibility) -> WindowPlacement {
    WindowPlacement {
        window_id: wid,
        rect,
        visibility,
        column_index: 0,
    }
}

fn owner_5120() -> Rect {
    Rect::new(0, 0, 5120, 1440)
}

fn neighbor_800() -> Rect {
    Rect::new(5120, 0, 800, 600)
}

fn reproduction_window() -> Rect {
    Rect::new(4320, 10, 1600, 1440)
}

#[test]
fn reproduction_right_overflow_is_sliced_to_owner_edge() {
    let window = reproduction_window();
    let owner = owner_5120();
    let neighbor = neighbor_800();
    let decision = project_physical_rect(window, owner, &[owner, neighbor]);
    match decision {
        PhysicalDecision::Constrained { rect, axes } => {
            assert!(axes.right);
            assert!(!axes.left && !axes.top && !axes.bottom);
            assert_eq!(rect, Rect::new(4320, 10, 800, 1440));
            let overlap_w = edge_end(window.x, window.width) - neighbor.x as i64;
            let overlap_h = overlap_len(
                window.y as i64,
                edge_end(window.y, window.height),
                neighbor.y as i64,
                edge_end(neighbor.y, neighbor.height),
            );
            assert_eq!((overlap_w, overlap_h), (800, 590));
        }
        other => panic!("expected constrained slice, got {other:?}"),
    }
}

#[test]
fn slices_left_top_and_bottom_neighbors() {
    let owner = Rect::new(0, 0, 1000, 1000);
    let left = Rect::new(-800, 0, 800, 1000);
    let top = Rect::new(0, -600, 1000, 600);
    let bottom = Rect::new(0, 1000, 1000, 600);
    let overflow_left = Rect::new(-200, 100, 500, 400);
    match project_physical_rect(overflow_left, owner, &[owner, left]) {
        PhysicalDecision::Constrained { rect, axes } => {
            assert!(axes.left);
            assert_eq!(rect, Rect::new(0, 100, 300, 400));
        }
        other => panic!("{other:?}"),
    }
    let overflow_top = Rect::new(100, -200, 400, 500);
    match project_physical_rect(overflow_top, owner, &[owner, top]) {
        PhysicalDecision::Constrained { rect, axes } => {
            assert!(axes.top);
            assert_eq!(rect, Rect::new(100, 0, 400, 300));
        }
        other => panic!("{other:?}"),
    }
    let overflow_bottom = Rect::new(100, 800, 400, 400);
    match project_physical_rect(overflow_bottom, owner, &[owner, bottom]) {
        PhysicalDecision::Constrained { rect, axes } => {
            assert!(axes.bottom);
            assert_eq!(rect, Rect::new(100, 800, 400, 200));
        }
        other => panic!("{other:?}"),
    }
}

#[test]
fn partial_orthogonal_overlap_is_required() {
    let owner = owner_5120();
    let neighbor = neighbor_800();
    let no_y_overlap = Rect::new(4320, 700, 1600, 700);
    assert_eq!(
        project_physical_rect(no_y_overlap, owner, &[owner, neighbor]),
        PhysicalDecision::Unchanged
    );
}

#[test]
fn two_axes_and_multiple_neighbors_clip_independently() {
    let owner = Rect::new(0, 0, 1000, 1000);
    let right = Rect::new(1000, 0, 800, 1000);
    let bottom = Rect::new(0, 1000, 1000, 600);
    let window = Rect::new(800, 800, 400, 400);
    match project_physical_rect(window, owner, &[owner, right, bottom]) {
        PhysicalDecision::Constrained { rect, axes } => {
            assert!(axes.right && axes.bottom);
            assert_eq!(rect, Rect::new(800, 800, 200, 200));
        }
        other => panic!("{other:?}"),
    }
}

#[test]
fn negative_origins_and_mixed_scale_physical_pixels() {
    let owner = Rect::new(-1920, 0, 1920, 1080);
    let neighbor = Rect::new(0, 0, 2880, 1800);
    let window = Rect::new(-200, 0, 500, 1080);
    match project_physical_rect(window, owner, &[owner, neighbor]) {
        PhysicalDecision::Constrained { rect, axes } => {
            assert!(axes.right);
            assert_eq!(rect, Rect::new(-200, 0, 200, 1080));
        }
        other => panic!("{other:?}"),
    }
}

#[test]
fn gaps_mirrors_and_corner_only_contacts_are_unchanged() {
    let owner = Rect::new(0, 0, 1000, 1000);
    let gapped = Rect::new(1010, 0, 800, 1000);
    let mirrored = Rect::new(0, 0, 1000, 1000);
    let corner = Rect::new(1000, 1000, 800, 600);
    let window = Rect::new(900, 900, 200, 200);
    assert_eq!(
        project_physical_rect(window, owner, &[owner, gapped]),
        PhysicalDecision::Unchanged
    );
    assert_eq!(
        project_physical_rect(window, owner, &[owner, mirrored]),
        PhysicalDecision::Unchanged
    );
    assert_eq!(
        project_physical_rect(window, owner, &[owner, corner]),
        PhysicalDecision::Unchanged
    );
}

#[test]
fn zero_and_one_pixel_slices_and_idempotence() {
    let owner = Rect::new(0, 0, 1000, 1000);
    let neighbor = Rect::new(1000, 0, 800, 1000);
    let fully_past = Rect::new(1000, 0, 400, 400);
    match project_physical_rect(fully_past, owner, &[owner, neighbor]) {
        PhysicalDecision::Parked { rect } => {
            assert!(!rect.intersects(&owner));
            assert!(!rect.intersects(&neighbor));
        }
        other => panic!("{other:?}"),
    }
    let one_pixel = Rect::new(999, 0, 400, 400);
    match project_physical_rect(one_pixel, owner, &[owner, neighbor]) {
        PhysicalDecision::Constrained { rect, .. } => {
            assert_eq!(rect, Rect::new(999, 0, 1, 400));
            assert_eq!(
                project_physical_rect(rect, owner, &[owner, neighbor]),
                PhysicalDecision::Unchanged
            );
        }
        other => panic!("{other:?}"),
    }
}

#[test]
fn zero_slice_parking_moves_past_a_monitor_near_the_recovery_sentinel() {
    let owner = Rect::new(-100_000, -100_000, 500, 500);
    let neighbor = Rect::new(-99_500, -100_000, 500, 500);
    let window = Rect::new(-99_500, -100_000, 400, 400);
    let context = GeometryContext {
        owner_id: 1,
        owner_rect: owner,
        topology: sorted_topology(&[owner, neighbor]),
        scale_milli: 1000,
        insets: (7, 1, 7, 8),
        native_style: 0,
        window_width: window.width,
        window_height: window.height,
    };
    let parked = match decide_physical_rect(window, owner, &[owner, neighbor], None, &context) {
        PhysicalDecision::Parked { rect } => rect,
        other => panic!("expected zero visible slice to park, got {other:?}"),
    };
    let outer =
        frame_rect(parked, context.insets);
    assert!(is_parked_at_sentinel(&outer));
    assert!(parking_clears_monitors(outer, &[owner, neighbor]));
}

#[test]
fn arithmetic_extremes_do_not_overflow() {
    let owner = Rect::new(i32::MIN / 2, 0, 1000, 1000);
    let neighbor = Rect::new(i32::MIN / 2 + 1000, 0, 1000, 1000);
    let window = Rect::new(i32::MIN / 2 + 900, 0, 400, 400);
    let decision = project_physical_rect(window, owner, &[owner, neighbor]);
    assert!(matches!(
        decision,
        PhysicalDecision::Constrained { .. } | PhysicalDecision::Parked { .. }
    ));
}

#[test]
fn parks_retained_native_size_larger_than_slice() {
    let owner = owner_5120();
    let neighbor = neighbor_800();
    let window = Rect::new(5000, 10, 800, 1440);
    let slice = match project_physical_rect(window, owner, &[owner, neighbor]) {
        PhysicalDecision::Constrained { rect, .. } => rect,
        other => panic!("{other:?}"),
    };
    assert!(slice.width < window.width);
    let parked = offscreen_park_rect(window, &[owner, neighbor], (7, 1, 7, 8));
    assert_eq!((parked.width, parked.height), (window.width, window.height));
    let outer =
        frame_rect(parked, (7, 1, 7, 8));
    assert!(is_parked_at_sentinel(&outer));
    assert!(parking_clears_monitors(outer, &[owner, neighbor]));
}

#[test]
fn observation_parks_without_reprobe_including_greater_than_viewport() {
    let owner = owner_5120();
    let neighbor = neighbor_800();
    let window = reproduction_window();
    let context = GeometryContext {
        owner_id: 1,
        owner_rect: owner,
        topology: sorted_topology(&[owner, neighbor]),
        scale_milli: 1000,
        insets: (0, 0, 0, 0),
        native_style: 0,
        window_width: window.width,
        window_height: window.height,
    };
    let observation = PhysicalRejectionObservation {
        required_width: 1600,
        required_height: 1440,
        retained_outer_width: 1600,
        retained_outer_height: 1440,
        width_affected: true,
        height_affected: false,
        coupled: false,
        context: context.clone(),
    };
    assert!(matches!(
        decide_physical_rect(
            window,
            owner,
            &[owner, neighbor],
            Some(&observation),
            &context,
        ),
        PhysicalDecision::Parked { .. }
    ));
    let viewport_obs = PhysicalRejectionObservation {
        required_width: 5120,
        required_height: 1440,
        retained_outer_width: 1600,
        retained_outer_height: 1440,
        width_affected: true,
        height_affected: false,
        coupled: false,
        context: context.clone(),
    };
    assert!(matches!(
        decide_physical_rect(
            window,
            owner,
            &[owner, neighbor],
            Some(&viewport_obs),
            &context,
        ),
        PhysicalDecision::Parked { .. }
    ));
}

#[test]
fn small_observation_allows_slice_retry() {
    let owner = owner_5120();
    let neighbor = neighbor_800();
    let window = reproduction_window();
    let context = GeometryContext {
        owner_id: 1,
        owner_rect: owner,
        topology: sorted_topology(&[owner, neighbor]),
        scale_milli: 1000,
        insets: (0, 0, 0, 0),
        native_style: 0,
        window_width: window.width,
        window_height: window.height,
    };
    let small_obs = PhysicalRejectionObservation {
        required_width: 500,
        required_height: 1440,
        retained_outer_width: 1600,
        retained_outer_height: 1440,
        width_affected: true,
        height_affected: false,
        coupled: false,
        context: context.clone(),
    };
    assert!(matches!(
        decide_physical_rect(
            window,
            owner,
            &[owner, neighbor],
            Some(&small_obs),
            &context,
        ),
        PhysicalDecision::Constrained { .. }
    ));
}

#[test]
fn containment_detects_size_and_position_overshoot() {
    let owner = owner_5120();
    let requested = Rect::new(4320, 10, 800, 1440);
    let mut axes = ConstrainedAxes::default();
    axes.right = true;
    assert!(evaluate_protected_axis_containment(
        requested,
        requested,
        owner,
        axes,
        CONTAINMENT_TOLERANCE
    ));
    assert!(!evaluate_protected_axis_containment(
        requested,
        Rect::new(4320, 10, 1600, 1440),
        owner,
        axes,
        CONTAINMENT_TOLERANCE
    ));
    assert!(!evaluate_protected_axis_containment(
        requested,
        Rect::new(5000, 10, 800, 1440),
        owner,
        axes,
        CONTAINMENT_TOLERANCE
    ));
}

#[test]
fn follow_up_batch_parks_only_failed_slices() {
    let owner = owner_5120();
    let neighbor = neighbor_800();
    let placements = vec![
        placement(1, Rect::new(4320, 10, 800, 1440), Visibility::Visible),
        placement(2, Rect::new(0, 10, 800, 1440), Visibility::Visible),
        placement(3, Rect::new(-400, 10, 400, 400), Visibility::OffScreenLeft),
    ];
    let failed = HashSet::from([1u64]);
    let retained = HashMap::from([(1u64, Rect::new(4320, 10, 1600, 1440))]);
    let follow_up =
        convert_failed_slices_to_parks(&placements, &failed, &retained, &[owner, neighbor]);
    assert_eq!(follow_up[1].window_id, placements[1].window_id);
    assert_eq!(follow_up[1].rect, placements[1].rect);
    assert_eq!(follow_up[1].visibility, placements[1].visibility);
    assert_eq!(follow_up[2].window_id, placements[2].window_id);
    assert_eq!(follow_up[2].rect, placements[2].rect);
    assert_eq!(follow_up[2].visibility, placements[2].visibility);
    assert_eq!(follow_up[0].visibility, Visibility::OffScreenRight);
    assert_eq!(
        (follow_up[0].rect.width, follow_up[0].rect.height),
        (1600, 1440)
    );
    assert!(!follow_up[0].rect.intersects(&owner));
    assert!(!follow_up[0].rect.intersects(&neighbor));
}

#[test]
fn tab_strip_uses_its_own_orthogonal_span() {
    let owner = Rect::new(0, 0, 1000, 1000);
    let above = Rect::new(0, -40, 1000, 40);
    let window = Rect::new(100, 0, 400, 800);
    assert_eq!(
        project_physical_rect(window, owner, &[owner, above]),
        PhysicalDecision::Unchanged
    );
    let strip = tab_strip_rect(window, 28, 8);
    match project_physical_rect(strip, owner, &[owner, above]) {
        PhysicalDecision::Constrained { rect, axes } => {
            assert!(axes.top);
            assert_eq!(rect.y, 0);
            assert_eq!(rect.height, 0.max(strip.height - 36 + 8));
        }
        PhysicalDecision::Parked { .. } => {}
        other => panic!("{other:?}"),
    }
}

#[test]
fn parks_at_recoverable_sentinel_when_a_horizontal_neighbor_blocks_the_side() {
    const WIN: Rect = Rect {
        x: 6000,
        y: 10,
        width: 800,
        height: 600,
    };
    let owner = owner_5120();
    let right = Rect::new(5120, 0, 1920, 1080);
    let parked = offscreen_park_rect(WIN, &[owner, right], (0, 0, 0, 0));
    let sentinel = SENTINEL;
    assert_eq!((parked.x, parked.y), (sentinel, sentinel));
    assert_eq!((parked.width, parked.height), (WIN.width, WIN.height));
    assert!(![owner, right].iter().any(|m| parked.intersects(m)));
}

#[test]
fn parks_at_recoverable_sentinel_when_stacked_vertically() {
    const WIN: Rect = Rect {
        x: 6000,
        y: 10,
        width: 800,
        height: 600,
    };
    let owner = Rect::new(0, 1080, 1920, 1080);
    let above = Rect::new(0, 0, 1920, 1080);
    let below = Rect::new(0, 2160, 1920, 1080);
    let parked = offscreen_park_rect(WIN, &[owner, above, below], (0, 0, 0, 0));
    let sentinel = SENTINEL;
    assert_eq!((parked.x, parked.y), (sentinel, sentinel));
    assert!(![owner, above, below].iter().any(|m| parked.intersects(m)));
}

#[test]
fn parks_at_recoverable_sentinel_when_other_edges_are_taken() {
    const WIN: Rect = Rect {
        x: 6000,
        y: 10,
        width: 800,
        height: 600,
    };
    let owner = Rect::new(2000, 0, 1000, 1000);
    let below = Rect::new(2000, 1000, 1000, 1000);
    let above = Rect::new(2000, -1000, 1000, 1000);
    let right = Rect::new(3000, 0, 1000, 1000);
    let parked = offscreen_park_rect(WIN, &[owner, below, above, right], (0, 0, 0, 0));
    let sentinel = SENTINEL;
    assert_eq!((parked.x, parked.y), (sentinel, sentinel));
    assert!(![owner, below, above, right]
        .iter()
        .any(|m| parked.intersects(m)));
}

#[test]
fn falls_back_to_the_far_sentinel_when_boxed_in_on_all_sides() {
    const WIN: Rect = Rect {
        x: 6000,
        y: 10,
        width: 800,
        height: 600,
    };
    let owner = Rect::new(0, 0, 1000, 1000);
    let neighbors = [
        owner,
        Rect::new(-2000, 0, 2000, 1000),
        Rect::new(1000, 0, 2000, 1000),
        Rect::new(0, -2000, 1000, 2000),
        Rect::new(0, 1000, 1000, 2000),
    ];
    let parked = offscreen_park_rect(WIN, &neighbors, (0, 0, 0, 0));
    let sentinel = SENTINEL;
    assert_eq!((parked.x, parked.y), (sentinel, sentinel));
}

#[test]
fn wrapper_reparks_bleeding_hidden_and_leaves_projection_to_slice_visible() {
    let owner = monitor(1, 0, 0, 5120, 1440);
    let right = monitor(2, 5120, 0, 1920, 1080);
    let monitors = vec![owner, right];
    let visible = Rect::new(5200, 10, 400, 400);
    let non_bleed = Rect::new(-500, 10, 400, 400);
    let bleeding = Rect::new(5300, 10, 400, 400);
    let mut placements = vec![
        placement(10, visible, Visibility::Visible),
        placement(20, non_bleed, Visibility::OffScreenLeft),
        placement(30, bleeding, Visibility::OffScreenRight),
    ];
    park_offscreen_avoiding_neighbors(&mut placements, 1, &monitors);
    assert_eq!(
        placements[1].rect, non_bleed,
        "non-bleeding off-screen untouched"
    );
    assert_ne!(placements[2].rect, bleeding, "bleeding placement re-parked");
    assert!(![owner.rect, right.rect]
        .iter()
        .any(|m| placements[2].rect.intersects(m)));
    match project_physical_rect(visible, owner.rect, &[owner.rect, right.rect]) {
        PhysicalDecision::Constrained { rect, axes } => {
            assert!(axes.right);
            assert_eq!(rect.x + rect.width, owner.rect.x + owner.rect.width);
        }
        PhysicalDecision::Parked { .. } => {}
        other => panic!("visible crossing must be projected, got {other:?}"),
    }
}

#[test]
fn wrapper_is_a_no_op_when_the_owner_monitor_is_missing() {
    let right = monitor(2, 5120, 0, 1920, 1080);
    let monitors = vec![right];
    let orig = Rect::new(5300, 10, 400, 400);
    let mut placements = vec![placement(30, orig, Visibility::OffScreenRight)];
    park_offscreen_avoiding_neighbors(&mut placements, 1, &monitors);
    assert_eq!(placements[0].rect, orig);
}

#[test]
fn decorated_extent_reuses_projection() {
    let owner = owner_5120();
    let neighbor = neighbor_800();
    let content = Rect::new(5000, 10, 200, 400);
    let overlay = expand_border_overlay(content, 4, true);
    assert!(overlay.width > content.width);
    match project_physical_rect(overlay, owner, &[owner, neighbor]) {
        PhysicalDecision::Constrained { rect, axes } => {
            assert!(axes.right);
            assert_eq!(rect.x + rect.width, owner.x + owner.width);
        }
        other => panic!("{other:?}"),
    }
}

#[test]
fn monitor_order_does_not_matter() {
    let owner = Rect::new(0, 0, 1000, 1000);
    let right = Rect::new(1000, 0, 800, 1000);
    let bottom = Rect::new(0, 1000, 1000, 600);
    let window = Rect::new(800, 800, 400, 400);
    assert_eq!(
        project_physical_rect(window, owner, &[owner, right, bottom]),
        project_physical_rect(window, owner, &[bottom, owner, right]),
    );
    assert_eq!(
        sorted_topology(&[right, owner, bottom]),
        vec![
            (0, 0, 1000, 1000),
            (0, 1000, 1000, 600),
            (1000, 0, 800, 1000)
        ],
    );
    let a = monitor(7, 0, 0, 10, 20);
    let b = monitor(3, 10, 0, 30, 40);
    let rows = vec![(3, 10, 0, 30, 40, 1000), (7, 0, 0, 10, 20, 1000)];
    assert_eq!(topology_signature(&vec![a, b]), rows);
    assert_eq!(topology_signature(&vec![b, a]), rows);
    assert_eq!(monitor_rects(&vec![a, b]), vec![a.rect, b.rect]);
}

#[test]
fn windows_without_area_are_left_alone() {
    let owner = Rect::new(0, 0, 1000, 1000);
    let right = Rect::new(1000, 0, 800, 1000);
    for window in [Rect::new(900, 0, 0, 100), Rect::new(900, 0, 200, -1)] {
        assert_eq!(
            project_physical_rect(window, owner, &[owner, right]),
            PhysicalDecision::Unchanged
        );
    }
}

#[test]
fn decisions_name_their_kind_and_axes() {
    let axes = ConstrainedAxes {
        top: true,
        ..ConstrainedAxes::default()
    };
    let rect = Rect::new(0, 0, 10, 10);
    let constrained = PhysicalDecision::Constrained { rect, axes };
    assert_eq!(constrained.kind(), PhysicalKind::Constrained);
    assert_eq!(constrained.axes(), axes);
    assert!(axes.any() && axes.height() && !axes.width());
    let parked = PhysicalDecision::Parked { rect };
    assert_eq!(parked.kind(), PhysicalKind::Parked);
    assert!(!parked.axes().any());
    assert_eq!(PhysicalDecision::Unchanged.kind(), PhysicalKind::Unchanged);
}

#[test]
fn arithmetic_saturates_at_the_ends() {
    assert_eq!(i32_sat(i64::MAX), i32::MAX);
    assert_eq!(i32_sat(i64::MIN), i32::MIN);
    assert_eq!(i32_sat(-7), -7);
    assert_eq!(sat_sum(i32::MAX, 1), i32::MAX);
    assert_eq!(sat_sum(i32::MIN, -1), i32::MIN);
    assert_eq!(sat_difference(i32::MIN, 1), i32::MIN);
    assert_eq!(sat_difference(3, 5), -2);
    assert_eq!(edge_end(i32::MAX, i32::MAX), 2 * i32::MAX as i64);
    assert_eq!(overlap_len(0, 10, 4, 20), 6);
    assert_eq!(overlap_len(0, 10, 10, 20), 0);
}

#[test]
fn rect_relations_are_strict() {
    let a = Rect::new(0, 0, 10, 10);
    let touching = Rect::new(10, 0, 10, 10);
    let crossing = Rect::new(9, 9, 10, 10);
    assert!(rects_equal(a, a) && !rects_equal(a, touching));
    assert!(!rects_overlap_positive(a, touching));
    assert!(rects_overlap_positive(a, crossing));
    assert_eq!(union_rects(a, crossing), Rect::new(0, 0, 19, 19));
}

#[test]
fn decorations_grow_round_their_window() {
    let content = Rect::new(100, 100, 200, 300);
    assert_eq!(
        expand_border_overlay(content, 4, true),
        Rect::new(97, 97, 206, 306)
    );
    assert_eq!(expand_border_overlay(content, 4, false), content);
    assert_eq!(
        tab_strip_rect(content, 28, 8),
        Rect::new(100, 64, 200, 28)
    );
}
