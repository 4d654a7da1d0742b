use leopardwm::reel_geometry::{ReelGeometry, ReelSide};
use leopardwm::types::Rect;

#[test]
fn sides_flip_and_flip_back() {
    assert_eq!(ReelSide::Left.flipped(), ReelSide::Right);
    assert_eq!(ReelSide::Right.flipped(), ReelSide::Left);
    assert_eq!(ReelSide::default(), ReelSide::Right);
}

#[test]
fn sanitizing_brings_values_into_range() {
    let wild = ReelGeometry {
        main_width: -1,
        main_height: -1,
        slot_width: 0,
        slot_height: -3,
        top_inset: -2,
        bottom_inset: -2,
        gap: -9,
        visible_slots: 0,
        flip_side_on_promote: true,
    };
    let clean = wild.sanitized();
    assert_eq!((clean.main_width, clean.main_height), (0, 0));
    assert!(clean.slot_width > 0 && clean.slot_height == 1);
    assert_eq!((clean.top_inset, clean.bottom_inset, clean.gap), (0, 0, 0));
    assert_eq!(clean.visible_slots, 1);
    assert_eq!(clean.sanitized(), clean);
}

#[test]
fn reference_geometry_fills_the_reference_canvas() {
    let geometry = ReelGeometry::default();
    let canvas = Rect::new(0, 0, 2560, 1440);
    assert_eq!(geometry.vertical_span(canvas), 1152);
    assert_eq!(geometry.focus_width(canvas), 2048);
    assert_eq!(geometry.focus_height(canvas), 1152);
    assert_eq!(geometry.slot_width_effective(), 512);
    assert_eq!(geometry.resolved_slot_height(canvas), 288);
    assert_eq!(geometry.cluster_width(canvas), 2560);
    assert_eq!(geometry.cluster_x(canvas), 0);
    assert_eq!(geometry.side_x(canvas, ReelSide::Right), (0, 2048));
    assert_eq!(geometry.side_x(canvas, ReelSide::Left), (512, 0));
}

#[test]
fn an_odd_gap_is_rounded_up_for_the_focus_window() {
    let geometry = ReelGeometry {
        gap: 5,
        ..ReelGeometry::default()
    };
    let canvas = Rect::new(0, 0, 2560, 1440);
    assert_eq!(geometry.slot_width_effective(), 510);
    assert_eq!(geometry.focus_width(canvas), 2045);
    assert_eq!(geometry.cluster_width(canvas), 2560);
}

#[test]
fn a_viewport_shorter_than_its_strips_has_no_span() {
    let geometry = ReelGeometry::default();
    let flat = Rect::new(0, 0, 2560, 100);
    assert_eq!(geometry.vertical_span(flat), 0);
    assert_eq!(geometry.resolved_slot_height(flat), 288);
    assert_eq!(geometry.focus_height(flat), 0);
}
