//! What the projection onto the owning monitor leaves on screen, pixel by pixel.
//!
//! A pixel `(px, py)` belongs to a rectangle if `x <= px < x + width` and
//! `y <= py < y + height`; the laws speak of these coordinates alone.

use vstd::prelude::*;

use crate::physical_laws::{law_presented_window_leaves_touching_neighbors, lemma_park_coordinate};
use crate::physical_placement::{
    bleeds, clears, clipped_at, clipped_axes, clipped_by, contained, decision, followed_up,
    overlaps, park_coordinate, park_place, presented, projection, rects_of, reparked, touching_edge,
    union_of, ConstrainedAxes, ContextView, ObservationView, PhysicalDecision, PhysicalKind,
    SharedEdge,
};
use crate::types::{
    clamp_i32, larger, native_of, smaller, MonitorId, MonitorInfo, NativeWindow, Rect, Visibility,
    WindowId, WindowPlacement,
};

verus! {

/// Whether a pixel belongs to a rectangle.
pub open spec fn pixel_in(rect: Rect, px: int, py: int) -> bool {
    rect.x <= px && px < rect.x + rect.width && rect.y <= py && py < rect.y + rect.height
}

/// Whether the right edge of one monitor runs along the left edge of another,
/// over at least the row `at`.
pub open spec fn borders_right(owner: Rect, neighbor: Rect, at: int) -> bool {
    &&& neighbor.x == owner.x + owner.width
    &&& owner.y <= at && at < owner.y + owner.height
    &&& neighbor.y <= at && at < neighbor.y + neighbor.height
}

/// Whether the bottom edge of one monitor runs along the top edge of another,
/// over at least the column `at`.
pub open spec fn borders_bottom(owner: Rect, neighbor: Rect, at: int) -> bool {
    &&& neighbor.y == owner.y + owner.height
    &&& owner.x <= at && at < owner.x + owner.width
    &&& neighbor.x <= at && at < neighbor.x + neighbor.width
}

/// Whether two monitors share a positive length of border, at least at the row
/// or column `at`.
pub open spec fn share_border(owner: Rect, neighbor: Rect, at: int) -> bool {
    ||| borders_right(owner, neighbor, at)
    ||| borders_right(neighbor, owner, at)
    ||| borders_bottom(owner, neighbor, at)
    ||| borders_bottom(neighbor, owner, at)
}

/// Monitors that share a border touch.
proof fn lemma_border_touches(owner: Rect, neighbor: Rect, at: int)
    requires
        share_border(owner, neighbor, at),
    ensures
        touching_edge(owner, neighbor) is Some,
{
}

/// A pixel of two rectangles is an overlap.
proof fn lemma_pixel_overlaps(a: Rect, b: Rect, px: int, py: int)
    requires
        pixel_in(a, px, py),
        pixel_in(b, px, py),
    ensures
        overlaps(a, b),
        a.meets(b),
{
}

/// Overlapping rectangles have a pixel in common, and rectangles with a pixel
/// in common overlap.
pub proof fn law_overlap_is_a_common_pixel(a: Rect, b: Rect, px: int, py: int)
    ensures
        pixel_in(a, px, py) && pixel_in(b, px, py) ==> overlaps(a, b) && a.meets(b),
        overlaps(a, b) ==> exists|x: int, y: int| #[trigger] pixel_in(a, x, y) && pixel_in(b, x, y),
        a.width > 0 && a.height > 0 && b.width > 0 && b.height > 0 ==> (a.meets(b) == overlaps(
            a,
            b,
        )),
        a.meets(b) == b.meets(a),
{
    if overlaps(a, b) {
        let x = if a.x >= b.x { a.x as int } else { b.x as int };
        let y = if a.y >= b.y { a.y as int } else { b.y as int };
        assert(pixel_in(a, x, y) && pixel_in(b, x, y));
    }
}

/// Whatever is left on screen of a window shows no pixel on a monitor that
/// shares a border with the owner, however the two are aligned: neither the
/// unchanged window nor a slice of it does.
pub proof fn law_presented_pixels_stay_off_bordering_monitors(
    window: Rect,
    owner: Rect,
    monitors: Seq<Rect>,
    sentinel: i32,
    i: int,
    at: int,
    px: int,
    py: int,
)
    requires
        window.width > 0,
        window.height > 0,
        0 <= i < monitors.len(),
        monitors[i] != owner,
        share_border(owner, monitors[i], at),
        pixel_in(monitors[i], px, py),
    ensures
        match projection(window, owner, monitors, sentinel) {
            PhysicalDecision::Unchanged => !pixel_in(window, px, py),
            PhysicalDecision::Constrained { rect, .. } => !pixel_in(rect, px, py),
            PhysicalDecision::Parked { .. } => true,
        },
{
    let neighbor = monitors[i];
    assert(monitors.contains(neighbor));
    lemma_border_touches(owner, neighbor, at);
    law_presented_window_leaves_touching_neighbors(window, owner, monitors, sentinel, neighbor);
    match projection(window, owner, monitors, sentinel) {
        PhysicalDecision::Unchanged => {
            if pixel_in(window, px, py) {
                lemma_pixel_overlaps(window, neighbor, px, py);
            }
        },
        PhysicalDecision::Constrained { rect, .. } => {
            if pixel_in(rect, px, py) {
                lemma_pixel_overlaps(rect, neighbor, px, py);
            }
        },
        PhysicalDecision::Parked { .. } => {},
    }
}

/// A window is not touched without need: it is left alone unless it reaches
/// onto another monitor, and each edge is cut only for a monitor that runs along
/// that edge of the owner and that the window reaches onto.
pub proof fn law_window_is_cut_only_for_a_bordering_monitor(
    window: Rect,
    owner: Rect,
    monitors: Seq<Rect>,
    sentinel: i32,
)
    ensures
        window.width <= 0 || window.height <= 0 ==> projection(window, owner, monitors, sentinel)
            == PhysicalDecision::Unchanged,
        projection(window, owner, monitors, sentinel) != PhysicalDecision::Unchanged ==> exists|
            i: int,
            px: int,
            py: int,
        |
            0 <= i < monitors.len() && monitors[i] != owner && #[trigger] pixel_in(
                monitors[i],
                px,
                py,
            ) && pixel_in(window, px, py),
        projection(window, owner, monitors, sentinel) matches PhysicalDecision::Constrained {
            axes,
            ..
        } ==> {
            &&& axes.right ==> exists|i: int, at: int|
                0 <= i < monitors.len() && #[trigger] borders_right(owner, monitors[i], at)
            &&& axes.left ==> exists|i: int, at: int|
                0 <= i < monitors.len() && #[trigger] borders_right(monitors[i], owner, at)
            &&& axes.bottom ==> exists|i: int, at: int|
                0 <= i < monitors.len() && #[trigger] borders_bottom(owner, monitors[i], at)
            &&& axes.top ==> exists|i: int, at: int|
                0 <= i < monitors.len() && #[trigger] borders_bottom(monitors[i], owner, at)
        },
{
    let axes = clipped_axes(window, owner, monitors);
    if axes.right {
        lemma_cut_witness(window, owner, monitors, SharedEdge::Right);
    }
    if axes.left {
        lemma_cut_witness(window, owner, monitors, SharedEdge::Left);
    }
    if axes.bottom {
        lemma_cut_witness(window, owner, monitors, SharedEdge::Bottom);
    }
    if axes.top {
        lemma_cut_witness(window, owner, monitors, SharedEdge::Top);
    }
}

/// The monitor that a window is cut for.
proof fn lemma_cut_witness(window: Rect, owner: Rect, monitors: Seq<Rect>, edge: SharedEdge)
    requires
        clipped_at(window, owner, monitors, edge),
    ensures
        exists|i: int, px: int, py: int|
            0 <= i < monitors.len() && monitors[i] != owner && #[trigger] pixel_in(
                monitors[i],
                px,
                py,
            ) && pixel_in(window, px, py),
        match edge {
            SharedEdge::Right => exists|i: int, at: int|
                0 <= i < monitors.len() && #[trigger] borders_right(owner, monitors[i], at),
            SharedEdge::Left => exists|i: int, at: int|
                0 <= i < monitors.len() && #[trigger] borders_right(monitors[i], owner, at),
            SharedEdge::Bottom => exists|i: int, at: int|
                0 <= i < monitors.len() && #[trigger] borders_bottom(owner, monitors[i], at),
            SharedEdge::Top => exists|i: int, at: int|
                0 <= i < monitors.len() && #[trigger] borders_bottom(monitors[i], owner, at),
        },
{
    let i = choose|i: int|
        0 <= i < monitors.len() && clipped_by(window, owner, #[trigger] monitors[i], edge);
    let m = monitors[i];
    let x = larger(window.x as int, m.x as int);
    let y = larger(window.y as int, m.y as int);
    assert(pixel_in(m, x, y) && pixel_in(window, x, y));
    let row = larger(owner.y as int, m.y as int);
    let column = larger(owner.x as int, m.x as int);
    match edge {
        SharedEdge::Right => {
            assert(borders_right(owner, m, row));
        },
        SharedEdge::Left => {
            assert(borders_right(m, owner, row));
        },
        SharedEdge::Bottom => {
            assert(borders_bottom(owner, m, column));
        },
        SharedEdge::Top => {
            assert(borders_bottom(m, owner, column));
        },
    }
}

/// Nothing that the owner shows of a window is lost: a slice holds every pixel
/// of the window on the owner and none but the window's own, and only a window
/// without a pixel on the owner is parked.
pub proof fn law_slice_keeps_every_pixel_on_the_owner(
    window: Rect,
    owner: Rect,
    monitors: Seq<Rect>,
    sentinel: i32,
    px: int,
    py: int,
)
    ensures
        match projection(window, owner, monitors, sentinel) {
            PhysicalDecision::Unchanged => true,
            PhysicalDecision::Constrained { rect, .. } => {
                &&& pixel_in(window, px, py) && pixel_in(owner, px, py) ==> pixel_in(rect, px, py)
                &&& pixel_in(rect, px, py) ==> pixel_in(window, px, py)
            },
            PhysicalDecision::Parked { .. } => !(pixel_in(window, px, py) && pixel_in(
                owner,
                px,
                py,
            )),
        },
{
}

/// The edge of a monitor that another touches is the one it runs along; seen
/// from the other monitor it is the opposite edge.
pub proof fn law_touching_edge_is_the_common_border(owner: Rect, neighbor: Rect, at: int)
    requires
        owner.width > 0,
        owner.height > 0,
        neighbor.width > 0,
        neighbor.height > 0,
    ensures
        borders_right(owner, neighbor, at) ==> touching_edge(owner, neighbor) == Some(
            SharedEdge::Right,
        ) && touching_edge(neighbor, owner) == Some(SharedEdge::Left),
        borders_bottom(owner, neighbor, at) ==> touching_edge(owner, neighbor) == Some(
            SharedEdge::Bottom,
        ) && touching_edge(neighbor, owner) == Some(SharedEdge::Top),
        touching_edge(owner, neighbor) is Some ==> exists|a: int| #[trigger]
            share_border(owner, neighbor, a),
        touching_edge(owner, neighbor) is Some ==> !owner.meets(neighbor),
{
    if touching_edge(owner, neighbor) is Some {
        let row = larger(owner.y as int, neighbor.y as int);
        let column = larger(owner.x as int, neighbor.x as int);
        match touching_edge(owner, neighbor)->0 {
            SharedEdge::Right | SharedEdge::Left => {
                assert(share_border(owner, neighbor, row));
            },
            _ => {
                assert(share_border(owner, neighbor, column));
            },
        }
    }
}

/// Where the projection of a slice is read back with no tolerance, a landing
/// that is judged contained reaches past none of the cut edges of the owner and
/// is no larger than the slice along a cut axis.
pub proof fn law_contained_landing_reaches_past_no_cut_edge(
    requested: Rect,
    actual: Rect,
    owner: Rect,
    axes: ConstrainedAxes,
)
    requires
        contained(requested, actual, owner, axes, 0),
    ensures
        axes.left ==> actual.x >= owner.x,
        axes.right ==> actual.x + actual.width <= owner.x + owner.width,
        axes.top ==> actual.y >= owner.y,
        axes.bottom ==> actual.y + actual.height <= owner.y + owner.height,
        axes.left || axes.right ==> actual.width <= requested.width,
        axes.top || axes.bottom ==> actual.height <= requested.height,
{
}

/// A landing that is judged contained shows no pixel on a monitor that runs
/// along an edge at which the window was cut.
pub proof fn law_contained_landing_stays_off_the_neighbor(
    requested: Rect,
    actual: Rect,
    owner: Rect,
    axes: ConstrainedAxes,
    neighbor: Rect,
    at: int,
    px: int,
    py: int,
)
    requires
        contained(requested, actual, owner, axes, 0),
        ({
            ||| axes.right && borders_right(owner, neighbor, at)
            ||| axes.left && borders_right(neighbor, owner, at)
            ||| axes.bottom && borders_bottom(owner, neighbor, at)
            ||| axes.top && borders_bottom(neighbor, owner, at)
        }),
        pixel_in(neighbor, px, py),
    ensures
        !pixel_in(actual, px, py),
{
}

/// A landing is contained exactly if, at each cut edge, it exceeds the owner by
/// no more than the tolerance, and along each cut axis the requested size by no
/// more than that. More tolerance never rules a landing out.
pub proof fn law_containment_allows_for_the_tolerance(
    requested: Rect,
    actual: Rect,
    owner: Rect,
    axes: ConstrainedAxes,
    tolerance: i32,
    more: i32,
)
    requires
        0 <= tolerance <= more,
        requested.width + more <= i32::MAX,
        requested.height + more <= i32::MAX,
    ensures
        contained(requested, actual, owner, axes, tolerance) <==> {
            &&& axes.left ==> owner.x - actual.x <= tolerance
            &&& axes.right ==> (actual.x + actual.width) - (owner.x + owner.width) <= tolerance
            &&& axes.top ==> owner.y - actual.y <= tolerance
            &&& axes.bottom ==> (actual.y + actual.height) - (owner.y + owner.height) <= tolerance
            &&& axes.left || axes.right ==> actual.width - requested.width <= tolerance
            &&& axes.top || axes.bottom ==> actual.height - requested.height <= tolerance
        },
        contained(requested, actual, owner, axes, tolerance) ==> contained(
            requested,
            actual,
            owner,
            axes,
            more,
        ),
{
}

/// A window that lands anywhere within its slice is contained.
pub proof fn law_landing_within_the_slice_is_contained(
    window: Rect,
    owner: Rect,
    monitors: Seq<Rect>,
    sentinel: i32,
    actual: Rect,
)
    requires
        projection(window, owner, monitors, sentinel) matches PhysicalDecision::Constrained {
            rect,
            ..
        } && rect.x <= actual.x && actual.x + actual.width <= rect.x + rect.width && rect.y
            <= actual.y && actual.y + actual.height <= rect.y + rect.height,
    ensures
        projection(window, owner, monitors, sentinel) matches PhysicalDecision::Constrained {
            rect,
            axes,
        } && contained(rect, actual, owner, axes, 0),
{
}

/// The width of a frame: that of the window, at least one pixel, and the inset
/// to its right or below it.
pub open spec fn framed(extent: i32, inset: i32) -> int {
    (if extent >= 1 { extent as int } else { 1 }) + (if inset >= 0 { inset as int } else { 0 })
}

/// The parking place is the nearest one to the sentinel that clears every
/// monitor: its frame ends at or before each monitor, each coordinate is at or
/// before the sentinel, and is either the sentinel or flush with some monitor.
/// What `i32` cannot hold is held to its least value.
pub proof fn law_parking_place_is_the_nearest_clear_one(
    window: Rect,
    monitors: Seq<Rect>,
    insets: (i32, i32, i32, i32),
    sentinel: i32,
)
    ensures
        ({
            let parked = park_place(window, monitors, insets, sentinel);
            let w = framed(window.width, insets.2);
            let h = framed(window.height, insets.3);
            &&& parked.width == window.width && parked.height == window.height
            &&& parked.x <= sentinel && parked.y <= sentinel
            &&& parked.x > i32::MIN ==> forall|i: int|
                0 <= i < monitors.len() ==> parked.x + w <= (#[trigger] monitors[i]).x
            &&& parked.y > i32::MIN ==> forall|i: int|
                0 <= i < monitors.len() ==> parked.y + h <= (#[trigger] monitors[i]).y
            &&& parked.x == sentinel || exists|i: int|
                0 <= i < monitors.len() && parked.x + w >= (#[trigger] monitors[i]).x
            &&& parked.y == sentinel || exists|i: int|
                0 <= i < monitors.len() && parked.y + h >= (#[trigger] monitors[i]).y
        }),
{
    let parked = park_place(window, monitors, insets, sentinel);
    let xs = monitors.map_values(|m: Rect| m.x as int);
    let ys = monitors.map_values(|m: Rect| m.y as int);
    let w = framed(window.width, insets.2);
    let h = framed(window.height, insets.3);
    lemma_park_coordinate(xs, w, sentinel as int);
    lemma_park_coordinate(ys, h, sentinel as int);
    assert forall|i: int| 0 <= i < monitors.len() && parked.x > i32::MIN implies parked.x + w <= (
    #[trigger] monitors[i]).x by {
        assert(xs[i] == monitors[i].x);
    }
    assert forall|i: int| 0 <= i < monitors.len() && parked.y > i32::MIN implies parked.y + h <= (
    #[trigger] monitors[i]).y by {
        assert(ys[i] == monitors[i].y);
    }
    if park_coordinate(xs, w, sentinel as int) != sentinel {
        let i = choose|i: int|
            0 <= i < xs.len() && park_coordinate(xs, w, sentinel as int) == #[trigger] xs[i] - w;
        assert(parked.x + w >= monitors[i].x);
    }
    if park_coordinate(ys, h, sentinel as int) != sentinel {
        let i = choose|i: int|
            0 <= i < ys.len() && park_coordinate(ys, h, sentinel as int) == #[trigger] ys[i] - h;
        assert(parked.y + h >= monitors[i].y);
    }
}

/// A parked window shows no pixel on any monitor, as long as its place is one
/// that `i32` can hold.
pub proof fn law_parked_pixels_are_on_no_monitor(
    window: Rect,
    monitors: Seq<Rect>,
    insets: (i32, i32, i32, i32),
    sentinel: i32,
    i: int,
    px: int,
    py: int,
)
    requires
        0 <= i < monitors.len(),
        park_place(window, monitors, insets, sentinel).x > i32::MIN,
        pixel_in(monitors[i], px, py),
    ensures
        !pixel_in(park_place(window, monitors, insets, sentinel), px, py),
{
    law_parking_place_is_the_nearest_clear_one(window, monitors, insets, sentinel);
}

/// What decides: without a rejection seen before, or with one seen under other
/// circumstances, the projection; a slice that is too small for what the
/// application was seen to require is parked, and no other.
pub proof fn law_only_a_rejected_slice_is_parked(
    window: Rect,
    owner: Rect,
    monitors: Seq<Rect>,
    seen: ObservationView,
    context: ContextView,
    sentinel: i32,
)
    ensures
        decision(window, owner, monitors, None, context, sentinel) is Unchanged <==> projection(
            window,
            owner,
            monitors,
            sentinel,
        ) is Unchanged,
        decision(window, owner, monitors, Some(seen), context, sentinel) is Unchanged
            <==> projection(window, owner, monitors, sentinel) is Unchanged,
        projection(window, owner, monitors, sentinel) is Parked ==> decision(
            window,
            owner,
            monitors,
            Some(seen),
            context,
            sentinel,
        ) == decision(window, owner, monitors, None, context, sentinel),
        projection(window, owner, monitors, sentinel) matches PhysicalDecision::Constrained {
            rect,
            axes,
        } ==> {
            let unseen = decision(window, owner, monitors, None, context, sentinel);
            let seen_now = decision(window, owner, monitors, Some(seen), context, sentinel);
            let too_narrow = (axes.left || axes.right) && seen.width_affected && rect.width
                < seen.required_width;
            let too_low = (axes.top || axes.bottom) && seen.height_affected && rect.height
                < seen.required_height;
            &&& unseen == PhysicalDecision::Constrained { rect, axes }
            &&& !(too_narrow || too_low) ==> seen_now == unseen
            &&& !seen.context.agrees(context, axes) ==> seen_now == unseen
            &&& (too_narrow || too_low) && seen.context.agrees(context, axes) ==> seen_now is Parked
        },
{
}

/// A parked window keeps clear of the monitors with the frame it has: one that
/// no slice is left of with the insets of its frame, one that rejected its slice
/// with the outer size it was measured at.
pub proof fn law_parked_decision_clears_the_monitors(
    window: Rect,
    owner: Rect,
    monitors: Seq<Rect>,
    observation: Option<ObservationView>,
    context: ContextView,
    sentinel: i32,
    i: int,
)
    requires
        0 <= i < monitors.len(),
        window.width > 0,
        window.height > 0,
    ensures
        decision(window, owner, monitors, observation, context, sentinel)
            matches PhysicalDecision::Parked { rect } ==> {
            &&& rect.x <= sentinel && rect.y <= sentinel
            &&& rect.x > i32::MIN ==> rect.x + rect.width <= monitors[i].x
            &&& rect.y > i32::MIN ==> rect.y + rect.height <= monitors[i].y
            &&& rect.width >= window.width && rect.height >= window.height
            &&& projection(window, owner, monitors, sentinel) is Parked ==> {
                &&& rect.width == window.width && rect.height == window.height
                &&& rect.x > i32::MIN ==> rect.x + rect.width + context.insets.2 <= monitors[i].x
                &&& rect.y > i32::MIN ==> rect.y + rect.height + context.insets.3 <= monitors[i].y
            }
            &&& projection(window, owner, monitors, sentinel) is Constrained ==> (observation
                matches Some(seen) && rect.width >= seen.retained_outer_width && rect.height
                >= seen.retained_outer_height)
        },
{
    law_parking_place_is_the_nearest_clear_one(window, monitors, context.insets, sentinel);
    if let Some(seen) = observation {
        let retained = Rect {
            x: window.x,
            y: window.y,
            width: if seen.retained_outer_width >= window.width {
                seen.retained_outer_width
            } else {
                window.width
            },
            height: if seen.retained_outer_height >= window.height {
                seen.retained_outer_height
            } else {
                window.height
            },
        };
        law_parking_place_is_the_nearest_clear_one(retained, monitors, (0, 0, 0, 0), sentinel);
    }
}

/// A rejection speaks for a context exactly if that has the same owner at the
/// same place, the same monitors, scale, insets and style, and the same extent
/// across each cut axis.
pub proof fn law_context_agrees_field_by_field(
    a: ContextView,
    b: ContextView,
    axes: ConstrainedAxes,
)
    ensures
        a.agrees(b, axes) <==> {
            &&& a.owner_id == b.owner_id && a.owner_rect == b.owner_rect
            &&& a.topology == b.topology && a.scale_milli == b.scale_milli
            &&& a.insets == b.insets && a.native_style == b.native_style
            &&& axes.left || axes.right ==> a.window_height == b.window_height
            &&& axes.top || axes.bottom ==> a.window_width == b.window_width
        },
{
}

/// A decision is carried out: nothing changes, or the window is shown in its
/// slice, or hidden at its parking place. Window and column stay.
pub proof fn law_decision_is_carried_out(logical: WindowPlacement, decided: PhysicalDecision)
    ensures
        presented(logical, decided).window_id == logical.window_id,
        presented(logical, decided).column_index == logical.column_index,
        match decided {
            PhysicalDecision::Unchanged => presented(logical, decided) == logical
                && decided.kind_of() == PhysicalKind::Unchanged,
            PhysicalDecision::Constrained { rect, axes } => presented(logical, decided).rect == rect
                && presented(logical, decided).visibility == Visibility::Visible
                && decided.kind_of() == PhysicalKind::Constrained && decided.axes_of() == axes,
            PhysicalDecision::Parked { rect } => presented(logical, decided).rect == rect
                && presented(logical, decided).visibility == Visibility::OffScreenRight
                && decided.kind_of() == PhysicalKind::Parked && !decided.axes_of().clips(),
        },
{
}

/// A hidden placement that shows a pixel on another's monitor is moved to where
/// it shows none on any; every other placement stays as it is.
pub proof fn law_hidden_placement_leaves_the_monitors_of_others(
    placement: WindowPlacement,
    owner_id: MonitorId,
    monitors: Seq<MonitorInfo>,
    natives: Map<WindowId, NativeWindow>,
    sentinel: i32,
    i: int,
    px: int,
    py: int,
)
    requires
        0 <= i < monitors.len(),
    ensures
        ({
            let after = reparked(placement, owner_id, monitors, natives, sentinel);
            &&& after.window_id == placement.window_id
            &&& after.visibility == placement.visibility
            &&& after.column_index == placement.column_index
            &&& after.rect.width == placement.rect.width
            &&& after.rect.height == placement.rect.height
            &&& placement.visibility == Visibility::Visible ==> after == placement
            &&& placement.visibility != Visibility::Visible && monitors[i].id != owner_id
                && after.rect.x > i32::MIN ==> !(pixel_in(after.rect, px, py) && pixel_in(
                monitors[i].rect,
                px,
                py,
            ))
            &&& after != placement ==> {
                &&& after.rect.x > i32::MIN ==> !(pixel_in(after.rect, px, py) && pixel_in(
                    monitors[i].rect,
                    px,
                    py,
                ))
                &&& exists|j: int|
                    0 <= j < monitors.len() && (#[trigger] monitors[j]).id != owner_id
                        && placement.rect.x < monitors[j].rect.x + monitors[j].rect.width
                        && monitors[j].rect.x < placement.rect.x + placement.rect.width
                        && placement.rect.y < monitors[j].rect.y + monitors[j].rect.height
                        && monitors[j].rect.y < placement.rect.y + placement.rect.height
            }
        }),
{
    let after = reparked(placement, owner_id, monitors, natives, sentinel);
    let rects = rects_of(monitors);
    assert(rects[i] == monitors[i].rect);
    if after != placement {
        law_parking_place_is_the_nearest_clear_one(
            placement.rect,
            rects,
            native_of(natives, placement.window_id).insets,
            sentinel,
        );
        assert(bleeds(placement.rect, owner_id, monitors));
    } else if placement.visibility != Visibility::Visible && monitors[i].id != owner_id {
        if pixel_in(placement.rect, px, py) && pixel_in(monitors[i].rect, px, py) {
            lemma_pixel_overlaps(placement.rect, monitors[i].rect, px, py);
            assert(bleeds(placement.rect, owner_id, monitors));
            law_parking_place_is_the_nearest_clear_one(
                placement.rect,
                rects,
                native_of(natives, placement.window_id).insets,
                sentinel,
            );
        }
    }
}

/// A rectangle clears the monitors exactly if it meets none of them; then it has
/// no pixel on any.
pub proof fn law_clearing_leaves_no_pixel(
    actual: Rect,
    monitors: Seq<Rect>,
    i: int,
    px: int,
    py: int,
)
    requires
        0 <= i < monitors.len(),
    ensures
        clears(actual, monitors) ==> !(pixel_in(actual, px, py) && pixel_in(monitors[i], px, py)),
        (forall|j: int|
            0 <= j < monitors.len() ==> (actual.x + actual.width <= (#[trigger] monitors[j]).x
                || monitors[j].x + monitors[j].width <= actual.x || actual.y + actual.height
                <= monitors[j].y || monitors[j].y + monitors[j].height <= actual.y)) ==> clears(
            actual,
            monitors,
        ),
{
    if pixel_in(actual, px, py) && pixel_in(monitors[i], px, py) {
        lemma_pixel_overlaps(actual, monitors[i], px, py);
    }
}

/// A failed slice is parked, hidden and off every monitor, at the size its frame
/// was measured at; every other placement is repeated.
pub proof fn law_failed_slice_is_hidden_off_every_monitor(
    placement: WindowPlacement,
    failed: Set<WindowId>,
    retained: Map<WindowId, Rect>,
    monitors: Seq<Rect>,
    sentinel: i32,
    i: int,
)
    ensures
        ({
            let after = followed_up(placement, failed, retained, monitors, sentinel);
            &&& after.window_id == placement.window_id
            &&& after.column_index == placement.column_index
            &&& !failed.contains(placement.window_id) ==> after == placement
            &&& failed.contains(placement.window_id) ==> {
                &&& after.visibility == Visibility::OffScreenRight
                &&& after.rect.x <= sentinel && after.rect.y <= sentinel
                &&& 0 <= i < monitors.len() && after.rect.x > i32::MIN ==> after.rect.x
                    + after.rect.width <= monitors[i].x
                &&& 0 <= i < monitors.len() && after.rect.y > i32::MIN ==> after.rect.y
                    + after.rect.height <= monitors[i].y
                &&& retained.contains_key(placement.window_id) ==> after.rect.width
                    == retained[placement.window_id].width && after.rect.height
                    == retained[placement.window_id].height
                &&& !retained.contains_key(placement.window_id) ==> after.rect.width
                    == placement.rect.width && after.rect.height == placement.rect.height
            }
        }),
{
    if failed.contains(placement.window_id) {
        let size = if retained.contains_key(placement.window_id) {
            retained[placement.window_id]
        } else {
            placement.rect
        };
        law_parking_place_is_the_nearest_clear_one(size, monitors, (0, 0, 0, 0), sentinel);
    }
}

/// The union of two rectangles is the smallest rectangle around them, where its
/// size fits: it holds every pixel of both, and lies within every rectangle that
/// holds both.
pub proof fn law_union_is_the_smallest_cover(
    a: Rect,
    b: Rect,
    cover: Rect,
    px: int,
    py: int,
)
    requires
        a.x + a.width - b.x <= i32::MAX,
        b.x + b.width - a.x <= i32::MAX,
        a.y + a.height - b.y <= i32::MAX,
        b.y + b.height - a.y <= i32::MAX,
        a.width >= 0 && a.height >= 0 && b.width >= 0 && b.height >= 0,
    ensures
        pixel_in(a, px, py) || pixel_in(b, px, py) ==> pixel_in(union_of(a, b), px, py),
        cover.x <= a.x && a.x + a.width <= cover.x + cover.width && cover.x <= b.x && b.x + b.width
            <= cover.x + cover.width ==> cover.x <= union_of(a, b).x && union_of(a, b).x + union_of(
            a,
            b,
        ).width <= cover.x + cover.width,
        cover.y <= a.y && a.y + a.height <= cover.y + cover.height && cover.y <= b.y && b.y
            + b.height <= cover.y + cover.height ==> cover.y <= union_of(a, b).y && union_of(
            a,
            b,
        ).y + union_of(a, b).height <= cover.y + cover.height,
{
}

/// Holding a number to the `i32` range leaves one in range alone and takes any
/// other to the nearer end.
pub proof fn law_held_number_is_the_nearest(value: int, other: int)
    requires
        -0x8000_0000 <= other <= 0x7fff_ffff,
    ensures
        -0x8000_0000 <= clamp_i32(value) <= 0x7fff_ffff,
        -0x8000_0000 <= value <= 0x7fff_ffff ==> clamp_i32(value) == value,
        value <= other ==> clamp_i32(value) <= other,
        other <= value ==> other <= clamp_i32(value),
        larger(value, other) >= value && larger(value, other) >= other,
        larger(value, other) == value || larger(value, other) == other,
        smaller(value, other) <= value && smaller(value, other) <= other,
        smaller(value, other) == value || smaller(value, other) == other,
{
}

/// The rectangles of the monitors are those of the monitors, in their order.
pub proof fn law_monitor_rects_are_the_monitors_own(monitors: Seq<MonitorInfo>, i: int)
    requires
        0 <= i < monitors.len(),
    ensures
        rects_of(monitors).len() == monitors.len(),
        rects_of(monitors)[i] == monitors[i].rect,
{
}

} // verus!
