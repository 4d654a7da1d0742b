//! Properties of the physical projection as a whole.

use vstd::prelude::*;

use crate::physical_placement::{
    clears, clipped_at, clipped_axes, clipped_by, contained, overlaps, park_coordinate, park_place,
    projection, signature_rows, topology_rows, touching_edge, union_of, ConstrainedAxes,
    ContextView, PhysicalDecision, SharedEdge,
};
use crate::sorting::{ascending, lemma_ascending_ignores_order};
use crate::types::{fits_i32, larger, smaller, MonitorInfo, Rect};

verus! {

/// Two lists of rectangles hold the same rectangles, in whatever order and
/// however often.
pub open spec fn same_rects(a: Seq<Rect>, b: Seq<Rect>) -> bool {
    forall|r: Rect| #[trigger] a.contains(r) == b.contains(r)
}

/// A slice has positive size, lies within its window, is cut back exactly to
/// the owner at the clipped edges, and keeps the other edges of the window.
pub proof fn law_slice_lies_within_window_and_owner(
    window: Rect,
    owner: Rect,
    monitors: Seq<Rect>,
    sentinel: i32,
)
    ensures
        projection(window, owner, monitors, sentinel) matches PhysicalDecision::Constrained {
            rect,
            axes,
        } ==> {
            &&& rect.width > 0 && rect.height > 0
            &&& window.x <= rect.x && rect.end_x() <= window.end_x()
            &&& window.y <= rect.y && rect.end_y() <= window.end_y()
            &&& axes.clips()
            &&& rect.x == if axes.left { owner.x } else { window.x }
            &&& rect.y == if axes.top { owner.y } else { window.y }
            &&& rect.end_x() == if axes.right { owner.end_x() } else { window.end_x() }
            &&& rect.end_y() == if axes.bottom { owner.end_y() } else { window.end_y() }
        },
{
}

/// Projecting a slice again changes nothing.
pub proof fn law_projection_is_idempotent(
    window: Rect,
    owner: Rect,
    monitors: Seq<Rect>,
    sentinel: i32,
)
    ensures
        projection(window, owner, monitors, sentinel) matches PhysicalDecision::Constrained {
            rect,
            axes,
        } ==> projection(rect, owner, monitors, sentinel) == PhysicalDecision::Unchanged,
{
    if let PhysicalDecision::Constrained { rect, axes } = projection(
        window,
        owner,
        monitors,
        sentinel,
    ) {
        assert forall|edge: SharedEdge| !clipped_at(rect, owner, monitors, edge) by {
            if clipped_at(rect, owner, monitors, edge) {
                let i = choose|i: int|
                    0 <= i < monitors.len() && clipped_by(
                        rect,
                        owner,
                        #[trigger] monitors[i],
                        edge,
                    );
                assert(clipped_by(window, owner, monitors[i], edge));
                assert(clipped_at(window, owner, monitors, edge));
            }
        }
    }
}

/// What stays on screen shares no area with a monitor that exactly touches the
/// owner: neither an unchanged window nor a slice reaches into such a neighbor.
pub proof fn law_presented_window_leaves_touching_neighbors(
    window: Rect,
    owner: Rect,
    monitors: Seq<Rect>,
    sentinel: i32,
    neighbor: Rect,
)
    requires
        window.width > 0,
        window.height > 0,
        monitors.contains(neighbor),
        neighbor != owner,
        touching_edge(owner, neighbor) is Some,
    ensures
        match projection(window, owner, monitors, sentinel) {
            PhysicalDecision::Unchanged => !overlaps(window, neighbor),
            PhysicalDecision::Constrained { rect, .. } => !overlaps(rect, neighbor),
            PhysicalDecision::Parked { .. } => true,
        },
{
    let i = choose|i: int| 0 <= i < monitors.len() && monitors[i] == neighbor;
    let edge = touching_edge(owner, neighbor)->0;
    if overlaps(window, neighbor) {
        assert(clipped_by(window, owner, monitors[i], edge));
        assert(clipped_at(window, owner, monitors, edge));
    }
}

/// A parked window has its coordinates at or beyond the sentinel and keeps its size.
pub proof fn law_parking_is_recoverable(
    window: Rect,
    monitors: Seq<Rect>,
    insets: (i32, i32, i32, i32),
    sentinel: i32,
)
    ensures
        park_place(window, monitors, insets, sentinel).x <= sentinel,
        park_place(window, monitors, insets, sentinel).y <= sentinel,
        park_place(window, monitors, insets, sentinel).width == window.width,
        park_place(window, monitors, insets, sentinel).height == window.height,
{
    let outer_width = larger(window.width as int, 1) + larger(insets.2 as int, 0);
    let outer_height = larger(window.height as int, 1) + larger(insets.3 as int, 0);
    lemma_park_coordinate(
        monitors.map_values(|m: Rect| m.x as int),
        outer_width,
        sentinel as int,
    );
    lemma_park_coordinate(
        monitors.map_values(|m: Rect| m.y as int),
        outer_height,
        sentinel as int,
    );
}

/// A parked window ends, with the right and bottom insets of its frame, at or
/// before the first column and row of every monitor, so its visible rectangle
/// shares area with none, unless the place lies beyond what `i32` can hold.
pub proof fn law_parking_clears_every_monitor(
    window: Rect,
    monitors: Seq<Rect>,
    insets: (i32, i32, i32, i32),
    sentinel: i32,
)
    requires
        fits_i32(
            park_coordinate(
                monitors.map_values(|m: Rect| m.x as int),
                larger(window.width as int, 1) + larger(insets.2 as int, 0),
                sentinel as int,
            ),
        ),
        fits_i32(
            park_coordinate(
                monitors.map_values(|m: Rect| m.y as int),
                larger(window.height as int, 1) + larger(insets.3 as int, 0),
                sentinel as int,
            ),
        ),
    ensures
        ({
            let parked = park_place(window, monitors, insets, sentinel);
            &&& forall|i: int|
                0 <= i < monitors.len() ==> {
                    &&& parked.end_x() + larger(insets.2 as int, 0) <= (#[trigger] monitors[i]).x
                    &&& parked.end_y() + larger(insets.3 as int, 0) <= monitors[i].y
                }
            &&& clears(parked, monitors)
        }),
{
    let xs = monitors.map_values(|m: Rect| m.x as int);
    let ys = monitors.map_values(|m: Rect| m.y as int);
    let outer_width = larger(window.width as int, 1) + larger(insets.2 as int, 0);
    let outer_height = larger(window.height as int, 1) + larger(insets.3 as int, 0);
    lemma_park_coordinate(xs, outer_width, sentinel as int);
    lemma_park_coordinate(ys, outer_height, sentinel as int);
    let parked = park_place(window, monitors, insets, sentinel);
    assert forall|i: int| 0 <= i < monitors.len() implies {
        &&& parked.end_x() + larger(insets.2 as int, 0) <= (#[trigger] monitors[i]).x
        &&& parked.end_y() + larger(insets.3 as int, 0) <= monitors[i].y
    } by {
        assert(xs[i] == monitors[i].x);
        assert(ys[i] == monitors[i].y);
    }
}

/// A parking coordinate is at most the sentinel, ends `extent` before every
/// origin, and is one of those bounds.
pub proof fn lemma_park_coordinate(origins: Seq<int>, extent: int, sentinel: int)
    ensures
        park_coordinate(origins, extent, sentinel) <= sentinel,
        forall|i: int|
            0 <= i < origins.len() ==> park_coordinate(origins, extent, sentinel) + extent
                <= #[trigger] origins[i],
        park_coordinate(origins, extent, sentinel) == sentinel || exists|i: int|
            0 <= i < origins.len() && park_coordinate(origins, extent, sentinel)
                == #[trigger] origins[i] - extent,
    decreases origins.len(),
{
    if origins.len() > 0 {
        let rest = origins.drop_last();
        lemma_park_coordinate(rest, extent, sentinel);
        let n = origins.len() - 1;
        let value = park_coordinate(origins, extent, sentinel);
        assert forall|i: int| 0 <= i < origins.len() implies value + extent
            <= #[trigger] origins[i] by {
            if i < n {
                assert(rest[i] == origins[i]);
            }
        }
        if value == origins[n] - extent {
        } else if park_coordinate(rest, extent, sentinel) != sentinel {
            let i = choose|i: int|
                0 <= i < rest.len() && park_coordinate(rest, extent, sentinel) == #[trigger] rest[i]
                    - extent;
            assert(origins[i] == rest[i]);
        }
    }
}

/// A parking coordinate depends only on which origins there are.
proof fn lemma_park_coordinate_set(a: Seq<int>, b: Seq<int>, extent: int, sentinel: int)
    requires
        forall|v: int| #[trigger] a.contains(v) == b.contains(v),
    ensures
        park_coordinate(a, extent, sentinel) == park_coordinate(b, extent, sentinel),
{
    lemma_park_coordinate(a, extent, sentinel);
    lemma_park_coordinate(b, extent, sentinel);
    let pa = park_coordinate(a, extent, sentinel);
    let pb = park_coordinate(b, extent, sentinel);
    if pa != sentinel {
        let i = choose|i: int| 0 <= i < a.len() && pa == #[trigger] a[i] - extent;
        assert(a.contains(a[i]));
        assert(b.contains(a[i]));
        let j = choose|j: int| 0 <= j < b.len() && b[j] == a[i];
        assert(pb + extent <= b[j]);
    }
    if pb != sentinel {
        let i = choose|i: int| 0 <= i < b.len() && pb == #[trigger] b[i] - extent;
        assert(b.contains(b[i]));
        assert(a.contains(b[i]));
        let j = choose|j: int| 0 <= j < a.len() && a[j] == b[i];
        assert(pa + extent <= a[j]);
    }
}

/// One coordinate of the same rectangles is the same set of values.
proof fn lemma_same_coordinates(a: Seq<Rect>, b: Seq<Rect>, of: spec_fn(Rect) -> int)
    requires
        same_rects(a, b),
    ensures
        forall|v: int| #[trigger] a.map_values(of).contains(v) ==> b.map_values(of).contains(v),
{
    assert forall|v: int| #[trigger] a.map_values(of).contains(v) implies b.map_values(
        of,
    ).contains(v) by {
        let i = choose|i: int| 0 <= i < a.len() && a.map_values(of)[i] == v;
        assert(a.contains(a[i]));
        assert(b.contains(a[i]));
        let j = choose|j: int| 0 <= j < b.len() && b[j] == a[i];
        assert(b.map_values(of)[j] == v);
    }
}

/// Neither the parking place nor the projection depends on the order in which
/// the monitors are listed, nor on a monitor being listed twice.
pub proof fn law_projection_ignores_monitor_order(
    window: Rect,
    owner: Rect,
    a: Seq<Rect>,
    b: Seq<Rect>,
    insets: (i32, i32, i32, i32),
    sentinel: i32,
)
    requires
        same_rects(a, b),
    ensures
        park_place(window, a, insets, sentinel) == park_place(window, b, insets, sentinel),
        projection(window, owner, a, sentinel) == projection(window, owner, b, sentinel),
{
    let of_x = |m: Rect| m.x as int;
    let of_y = |m: Rect| m.y as int;
    lemma_same_coordinates(a, b, of_x);
    lemma_same_coordinates(b, a, of_x);
    lemma_same_coordinates(a, b, of_y);
    lemma_same_coordinates(b, a, of_y);
    assert forall|w: int, inset: int| true implies #[trigger] park_coordinate(
        a.map_values(of_x),
        larger(w, 1) + larger(inset, 0),
        sentinel as int,
    ) == park_coordinate(b.map_values(of_x), larger(w, 1) + larger(inset, 0), sentinel as int) by {
        lemma_park_coordinate_set(
            a.map_values(of_x),
            b.map_values(of_x),
            larger(w, 1) + larger(inset, 0),
            sentinel as int,
        );
    }
    assert forall|h: int, inset: int| true implies #[trigger] park_coordinate(
        a.map_values(of_y),
        larger(h, 1) + larger(inset, 0),
        sentinel as int,
    ) == park_coordinate(b.map_values(of_y), larger(h, 1) + larger(inset, 0), sentinel as int) by {
        lemma_park_coordinate_set(
            a.map_values(of_y),
            b.map_values(of_y),
            larger(h, 1) + larger(inset, 0),
            sentinel as int,
        );
    }
    assert(park_place(window, a, insets, sentinel) == park_place(window, b, insets, sentinel));
    assert(park_place(window, a, (0, 0, 0, 0), sentinel) == park_place(
        window,
        b,
        (0, 0, 0, 0),
        sentinel,
    ));
    assert forall|edge: SharedEdge| #[trigger]
        clipped_at(window, owner, a, edge) == clipped_at(window, owner, b, edge) by {
        if clipped_at(window, owner, a, edge) {
            let i = choose|i: int|
                0 <= i < a.len() && clipped_by(window, owner, #[trigger] a[i], edge);
            assert(a.contains(a[i]));
            assert(b.contains(a[i]));
            let j = choose|j: int| 0 <= j < b.len() && b[j] == a[i];
            assert(clipped_by(window, owner, b[j], edge));
        }
        if clipped_at(window, owner, b, edge) {
            let i = choose|i: int|
                0 <= i < b.len() && clipped_by(window, owner, #[trigger] b[i], edge);
            assert(b.contains(b[i]));
            assert(a.contains(b[i]));
            let j = choose|j: int| 0 <= j < a.len() && a[j] == b[i];
            assert(clipped_by(window, owner, a[j], edge));
        }
    }
    assert(clipped_axes(window, owner, a) == clipped_axes(window, owner, b));
}

/// The recorded topology is the same however the monitors are listed.
pub proof fn law_topology_ignores_monitor_order(a: Seq<Rect>, b: Seq<Rect>)
    requires
        topology_rows(a).to_multiset() == topology_rows(b).to_multiset(),
    ensures
        ascending(topology_rows(a)) == ascending(topology_rows(b)),
{
    lemma_ascending_ignores_order(topology_rows(a), topology_rows(b));
}

/// The topology signature is the same however the monitors are listed.
pub proof fn law_signature_ignores_monitor_order(a: Seq<MonitorInfo>, b: Seq<MonitorInfo>)
    requires
        signature_rows(a).to_multiset() == signature_rows(b).to_multiset(),
    ensures
        ascending(signature_rows(a)) == ascending(signature_rows(b)),
{
    lemma_ascending_ignores_order(signature_rows(a), signature_rows(b));
}

/// A window that lands exactly on its slice is contained.
pub proof fn law_exact_landing_is_contained(
    window: Rect,
    owner: Rect,
    monitors: Seq<Rect>,
    sentinel: i32,
    tolerance: i32,
)
    requires
        tolerance >= 0,
    ensures
        projection(window, owner, monitors, sentinel) matches PhysicalDecision::Constrained {
            rect,
            axes,
        } ==> contained(rect, rect, owner, axes, tolerance),
{
}

/// The union of two rectangles is the same either way round and, where its size
/// fits, covers both.
pub proof fn law_union_covers_both(a: Rect, b: Rect)
    ensures
        union_of(a, b) == union_of(b, a),
        ({
            let u = union_of(a, b);
            fits_i32(larger(a.end_x(), b.end_x()) - smaller(a.x as int, b.x as int)) && fits_i32(
                larger(a.end_y(), b.end_y()) - smaller(a.y as int, b.y as int),
            ) ==> {
                &&& u.x <= a.x && a.end_x() <= u.end_x() && u.y <= a.y && a.end_y() <= u.end_y()
                &&& u.x <= b.x && b.end_x() <= u.end_x() && u.y <= b.y && b.end_y() <= u.end_y()
            }
        }),
{
}

/// A context always speaks for itself, and agreement goes both ways.
pub proof fn law_context_agreement(a: ContextView, b: ContextView, axes: ConstrainedAxes)
    ensures
        a.agrees(a, axes),
        a.agrees(b, axes) == b.agrees(a, axes),
{
}

} // verus!
