//! Physical presentation of tiled windows at shared monitor edges.
//!
//! The logical layout (requested widths, membership, scroll) stays unchanged.
//! This module projects a rectangle onto the owning monitor only where that
//! monitor exactly touches a neighbor, and parks the window when no positive
//! owner-visible slice remains or when the application rejects the slice.

use vstd::prelude::*;

use std::collections::{HashMap, HashSet};

use crate::sorting::{ascending, sort_rows};
use crate::types::{
    clamp_i32, fits_i32, larger, max_i32, native_of, native_window, smaller, MonitorId, MonitorInfo,
    NativeWindow, Rect, Visibility, WindowId, WindowPlacement,
};

verus! {

/// Slack allowed when a landing is held against its protected edges.
pub const CONTAINMENT_TOLERANCE: i32 = 0;

/// Edges of a window that were clipped to the owning monitor.
#[derive(Debug, Clone, Copy, PartialEq, Eq, Structural)]
pub struct ConstrainedAxes {
    pub left: bool,
    pub right: bool,
    pub top: bool,
    pub bottom: bool,
}

/// No edge clipped.
pub open spec fn no_axes() -> ConstrainedAxes {
    ConstrainedAxes { left: false, right: false, top: false, bottom: false }
}

impl Default for ConstrainedAxes {
    fn default() -> (r: Self)
        ensures
            r == no_axes(),
    {
        ConstrainedAxes { left: false, right: false, top: false, bottom: false }
    }
}

impl ConstrainedAxes {
    /// Some edge is clipped.
    pub open spec fn clips(self) -> bool {
        self.left || self.right || self.top || self.bottom
    }

    /// A vertical edge is clipped, so the width is affected.
    pub open spec fn clips_width(self) -> bool {
        self.left || self.right
    }

    /// A horizontal edge is clipped, so the height is affected.
    pub open spec fn clips_height(self) -> bool {
        self.top || self.bottom
    }

    /// Whether any edge is clipped.
    pub fn any(self) -> (r: bool)
        ensures
            r == self.clips(),
    {
        self.left || self.right || self.top || self.bottom
    }

    /// Whether the width is affected.
    pub fn width(self) -> (r: bool)
        ensures
            r == self.clips_width(),
    {
        self.left || self.right
    }

    /// Whether the height is affected.
    pub fn height(self) -> (r: bool)
        ensures
            r == self.clips_height(),
    {
        self.top || self.bottom
    }
}

/// What is done with a window at the edges of its monitor.
#[derive(Debug, Clone, Copy, PartialEq, Eq, Structural)]
pub enum PhysicalDecision {
    /// The logical rectangle is used as it is.
    Unchanged,
    /// The window is sliced to the part its monitor shows.
    Constrained { rect: Rect, axes: ConstrainedAxes },
    /// The window is moved off every monitor.
    Parked { rect: Rect },
}

/// The kind of a [`PhysicalDecision`].
#[derive(Debug, Clone, Copy, PartialEq, Eq, Structural)]
pub enum PhysicalKind {
    Unchanged,
    Constrained,
    Parked,
}

impl PhysicalDecision {
    /// The kind of the decision.
    pub open spec fn kind_of(self) -> PhysicalKind {
        match self {
            PhysicalDecision::Unchanged => PhysicalKind::Unchanged,
            PhysicalDecision::Constrained { .. } => PhysicalKind::Constrained,
            PhysicalDecision::Parked { .. } => PhysicalKind::Parked,
        }
    }

    /// The clipped edges of the decision.
    pub open spec fn axes_of(self) -> ConstrainedAxes {
        match self {
            PhysicalDecision::Constrained { axes, .. } => axes,
            _ => no_axes(),
        }
    }

    /// The kind of the decision.
    pub fn kind(self) -> (r: PhysicalKind)
        ensures
            r == self.kind_of(),
    {
        match self {
            PhysicalDecision::Unchanged => PhysicalKind::Unchanged,
            PhysicalDecision::Constrained { .. } => PhysicalKind::Constrained,
            PhysicalDecision::Parked { .. } => PhysicalKind::Parked,
        }
    }

    /// The clipped edges; none unless the window is constrained.
    pub fn axes(self) -> (r: ConstrainedAxes)
        ensures
            r == self.axes_of(),
    {
        match self {
            PhysicalDecision::Constrained { axes, .. } => axes,
            _ => ConstrainedAxes::default(),
        }
    }
}

/// The nearest `i32` to an `i64`.
pub fn i32_sat(value: i64) -> (r: i32)
    ensures
        r == clamp_i32(value as int),
{
    if value < i32::MIN as i64 {
        i32::MIN
    } else if value > i32::MAX as i64 {
        i32::MAX
    } else {
        value as i32
    }
}

/// Sum of two `i32` values, held to the `i32` range.
pub fn sat_sum(a: i32, b: i32) -> (r: i32)
    ensures
        r == clamp_i32(a + b),
{
    i32_sat(a as i64 + b as i64)
}

/// Difference of two `i32` values, held to the `i32` range.
pub fn sat_difference(a: i32, b: i32) -> (r: i32)
    ensures
        r == clamp_i32(a - b),
{
    i32_sat(a as i64 - b as i64)
}

/// The far end of an extent, without overflow.
pub fn edge_end(origin: i32, extent: i32) -> (r: i64)
    ensures
        r == origin + extent,
{
    origin as i64 + extent as i64
}

/// Length of the overlap of two half-open ranges; zero where they are apart.
pub open spec fn overlap(a0: int, a1: int, b0: int, b1: int) -> int {
    larger(0, smaller(a1, b1) - larger(a0, b0))
}

/// Length of the overlap of the ranges `a0..a1` and `b0..b1`.
///
/// A length past the range of `i64` is held to it.
pub fn overlap_len(a0: i64, a1: i64, b0: i64, b1: i64) -> (r: i64)
    ensures
        r == smaller(overlap(a0 as int, a1 as int, b0 as int, b1 as int), i64::MAX as int),
{
    let end: i64 = if a1 <= b1 {
        a1
    } else {
        b1
    };
    let start: i64 = if a0 >= b0 {
        a0
    } else {
        b0
    };
    if end <= start {
        0
    } else {
        match end.checked_sub(start) {
            Some(length) => length,
            None => i64::MAX,
        }
    }
}

/// Whether two rectangles are the same.
pub fn rects_equal(a: Rect, b: Rect) -> (r: bool)
    ensures
        r == (a == b),
{
    a.x == b.x && a.y == b.y && a.width == b.width && a.height == b.height
}

/// Whether two rectangles overlap by a positive length on both axes.
pub open spec fn overlaps(a: Rect, b: Rect) -> bool {
    &&& overlap(a.x as int, a.end_x(), b.x as int, b.end_x()) > 0
    &&& overlap(a.y as int, a.end_y(), b.y as int, b.end_y()) > 0
}

/// Whether two rectangles overlap by a positive length on both axes.
pub fn rects_overlap_positive(a: Rect, b: Rect) -> (r: bool)
    ensures
        r == overlaps(a, b),
{
    overlap_len(a.x as i64, edge_end(a.x, a.width), b.x as i64, edge_end(b.x, b.width)) > 0
        && overlap_len(a.y as i64, edge_end(a.y, a.height), b.y as i64, edge_end(b.y, b.height)) > 0
}

/// The edge of a monitor that a neighbor touches.
#[derive(Debug, Clone, Copy, PartialEq, Eq, Structural)]
pub enum SharedEdge {
    Left,
    Right,
    Top,
    Bottom,
}

/// The edge of `owner` that `neighbor` lies exactly against, along a positive
/// span. Where degenerate rectangles touch on several edges, the order is
/// right, left, bottom, top.
pub open spec fn touching_edge(owner: Rect, neighbor: Rect) -> Option<SharedEdge> {
    let rows = overlap(owner.y as int, owner.end_y(), neighbor.y as int, neighbor.end_y()) > 0;
    let columns = overlap(owner.x as int, owner.end_x(), neighbor.x as int, neighbor.end_x()) > 0;
    if neighbor.x == owner.end_x() && rows {
        Some(SharedEdge::Right)
    } else if neighbor.end_x() == owner.x && rows {
        Some(SharedEdge::Left)
    } else if neighbor.y == owner.end_y() && columns {
        Some(SharedEdge::Bottom)
    } else if neighbor.end_y() == owner.y && columns {
        Some(SharedEdge::Top)
    } else {
        None
    }
}

/// The edge of `owner` that `neighbor` exactly touches, if any.
pub fn exact_touching_edge(owner: Rect, neighbor: Rect) -> (r: Option<SharedEdge>)
    ensures
        r == touching_edge(owner, neighbor),
{
    let ox0: i64 = owner.x as i64;
    let ox1: i64 = edge_end(owner.x, owner.width);
    let oy0: i64 = owner.y as i64;
    let oy1: i64 = edge_end(owner.y, owner.height);
    let nx0: i64 = neighbor.x as i64;
    let nx1: i64 = edge_end(neighbor.x, neighbor.width);
    let ny0: i64 = neighbor.y as i64;
    let ny1: i64 = edge_end(neighbor.y, neighbor.height);
    let y_span: i64 = overlap_len(oy0, oy1, ny0, ny1);
    let x_span: i64 = overlap_len(ox0, ox1, nx0, nx1);
    if nx0 == ox1 && y_span > 0 {
        Some(SharedEdge::Right)
    } else if nx1 == ox0 && y_span > 0 {
        Some(SharedEdge::Left)
    } else if ny0 == oy1 && x_span > 0 {
        Some(SharedEdge::Bottom)
    } else if ny1 == oy0 && x_span > 0 {
        Some(SharedEdge::Top)
    } else {
        None
    }
}

/// Whether `window` reaches past the given edge of `owner`.
pub open spec fn reaches_past(window: Rect, owner: Rect, edge: SharedEdge) -> bool {
    match edge {
        SharedEdge::Left => window.x < owner.x,
        SharedEdge::Right => window.end_x() > owner.end_x(),
        SharedEdge::Top => window.y < owner.y,
        SharedEdge::Bottom => window.end_y() > owner.end_y(),
    }
}

/// Whether `neighbor` clips `window` at the given edge of `owner`.
pub open spec fn clipped_by(window: Rect, owner: Rect, neighbor: Rect, edge: SharedEdge) -> bool {
    &&& neighbor != owner
    &&& touching_edge(owner, neighbor) == Some(edge)
    &&& overlaps(window, neighbor)
    &&& reaches_past(window, owner, edge)
}

/// Whether some monitor clips `window` at the given edge of `owner`.
pub open spec fn clipped_at(
    window: Rect,
    owner: Rect,
    monitors: Seq<Rect>,
    edge: SharedEdge,
) -> bool {
    exists|i: int| 0 <= i < monitors.len() && clipped_by(window, owner, #[trigger] monitors[i], edge)
}

/// The edges at which `window` is clipped.
pub open spec fn clipped_axes(window: Rect, owner: Rect, monitors: Seq<Rect>) -> ConstrainedAxes {
    ConstrainedAxes {
        left: clipped_at(window, owner, monitors, SharedEdge::Left),
        right: clipped_at(window, owner, monitors, SharedEdge::Right),
        top: clipped_at(window, owner, monitors, SharedEdge::Top),
        bottom: clipped_at(window, owner, monitors, SharedEdge::Bottom),
    }
}

/// Left end of `window` once clipped.
pub open spec fn slice_left(window: Rect, owner: Rect, axes: ConstrainedAxes) -> int {
    if axes.left {
        owner.x as int
    } else {
        window.x as int
    }
}

/// Right end of `window` once clipped.
pub open spec fn slice_right(window: Rect, owner: Rect, axes: ConstrainedAxes) -> int {
    if axes.right {
        owner.end_x()
    } else {
        window.end_x()
    }
}

/// Top end of `window` once clipped.
pub open spec fn slice_top(window: Rect, owner: Rect, axes: ConstrainedAxes) -> int {
    if axes.top {
        owner.y as int
    } else {
        window.y as int
    }
}

/// Bottom end of `window` once clipped.
pub open spec fn slice_bottom(window: Rect, owner: Rect, axes: ConstrainedAxes) -> int {
    if axes.bottom {
        owner.end_y()
    } else {
        window.end_y()
    }
}

/// Smallest `origin - extent` over the monitors and the sentinel itself.
pub open spec fn park_coordinate(origins: Seq<int>, extent: int, sentinel: int) -> int
    decreases origins.len(),
{
    if origins.len() == 0 {
        sentinel
    } else {
        smaller(origins.last() - extent, park_coordinate(origins.drop_last(), extent, sentinel))
    }
}

/// The parking place of a window of the given size: its outer frame ends at or
/// before the first column and row of every monitor, and both coordinates are
/// at or beyond the sentinel, as far as `i32` can hold them.
pub open spec fn park_place(
    window: Rect,
    monitors: Seq<Rect>,
    insets: (i32, i32, i32, i32),
    sentinel: i32,
) -> Rect {
    let outer_width = larger(window.width as int, 1) + larger(insets.2 as int, 0);
    let outer_height = larger(window.height as int, 1) + larger(insets.3 as int, 0);
    Rect {
        x: clamp_i32(
            park_coordinate(monitors.map_values(|m: Rect| m.x as int), outer_width, sentinel as int),
        ) as i32,
        y: clamp_i32(
            park_coordinate(monitors.map_values(|m: Rect| m.y as int), outer_height, sentinel as int),
        ) as i32,
        width: window.width,
        height: window.height,
    }
}

/// The projection of `window` onto `owner`.
pub open spec fn projection(
    window: Rect,
    owner: Rect,
    monitors: Seq<Rect>,
    sentinel: i32,
) -> PhysicalDecision {
    let axes = clipped_axes(window, owner, monitors);
    let left = slice_left(window, owner, axes);
    let right = slice_right(window, owner, axes);
    let top = slice_top(window, owner, axes);
    let bottom = slice_bottom(window, owner, axes);
    if window.width <= 0 || window.height <= 0 || !axes.clips() {
        PhysicalDecision::Unchanged
    } else if right <= left || bottom <= top {
        PhysicalDecision::Parked { rect: park_place(window, monitors, (0, 0, 0, 0), sentinel) }
    } else {
        PhysicalDecision::Constrained {
            rect: Rect {
                x: left as i32,
                y: top as i32,
                width: (right - left) as i32,
                height: (bottom - top) as i32,
            },
            axes,
        }
    }
}

/// Project `window` onto `owner` only at exactly-touching neighbor edges.
///
/// Always derived from the whole rectangle; never from a previous clip.
pub fn project_physical_rect(
    window: Rect,
    owner: Rect,
    monitor_rects: &[Rect],
    sentinel: i32,
) -> (r: PhysicalDecision)
    ensures
        r == projection(window, owner, monitor_rects@, sentinel),
{
    if window.width <= 0 || window.height <= 0 {
        return PhysicalDecision::Unchanged;
    }
    let mut left: i64 = window.x as i64;
    let mut right: i64 = edge_end(window.x, window.width);
    let mut top: i64 = window.y as i64;
    let mut bottom: i64 = edge_end(window.y, window.height);
    let mut axes = ConstrainedAxes::default();
    let mut i: usize = 0;
    while i < monitor_rects.len()
        invariant
            0 <= i <= monitor_rects@.len(),
            axes == clipped_axes(window, owner, monitor_rects@.take(i as int)),
            left == slice_left(window, owner, axes),
            right == slice_right(window, owner, axes),
            top == slice_top(window, owner, axes),
            bottom == slice_bottom(window, owner, axes),
        decreases monitor_rects@.len() - i,
    {
        let neighbor = monitor_rects[i];
        let ghost before = monitor_rects@.take(i as int);
        let ghost after = monitor_rects@.take(i + 1);
        proof {
            assert(after =~= before.push(neighbor));
            lemma_clipped_at_push(window, owner, before, neighbor);
        }
        i = i + 1;
        if !rects_equal(neighbor, owner) {
            if let Some(edge) = exact_touching_edge(owner, neighbor) {
                if rects_overlap_positive(window, neighbor) {
                    match edge {
                        SharedEdge::Right => {
                            let owner_right: i64 = edge_end(owner.x, owner.width);
                            if right > owner_right {
                                right = owner_right;
                                axes.right = true;
                            }
                        },
                        SharedEdge::Left => {
                            let owner_left: i64 = owner.x as i64;
                            if left < owner_left {
                                left = owner_left;
                                axes.left = true;
                            }
                        },
                        SharedEdge::Bottom => {
                            let owner_bottom: i64 = edge_end(owner.y, owner.height);
                            if bottom > owner_bottom {
                                bottom = owner_bottom;
                                axes.bottom = true;
                            }
                        },
                        SharedEdge::Top => {
                            let owner_top: i64 = owner.y as i64;
                            if top < owner_top {
                                top = owner_top;
                                axes.top = true;
                            }
                        },
                    }
                }
            }
        }
    }
    proof {
        assert(monitor_rects@.take(i as int) =~= monitor_rects@);
        lemma_slice_within(window, owner, monitor_rects@);
    }
    if !axes.any() {
        return PhysicalDecision::Unchanged;
    }
    let width: i64 = right - left;
    let height: i64 = bottom - top;
    if width <= 0 || height <= 0 {
        return PhysicalDecision::Parked {
            rect: offscreen_park_rect(window, monitor_rects, (0, 0, 0, 0), sentinel),
        };
    }
    let rect = Rect::new(i32_sat(left), i32_sat(top), i32_sat(width), i32_sat(height));
    if rects_equal(rect, window) {
        PhysicalDecision::Unchanged
    } else {
        PhysicalDecision::Constrained { rect, axes }
    }
}

/// One more monitor clips exactly where it clips by itself.
proof fn lemma_clipped_at_push(window: Rect, owner: Rect, monitors: Seq<Rect>, m: Rect)
    ensures
        forall|edge: SharedEdge|
            #[trigger] clipped_at(window, owner, monitors.push(m), edge) == (clipped_at(
                window,
                owner,
                monitors,
                edge,
            ) || clipped_by(window, owner, m, edge)),
{
    assert forall|edge: SharedEdge|
        #[trigger] clipped_at(window, owner, monitors.push(m), edge) == (clipped_at(
            window,
            owner,
            monitors,
            edge,
        ) || clipped_by(window, owner, m, edge)) by {
        let pushed = monitors.push(m);
        if clipped_at(window, owner, monitors, edge) {
            let i = choose|i: int|
                0 <= i < monitors.len() && clipped_by(window, owner, #[trigger] monitors[i], edge);
            assert(pushed[i] == monitors[i]);
        }
        if clipped_by(window, owner, m, edge) {
            assert(pushed[monitors.len() as int] == m);
        }
        if clipped_at(window, owner, pushed, edge) {
            let i = choose|i: int|
                0 <= i < pushed.len() && clipped_by(window, owner, #[trigger] pushed[i], edge);
            if i < monitors.len() {
                assert(pushed[i] == monitors[i]);
            }
        }
    }
}

/// Clipping only ever shrinks: the slice lies within the window, and is smaller
/// wherever an edge was clipped.
proof fn lemma_slice_within(window: Rect, owner: Rect, monitors: Seq<Rect>)
    ensures
        ({
            let axes = clipped_axes(window, owner, monitors);
            &&& axes.left ==> window.x < owner.x
            &&& axes.right ==> owner.end_x() < window.end_x()
            &&& axes.top ==> window.y < owner.y
            &&& axes.bottom ==> owner.end_y() < window.end_y()
        }),
{
}

/// Pick a recoverable frame-space parking location that clears every monitor.
///
/// Both coordinates remain at or beyond `sentinel`, the coordinate by which
/// recovery without state recognises a parked window. The caller supplies the
/// visible-to-frame insets `(left, top, right, bottom)` because the native move
/// targets the outer frame. An extreme virtual desktop that `i32` cannot hold
/// is left to the read-back of the placement.
pub fn offscreen_park_rect(
    window: Rect,
    monitor_rects: &[Rect],
    insets: (i32, i32, i32, i32),
    sentinel: i32,
) -> (r: Rect)
    ensures
        r == park_place(window, monitor_rects@, insets, sentinel),
{
    let outer_width: i64 = max_i32(window.width, 1) as i64 + max_i32(insets.2, 0) as i64;
    let outer_height: i64 = max_i32(window.height, 1) as i64 + max_i32(insets.3, 0) as i64;
    let mut x: i64 = sentinel as i64;
    let mut y: i64 = sentinel as i64;
    let ghost xs = monitor_rects@.map_values(|m: Rect| m.x as int);
    let ghost ys = monitor_rects@.map_values(|m: Rect| m.y as int);
    let mut i: usize = 0;
    while i < monitor_rects.len()
        invariant
            0 <= i <= monitor_rects@.len(),
            xs == monitor_rects@.map_values(|m: Rect| m.x as int),
            ys == monitor_rects@.map_values(|m: Rect| m.y as int),
            1 <= outer_width <= 2 * i32::MAX,
            1 <= outer_height <= 2 * i32::MAX,
            x == park_coordinate(xs.take(i as int), outer_width as int, sentinel as int),
            y == park_coordinate(ys.take(i as int), outer_height as int, sentinel as int),
        decreases monitor_rects@.len() - i,
    {
        let monitor = monitor_rects[i];
        proof {
            assert(xs.take(i + 1).drop_last() =~= xs.take(i as int));
            assert(ys.take(i + 1).drop_last() =~= ys.take(i as int));
            assert(xs.take(i + 1).last() == monitor.x);
            assert(ys.take(i + 1).last() == monitor.y);
        }
        let past_x: i64 = monitor.x as i64 - outer_width;
        if past_x < x {
            x = past_x;
        }
        let past_y: i64 = monitor.y as i64 - outer_height;
        if past_y < y {
            y = past_y;
        }
        i = i + 1;
    }
    proof {
        assert(xs.take(i as int) =~= xs);
        assert(ys.take(i as int) =~= ys);
    }
    Rect::new(i32_sat(x), i32_sat(y), window.width, window.height)
}

/// Everything that a rejected slice depended on.
#[derive(Debug)]
pub struct GeometryContext {
    pub owner_id: MonitorId,
    pub owner_rect: Rect,
    /// Monitor rectangles `(x, y, width, height)` in ascending order.
    pub topology: Vec<(i32, i32, i32, i32)>,
    pub scale_milli: u32,
    pub insets: (i32, i32, i32, i32),
    pub native_style: u32,
    pub window_width: i32,
    pub window_height: i32,
}

/// The value of a [`GeometryContext`].
pub struct ContextView {
    pub owner_id: MonitorId,
    pub owner_rect: Rect,
    pub topology: Seq<(i32, i32, i32, i32)>,
    pub scale_milli: u32,
    pub insets: (i32, i32, i32, i32),
    pub native_style: u32,
    pub window_width: i32,
    pub window_height: i32,
}

impl ContextView {
    /// Whether two contexts are the same as far as the clipped axes go: the
    /// dimension along a clipped axis is free to differ.
    pub open spec fn agrees(self, other: ContextView, axes: ConstrainedAxes) -> bool {
        &&& self.owner_id == other.owner_id
        &&& self.owner_rect == other.owner_rect
        &&& self.topology == other.topology
        &&& self.scale_milli == other.scale_milli
        &&& self.insets == other.insets
        &&& self.native_style == other.native_style
        &&& axes.clips_width() ==> self.window_height == other.window_height
        &&& axes.clips_height() ==> self.window_width == other.window_width
    }
}

impl View for GeometryContext {
    type V = ContextView;

    open spec fn view(&self) -> ContextView {
        ContextView {
            owner_id: self.owner_id,
            owner_rect: self.owner_rect,
            topology: self.topology@,
            scale_milli: self.scale_milli,
            insets: self.insets,
            native_style: self.native_style,
            window_width: self.window_width,
            window_height: self.window_height,
        }
    }
}

/// Whether two topologies are the same.
fn topologies_equal(
    a: &Vec<(i32, i32, i32, i32)>,
    b: &Vec<(i32, i32, i32, i32)>,
) -> (r: bool)
    ensures
        r == (a@ == b@),
{
    if a.len() != b.len() {
        return false;
    }
    let mut i: usize = 0;
    while i < a.len()
        invariant
            0 <= i <= a@.len(),
            a@.len() == b@.len(),
            forall|j: int| 0 <= j < i ==> a@[j] == b@[j],
        decreases a@.len() - i,
    {
        let (x, y, width, height) = a[i];
        let (other_x, other_y, other_width, other_height) = b[i];
        if x != other_x || y != other_y || width != other_width || height != other_height {
            return false;
        }
        i = i + 1;
    }
    assert(a@ =~= b@);
    true
}

impl Clone for GeometryContext {
    fn clone(&self) -> (r: Self)
        ensures
            r@ == self@,
    {
        let mut topology: Vec<(i32, i32, i32, i32)> = Vec::new();
        let mut i: usize = 0;
        while i < self.topology.len()
            invariant
                0 <= i <= self.topology@.len(),
                topology@ == self.topology@.take(i as int),
            decreases self.topology@.len() - i,
        {
            topology.push(self.topology[i]);
            i = i + 1;
            assert(topology@ =~= self.topology@.take(i as int));
        }
        assert(topology@ =~= self.topology@);
        GeometryContext {
            owner_id: self.owner_id,
            owner_rect: self.owner_rect,
            topology,
            scale_milli: self.scale_milli,
            insets: self.insets,
            native_style: self.native_style,
            window_width: self.window_width,
            window_height: self.window_height,
        }
    }
}

impl GeometryContext {
    /// Whether a rejection seen in this context still speaks for `other`.
    pub fn matches(&self, other: &Self, axes: ConstrainedAxes) -> (r: bool)
        ensures
            r == self@.agrees(other@, axes),
    {
        let insets = self.insets;
        let others = other.insets;
        self.owner_id == other.owner_id && rects_equal(self.owner_rect, other.owner_rect)
            && topologies_equal(&self.topology, &other.topology) && self.scale_milli
            == other.scale_milli && insets.0 == others.0 && insets.1 == others.1 && insets.2
            == others.2 && insets.3 == others.3 && self.native_style == other.native_style && (
        !axes.width() || self.window_height == other.window_height) && (!axes.height()
            || self.window_width == other.window_width)
    }
}

/// A slice that an application rejected.
#[derive(Debug)]
pub struct PhysicalRejectionObservation {
    /// Minimum visible dimensions the application actually accepted or enforced.
    pub required_width: i32,
    pub required_height: i32,
    /// Measured outer dimensions, retained solely to clear every monitor while parked.
    pub retained_outer_width: i32,
    pub retained_outer_height: i32,
    pub width_affected: bool,
    pub height_affected: bool,
    pub coupled: bool,
    pub context: GeometryContext,
}

/// The value of a [`PhysicalRejectionObservation`].
pub struct ObservationView {
    pub required_width: i32,
    pub required_height: i32,
    pub retained_outer_width: i32,
    pub retained_outer_height: i32,
    pub width_affected: bool,
    pub height_affected: bool,
    pub coupled: bool,
    pub context: ContextView,
}

impl View for PhysicalRejectionObservation {
    type V = ObservationView;

    open spec fn view(&self) -> ObservationView {
        ObservationView {
            required_width: self.required_width,
            required_height: self.required_height,
            retained_outer_width: self.retained_outer_width,
            retained_outer_height: self.retained_outer_height,
            width_affected: self.width_affected,
            height_affected: self.height_affected,
            coupled: self.coupled,
            context: self.context@,
        }
    }
}

impl ObservationView {
    /// Whether the observation rules out the slice `rect` in `context`.
    pub open spec fn rules_out(
        self,
        rect: Rect,
        axes: ConstrainedAxes,
        context: ContextView,
    ) -> bool {
        &&& self.context.agrees(context, axes)
        &&& {
            ||| axes.clips_width() && self.width_affected && self.required_width > rect.width
            ||| axes.clips_height() && self.height_affected && self.required_height > rect.height
        }
    }
}

/// The size that a rejected window is parked with.
pub open spec fn retained_size(window: Rect, observation: ObservationView) -> Rect {
    Rect {
        x: window.x,
        y: window.y,
        width: larger(observation.retained_outer_width as int, window.width as int) as i32,
        height: larger(observation.retained_outer_height as int, window.height as int) as i32,
    }
}

/// What is done with `window`, given what its application rejected before.
pub open spec fn decision(
    window: Rect,
    owner: Rect,
    monitors: Seq<Rect>,
    observation: Option<ObservationView>,
    context: ContextView,
    sentinel: i32,
) -> PhysicalDecision {
    match projection(window, owner, monitors, sentinel) {
        PhysicalDecision::Unchanged => PhysicalDecision::Unchanged,
        PhysicalDecision::Parked { .. } => PhysicalDecision::Parked {
            rect: park_place(window, monitors, context.insets, sentinel),
        },
        PhysicalDecision::Constrained { rect, axes } => match observation {
            Some(seen) if seen.rules_out(rect, axes, context) => PhysicalDecision::Parked {
                rect: park_place(retained_size(window, seen), monitors, (0, 0, 0, 0), sentinel),
            },
            _ => PhysicalDecision::Constrained { rect, axes },
        },
    }
}

/// The view of an optional observation.
pub open spec fn observed(observation: Option<&PhysicalRejectionObservation>) -> Option<
    ObservationView,
> {
    match observation {
        Some(seen) => Some(seen@),
        None => None,
    }
}

/// Decide how `window` is presented: the projection, but for a slice that the
/// application is known to reject, which is parked at its retained size.
pub fn decide_physical_rect(
    window: Rect,
    owner: Rect,
    monitor_rects: &[Rect],
    observation: Option<&PhysicalRejectionObservation>,
    context: &GeometryContext,
    sentinel: i32,
) -> (r: PhysicalDecision)
    ensures
        r == decision(window, owner, monitor_rects@, observed(observation), context@, sentinel),
{
    match project_physical_rect(window, owner, monitor_rects, sentinel) {
        PhysicalDecision::Unchanged => PhysicalDecision::Unchanged,
        PhysicalDecision::Parked { .. } => PhysicalDecision::Parked {
            rect: offscreen_park_rect(window, monitor_rects, context.insets, sentinel),
        },
        PhysicalDecision::Constrained { rect, axes } => {
            if let Some(seen) = observation {
                let insufficient = seen.context.matches(context, axes) && ((axes.width()
                    && seen.width_affected && seen.required_width > rect.width) || (axes.height()
                    && seen.height_affected && seen.required_height > rect.height));
                if insufficient {
                    let retained = Rect::new(
                        window.x,
                        window.y,
                        max_i32(seen.retained_outer_width, window.width),
                        max_i32(seen.retained_outer_height, window.height),
                    );
                    return PhysicalDecision::Parked {
                        rect: offscreen_park_rect(retained, monitor_rects, (0, 0, 0, 0), sentinel),
                    };
                }
            }
            PhysicalDecision::Constrained { rect, axes }
        },
    }
}

/// The rows of a set of monitor rectangles.
pub open spec fn topology_rows(monitors: Seq<Rect>) -> Seq<(i32, i32, i32, i32)> {
    monitors.map_values(|m: Rect| (m.x, m.y, m.width, m.height))
}

/// The monitor rectangles in ascending order.
pub fn sorted_topology(monitor_rects: &[Rect]) -> (r: Vec<(i32, i32, i32, i32)>)
    ensures
        r@ == ascending(topology_rows(monitor_rects@)),
{
    let mut rows: Vec<(i32, i32, i32, i32)> = Vec::new();
    let mut i: usize = 0;
    while i < monitor_rects.len()
        invariant
            0 <= i <= monitor_rects@.len(),
            rows@ == topology_rows(monitor_rects@.take(i as int)),
        decreases monitor_rects@.len() - i,
    {
        let rect = monitor_rects[i];
        rows.push((rect.x, rect.y, rect.width, rect.height));
        i = i + 1;
        assert(rows@ =~= topology_rows(monitor_rects@.take(i as int)));
    }
    assert(monitor_rects@.take(i as int) =~= monitor_rects@);
    sort_rows(rows)
}

/// The rows of the monitors with their identity and scale.
pub open spec fn signature_rows(monitors: Seq<MonitorInfo>) -> Seq<
    (MonitorId, i32, i32, i32, i32, u32),
> {
    monitors.map_values(
        |m: MonitorInfo| (m.id, m.rect.x, m.rect.y, m.rect.width, m.rect.height, m.scale_milli),
    )
}

/// Monitors, their rectangles and scales in ascending order.
pub fn topology_signature(monitors: &Vec<MonitorInfo>) -> (r: Vec<
    (MonitorId, i32, i32, i32, i32, u32),
>)
    ensures
        r@ == ascending(signature_rows(monitors@)),
{
    let mut rows: Vec<(MonitorId, i32, i32, i32, i32, u32)> = Vec::new();
    let mut i: usize = 0;
    while i < monitors.len()
        invariant
            0 <= i <= monitors@.len(),
            rows@ == signature_rows(monitors@.take(i as int)),
        decreases monitors@.len() - i,
    {
        let m = monitors[i];
        rows.push((m.id, m.rect.x, m.rect.y, m.rect.width, m.rect.height, m.scale_milli));
        i = i + 1;
        assert(rows@ =~= signature_rows(monitors@.take(i as int)));
    }
    assert(monitors@.take(i as int) =~= monitors@);
    sort_rows(rows)
}

/// The rectangles of the monitors.
pub open spec fn rects_of(monitors: Seq<MonitorInfo>) -> Seq<Rect> {
    monitors.map_values(|m: MonitorInfo| m.rect)
}

/// The rectangles of the monitors.
pub fn monitor_rects(monitors: &Vec<MonitorInfo>) -> (r: Vec<Rect>)
    ensures
        r@ == rects_of(monitors@),
{
    let mut rects: Vec<Rect> = Vec::new();
    let mut i: usize = 0;
    while i < monitors.len()
        invariant
            0 <= i <= monitors@.len(),
            rects@ == rects_of(monitors@.take(i as int)),
        decreases monitors@.len() - i,
    {
        rects.push(monitors[i].rect);
        i = i + 1;
        assert(rects@ =~= rects_of(monitors@.take(i as int)));
    }
    assert(monitors@.take(i as int) =~= monitors@);
    rects
}

/// The smallest rectangle around two rectangles, as far as `i32` can hold it.
pub open spec fn union_of(a: Rect, b: Rect) -> Rect {
    let x0 = smaller(a.x as int, b.x as int);
    let y0 = smaller(a.y as int, b.y as int);
    let x1 = larger(a.end_x(), b.end_x());
    let y1 = larger(a.end_y(), b.end_y());
    Rect {
        x: x0 as i32,
        y: y0 as i32,
        width: clamp_i32(x1 - x0) as i32,
        height: clamp_i32(y1 - y0) as i32,
    }
}

/// Union of two rectangles using widened edge arithmetic.
pub fn union_rects(a: Rect, b: Rect) -> (r: Rect)
    ensures
        r == union_of(a, b),
{
    let x0: i64 = if a.x <= b.x {
        a.x as i64
    } else {
        b.x as i64
    };
    let y0: i64 = if a.y <= b.y {
        a.y as i64
    } else {
        b.y as i64
    };
    let a_right: i64 = edge_end(a.x, a.width);
    let b_right: i64 = edge_end(b.x, b.width);
    let a_bottom: i64 = edge_end(a.y, a.height);
    let b_bottom: i64 = edge_end(b.y, b.height);
    let x1: i64 = if a_right >= b_right {
        a_right
    } else {
        b_right
    };
    let y1: i64 = if a_bottom >= b_bottom {
        a_bottom
    } else {
        b_bottom
    };
    Rect::new(i32_sat(x0), i32_sat(y0), i32_sat(x1 - x0), i32_sat(y1 - y0))
}

/// The tab strip above a window: `strip_height` high, `bottom_gap` clear of it.
pub open spec fn tab_strip(window: Rect, strip_height: i32, bottom_gap: i32) -> Rect {
    let height = larger(strip_height as int, 0);
    Rect {
        x: window.x,
        y: clamp_i32(clamp_i32(window.y - height) - larger(bottom_gap as int, 0)) as i32,
        width: window.width,
        height: height as i32,
    }
}

/// The tab strip above a window: `strip_height` high, `bottom_gap` clear of it.
pub fn tab_strip_rect(window: Rect, strip_height: i32, bottom_gap: i32) -> (r: Rect)
    ensures
        r == tab_strip(window, strip_height, bottom_gap),
        r.x == window.x,
        r.y == clamp_i32(
            clamp_i32(window.y - larger(strip_height as int, 0)) - larger(bottom_gap as int, 0),
        ),
        r.width == window.width,
        r.height == larger(strip_height as int, 0),
{
    let height: i32 = max_i32(strip_height, 0);
    Rect::new(
        window.x,
        sat_difference(sat_difference(window.y, height), max_i32(bottom_gap, 0)),
        window.width,
        height,
    )
}

/// The rectangle of a border of `bw` pixels drawn around `content`.
pub open spec fn border_around(content: Rect, bw: i32) -> Rect {
    Rect {
        x: clamp_i32(clamp_i32(content.x + 1) - bw) as i32,
        y: clamp_i32(clamp_i32(content.y + 1) - bw) as i32,
        width: clamp_i32(larger(content.width - 2, 0) + 2 * bw) as i32,
        height: clamp_i32(larger(content.height - 2, 0) + 2 * bw) as i32,
    }
}

/// The rectangle of a border drawn around `content`.
///
/// An outside border starts one pixel inside the content and reaches
/// `border_width` beyond that on every side; an inside border covers the
/// content itself.
pub fn expand_border_overlay(content: Rect, border_width: u32, outside: bool) -> (r: Rect)
    requires
        outside ==> fits_i32(2 * (border_width as i32)),
        outside ==> fits_i32(content.width - 2) && fits_i32(content.height - 2),
    ensures
        !outside ==> r == content,
        outside ==> r == border_around(content, border_width as i32),
        outside ==> {
            let bw = border_width as i32;
            &&& r.x == clamp_i32(clamp_i32(content.x + 1) - bw)
            &&& r.y == clamp_i32(clamp_i32(content.y + 1) - bw)
            &&& r.width == clamp_i32(larger(content.width - 2, 0) + 2 * bw)
            &&& r.height == clamp_i32(larger(content.height - 2, 0) + 2 * bw)
        },
{
    if outside {
        #[verifier::truncate]
        let bw: i32 = border_width as i32;
        let inner_width: i32 = max_i32(content.width - 2, 0);
        let inner_height: i32 = max_i32(content.height - 2, 0);
        Rect::new(
            sat_difference(sat_sum(content.x, 1), bw),
            sat_difference(sat_sum(content.y, 1), bw),
            sat_sum(inner_width, 2 * bw),
            sat_sum(inner_height, 2 * bw),
        )
    } else {
        content
    }
}

/// Whether some monitor has the given identity.
pub open spec fn has_monitor(monitors: Seq<MonitorInfo>, id: MonitorId) -> bool {
    exists|i: int| 0 <= i < monitors.len() && #[trigger] monitors[i].id == id
}

/// Whether a rectangle shares area with a monitor other than `owner_id`.
pub open spec fn bleeds(rect: Rect, owner_id: MonitorId, monitors: Seq<MonitorInfo>) -> bool {
    exists|i: int|
        0 <= i < monitors.len() && (#[trigger] monitors[i]).id != owner_id && rect.meets(
            monitors[i].rect,
        )
}

/// A hidden placement, moved off every monitor where it bleeds onto another one.
pub open spec fn reparked(
    placement: WindowPlacement,
    owner_id: MonitorId,
    monitors: Seq<MonitorInfo>,
    natives: Map<WindowId, NativeWindow>,
    sentinel: i32,
) -> WindowPlacement {
    if placement.visibility != Visibility::Visible && bleeds(placement.rect, owner_id, monitors) {
        WindowPlacement {
            rect: park_place(
                placement.rect,
                rects_of(monitors),
                native_of(natives, placement.window_id).insets,
                sentinel,
            ),
            ..placement
        }
    } else {
        placement
    }
}

/// Whether a rectangle shares area with a monitor other than `owner_id`.
fn bleeds_past_owner(rect: Rect, owner_id: MonitorId, monitors: &Vec<MonitorInfo>) -> (r: bool)
    ensures
        r == bleeds(rect, owner_id, monitors@),
{
    let mut i: usize = 0;
    while i < monitors.len()
        invariant
            0 <= i <= monitors@.len(),
            forall|j: int|
                0 <= j < i ==> !((#[trigger] monitors@[j]).id != owner_id && rect.meets(
                    monitors@[j].rect,
                )),
        decreases monitors@.len() - i,
    {
        if monitors[i].id != owner_id && rect.intersects(&monitors[i].rect) {
            return true;
        }
        i = i + 1;
    }
    false
}

/// Whether some monitor has the given identity.
fn monitor_known(monitors: &Vec<MonitorInfo>, id: MonitorId) -> (r: bool)
    ensures
        r == has_monitor(monitors@, id),
{
    let mut i: usize = 0;
    while i < monitors.len()
        invariant
            0 <= i <= monitors@.len(),
            forall|j: int| 0 <= j < i ==> #[trigger] monitors@[j].id != id,
        decreases monitors@.len() - i,
    {
        if monitors[i].id == id {
            return true;
        }
        i = i + 1;
    }
    false
}

/// Move hidden placements off the monitors of others.
///
/// Visible placements stay as they are, and so does everything when the owning
/// monitor is not known.
pub fn park_offscreen_avoiding_neighbors(
    placements: &mut Vec<WindowPlacement>,
    owner_id: MonitorId,
    monitors: &Vec<MonitorInfo>,
    natives: &HashMap<WindowId, NativeWindow>,
    sentinel: i32,
)
    ensures
        !has_monitor(monitors@, owner_id) ==> final(placements)@ == old(placements)@,
        has_monitor(monitors@, owner_id) ==> final(placements)@ == old(placements)@.map_values(
            |p: WindowPlacement| reparked(p, owner_id, monitors@, natives@, sentinel),
        ),
{
    if !monitor_known(monitors, owner_id) {
        return;
    }
    let rects = monitor_rects(monitors);
    let ghost moved = |p: WindowPlacement|
        reparked(p, owner_id, monitors@, natives@, sentinel);
    let ghost all = placements@;
    let mut i: usize = 0;
    while i < placements.len()
        invariant
            0 <= i <= all.len(),
            placements@.len() == all.len(),
            rects@ == rects_of(monitors@),
            moved == (|p: WindowPlacement|
                reparked(p, owner_id, monitors@, natives@, sentinel)),
            forall|j: int| 0 <= j < i ==> #[trigger] placements@[j] == moved(all[j]),
            forall|j: int| i <= j < all.len() ==> #[trigger] placements@[j] == all[j],
        decreases all.len() - i,
    {
        let placement = placements[i];
        if placement.visibility != Visibility::Visible && bleeds_past_owner(
            placement.rect,
            owner_id,
            monitors,
        ) {
            let rect = offscreen_park_rect(
                placement.rect,
                &rects,
                native_window(natives, placement.window_id).insets,
                sentinel,
            );
            placements.set(i, WindowPlacement { rect, ..placement });
        }
        i = i + 1;
    }
    assert(placements@ =~= all.map_values(moved));
}

/// The placement that a decision leads to.
pub open spec fn presented(logical: WindowPlacement, decided: PhysicalDecision) -> WindowPlacement {
    match decided {
        PhysicalDecision::Unchanged => logical,
        PhysicalDecision::Constrained { rect, .. } => WindowPlacement {
            rect,
            visibility: Visibility::Visible,
            ..logical
        },
        PhysicalDecision::Parked { rect } => WindowPlacement {
            rect,
            visibility: Visibility::OffScreenRight,
            ..logical
        },
    }
}

/// The placement that a decision leads to.
pub fn physical_from_decision(logical: WindowPlacement, decided: PhysicalDecision) -> (r:
    WindowPlacement)
    ensures
        r == presented(logical, decided),
{
    match decided {
        PhysicalDecision::Unchanged => logical,
        PhysicalDecision::Constrained { rect, .. } => WindowPlacement {
            rect,
            visibility: Visibility::Visible,
            ..logical
        },
        PhysicalDecision::Parked { rect } => WindowPlacement {
            rect,
            visibility: Visibility::OffScreenRight,
            ..logical
        },
    }
}

/// Whether `actual` respects the clipped edges of `owner` and the requested size
/// along the clipped axes, within the tolerance.
pub open spec fn contained(
    requested: Rect,
    actual: Rect,
    owner: Rect,
    axes: ConstrainedAxes,
    tolerance: i32,
) -> bool {
    let slack = larger(tolerance as int, 0);
    &&& axes.right ==> actual.end_x() <= owner.end_x() + slack
    &&& axes.left ==> actual.x + slack >= owner.x
    &&& axes.bottom ==> actual.end_y() <= owner.end_y() + slack
    &&& axes.top ==> actual.y + slack >= owner.y
    &&& axes.clips_width() ==> actual.width <= clamp_i32(requested.width + tolerance)
    &&& axes.clips_height() ==> actual.height <= clamp_i32(requested.height + tolerance)
}

/// Whether a landing respects the protected edges and sizes of its slice.
pub fn evaluate_protected_axis_containment(
    requested: Rect,
    actual: Rect,
    owner: Rect,
    axes: ConstrainedAxes,
    tolerance: i32,
) -> (r: bool)
    ensures
        r == contained(requested, actual, owner, axes, tolerance),
{
    let tol: i64 = max_i32(tolerance, 0) as i64;
    if axes.right && edge_end(actual.x, actual.width) > edge_end(owner.x, owner.width) + tol {
        return false;
    }
    if axes.left && (actual.x as i64) + tol < owner.x as i64 {
        return false;
    }
    if axes.bottom && edge_end(actual.y, actual.height) > edge_end(owner.y, owner.height) + tol {
        return false;
    }
    if axes.top && (actual.y as i64) + tol < owner.y as i64 {
        return false;
    }
    if axes.width() && actual.width > sat_sum(requested.width, tolerance) {
        return false;
    }
    if axes.height() && actual.height > sat_sum(requested.height, tolerance) {
        return false;
    }
    true
}

/// Whether a rectangle shares area with none of the monitors.
pub open spec fn clears(actual: Rect, monitors: Seq<Rect>) -> bool {
    forall|i: int| 0 <= i < monitors.len() ==> !actual.meets(#[trigger] monitors[i])
}

/// Whether a rectangle shares area with none of the monitors.
pub fn parking_clears_monitors(actual: Rect, monitor_rects: &[Rect]) -> (r: bool)
    ensures
        r == clears(actual, monitor_rects@),
{
    let mut i: usize = 0;
    while i < monitor_rects.len()
        invariant
            0 <= i <= monitor_rects@.len(),
            forall|j: int| 0 <= j < i ==> !actual.meets(#[trigger] monitor_rects@[j]),
        decreases monitor_rects@.len() - i,
    {
        if actual.intersects(&monitor_rects[i]) {
            return false;
        }
        i = i + 1;
    }
    true
}

/// A placement of the follow-up batch: parked at its retained size if its slice
/// failed, unchanged otherwise.
pub open spec fn followed_up(
    placement: WindowPlacement,
    failed: Set<WindowId>,
    retained: Map<WindowId, Rect>,
    monitors: Seq<Rect>,
    sentinel: i32,
) -> WindowPlacement {
    if failed.contains(placement.window_id) {
        let size = if retained.contains_key(placement.window_id) {
            retained[placement.window_id]
        } else {
            placement.rect
        };
        WindowPlacement {
            rect: park_place(size, monitors, (0, 0, 0, 0), sentinel),
            visibility: Visibility::OffScreenRight,
            ..placement
        }
    } else {
        placement
    }
}

/// The follow-up batch after some slices failed: those are parked, every other
/// placement is repeated as it was.
pub fn convert_failed_slices_to_parks(
    placements: &[WindowPlacement],
    failed_ids: &HashSet<WindowId>,
    retained: &HashMap<WindowId, Rect>,
    monitor_rects: &[Rect],
    sentinel: i32,
) -> (r: Vec<WindowPlacement>)
    ensures
        r@ == placements@.map_values(
            |p: WindowPlacement|
                followed_up(p, failed_ids@, retained@, monitor_rects@, sentinel),
        ),
{
    broadcast use vstd::std_specs::hash::group_hash_axioms;

    let ghost next = |p: WindowPlacement|
        followed_up(p, failed_ids@, retained@, monitor_rects@, sentinel);
    let mut batch: Vec<WindowPlacement> = Vec::new();
    let mut i: usize = 0;
    while i < placements.len()
        invariant
            0 <= i <= placements@.len(),
            batch@.len() == i,
            next == (|p: WindowPlacement|
                followed_up(p, failed_ids@, retained@, monitor_rects@, sentinel)),
            forall|j: int| 0 <= j < i ==> #[trigger] batch@[j] == next(placements@[j]),
        decreases placements@.len() - i,
    {
        let placement = placements[i];
        if failed_ids.contains(&placement.window_id) {
            let size = match retained.get(&placement.window_id) {
                Some(rect) => *rect,
                None => placement.rect,
            };
            let rect = offscreen_park_rect(size, monitor_rects, (0, 0, 0, 0), sentinel);
            batch.push(
                WindowPlacement { rect, visibility: Visibility::OffScreenRight, ..placement },
            );
        } else {
            batch.push(placement);
        }
        i = i + 1;
    }
    assert(batch@ =~= placements@.map_values(next));
    batch
}

} // verus!
