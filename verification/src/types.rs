//! Plain values shared by the layout models: rectangles, window placements,
//! monitors and the read-back of native placements.

use vstd::prelude::*;
use std::collections::HashMap;

verus! {

/// Identifier of a managed window.
pub type WindowId = u64;

/// Identifier of a monitor.
pub type MonitorId = u64;

/// Whether a mathematical integer can be held in an `i32`.
pub open spec fn fits_i32(value: int) -> bool {
    i32::MIN <= value <= i32::MAX
}

/// The nearest `i32` to a mathematical integer.
pub open spec fn clamp_i32(value: int) -> int {
    if value < i32::MIN {
        i32::MIN as int
    } else if value > i32::MAX {
        i32::MAX as int
    } else {
        value
    }
}

/// Whether a value can be held in an `i32`.
pub fn holds_i32(value: i64) -> (r: bool)
    ensures
        r == fits_i32(value as int),
{
    i32::MIN as i64 <= value && value <= i32::MAX as i64
}

/// The larger of two integers.
pub open spec fn larger(a: int, b: int) -> int {
    if a >= b {
        a
    } else {
        b
    }
}

/// The smaller of two integers.
pub open spec fn smaller(a: int, b: int) -> int {
    if a <= b {
        a
    } else {
        b
    }
}

/// The larger of two `i32` values.
pub fn max_i32(a: i32, b: i32) -> (r: i32)
    ensures
        r == larger(a as int, b as int),
{
    if a >= b {
        a
    } else {
        b
    }
}

/// The smaller of two `i32` values.
pub fn min_i32(a: i32, b: i32) -> (r: i32)
    ensures
        r == smaller(a as int, b as int),
{
    if a <= b {
        a
    } else {
        b
    }
}

/// An axis-aligned screen rectangle in pixels.
#[derive(Debug, Clone, Copy, PartialEq, Eq, Structural)]
pub struct Rect {
    pub x: i32,
    pub y: i32,
    pub width: i32,
    pub height: i32,
}

impl Rect {
    /// One past the last column, as a mathematical integer.
    pub open spec fn end_x(self) -> int {
        self.x + self.width
    }

    /// One past the last row, as a mathematical integer.
    pub open spec fn end_y(self) -> int {
        self.y + self.height
    }

    /// Whether two rectangles share area on both axes.
    pub open spec fn meets(self, other: Rect) -> bool {
        &&& self.x < other.end_x()
        &&& other.x < self.end_x()
        &&& self.y < other.end_y()
        &&& other.y < self.end_y()
    }

    /// A rectangle from its top-left corner and size.
    pub fn new(x: i32, y: i32, width: i32, height: i32) -> (r: Rect)
        ensures
            r == (Rect { x, y, width, height }),
    {
        Rect { x, y, width, height }
    }

    /// One past the last column.
    pub fn right(&self) -> (r: i32)
        requires
            fits_i32(self.end_x()),
        ensures
            r == self.end_x(),
    {
        self.x + self.width
    }

    /// One past the last row.
    pub fn bottom(&self) -> (r: i32)
        requires
            fits_i32(self.end_y()),
        ensures
            r == self.end_y(),
    {
        self.y + self.height
    }

    /// Whether two rectangles share area.
    pub fn intersects(&self, other: &Rect) -> (r: bool)
        ensures
            r == self.meets(*other),
    {
        (self.x as i64) < other.x as i64 + other.width as i64
            && (other.x as i64) < self.x as i64 + self.width as i64
            && (self.y as i64) < other.y as i64 + other.height as i64
            && (other.y as i64) < self.y as i64 + self.height as i64
    }
}

/// Where a placement leaves its window.
#[derive(Debug, Clone, Copy, PartialEq, Eq, Structural)]
pub enum Visibility {
    /// On screen.
    Visible,
    /// Parked past the left edge.
    OffScreenLeft,
    /// Parked past the right edge.
    OffScreenRight,
}

/// A window and the rectangle it is to occupy.
#[derive(Debug, Clone, Copy, PartialEq, Eq, Structural)]
pub struct WindowPlacement {
    pub window_id: WindowId,
    pub rect: Rect,
    pub visibility: Visibility,
    /// Column of the window; `usize::MAX` marks a placement outside the columns.
    pub column_index: usize,
}

/// What the native window system reports after a placement was applied.
#[derive(Debug, Clone, Copy, PartialEq, Eq, Structural)]
pub struct PlacementLanding {
    pub window_id: WindowId,
    pub requested_rect: Rect,
    pub requested_visibility: Visibility,
    pub actual_visible_rect: Option<Rect>,
    pub actual_outer_rect: Option<Rect>,
    pub failed: bool,
    pub unreadable: bool,
}

/// A monitor as the layout sees it.
#[derive(Debug, Clone, Copy, PartialEq, Eq, Structural)]
pub struct MonitorInfo {
    pub id: MonitorId,
    /// Full monitor rectangle.
    pub rect: Rect,
    /// Rectangle that the layout of the monitor is resolved in.
    pub viewport: Rect,
    /// Scale factor in thousandths.
    pub scale_milli: u32,
}

/// What the native window system knows of a window.
#[derive(Debug, Clone, Copy, PartialEq, Eq)]
pub struct NativeWindow {
    /// Invisible frame insets `(left, top, right, bottom)`.
    pub insets: (i32, i32, i32, i32),
    /// Native style bits.
    pub style_bits: u32,
    /// Whether the window is maximized.
    pub maximized: bool,
}

/// A window of which nothing was read: no insets, no style bits, not maximized.
pub open spec fn unread_native() -> NativeWindow {
    NativeWindow { insets: (0, 0, 0, 0), style_bits: 0, maximized: false }
}

/// What is known of a window, given all that was read.
pub open spec fn native_of(natives: Map<WindowId, NativeWindow>, window_id: WindowId) -> NativeWindow {
    if natives.contains_key(window_id) {
        natives[window_id]
    } else {
        unread_native()
    }
}

/// What is known of a window, given all that was read.
pub fn native_window(natives: &HashMap<WindowId, NativeWindow>, window_id: WindowId) -> (r:
    NativeWindow)
    ensures
        r == native_of(natives@, window_id),
{
    broadcast use vstd::std_specs::hash::group_hash_axioms;

    match natives.get(&window_id) {
        Some(native) => *native,
        None => NativeWindow { insets: (0, 0, 0, 0), style_bits: 0, maximized: false },
    }
}

} // verus!
