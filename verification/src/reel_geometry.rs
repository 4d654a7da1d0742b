//! Geometry of the Focus + Reel layout: one focus window and a column of reel
//! slots beside it.

use vstd::prelude::*;

use crate::types::{holds_i32, fits_i32, larger, max_i32, min_i32, smaller, Rect};

verus! {

/// Reference main-window width in pixels (2560×1440 target canvas).
pub const DEFAULT_MAIN_WIDTH: i32 = 2048;

/// Reference main-window height in pixels.
pub const DEFAULT_MAIN_HEIGHT: i32 = 1152;

/// Reference reel slot width in pixels.
pub const DEFAULT_SLOT_WIDTH: i32 = 512;

/// Reference reel slot height (and vertical stride) in pixels.
pub const DEFAULT_SLOT_HEIGHT: i32 = 288;

/// Pixels reserved above the focus window for the widget host.
pub const DEFAULT_TOP_INSET: i32 = 216;

/// Pixels reserved below the focus window for the taskbar.
pub const DEFAULT_BOTTOM_INSET: i32 = 72;

/// Number of reel items visible at once.
pub const DEFAULT_VISIBLE_SLOTS: usize = 4;

/// Minimum focus-window width after clamping to a small viewport.
pub const MIN_MAIN_WIDTH: i32 = 200;

/// Minimum slot width after clamping to a small viewport.
pub const MIN_SLOT_WIDTH: i32 = 100;

/// Which side of the screen the reel column occupies.
///
/// The focus window fills the remaining width on the opposite side. Each
/// promotion can optionally toggle the side (`flip_side_on_promote`) so the
/// layout alternates between `2048 + 512` and `512 + 2048` mirror shapes.
#[derive(Debug, Clone, Copy, PartialEq, Eq, Structural)]
pub enum ReelSide {
    /// Reel on the left, focus window on the right.
    Left,
    /// Reel on the right, focus window on the left.
    Right,
}

impl Default for ReelSide {
    fn default() -> (r: Self)
        ensures
            r == ReelSide::Right,
    {
        ReelSide::Right
    }
}

impl ReelSide {
    /// The opposite side.
    pub open spec fn opposite(self) -> ReelSide {
        match self {
            ReelSide::Left => ReelSide::Right,
            ReelSide::Right => ReelSide::Left,
        }
    }

    /// The opposite side.
    pub fn flipped(self) -> (r: Self)
        ensures
            r == self.opposite(),
    {
        match self {
            ReelSide::Left => ReelSide::Right,
            ReelSide::Right => ReelSide::Left,
        }
    }
}

/// Geometry knobs for the Focus + Reel layout.
///
/// Defaults match the reference 2560×1440 canvas: a 2048×1152 focus window,
/// four 512×288 reel slots, 216px widget strip at the top and 72px taskbar
/// strip at the bottom. On smaller viewports the focus width and slot height
/// are clamped; on wider viewports the `main + reel` cluster is centered.
#[derive(Debug, Clone, Copy, PartialEq, Eq, Structural)]
pub struct ReelGeometry {
    /// Preferred focus width. `0` fills `viewport.width - slot_width`.
    pub main_width: i32,
    /// Preferred focus height. `0` fills the whole span.
    pub main_height: i32,
    /// Reel slot width.
    pub slot_width: i32,
    /// Reel slot height (also the vertical stride).
    pub slot_height: i32,
    /// Pixels reserved above the layout for the widget host.
    pub top_inset: i32,
    /// Pixels reserved below the layout for the taskbar.
    pub bottom_inset: i32,
    /// Padding between adjacent windows. The horizontal gap between the focus
    /// window and the reel is split evenly (each side gives `gap / 2`, rounded
    /// up for the focus); each reel slot gives up `gap` of its content height.
    /// `0` keeps the edge-to-edge layout.
    pub gap: i32,
    /// How many reel slots are visible at once.
    pub visible_slots: usize,
    /// Toggle [`ReelSide`] on every promotion (explicit mirror-symmetric
    /// layout) instead of staying on the configured side.
    pub flip_side_on_promote: bool,
}

/// The reference geometry.
pub open spec fn reference_geometry() -> ReelGeometry {
    ReelGeometry {
        main_width: DEFAULT_MAIN_WIDTH,
        main_height: DEFAULT_MAIN_HEIGHT,
        slot_width: DEFAULT_SLOT_WIDTH,
        slot_height: DEFAULT_SLOT_HEIGHT,
        top_inset: DEFAULT_TOP_INSET,
        bottom_inset: DEFAULT_BOTTOM_INSET,
        gap: 0,
        visible_slots: DEFAULT_VISIBLE_SLOTS,
        flip_side_on_promote: false,
    }
}

impl Default for ReelGeometry {
    fn default() -> (r: Self)
        ensures
            r == reference_geometry(),
    {
        ReelGeometry {
            main_width: DEFAULT_MAIN_WIDTH,
            main_height: DEFAULT_MAIN_HEIGHT,
            slot_width: DEFAULT_SLOT_WIDTH,
            slot_height: DEFAULT_SLOT_HEIGHT,
            top_inset: DEFAULT_TOP_INSET,
            bottom_inset: DEFAULT_BOTTOM_INSET,
            gap: 0,
            visible_slots: DEFAULT_VISIBLE_SLOTS,
            flip_side_on_promote: false,
        }
    }
}

impl ReelGeometry {
    /// The geometry with nonsensical values brought into range.
    pub open spec fn clean(self) -> ReelGeometry {
        let slot_width = larger(self.slot_width as int, MIN_SLOT_WIDTH as int);
        let slot_height = larger(self.slot_height as int, 1);
        ReelGeometry {
            main_width: larger(self.main_width as int, 0) as i32,
            main_height: larger(self.main_height as int, 0) as i32,
            slot_width: slot_width as i32,
            slot_height: slot_height as i32,
            top_inset: larger(self.top_inset as int, 0) as i32,
            bottom_inset: larger(self.bottom_inset as int, 0) as i32,
            gap: smaller(larger(self.gap as int, 0), smaller(slot_width, slot_height) / 2) as i32,
            visible_slots: larger(self.visible_slots as int, 1) as usize,
            flip_side_on_promote: self.flip_side_on_promote,
        }
    }

    /// Height between the top widget strip and the bottom taskbar strip.
    pub open spec fn span(self, viewport: Rect) -> int {
        larger(viewport.height - self.clean().top_inset - self.clean().bottom_inset, 0)
    }

    /// The vertical span of the viewport can be computed.
    pub open spec fn span_fits(self, viewport: Rect) -> bool {
        fits_i32(viewport.height - self.clean().top_inset - self.clean().bottom_inset)
    }

    /// The reel band of the viewport can be computed.
    pub open spec fn band_fits(self, viewport: Rect) -> bool {
        &&& self.span_fits(viewport)
        &&& fits_i32(viewport.y + self.clean().top_inset)
    }

    /// The band the reel is allowed to paint into.
    pub open spec fn band(self, viewport: Rect) -> Rect {
        Rect {
            x: viewport.x,
            y: (viewport.y + self.clean().top_inset) as i32,
            width: viewport.width,
            height: self.span(viewport) as i32,
        }
    }

    /// Reel slot width after its half of the horizontal padding is removed.
    pub open spec fn slot_extent(self) -> int {
        larger(self.clean().slot_width - self.clean().gap as int / 2, MIN_SLOT_WIDTH as int)
    }

    /// Width left for the focus window beside the reel.
    pub open spec fn main_room(self, viewport: Rect) -> int {
        viewport.width - self.slot_extent() - self.clean().gap
    }

    /// Resolved focus width.
    pub open spec fn focus_extent(self, viewport: Rect) -> int {
        let geom = self.clean();
        let widest = larger(self.main_room(viewport), MIN_MAIN_WIDTH as int);
        if geom.main_width == 0 {
            widest
        } else {
            larger(
                smaller(geom.main_width - (geom.gap - geom.gap as int / 2), widest),
                MIN_MAIN_WIDTH as int,
            )
        }
    }

    /// Resolved focus height.
    pub open spec fn focus_rise(self, viewport: Rect) -> int {
        if self.clean().main_height == 0 {
            self.span(viewport)
        } else {
            smaller(self.clean().main_height as int, self.span(viewport))
        }
    }

    /// The count of visible slots as the vertical division takes it. A count
    /// past `i32` wraps round.
    pub open spec fn slot_divisor(self) -> i32 {
        self.clean().visible_slots as i32
    }

    /// Resolved slot height: an even share of the span in fill mode, else the
    /// configured height squeezed to that share; the configured height where
    /// there is no share to give.
    pub open spec fn slot_rise(self, viewport: Rect) -> int {
        let geom = self.clean();
        let share = if self.slot_divisor() > 0 {
            self.span(viewport) / self.slot_divisor() as int
        } else {
            0
        };
        if share == 0 {
            geom.slot_height as int
        } else if geom.main_height == 0 {
            share
        } else {
            smaller(geom.slot_height as int, share)
        }
    }

    /// Total cluster width (`focus + padding + reel`).
    pub open spec fn cluster_extent(self, viewport: Rect) -> int {
        self.focus_extent(viewport) + self.clean().gap + self.slot_extent()
    }

    /// Left edge of the centered `main + reel` cluster.
    pub open spec fn cluster_start(self, viewport: Rect) -> int {
        viewport.x + larger(viewport.width - self.cluster_extent(viewport), 0) / 2
    }

    /// Left edge of the focus window.
    pub open spec fn focus_start(self, viewport: Rect, side: ReelSide) -> int {
        match side {
            ReelSide::Right => self.cluster_start(viewport),
            ReelSide::Left => self.cluster_start(viewport) + self.slot_extent() + self.clean().gap,
        }
    }

    /// Left edge of the reel column.
    pub open spec fn reel_start(self, viewport: Rect, side: ReelSide) -> int {
        match side {
            ReelSide::Right => self.cluster_start(viewport) + self.focus_extent(viewport)
                + self.clean().gap,
            ReelSide::Left => self.cluster_start(viewport),
        }
    }

    /// The focus width can be computed.
    pub open spec fn focus_fits(self, viewport: Rect) -> bool {
        fits_i32(self.main_room(viewport))
    }

    /// The cluster width can be computed.
    pub open spec fn cluster_fits(self, viewport: Rect) -> bool {
        &&& self.focus_fits(viewport)
        &&& fits_i32(self.cluster_extent(viewport))
    }

    /// The cluster's left edge can be computed.
    pub open spec fn cluster_start_fits(self, viewport: Rect) -> bool {
        &&& self.cluster_fits(viewport)
        &&& fits_i32(viewport.width - self.cluster_extent(viewport))
        &&& fits_i32(self.cluster_start(viewport))
    }

    /// The left edges of focus window and reel can be computed.
    pub open spec fn sides_fit(self, viewport: Rect, side: ReelSide) -> bool {
        &&& self.cluster_start_fits(viewport)
        &&& fits_i32(self.focus_start(viewport, side))
        &&& fits_i32(self.reel_start(viewport, side))
    }

    /// The slot height can be computed.
    pub open spec fn slot_rise_fits(self, viewport: Rect) -> bool {
        &&& self.span_fits(viewport)
        &&& self.slot_divisor() != 0
    }

    /// Whether the places of focus window, reel and band can be computed for a
    /// viewport.
    pub fn fits(&self, viewport: Rect, side: ReelSide) -> (r: bool)
        ensures
            r == (self.sides_fit(viewport, side) && self.band_fits(viewport)
                && self.slot_rise_fits(viewport)),
    {
        let geom = self.sanitized();
        let gap: i64 = geom.gap as i64;
        let slot: i64 = self.slot_width_effective() as i64;
        let span: i64 = viewport.height as i64 - geom.top_inset as i64 - geom.bottom_inset as i64;
        #[verifier::truncate]
        let divisor: i32 = geom.visible_slots as i32;
        if !holds_i32(span) || !holds_i32(viewport.y as i64 + geom.top_inset as i64) || divisor
            == 0 {
            return false;
        }
        if !holds_i32(viewport.width as i64 - slot - gap) {
            return false;
        }
        let focus: i64 = self.focus_width(viewport) as i64;
        let extent: i64 = focus + gap + slot;
        let room: i64 = viewport.width as i64 - extent;
        let start: i64 = viewport.x as i64 + if room > 0 {
            room / 2
        } else {
            0
        };
        let far: i64 = match side {
            ReelSide::Right => start + focus + gap,
            ReelSide::Left => start + slot + gap,
        };
        holds_i32(extent) && holds_i32(room) && holds_i32(start) && holds_i32(far)
    }

    /// Clamp nonsensical values coming from configuration.
    pub fn sanitized(self) -> (r: Self)
        ensures
            r == self.clean(),
    {
        let slot_width: i32 = max_i32(self.slot_width, MIN_SLOT_WIDTH);
        let slot_height: i32 = max_i32(self.slot_height, 1);
        let widest_gap: i32 = min_i32(slot_width, slot_height) / 2;
        ReelGeometry {
            main_width: max_i32(self.main_width, 0),
            main_height: max_i32(self.main_height, 0),
            slot_width,
            slot_height,
            top_inset: max_i32(self.top_inset, 0),
            bottom_inset: max_i32(self.bottom_inset, 0),
            gap: min_i32(max_i32(self.gap, 0), widest_gap),
            visible_slots: if self.visible_slots >= 1 {
                self.visible_slots
            } else {
                1
            },
            flip_side_on_promote: self.flip_side_on_promote,
        }
    }

    /// The vertical band the reel is allowed to paint into for `viewport`.
    pub fn reel_band(&self, viewport: Rect) -> (r: Rect)
        requires
            self.band_fits(viewport),
        ensures
            r == self.band(viewport),
    {
        let geom = self.sanitized();
        Rect::new(
            viewport.x,
            viewport.y + geom.top_inset,
            viewport.width,
            self.vertical_span(viewport),
        )
    }

    /// Height available between the top widget strip and the bottom taskbar strip.
    pub fn vertical_span(&self, viewport: Rect) -> (r: i32)
        requires
            self.span_fits(viewport),
        ensures
            r == self.span(viewport),
    {
        let geom = self.sanitized();
        max_i32(viewport.height - geom.top_inset - geom.bottom_inset, 0)
    }

    /// Resolved focus width for a viewport (preferred width clamped to fit).
    ///
    /// The padding between the focus window and the reel is split evenly: the
    /// focus gives up `gap - gap / 2` (the rounded-up half) and the reel gives
    /// up `gap / 2` through [`ReelGeometry::slot_width_effective`].
    pub fn focus_width(&self, viewport: Rect) -> (r: i32)
        requires
            self.focus_fits(viewport),
        ensures
            r == self.focus_extent(viewport),
    {
        let geom = self.sanitized();
        let slot_w: i32 = self.slot_width_effective();
        let room: i64 = viewport.width as i64 - slot_w as i64 - geom.gap as i64;
        let max_main: i32 = max_i32(room as i32, MIN_MAIN_WIDTH);
        if geom.main_width <= 0 {
            return max_main;
        }
        let preferred: i32 = geom.main_width - (geom.gap - geom.gap / 2);
        max_i32(min_i32(preferred, max_main), MIN_MAIN_WIDTH)
    }

    /// Reel slot width after its half of the horizontal padding is removed.
    pub fn slot_width_effective(&self) -> (r: i32)
        ensures
            r == self.slot_extent(),
    {
        let geom = self.sanitized();
        max_i32(geom.slot_width - geom.gap / 2, MIN_SLOT_WIDTH)
    }

    /// Resolved focus height for a viewport.
    pub fn focus_height(&self, viewport: Rect) -> (r: i32)
        requires
            self.span_fits(viewport),
        ensures
            r == self.focus_rise(viewport),
    {
        let geom = self.sanitized();
        let span: i32 = self.vertical_span(viewport);
        if geom.main_height <= 0 {
            return span;
        }
        max_i32(min_i32(geom.main_height, span), 0)
    }

    /// Resolved slot height for a viewport.
    ///
    /// In fill mode (`main_height == 0`) the visible span is split evenly
    /// across `visible_slots`, so the reel tiles the column exactly (e.g. four
    /// 342px slots on a 1368px work area). Otherwise slots keep their
    /// configured height and are only squeezed when the viewport is too short.
    pub fn resolved_slot_height(&self, viewport: Rect) -> (r: i32)
        requires
            self.slot_rise_fits(viewport),
        ensures
            r == self.slot_rise(viewport),
    {
        let geom = self.sanitized();
        let span: i32 = self.vertical_span(viewport);
        #[verifier::truncate]
        let divisor: i32 = geom.visible_slots as i32;
        let fit: i32 = if divisor > 0 {
            span / divisor
        } else {
            0
        };
        if fit <= 0 {
            return max_i32(geom.slot_height, 1);
        }
        if geom.main_height <= 0 {
            return max_i32(fit, 1);
        }
        max_i32(min_i32(geom.slot_height, fit), 1)
    }

    /// Left edge of the centered `main + reel` cluster.
    pub fn cluster_x(&self, viewport: Rect) -> (r: i32)
        requires
            self.cluster_start_fits(viewport),
        ensures
            r == self.cluster_start(viewport),
    {
        let cluster_w: i32 = self.cluster_width(viewport);
        viewport.x + max_i32(viewport.width - cluster_w, 0) / 2
    }

    /// Total cluster width (`focus + padding + reel`).
    pub fn cluster_width(&self, viewport: Rect) -> (r: i32)
        requires
            self.cluster_fits(viewport),
        ensures
            r == self.cluster_extent(viewport),
    {
        self.focus_width(viewport) + self.sanitized().gap + self.slot_width_effective()
    }

    /// Left edges of the focus window and of the reel column.
    pub fn side_x(&self, viewport: Rect, side: ReelSide) -> (r: (i32, i32))
        requires
            self.sides_fit(viewport, side),
        ensures
            r.0 == self.focus_start(viewport, side),
            r.1 == self.reel_start(viewport, side),
    {
        let cluster_x: i32 = self.cluster_x(viewport);
        let focus_w: i32 = self.focus_width(viewport);
        let slot_w: i32 = self.slot_width_effective();
        let gap: i32 = self.sanitized().gap;
        match side {
            ReelSide::Right => (cluster_x, cluster_x + focus_w + gap),
            ReelSide::Left => (cluster_x + slot_w + gap, cluster_x),
        }
    }
}

/// The opposite of the opposite side is the side itself.
pub proof fn law_flipping_twice_is_identity(side: ReelSide)
    ensures
        side.opposite().opposite() == side,
        side.opposite() != side,
{
}

/// Sanitizing brings every value into range, leaves values in range alone, and
/// does nothing the second time.
pub proof fn law_sanitizing_is_idempotent(geometry: ReelGeometry)
    ensures
        geometry.clean().clean() == geometry.clean(),
        geometry.clean().main_width >= 0,
        geometry.clean().main_height >= 0,
        geometry.clean().slot_width >= MIN_SLOT_WIDTH,
        geometry.clean().slot_height >= 1,
        geometry.clean().top_inset >= 0,
        geometry.clean().bottom_inset >= 0,
        0 <= geometry.clean().gap,
        2 * geometry.clean().gap <= geometry.clean().slot_width,
        2 * geometry.clean().gap <= geometry.clean().slot_height,
        geometry.clean().visible_slots >= 1,
        reference_geometry().clean() == reference_geometry(),
{
}

/// Focus window and reel stand side by side, exactly `gap` apart, and together
/// fill the cluster, on whichever side the reel is.
pub proof fn law_focus_and_reel_fill_the_cluster(
    geometry: ReelGeometry,
    viewport: Rect,
    side: ReelSide,
)
    ensures
        ({
            let start = geometry.cluster_start(viewport);
            let end = start + geometry.cluster_extent(viewport);
            let focus = geometry.focus_start(viewport, side);
            let reel = geometry.reel_start(viewport, side);
            let focus_end = focus + geometry.focus_extent(viewport);
            let reel_end = reel + geometry.slot_extent();
            match side {
                ReelSide::Right => focus == start && reel == focus_end + geometry.clean().gap
                    && reel_end == end,
                ReelSide::Left => reel == start && focus == reel_end + geometry.clean().gap
                    && focus_end == end,
            }
        }),
{
}

/// A viewport with room for the smallest focus window beside the reel holds the
/// whole cluster, centered to within one pixel.
pub proof fn law_cluster_is_centered_in_the_viewport(geometry: ReelGeometry, viewport: Rect)
    requires
        geometry.main_room(viewport) >= MIN_MAIN_WIDTH,
    ensures
        geometry.cluster_extent(viewport) <= viewport.width,
        ({
            let before = geometry.cluster_start(viewport) - viewport.x;
            let after = viewport.end_x() - (geometry.cluster_start(viewport)
                + geometry.cluster_extent(viewport));
            0 <= before <= after <= before + 1
        }),
{
}

/// The focus window never leaves the vertical span, and the visible slots never
/// outgrow it where the span gives each of them at least a pixel. In fill mode
/// they leave less than a pixel per slot unused.
pub proof fn law_slots_share_the_span(geometry: ReelGeometry, viewport: Rect)
    requires
        geometry.slot_divisor() as int == geometry.clean().visible_slots,
        geometry.slot_divisor() > 0,
        geometry.span(viewport) >= geometry.clean().visible_slots,
    ensures
        0 <= geometry.focus_rise(viewport) <= geometry.span(viewport),
        geometry.slot_rise(viewport) >= 1,
        geometry.slot_rise(viewport) * geometry.clean().visible_slots <= geometry.span(viewport),
        geometry.clean().main_height == 0 ==> geometry.span(viewport) < (geometry.slot_rise(
            viewport,
        ) + 1) * geometry.clean().visible_slots,
{
    let n = geometry.clean().visible_slots as int;
    let span = geometry.span(viewport);
    let share = span / n;
    assert(share >= 1 && share * n <= span < (share + 1) * n) by (nonlinear_arith)
        requires
            n > 0,
            span >= n,
            share == span / n,
    ;
    let rise = geometry.slot_rise(viewport);
    assert(rise * n <= share * n) by (nonlinear_arith)
        requires
            n > 0,
            rise <= share,
    ;
}

} // verus!
