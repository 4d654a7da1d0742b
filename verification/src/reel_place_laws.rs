//! Where a viewport has its main window, its reel column and the slots of the
//! column, in screen coordinates.

use vstd::prelude::*;

use crate::focus_reel::ReelView;
use crate::id_list::lemma_filter_members;
use crate::layout_laws::{law_point_hits_exactly_the_covering_slot, lemma_hit_slot, rows_apart};
use crate::reel_geometry::{reference_geometry, ReelGeometry, ReelSide};
use crate::reel_layout::{
    covered_bottom, covered_top, lemma_slot_row, shown_ids, slot_numbered, slot_under, LayoutView,
    ReelFrame, ReelSlotView,
};
use crate::types::{fits_i32, Rect, WindowId};

verus! {

/// Whether no value of a geometry needs sanitizing.
pub open spec fn sensible(g: ReelGeometry) -> bool {
    &&& g.main_width >= 0 && g.main_height >= 0
    &&& g.slot_width >= 100 && g.slot_height >= 1
    &&& g.top_inset >= 0 && g.bottom_inset >= 0
    &&& 0 <= g.gap && 2 * g.gap <= g.slot_width && 2 * g.gap <= g.slot_height
    &&& g.visible_slots >= 1
}

/// Sanitizing leaves a sensible geometry alone, and brings each other value to
/// the nearest sensible one.
pub proof fn law_sanitizing_is_value_by_value(g: ReelGeometry)
    ensures
        sensible(g.clean()),
        sensible(g) ==> g.clean() == g,
        g.clean().main_width == if g.main_width < 0 { 0 } else { g.main_width },
        g.clean().main_height == if g.main_height < 0 { 0 } else { g.main_height },
        g.clean().slot_width == if g.slot_width < 100 { 100 } else { g.slot_width },
        g.clean().slot_height == if g.slot_height < 1 { 1 } else { g.slot_height },
        g.clean().top_inset == if g.top_inset < 0 { 0 } else { g.top_inset },
        g.clean().bottom_inset == if g.bottom_inset < 0 { 0 } else { g.bottom_inset },
        g.clean().visible_slots == if g.visible_slots < 1 { 1 } else { g.visible_slots },
        g.clean().flip_side_on_promote == g.flip_side_on_promote,
        g.gap <= 0 ==> g.clean().gap == 0,
        g.gap > 0 ==> g.clean().gap <= g.gap,
        g.gap > 0 && g.clean().gap < g.gap ==> (2 * (g.clean().gap + 1) > g.clean().slot_width || 2
            * (g.clean().gap + 1) > g.clean().slot_height),
{
}

/// A reel is laid out as it would be with its geometry sanitized beforehand.
pub proof fn law_layout_sanitizes_its_geometry(reel: ReelView, viewport: Rect, frame: ReelFrame)
    ensures
        ({
            let cleaned = ReelView { geometry: reel.geometry.clean(), ..reel };
            &&& cleaned.frame_fits(viewport, frame) == reel.frame_fits(viewport, frame)
            &&& cleaned.arranged(viewport, frame) == reel.arranged(viewport, frame)
        }),
{
    let cleaned = ReelView { geometry: reel.geometry.clean(), ..reel };
    law_sanitizing_is_value_by_value(reel.geometry);
    law_sanitizing_is_value_by_value(reel.geometry.clean());
    assert(cleaned.geometry.clean() == reel.geometry.clean());
    assert forall|k: int|
        #![trigger cleaned.row_top(viewport, frame, k)]
        #![trigger reel.row_top(viewport, frame, k)]
        cleaned.row_top(viewport, frame, k) == reel.row_top(viewport, frame, k) by {}
    lemma_same_rows(cleaned, reel, viewport, frame, reel.row_count() as nat);
    assert(cleaned.frame_fits(viewport, frame) == reel.frame_fits(viewport, frame));
    assert(cleaned.frame_slots(viewport, frame) == reel.frame_slots(viewport, frame));
}

proof fn lemma_same_rows(a: ReelView, b: ReelView, viewport: Rect, frame: ReelFrame, rows: nat)
    requires
        a.geometry.clean() == b.geometry.clean(),
        a.ring == b.ring,
        a.side == b.side,
    ensures
        a.slots_upto(viewport, frame, rows) == b.slots_upto(viewport, frame, rows),
    decreases rows,
{
    if rows > 0 {
        lemma_same_rows(a, b, viewport, frame, (rows - 1) as nat);
        assert forall|k: int|
            #![trigger a.row_in_band(viewport, frame, k)]
            #![trigger b.row_in_band(viewport, frame, k)]
            a.row_in_band(viewport, frame, k) == b.row_in_band(viewport, frame, k)
                && a.row_place(frame, k) == b.row_place(frame, k) by {}
        assert(a.row_shown(viewport, frame, rows - 1) == b.row_shown(viewport, frame, rows - 1));
    }
}

/// Band, main window and column start exactly the top inset below the top of
/// the viewport they are for. The band and the column end the bottom inset above
/// its end, the main window no later; where the insets fill the viewport they
/// have no height.
pub proof fn law_layout_keeps_to_its_viewport(reel: ReelView, viewport: Rect, frame: ReelFrame)
    requires
        sensible(reel.geometry),
        reel.frame_fits(viewport, frame),
    ensures
        ({
            let g = reel.geometry;
            let band = g.band(viewport);
            let main = reel.arranged(viewport, frame).main_rect;
            let column = reel.arranged(viewport, frame).column_rect;
            let room = viewport.height - g.top_inset - g.bottom_inset;
            &&& band.y == viewport.y + g.top_inset
            &&& main.y == viewport.y + g.top_inset
            &&& column.y == viewport.y + g.top_inset
            &&& band.x == viewport.x && band.width == viewport.width
            &&& band.height == column.height
            &&& room >= 0 ==> column.height == room
            &&& room < 0 ==> column.height == 0
            &&& room >= 0 ==> viewport.y <= column.y && column.y + column.height <= viewport.y
                + viewport.height
            &&& room >= 0 ==> main.y + main.height <= viewport.y + viewport.height - g.bottom_inset
            &&& 0 <= main.height <= column.height
            &&& g.main_height == 0 || g.main_height >= column.height ==> main.height
                == column.height
            &&& 0 < g.main_height < column.height ==> main.height == g.main_height
        }),
{
    law_sanitizing_is_value_by_value(reel.geometry);
}

/// Main window and column stand side by side, the gap apart, the column on the
/// side it is set to. Together they are centered in the viewport, to within a
/// pixel, where it has room for them, and start at its left edge otherwise.
pub proof fn law_main_window_and_column_stand_side_by_side(
    reel: ReelView,
    viewport: Rect,
    frame: ReelFrame,
)
    requires
        sensible(reel.geometry),
        reel.frame_fits(viewport, frame),
    ensures
        ({
            let g = reel.geometry;
            let main = reel.arranged(viewport, frame).main_rect;
            let column = reel.arranged(viewport, frame).column_rect;
            let left = if reel.side == ReelSide::Left { column } else { main };
            let right = if reel.side == ReelSide::Left { main } else { column };
            let before = left.x - viewport.x;
            let after = viewport.x + viewport.width - (right.x + right.width);
            &&& left.x + left.width + g.gap == right.x
            &&& viewport.width >= 200 + g.gap + column.width ==> 0 <= before <= after <= before + 1
            &&& viewport.width < 200 + g.gap + column.width ==> left.x == viewport.x
        }),
{
    law_sanitizing_is_value_by_value(reel.geometry);
}

/// The column gives up half the gap, the main window the other half, rounded up.
/// The main window has the width it is set to as far as there is room beside the
/// column, all of the room where it is set to none, and never under its least
/// width.
pub proof fn law_widths_share_the_gap(reel: ReelView, viewport: Rect, frame: ReelFrame)
    requires
        sensible(reel.geometry),
        reel.frame_fits(viewport, frame),
    ensures
        ({
            let g = reel.geometry;
            let main = reel.arranged(viewport, frame).main_rect;
            let column = reel.arranged(viewport, frame).column_rect;
            let room = viewport.width - column.width - g.gap;
            let half_up = (g.gap + 1) / 2;
            &&& g.slot_width - g.gap + half_up >= 100 ==> column.width + g.gap - half_up
                == g.slot_width
            &&& g.slot_width - g.gap + half_up < 100 ==> column.width == 100
            &&& main.width >= 200
            &&& room >= 200 && g.main_width == 0 ==> main.width == room
            &&& room >= 200 && g.main_width > 0 && g.main_width - half_up >= room ==> main.width
                == room
            &&& room >= 200 && 200 <= g.main_width - half_up <= room && g.main_width > 0
                ==> main.width == g.main_width - half_up
            &&& g.main_width > 0 && g.main_width - half_up < 200 ==> main.width == 200
            &&& room >= 200 ==> main.width <= room
            &&& room < 200 ==> main.width == 200
        }),
{
    law_sanitizing_is_value_by_value(reel.geometry);
}

/// The reference geometry fills a screen of 2560 by 1440 pixels without a gap:
/// the main window is four times as wide as the column and as high as its four
/// slots, below a strip of 216 pixels and above one of 72.
pub proof fn law_reference_geometry_fills_its_screen()
    ensures
        ({
            let g = reference_geometry();
            &&& sensible(g)
            &&& g.main_width + g.slot_width == 2560
            &&& g.main_width == 4 * g.slot_width
            &&& g.top_inset + g.main_height + g.bottom_inset == 1440
            &&& g.top_inset == 216 && g.bottom_inset == 72
            &&& g.visible_slots == 4
            &&& g.visible_slots * g.slot_height == g.main_height
            &&& g.gap == 0
            &&& !g.flip_side_on_promote
        }),
{
}

/// How far apart the slots of a column are: in fill mode an even share of the
/// column, with less than a pixel per slot left over; else the configured slot
/// height, squeezed to that share where the column is too short. A column of
/// fewer rows than slots keeps the configured height.
pub proof fn law_slots_are_an_even_share_apart(g: ReelGeometry, viewport: Rect, rows: int)
    requires
        sensible(g),
        g.visible_slots <= i32::MAX,
        rows == viewport.height - g.top_inset - g.bottom_inset,
    ensures
        ({
            let n = g.visible_slots as int;
            let rise = g.slot_rise(viewport);
            &&& rise >= 1
            &&& rows < n ==> rise == g.slot_height
            &&& rows >= n ==> n * rise <= rows
            &&& rows >= n && g.main_height == 0 ==> rows < n * (rise + 1)
            &&& rows >= n && g.main_height > 0 ==> rise <= g.slot_height
            &&& rows >= n && g.main_height > 0 && n * g.slot_height <= rows ==> rise
                == g.slot_height
            &&& rows >= n && g.main_height > 0 && n * g.slot_height > rows ==> rows < n * (rise + 1)
        }),
{
    law_sanitizing_is_value_by_value(g);
    let n = g.visible_slots as int;
    let span = g.span(viewport);
    let share = span / n;
    vstd::arithmetic::div_mod::lemma_fundamental_div_mod(span, n);
    vstd::arithmetic::div_mod::lemma_mod_bound(span, n);
    assert(g.slot_divisor() == g.visible_slots);
    if rows < n {
        if rows >= 0 {
            vstd::arithmetic::div_mod::lemma_small_mod(span as nat, n as nat);
            assert(n * share == 0);
            assert(share == 0) by (nonlinear_arith)
                requires
                    n * share == 0,
                    n >= 1,
            ;
        } else {
            assert(span == 0);
            assert(share == 0);
        }
    } else {
        assert(n * share <= rows < n * (share + 1)) by (nonlinear_arith)
            requires
                rows == n * share + span % n,
                0 <= span % n < n,
        ;
        assert(share >= 1) by (nonlinear_arith)
            requires
                n <= rows,
                rows < n * (share + 1),
                n >= 1,
        ;
        let height = g.slot_height as int;
        assert(n * height <= rows ==> height <= share) by (nonlinear_arith)
            requires
                rows < n * (share + 1),
                n >= 1,
        ;
        assert(n * height > rows ==> height > share) by (nonlinear_arith)
            requires
                n * share <= rows,
                n >= 1,
        ;
        assert(height <= share ==> n * height <= n * share) by (nonlinear_arith)
            requires
                n >= 1,
        ;
    }
}

/// Content height of a slot: its share of the column less the gap.
pub open spec fn slot_content(g: ReelGeometry, viewport: Rect) -> int {
    if g.slot_rise(viewport) - g.gap >= 1 {
        g.slot_rise(viewport) - g.gap
    } else {
        1
    }
}

/// A frame of a reel with windows has one row for each visible slot, one above
/// the first and two below the last, so that partially visible entries at either
/// edge are seen.
pub proof fn law_frame_has_rows_past_both_edges(reel: ReelView, viewport: Rect, frame: ReelFrame)
    requires
        sensible(reel.geometry),
        reel.frame_fits(viewport, frame),
        reel.ring.len() > 0,
    ensures
        frame.drops@.len() == reel.geometry.visible_slots + 3,
{
    law_sanitizing_is_value_by_value(reel.geometry);
}

/// Every slot has the columns of the reel column, lies the distance of its row
/// below the top of the column, shows the ring member that its ordinal counts to
/// round the ring, and touches the column. It is fully visible exactly if it
/// lies inside the column.
pub proof fn law_slot_lies_at_its_row(
    reel: ReelView,
    viewport: Rect,
    frame: ReelFrame,
    i: int,
) -> (k: int)
    requires
        sensible(reel.geometry),
        reel.frame_fits(viewport, frame),
        0 <= i < reel.arranged(viewport, frame).slots.len(),
    ensures
        0 <= k < frame.drops@.len(),
        ({
            let slot = reel.arranged(viewport, frame).slots[i];
            let column = reel.arranged(viewport, frame).column_rect;
            &&& slot.rect.x == column.x && slot.rect.width == column.width
            &&& slot.rect.y == viewport.y + reel.geometry.top_inset + frame.drops@[k]
            &&& slot.rect.height == slot_content(reel.geometry, viewport)
            &&& slot.slot == frame.base + k - 1
            &&& slot.window_id == reel.ring[(frame.base + k - 1) % reel.ring.len() as int]
            &&& slot.rect.y + slot.rect.height > column.y
            &&& slot.rect.y < column.y + column.height
            &&& slot.rect.y < column.y + reel.geometry.visible_slots * reel.geometry.slot_rise(
                viewport,
            )
            &&& slot.fully_visible <==> column.y <= slot.rect.y && slot.rect.y + slot.rect.height
                <= column.y + column.height
        }),
{
    law_sanitizing_is_value_by_value(reel.geometry);
    let k = lemma_slot_row(reel, viewport, frame, reel.row_count() as nat, i);
    assert(fits_i32(reel.row_top(viewport, frame, k)));
    assert(fits_i32(reel.row_top(viewport, frame, k) + reel.content_rise(viewport)));
    k
}

/// A row that touches the column, and starts within the visible slots, shows its
/// window: that window has a slot at that row or at one before it.
pub proof fn law_row_in_the_column_shows_its_window(
    reel: ReelView,
    viewport: Rect,
    frame: ReelFrame,
    k: int,
) -> (i: int)
    requires
        sensible(reel.geometry),
        reel.frame_fits(viewport, frame),
        reel.ring.len() > 0,
        0 <= k < frame.drops@.len(),
        frame.drops@[k] + slot_content(reel.geometry, viewport) > 0,
        frame.drops@[k] < viewport.height - reel.geometry.top_inset - reel.geometry.bottom_inset,
        frame.drops@[k] < reel.geometry.visible_slots * reel.geometry.slot_rise(viewport),
    ensures
        0 <= i < reel.arranged(viewport, frame).slots.len(),
        reel.arranged(viewport, frame).slots[i].slot <= frame.base + k - 1,
        reel.arranged(viewport, frame).slots[i].window_id == reel.ring[(frame.base + k - 1)
            % reel.ring.len() as int],
{
    law_sanitizing_is_value_by_value(reel.geometry);
    assert(reel.row_in_band(viewport, frame, k));
    let first = lemma_first_row_of(reel, viewport, frame, k);
    lemma_row_slot_present(reel, viewport, frame, first, reel.row_count() as nat)
}

/// The first row in the band that shows the same window.
proof fn lemma_first_row_of(reel: ReelView, viewport: Rect, frame: ReelFrame, k: int) -> (j: int)
    requires
        0 <= k,
        reel.row_in_band(viewport, frame, k),
    ensures
        0 <= j <= k,
        reel.row_shown(viewport, frame, j),
        reel.row_place(frame, j) == reel.row_place(frame, k),
    decreases k,
{
    if reel.row_shown(viewport, frame, k) {
        k
    } else {
        let j = choose|j: int|
            0 <= j < k && #[trigger] reel.row_in_band(viewport, frame, j) && reel.row_place(frame, j)
                == reel.row_place(frame, k);
        lemma_first_row_of(reel, viewport, frame, j)
    }
}

/// A row that is shown has its slot.
proof fn lemma_row_slot_present(
    reel: ReelView,
    viewport: Rect,
    frame: ReelFrame,
    k: int,
    rows: nat,
) -> (i: int)
    requires
        0 <= k < rows,
        reel.row_shown(viewport, frame, k),
    ensures
        0 <= i < reel.slots_upto(viewport, frame, rows).len(),
        reel.slots_upto(viewport, frame, rows)[i] == reel.row_slot(viewport, frame, k),
    decreases rows,
{
    let above = reel.slots_upto(viewport, frame, (rows - 1) as nat);
    if k == rows - 1 {
        above.len() as int
    } else {
        lemma_row_slot_present(reel, viewport, frame, k, (rows - 1) as nat)
    }
}

/// The focus window is laid out in the main rectangle, and the layout names the
/// side and the offset it is for.
pub proof fn law_focus_window_fills_the_main_rect(reel: ReelView, viewport: Rect, frame: ReelFrame)
    ensures
        ({
            let layout = reel.arranged(viewport, frame);
            &&& layout.focus is Some <==> reel.focus is Some
            &&& reel.focus matches Some(id) ==> layout.focus == Some((id, layout.main_rect))
            &&& layout.side == reel.side
            &&& layout.offset == frame.offset
        }),
{
}

/// Hidden windows are listed in the order of the ring.
pub proof fn law_hidden_windows_keep_the_ring_order(
    reel: ReelView,
    viewport: Rect,
    frame: ReelFrame,
    a: int,
    b: int,
)
    requires
        reel.wf(),
        0 <= a < b < reel.ring.len(),
        reel.arranged(viewport, frame).hidden.contains(reel.ring[a]),
        reel.arranged(viewport, frame).hidden.contains(reel.ring[b]),
    ensures
        exists|i: int, j: int|
            0 <= i < j < reel.arranged(viewport, frame).hidden.len() && #[trigger] reel.arranged(
                viewport,
                frame,
            ).hidden[i] == reel.ring[a] && #[trigger] reel.arranged(viewport, frame).hidden[j]
                == reel.ring[b],
{
    let slots = reel.frame_slots(viewport, frame);
    let unseen = |id: WindowId| !shown_ids(slots).contains(id);
    lemma_filter_members(reel.ring, unseen);
    lemma_filter_order(reel.ring, unseen, a, b);
}

/// A filter keeps the order.
pub proof fn lemma_filter_order(
    ids: Seq<WindowId>,
    p: spec_fn(WindowId) -> bool,
    a: int,
    b: int,
)
    requires
        0 <= a < b < ids.len(),
        p(ids[a]),
        p(ids[b]),
    ensures
        exists|i: int, j: int|
            0 <= i < j < ids.filter(p).len() && #[trigger] ids.filter(p)[i] == ids[a] && #[trigger]
                ids.filter(p)[j] == ids[b],
    decreases ids.len(),
{
    reveal(Seq::filter);
    let front = ids.drop_last();
    if b < front.len() {
        lemma_filter_order(front, p, a, b);
        let (i, j) = choose|i: int, j: int|
            0 <= i < j < front.filter(p).len() && #[trigger] front.filter(p)[i] == front[a]
                && #[trigger] front.filter(p)[j] == front[b];
        assert(ids.filter(p)[i] == ids[a] && ids.filter(p)[j] == ids[b]);
    } else {
        lemma_filter_members(front, p);
        assert(front[a] == ids[a]);
        assert(front.contains(front[a]));
        assert(front.filter(p).contains(ids[a]));
        let i = choose|i: int| 0 <= i < front.filter(p).len() && front.filter(p)[i] == ids[a];
        let j = front.filter(p).len() as int;
        assert(ids.filter(p) == front.filter(p).push(ids[b]));
        assert(ids.filter(p)[i] == ids[a] && ids.filter(p)[j] == ids[b]);
    }
}

/// Whether a pixel lies on a slot, and in the rows of the column.
pub open spec fn pixel_on(slot: ReelSlotView, column: Rect, x: int, y: int) -> bool {
    &&& slot.rect.x <= x && x < slot.rect.x + slot.rect.width
    &&& slot.rect.y <= y && y < slot.rect.y + slot.rect.height
    &&& column.y <= y && y < column.y + column.height
}

/// Every pixel of a slot inside the column is a hit, on that slot or on one
/// listed before it that has the pixel too; a pixel of no slot is no hit.
pub proof fn law_pixels_of_slots_are_the_hits(
    reel: ReelView,
    viewport: Rect,
    frame: ReelFrame,
    x: i32,
    y: i32,
)
    ensures
        ({
            let slots = reel.arranged(viewport, frame).slots;
            let column = reel.arranged(viewport, frame).column_rect;
            match reel.hit(viewport, frame, x, y) {
                Some((slot, id)) => exists|i: int|
                    0 <= i < slots.len() && pixel_on(#[trigger] slots[i], column, x as int, y as int)
                        && slots[i].slot == slot && slots[i].window_id == id && forall|j: int|
                        0 <= j < i ==> !pixel_on(#[trigger] slots[j], column, x as int, y as int),
                None => forall|i: int|
                    0 <= i < slots.len() ==> !pixel_on(
                        #[trigger] slots[i],
                        column,
                        x as int,
                        y as int,
                    ),
            }
        }),
{
    let slots = reel.arranged(viewport, frame).slots;
    let column = reel.arranged(viewport, frame).column_rect;
    assert(slots == reel.frame_slots(viewport, frame) && column == reel.column(viewport));
    if slot_under(slots, column, x, y) is Some {
        let i = lemma_hit_slot(slots, column, x, y);
        let (slot, id) = reel.hit(viewport, frame, x, y)->0;
        assert(pixel_on(slots[i], column, x as int, y as int));
        assert(slots[i].slot == slot && slots[i].window_id == id);
        assert forall|j: int| 0 <= j < i implies !pixel_on(
            #[trigger] slots[j],
            column,
            x as int,
            y as int,
        ) by {
            assert(!slots[j].covers(column, x, y));
        }
    } else {
        assert forall|i: int| 0 <= i < slots.len() implies !pixel_on(
            #[trigger] slots[i],
            column,
            x as int,
            y as int,
        ) by {
            lemma_unhit(slots, column, x, y, i);
        }
    }
}

/// Where nothing is hit, no slot covers the point.
proof fn lemma_unhit(slots: Seq<ReelSlotView>, column: Rect, x: i32, y: i32, i: int)
    requires
        slot_under(slots, column, x, y) is None,
        0 <= i < slots.len(),
    ensures
        !slots[i].covers(column, x, y),
    decreases slots.len(),
{
    if i > 0 {
        assert(slots.skip(1)[i - 1] == slots[i]);
        lemma_unhit(slots.skip(1), column, x, y, i - 1);
    }
}

/// Where the rows lie apart, a pixel of a slot inside the column hits that very
/// slot.
pub proof fn law_pixel_of_a_slot_hits_that_slot(
    reel: ReelView,
    viewport: Rect,
    frame: ReelFrame,
    i: int,
    x: i32,
    y: i32,
)
    requires
        reel.frame_fits(viewport, frame),
        rows_apart(reel, viewport, frame),
        0 <= i < reel.arranged(viewport, frame).slots.len(),
        pixel_on(
            reel.arranged(viewport, frame).slots[i],
            reel.arranged(viewport, frame).column_rect,
            x as int,
            y as int,
        ),
    ensures
        reel.hit(viewport, frame, x, y) == Some(
            (
                reel.arranged(viewport, frame).slots[i].slot,
                reel.arranged(viewport, frame).slots[i].window_id,
            ),
        ),
{
    let slot = reel.arranged(viewport, frame).slots[i];
    assert(slot.covers(reel.column(viewport), x, y));
    law_point_hits_exactly_the_covering_slot(
        reel,
        viewport,
        frame,
        x,
        y,
        slot.slot,
        slot.window_id,
    );
}

/// The rendered region has the columns of the reel column, reaches from the
/// first to the last row that a slot shows inside it, and both ends are those of
/// slots. There is none exactly if no slot shows a row.
pub proof fn law_rendered_region_spans_the_shown_rows(layout: LayoutView, y: int)
    requires
        forall|i: int|
            0 <= i < layout.slots.len() ==> (#[trigger] layout.slots[i]).rect.y
                + layout.slots[i].rect.height <= i32::MAX,
        layout.column_rect.y + layout.column_rect.height <= i32::MAX,
        layout.column_rect.height <= i32::MAX + layout.column_rect.y,
        layout.region_fits(),
    ensures
        ({
            let column = layout.column_rect;
            match layout.region() {
                Some(region) => {
                    &&& region.x == column.x && region.width == column.width
                    &&& region.height > 0
                    &&& column.y <= region.y && region.y + region.height <= column.y + column.height
                    &&& forall|i: int|
                        #![trigger layout.slots[i]]
                        0 <= i < layout.slots.len() && layout.slots[i].rect.y <= y && y
                            < layout.slots[i].rect.y + layout.slots[i].rect.height && column.y <= y
                            && y < column.y + column.height ==> region.y <= y && y < region.y
                            + region.height
                    &&& exists|i: int|
                        0 <= i < layout.slots.len() && ((#[trigger] layout.slots[i]).rect.y
                            == region.y || column.y == region.y)
                    &&& exists|i: int|
                        0 <= i < layout.slots.len() && ((#[trigger] layout.slots[i]).rect.y
                            + layout.slots[i].rect.height == region.y + region.height || column.y
                            + column.height == region.y + region.height)
                },
                None => forall|i: int|
                    #![trigger layout.slots[i]]
                    0 <= i < layout.slots.len() ==> !(layout.slots[i].rect.y <= y && y
                        < layout.slots[i].rect.y + layout.slots[i].rect.height && column.y <= y && y
                        < column.y + column.height),
            }
        }),
{
    let column = layout.column_rect;
    let slots = layout.slots;
    lemma_covered_range(slots, column);
    assert forall|i: int|
        #![trigger layout.slots[i]]
        0 <= i < slots.len() && slots[i].rect.y <= y && y < slots[i].rect.y + slots[i].rect.height
            && column.y <= y && y < column.y + column.height implies covered_top(slots, column) <= y
        && y < covered_bottom(slots, column) by {
        lemma_covered_by(slots, column, i);
    }
}

/// The covered rows span those of a slot.
proof fn lemma_covered_by(slots: Seq<ReelSlotView>, band: Rect, i: int)
    requires
        0 <= i < slots.len(),
    ensures
        covered_top(slots, band) <= slots[i].clipped_top(band),
        slots[i].clipped_bottom(band) <= covered_bottom(slots, band),
    decreases slots.len(),
{
    if i < slots.len() - 1 {
        lemma_covered_by(slots.drop_last(), band, i);
    }
}

/// The ends of the covered rows are ends of slots, or of the band.
proof fn lemma_covered_range(slots: Seq<ReelSlotView>, band: Rect)
    requires
        band.y + band.height <= i32::MAX,
    ensures
        covered_top(slots, band) >= band.y,
        covered_bottom(slots, band) <= band.y + band.height || covered_bottom(slots, band)
            == i32::MIN,
        slots.len() == 0 ==> covered_top(slots, band) == i32::MAX && covered_bottom(slots, band)
            == i32::MIN,
        covered_top(slots, band) < i32::MAX ==> exists|i: int|
            0 <= i < slots.len() && ((#[trigger] slots[i]).rect.y == covered_top(slots, band)
                || band.y == covered_top(slots, band)),
        covered_bottom(slots, band) > i32::MIN ==> exists|i: int|
            0 <= i < slots.len() && ((#[trigger] slots[i]).rect.y + slots[i].rect.height
                == covered_bottom(slots, band) || band.y + band.height == covered_bottom(
                slots,
                band,
            )),
    decreases slots.len(),
{
    if slots.len() > 0 {
        let front = slots.drop_last();
        let last = slots.len() - 1;
        lemma_covered_range(front, band);
        let top = covered_top(slots, band);
        let bottom = covered_bottom(slots, band);
        if top < i32::MAX {
            if top == slots[last].clipped_top(band) {
                assert(slots[last].rect.y == top || band.y == top);
            } else {
                let i = choose|i: int|
                    0 <= i < front.len() && ((#[trigger] front[i]).rect.y == top || band.y == top);
                assert(slots[i] == front[i]);
            }
        }
        if bottom > i32::MIN {
            if bottom == slots[last].clipped_bottom(band) {
                assert(slots[last].rect.y + slots[last].rect.height == bottom || band.y
                    + band.height == bottom);
            } else {
                let i = choose|i: int|
                    0 <= i < front.len() && ((#[trigger] front[i]).rect.y + front[i].rect.height
                        == bottom || band.y + band.height == bottom);
                assert(slots[i] == front[i]);
            }
        }
    }
}

/// The window at a slot is that of the first slot with the ordinal; there is
/// none exactly if no slot has it.
pub proof fn law_window_at_slot_is_by_ordinal(slots: Seq<ReelSlotView>, slot: i64)
    ensures
        match slot_numbered(slots, slot) {
            Some(id) => exists|i: int|
                0 <= i < slots.len() && (#[trigger] slots[i]).slot == slot && slots[i].window_id
                    == id && forall|j: int| 0 <= j < i ==> (#[trigger] slots[j]).slot != slot,
            None => forall|i: int| 0 <= i < slots.len() ==> (#[trigger] slots[i]).slot != slot,
        },
    decreases slots.len(),
{
    if slots.len() > 0 {
        let rest = slots.skip(1);
        law_window_at_slot_is_by_ordinal(rest, slot);
        if slots[0].slot == slot {
            assert(slots[0].slot == slot);
        } else {
            if slot_numbered(rest, slot) is Some {
                let i = choose|i: int|
                    0 <= i < rest.len() && (#[trigger] rest[i]).slot == slot && rest[i].window_id
                        == slot_numbered(rest, slot)->0 && forall|j: int|
                        0 <= j < i ==> (#[trigger] rest[j]).slot != slot;
                assert(slots[i + 1] == rest[i]);
                assert forall|j: int| 0 <= j < i + 1 implies (#[trigger] slots[j]).slot != slot by {
                    if j > 0 {
                        assert(rest[j - 1] == slots[j]);
                    }
                }
            } else {
                assert forall|i: int| 0 <= i < slots.len() implies (#[trigger] slots[i]).slot
                    != slot by {
                    if i > 0 {
                        assert(rest[i - 1] == slots[i]);
                    }
                }
            }
        }
    }
}

} // verus!
