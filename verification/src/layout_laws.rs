//! What holds of every frame of the reel.

use vstd::prelude::*;

use crate::focus_reel::ReelView;
use crate::id_list::{lemma_filter_members, lemma_find_id};
use crate::reel_layout::{
    covered_bottom, covered_top, lemma_slot_row, shown_ids, slot_under, ReelFrame, ReelSlotView,
};
use crate::types::{fits_i32, Rect, WindowId};

verus! {

/// Slots come in the order of their ordinals, and each names the ring member
/// that its ordinal wraps to.
pub proof fn law_slots_follow_the_ring(
    reel: ReelView,
    viewport: Rect,
    frame: ReelFrame,
    i: int,
    j: int,
)
    requires
        reel.frame_fits(viewport, frame),
        0 <= i <= j < reel.frame_slots(viewport, frame).len(),
    ensures
        i < j ==> reel.frame_slots(viewport, frame)[i].slot < reel.frame_slots(
            viewport,
            frame,
        )[j].slot,
        ({
            let slot = reel.frame_slots(viewport, frame)[i];
            slot.window_id == reel.ring[reel.ring_place(slot.slot as int)]
        }),
{
    let rows = reel.row_count() as nat;
    let a = lemma_slot_row(reel, viewport, frame, rows, i);
    let b = lemma_slot_row(reel, viewport, frame, rows, j);
    if i < j && a >= b {
        lemma_slots_grow(reel, viewport, frame, b as nat, a as nat);
    }
}

proof fn lemma_slots_grow(reel: ReelView, viewport: Rect, frame: ReelFrame, a: nat, b: nat)
    requires
        a <= b,
    ensures
        reel.slots_upto(viewport, frame, a).len() <= reel.slots_upto(viewport, frame, b).len(),
    decreases b - a,
{
    if a < b {
        lemma_slots_grow(reel, viewport, frame, a, (b - 1) as nat);
    }
}

/// No window is shown twice, and every ring member is either shown or hidden.
pub proof fn law_every_ring_member_is_shown_once_or_hidden(
    reel: ReelView,
    viewport: Rect,
    frame: ReelFrame,
)
    requires
        reel.wf(),
        reel.frame_fits(viewport, frame),
    ensures
        shown_ids(reel.arranged(viewport, frame).slots).no_duplicates(),
        reel.arranged(viewport, frame).hidden.no_duplicates(),
        forall|id: WindowId| #[trigger]
            shown_ids(reel.arranged(viewport, frame).slots).contains(id) ==> reel.ring.contains(id),
        forall|id: WindowId| #[trigger]
            reel.arranged(viewport, frame).hidden.contains(id) <==> reel.ring.contains(id)
                && !shown_ids(reel.arranged(viewport, frame).slots).contains(id),
{
    let slots = reel.frame_slots(viewport, frame);
    let ids = shown_ids(slots);
    let rows = reel.row_count() as nat;
    let n = reel.ring.len() as int;
    assert forall|i: int, j: int| 0 <= i < j < ids.len() implies ids[i] != ids[j] by {
        let a = lemma_slot_row(reel, viewport, frame, rows, i);
        let b = lemma_slot_row(reel, viewport, frame, rows, j);
        if a >= b {
            lemma_slots_grow(reel, viewport, frame, b as nat, a as nat);
        }
        assert(reel.row_in_band(viewport, frame, a));
        assert(reel.row_place(frame, a) != reel.row_place(frame, b));
        vstd::arithmetic::div_mod::lemma_mod_bound(frame.base - 1 + a, n);
        vstd::arithmetic::div_mod::lemma_mod_bound(frame.base - 1 + b, n);
    }
    assert forall|id: WindowId| #[trigger] ids.contains(id) implies reel.ring.contains(id) by {
        let i = choose|i: int| 0 <= i < ids.len() && ids[i] == id;
        let a = lemma_slot_row(reel, viewport, frame, rows, i);
        vstd::arithmetic::div_mod::lemma_mod_bound(frame.base - 1 + a, n);
        assert(reel.ring[reel.row_place(frame, a)] == id);
    }
    lemma_filter_members(reel.ring, |id: WindowId| !ids.contains(id));
}

/// Slots lie below one another when the rows of the frame do.
pub proof fn law_slots_lie_top_to_bottom(
    reel: ReelView,
    viewport: Rect,
    frame: ReelFrame,
    i: int,
    j: int,
)
    requires
        reel.frame_fits(viewport, frame),
        forall|a: int, b: int|
            0 <= a <= b < frame.drops@.len() ==> frame.drops@[a] <= frame.drops@[b],
        0 <= i <= j < reel.frame_slots(viewport, frame).len(),
    ensures
        reel.frame_slots(viewport, frame)[i].rect.y <= reel.frame_slots(viewport, frame)[j].rect.y,
{
    let rows = reel.row_count() as nat;
    let a = lemma_slot_row(reel, viewport, frame, rows, i);
    let b = lemma_slot_row(reel, viewport, frame, rows, j);
    if a > b {
        lemma_slots_grow(reel, viewport, frame, (b + 1) as nat, a as nat);
    }
    assert(fits_i32(reel.row_top(viewport, frame, a)));
    assert(fits_i32(reel.row_top(viewport, frame, b)));
}

/// What a click hits is what promoting the returned ordinal brings to focus.
pub proof fn law_hit_window_is_the_one_promoted(
    reel: ReelView,
    viewport: Rect,
    frame: ReelFrame,
    x: i32,
    y: i32,
)
    requires
        reel.frame_fits(viewport, frame),
    ensures
        match reel.hit(viewport, frame, x, y) {
            Some((slot, id)) => reel.ring.contains(id) && reel.promoted(slot as int).focus == Some(
                id,
            ),
            None => true,
        },
{
    let slots = reel.frame_slots(viewport, frame);
    if reel.hit(viewport, frame, x, y) is Some {
        let i = lemma_hit_slot(slots, reel.column(viewport), x, y);
        law_slots_follow_the_ring(reel, viewport, frame, i, i);
        vstd::arithmetic::div_mod::lemma_mod_bound(slots[i].slot as int, reel.ring.len() as int);
    }
}

/// The slot of a hit.
pub proof fn lemma_hit_slot(slots: Seq<ReelSlotView>, band: Rect, x: i32, y: i32) -> (i: int)
    requires
        slot_under(slots, band, x, y) is Some,
    ensures
        0 <= i < slots.len(),
        slots[i].covers(band, x, y),
        slot_under(slots, band, x, y) == Some((slots[i].slot, slots[i].window_id)),
        forall|j: int| 0 <= j < i ==> !(#[trigger] slots[j]).covers(band, x, y),
    decreases slots.len(),
{
    if slots[0].covers(band, x, y) {
        0
    } else {
        let rest = slots.skip(1);
        let i = lemma_hit_slot(rest, band, x, y);
        assert(rest[i] == slots[i + 1]);
        assert forall|j: int| 0 <= j < i + 1 implies !(#[trigger] slots[j]).covers(band, x, y) by {
            if j > 0 {
                assert(rest[j - 1] == slots[j]);
            }
        }
        i + 1
    }
}

/// A click on the blank part of the column is no hit: whatever is hit lies in
/// the rendered region.
pub proof fn law_hits_lie_in_the_rendered_region(
    reel: ReelView,
    viewport: Rect,
    frame: ReelFrame,
    x: i32,
    y: i32,
)
    requires
        reel.frame_fits(viewport, frame),
        reel.arranged(viewport, frame).region_fits(),
        reel.hit(viewport, frame, x, y) is Some,
    ensures
        match reel.arranged(viewport, frame).region() {
            Some(region) => region.x <= x < region.end_x() && region.y <= y < region.end_y(),
            None => false,
        },
{
    let slots = reel.frame_slots(viewport, frame);
    let column = reel.column(viewport);
    let i = lemma_hit_slot(slots, column, x, y);
    let a = lemma_slot_row(reel, viewport, frame, reel.row_count() as nat, i);
    lemma_covered(slots, column, i);
}

/// The covered rows span those of each slot.
proof fn lemma_covered(slots: Seq<ReelSlotView>, band: Rect, i: int)
    requires
        0 <= i < slots.len(),
    ensures
        covered_top(slots, band) <= slots[i].clipped_top(band),
        slots[i].clipped_bottom(band) <= covered_bottom(slots, band),
        i32::MIN <= covered_top(slots, band) <= i32::MAX,
    decreases slots.len(),
{
    if i < slots.len() - 1 {
        lemma_covered(slots.drop_last(), band, i);
    } else {
        lemma_covered_top_range(slots, band);
    }
}

proof fn lemma_covered_top_range(slots: Seq<ReelSlotView>, band: Rect)
    ensures
        i32::MIN <= covered_top(slots, band) <= i32::MAX,
    decreases slots.len(),
{
    if slots.len() > 0 {
        lemma_covered_top_range(slots.drop_last(), band);
    }
}

/// The frame of a reel at rest: each row lies a whole slot below the one above.
pub open spec fn frame_at_rest(reel: ReelView, viewport: Rect, frame: ReelFrame) -> bool {
    &&& frame.drops@.len() == reel.row_count()
    &&& forall|k: int|
        0 <= k < frame.drops@.len() ==> #[trigger] frame.drops@[k] == (k - 1)
            * reel.geometry.clean().slot_rise(viewport)
}

/// At rest the first slot is flush with the top of the band and holds the ring
/// member that the offset names.
pub proof fn law_resting_reel_starts_at_the_top(reel: ReelView, viewport: Rect, frame: ReelFrame)
    requires
        reel.frame_fits(viewport, frame),
        frame_at_rest(reel, viewport, frame),
        reel.ring.len() > 0,
        reel.geometry.clean().span(viewport) > 0,
    ensures
        ({
            let slots = reel.frame_slots(viewport, frame);
            &&& slots.len() > 0
            &&& slots[0].slot == frame.base
            &&& slots[0].window_id == reel.ring[reel.ring_place(frame.base as int)]
            &&& slots[0].rect.y == reel.column(viewport).y
        }),
{
    let rows = reel.row_count() as nat;
    let g = reel.geometry.clean();
    let rise = g.slot_rise(viewport);
    let slots = reel.slots_upto(viewport, frame, rows);
    assert(reel.row_top(viewport, frame, 0) == g.band(viewport).y - rise) by {
        assert(frame.drops@[0] == (0 - 1) * rise);
    }
    assert(reel.row_top(viewport, frame, 1) == g.band(viewport).y) by {
        assert(frame.drops@[1] == (1 - 1) * rise);
    }
    assert(rise >= 1) by {
        lemma_slot_rise_positive(reel, viewport);
    }
    assert(!reel.row_in_band(viewport, frame, 0));
    assert(reel.reach(viewport) >= 1) by (nonlinear_arith)
        requires
            reel.reach(viewport) == g.visible_slots * rise,
            g.visible_slots >= 1,
            rise >= 1,
    ;
    assert(reel.row_in_band(viewport, frame, 1));
    assert(reel.row_shown(viewport, frame, 1));
    assert(reel.slots_upto(viewport, frame, 0).len() == 0);
    assert(reel.slots_upto(viewport, frame, 1).len() == 0);
    assert(reel.slots_upto(viewport, frame, 2) == seq![reel.row_slot(viewport, frame, 1)]);
    lemma_slots_extend(reel, viewport, frame, 2, rows);
}

proof fn lemma_slot_rise_positive(reel: ReelView, viewport: Rect)
    requires
        reel.geometry.clean().span(viewport) >= 0,
    ensures
        reel.geometry.clean().slot_rise(viewport) >= 1,
        reel.content_rise(viewport) <= reel.geometry.clean().slot_rise(viewport),
{
    let g = reel.geometry.clean();
    if g.slot_divisor() > 0 {
        vstd::arithmetic::div_mod::lemma_div_pos_is_pos(
            g.span(viewport),
            g.slot_divisor() as int,
        );
    }
}

proof fn lemma_slots_extend(reel: ReelView, viewport: Rect, frame: ReelFrame, a: nat, b: nat)
    requires
        a <= b,
    ensures
        ({
            let few = reel.slots_upto(viewport, frame, a);
            let many = reel.slots_upto(viewport, frame, b);
            &&& few.len() <= many.len()
            &&& forall|i: int| 0 <= i < few.len() ==> many[i] == few[i]
        }),
    decreases b - a,
{
    if a < b {
        lemma_slots_extend(reel, viewport, frame, a, (b - 1) as nat);
    }
}

/// At rest, a reel with enough windows fills every visible slot: the rows from
/// the top on each show the next ring member, all of them entirely inside the
/// band.
pub proof fn law_resting_reel_fills_the_visible_slots(
    reel: ReelView,
    viewport: Rect,
    frame: ReelFrame,
    k: int,
)
    requires
        reel.frame_fits(viewport, frame),
        frame_at_rest(reel, viewport, frame),
        reel.geometry.clean().visible_slots <= reel.ring.len(),
        reel.geometry.clean().visible_slots <= reel.geometry.clean().span(viewport),
        1 <= k <= reel.geometry.clean().visible_slots,
    ensures
        reel.row_shown(viewport, frame, k),
        reel.row_slot(viewport, frame, k).fully_visible,
        reel.row_slot(viewport, frame, k).window_id == reel.ring[reel.ring_place(
            frame.base + k - 1,
        )],
{
    let g = reel.geometry.clean();
    let rise = g.slot_rise(viewport);
    let count = g.visible_slots as int;
    let span = g.span(viewport);
    let n = reel.ring.len() as int;
    lemma_slot_rise_positive(reel, viewport);
    assert(g.clean() == g);
    let share = span / count;
    vstd::arithmetic::div_mod::lemma_fundamental_div_mod(span, count);
    vstd::arithmetic::div_mod::lemma_mod_bound(span, count);
    vstd::arithmetic::div_mod::lemma_div_is_ordered(count, span, count);
    vstd::arithmetic::div_mod::lemma_div_by_self(count);
    assert(rise <= share);
    assert(k * rise <= span) by (nonlinear_arith)
        requires
            1 <= k <= count,
            0 <= rise <= share,
            count * share <= span,
    ;
    assert(0 <= (k - 1) * rise && (k - 1) * rise + rise == k * rise) by (nonlinear_arith)
        requires
            1 <= k,
            0 <= rise,
    ;
    assert(frame.drops@[k] == (k - 1) * rise);
    assert((k - 1) * rise < count * rise) by (nonlinear_arith)
        requires
            k <= count,
            rise >= 1,
    ;
    assert(reel.row_in_band(viewport, frame, k));
    assert(!reel.row_in_band(viewport, frame, 0)) by {
        assert(frame.drops@[0] == (0 - 1) * rise);
    }
    assert forall|j: int|
        0 <= j < k && #[trigger] reel.row_in_band(viewport, frame, j) implies reel.row_place(
        frame,
        j,
    ) != reel.row_place(frame, k) by {
        lemma_places_differ(frame.base - 1 + j, k - j, n);
    }
}

/// At rest at the offset that scrolling to a window aims for, the window
/// occupies the visual slot asked for: its row lies that many slots below the
/// top of the band, entirely inside it.
pub proof fn law_scroll_target_brings_the_window_to_its_slot(
    reel: ReelView,
    viewport: Rect,
    frame: ReelFrame,
    id: WindowId,
    slot: int,
)
    requires
        reel.frame_fits(viewport, frame),
        frame_at_rest(reel, viewport, frame),
        reel.scroll_goal(id, slot) == Some(frame.base as int),
        reel.geometry.clean().visible_slots <= reel.ring.len(),
        reel.geometry.clean().visible_slots <= reel.geometry.clean().span(viewport),
        0 <= slot < reel.geometry.clean().visible_slots,
    ensures
        reel.row_shown(viewport, frame, slot + 1),
        reel.row_slot(viewport, frame, slot + 1).window_id == id,
        reel.row_slot(viewport, frame, slot + 1).fully_visible,
        reel.row_top(viewport, frame, slot + 1) == reel.geometry.clean().band(viewport).y + slot
            * reel.geometry.clean().slot_rise(viewport),
{
    law_resting_reel_fills_the_visible_slots(reel, viewport, frame, slot + 1);
    lemma_find_id(reel.ring, id);
    let at = frame.base + slot;
    vstd::arithmetic::div_mod::lemma_small_mod(at as nat, reel.ring.len());
    assert(frame.drops@[slot + 1] == (slot + 1 - 1) * reel.geometry.clean().slot_rise(viewport));
}

proof fn lemma_places_differ(x: int, d: int, n: int)
    requires
        0 < d < n,
    ensures
        x % n != (x + d) % n,
{
    if x % n == (x + d) % n {
        vstd::arithmetic::div_mod::lemma_mod_equivalence(x + d, x, n);
        vstd::arithmetic::div_mod::lemma_small_mod(d as nat, n as nat);
    }
}

/// At rest no more slots are shown than are to be visible at once.
pub proof fn law_resting_reel_shows_at_most_the_visible_slots(
    reel: ReelView,
    viewport: Rect,
    frame: ReelFrame,
)
    requires
        reel.frame_fits(viewport, frame),
        frame_at_rest(reel, viewport, frame),
    ensures
        reel.arranged(viewport, frame).slots.len() <= reel.geometry.clean().visible_slots,
{
    if reel.ring.len() > 0 {
        lemma_resting_rows(reel, viewport, frame, reel.row_count() as nat);
    }
}

/// Of the rows at rest, the one above the band and those past the visible slots
/// are not shown.
proof fn lemma_resting_rows(reel: ReelView, viewport: Rect, frame: ReelFrame, rows: nat)
    requires
        reel.frame_fits(viewport, frame),
        frame_at_rest(reel, viewport, frame),
        rows <= reel.row_count(),
    ensures
        ({
            let shown = reel.slots_upto(viewport, frame, rows).len();
            &&& shown <= reel.geometry.clean().visible_slots
            &&& rows > 0 ==> shown < rows
            &&& rows == 0 ==> shown == 0
        }),
    decreases rows,
{
    if rows > 0 {
        lemma_resting_rows(reel, viewport, frame, (rows - 1) as nat);
        lemma_slot_rise_positive(reel, viewport);
        let rise = reel.geometry.clean().slot_rise(viewport);
        let count = reel.geometry.clean().visible_slots as int;
        let k = rows - 1;
        assert(frame.drops@[k] == (k - 1) * rise);
        if k == 0 {
            assert(frame.drops@[0] == (0 - 1) * rise);
            assert(!reel.row_in_band(viewport, frame, k));
        } else if k > count {
            assert((k - 1) * rise >= count * rise) by (nonlinear_arith)
                requires
                    k - 1 >= count,
                    rise >= 1,
            ;
            assert(!reel.row_in_band(viewport, frame, k));
        }
    }
}

/// The rows of a frame lie at least a slot's content apart.
pub open spec fn rows_apart(reel: ReelView, viewport: Rect, frame: ReelFrame) -> bool {
    forall|a: int, b: int|
        0 <= a < b < frame.drops@.len() ==> #[trigger] frame.drops@[a] + reel.content_rise(viewport)
            <= #[trigger] frame.drops@[b]
}

/// Slots do not overlap where the rows lie apart: each ends before the next
/// begins.
pub proof fn law_slots_do_not_overlap(
    reel: ReelView,
    viewport: Rect,
    frame: ReelFrame,
    i: int,
    j: int,
)
    requires
        reel.frame_fits(viewport, frame),
        rows_apart(reel, viewport, frame),
        0 <= i < j < reel.frame_slots(viewport, frame).len(),
    ensures
        reel.frame_slots(viewport, frame)[i].rect.end_y() <= reel.frame_slots(
            viewport,
            frame,
        )[j].rect.y,
{
    let rows = reel.row_count() as nat;
    let a = lemma_slot_row(reel, viewport, frame, rows, i);
    let b = lemma_slot_row(reel, viewport, frame, rows, j);
    if a >= b {
        lemma_slots_grow(reel, viewport, frame, b as nat, a as nat);
    }
    assert(fits_i32(reel.row_top(viewport, frame, a)));
    assert(fits_i32(reel.row_top(viewport, frame, b)));
    lemma_slot_rise_positive(reel, viewport);
    assert(frame.drops@[a] + reel.content_rise(viewport) <= frame.drops@[b]);
}

/// A point hits exactly the slot that covers it inside the column; every other
/// point, blank column space included, hits nothing.
pub proof fn law_point_hits_exactly_the_covering_slot(
    reel: ReelView,
    viewport: Rect,
    frame: ReelFrame,
    x: i32,
    y: i32,
    slot: i64,
    id: WindowId,
)
    requires
        reel.frame_fits(viewport, frame),
        rows_apart(reel, viewport, frame),
    ensures
        reel.hit(viewport, frame, x, y) == Some((slot, id)) <==> exists|i: int|
            0 <= i < reel.arranged(viewport, frame).slots.len() && (
            #[trigger] reel.arranged(viewport, frame).slots[i]).covers(
                reel.column(viewport),
                x,
                y,
            ) && reel.arranged(viewport, frame).slots[i].slot == slot && reel.arranged(
                viewport,
                frame,
            ).slots[i].window_id == id,
{
    let slots = reel.arranged(viewport, frame).slots;
    let column = reel.column(viewport);
    assert(slots == reel.frame_slots(viewport, frame));
    if reel.hit(viewport, frame, x, y) is Some {
        let i = lemma_hit_slot(slots, column, x, y);
        assert(slots[i].covers(column, x, y));
        assert forall|j: int| 0 <= j < slots.len() && j != i implies !(#[trigger] slots[j]).covers(
            column,
            x,
            y,
        ) by {
            if i < j {
                law_slots_do_not_overlap(reel, viewport, frame, i, j);
            } else {
                law_slots_do_not_overlap(reel, viewport, frame, j, i);
            }
        }
    } else {
        lemma_no_hit(slots, column, x, y);
    }
}

/// Where nothing is hit, no slot covers the point.
proof fn lemma_no_hit(slots: Seq<ReelSlotView>, band: Rect, x: i32, y: i32)
    requires
        slot_under(slots, band, x, y) is None,
    ensures
        forall|j: int| 0 <= j < slots.len() ==> !(#[trigger] slots[j]).covers(band, x, y),
    decreases slots.len(),
{
    if slots.len() > 0 {
        let rest = slots.skip(1);
        lemma_no_hit(rest, band, x, y);
        assert forall|j: int| 0 <= j < slots.len() implies !(#[trigger] slots[j]).covers(
            band,
            x,
            y,
        ) by {
            if j > 0 {
                assert(rest[j - 1] == slots[j]);
            }
        }
    }
}

} // verus!
