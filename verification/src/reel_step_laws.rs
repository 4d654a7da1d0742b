//! What each operation on the reel does, place by place and value by value.

use vstd::prelude::*;

use crate::focus_reel::{empty_reel, ReelView};
use crate::id_list::{
    as_set, find_id, fresh, lemma_filter_members, lemma_find_id, lemma_find_id_is, lemma_fresh,
};
use crate::reel_geometry::{ReelGeometry, ReelSide};
use crate::reel_laws::{law_sync_keeps_order_and_appends, sync_start};
use crate::reel_place_laws::lemma_filter_order;
use crate::scroll::{Offset, Retarget};
use crate::types::WindowId;

verus! {

/// Whether the bits are those of a number: no infinity, and not those that
/// stand for none.
pub open spec fn number_bits(bits: u64) -> bool {
    bits < 0x7FF0_0000_0000_0000 || 0x8000_0000_0000_0000 <= bits < 0xFFF0_0000_0000_0000
}

/// Whether a place of the ring is the first to hold a window.
pub open spec fn first_place(ring: Seq<WindowId>, id: WindowId, at: int) -> bool {
    &&& 0 <= at < ring.len()
    &&& ring[at] == id
    &&& forall|j: int| 0 <= j < at ==> ring[j] != id
}

/// Whether a window stands on the ring.
pub open spec fn on_ring(ring: Seq<WindowId>, id: WindowId) -> bool {
    exists|j: int| 0 <= j < ring.len() && #[trigger] ring[j] == id
}

/// Whether one window comes before another in a list.
pub open spec fn listed_before(ids: Seq<WindowId>, a: WindowId, b: WindowId) -> bool {
    exists|i: int, j: int| 0 <= i < j < ids.len() && #[trigger] ids[i] == a && #[trigger] ids[j] == b
}

/// Whether nothing but windows and their order differs.
pub open spec fn same_motion(a: ReelView, b: ReelView) -> bool {
    &&& a.offset == b.offset
    &&& a.animation == b.animation
    &&& a.pending_settle == b.pending_settle
    &&& a.ms_since_scroll == b.ms_since_scroll
}

/// Whether the reel is configured alike.
pub open spec fn same_settings(a: ReelView, b: ReelView) -> bool {
    &&& a.geometry == b.geometry
    &&& a.reduce_motion == b.reduce_motion
    &&& a.duration_ms == b.duration_ms
    &&& a.easing == b.easing
}

/// Whether the reel rests at the top.
pub open spec fn rests_at_the_top(reel: ReelView) -> bool {
    &&& reel.offset.bits == 0
    &&& reel.animation is None
    &&& !reel.pending_settle
    &&& reel.ms_since_scroll == 0
}

/// Which bits stand for a number, and which for zero.
pub proof fn law_numbers_by_their_bits(offset: Offset)
    ensures
        offset.finite() <==> number_bits(offset.bits),
        offset.is_nought() <==> offset.bits == 0 || offset.bits == 0x8000_0000_0000_0000,
{
}

/// An empty reel has no window, stands on the right, rests at the top and
/// animates in a fifth of a second.
pub proof fn law_empty_reel_is_at_rest(geometry: ReelGeometry)
    ensures
        ({
            let reel = empty_reel(geometry);
            &&& reel.ring.len() == 0
            &&& reel.focus is None
            &&& reel.side == ReelSide::Right
            &&& reel.geometry == geometry
            &&& rests_at_the_top(reel)
            &&& !reel.reduce_motion
            &&& reel.duration_ms == 200
            &&& reel.easing.curve == 0
        }),
{
}

/// A new window comes last on the ring, or becomes the focus window if there is
/// none. A window that is there already changes nothing.
pub proof fn law_new_window_comes_last(reel: ReelView, id: WindowId, i: int)
    ensures
        ({
            let after = reel.pushed(id);
            let known = reel.focus == Some(id) || on_ring(reel.ring, id);
            &&& known ==> after == reel
            &&& !known ==> same_motion(after, reel) && same_settings(after, reel) && after.side
                == reel.side
            &&& !known && reel.focus is None ==> after.focus == Some(id) && after.ring == reel.ring
            &&& !known && reel.focus is Some ==> {
                &&& after.focus == reel.focus
                &&& after.ring.len() == reel.ring.len() + 1
                &&& after.ring[reel.ring.len() as int] == id
                &&& 0 <= i < reel.ring.len() ==> after.ring[i] == reel.ring[i]
            }
        }),
{
}

/// Removing the focus window brings the front of the ring to focus; removing a
/// ring member closes the gap. A reel that fits afterwards rests at the top, any
/// other scrolls on as it did.
pub proof fn law_removal_closes_the_gap(reel: ReelView, id: WindowId, at: int, i: int)
    ensures
        ({
            let after = reel.removed(id);
            let n = reel.ring.len();
            let gone = reel.focus == Some(id) || on_ring(reel.ring, id);
            &&& same_settings(after, reel) && after.side == reel.side
            &&& !gone ==> after == reel
            &&& gone && after.ring.len() > reel.geometry.visible_slots ==> same_motion(after, reel)
            &&& gone && after.ring.len() <= reel.geometry.visible_slots ==> rests_at_the_top(after)
            &&& reel.focus == Some(id) && n > 0 ==> {
                &&& after.focus == Some(reel.ring[0])
                &&& after.ring.len() == n - 1
                &&& 0 <= i < n - 1 ==> after.ring[i] == reel.ring[i + 1]
            }
            &&& reel.focus == Some(id) && n == 0 ==> after.focus is None && after.ring.len() == 0
            &&& reel.focus != Some(id) && first_place(reel.ring, id, at) ==> {
                &&& after.focus == reel.focus
                &&& after.ring.len() == n - 1
                &&& 0 <= i < at ==> after.ring[i] == reel.ring[i]
                &&& at <= i < n - 1 ==> after.ring[i] == reel.ring[i + 1]
            }
        }),
{
    lemma_find_id(reel.ring, id);
    if let Some(k) = find_id(reel.ring, id) {
        assert(reel.ring[k] == id);
    }
    if first_place(reel.ring, id, at) {
        lemma_find_id_is(reel.ring, id, at);
    }
}

/// An ordinal names the place it leaves when whole turns are taken off.
pub proof fn law_ordinal_wraps(reel: ReelView, slot: int, turns: int, at: int)
    requires
        0 <= at < reel.ring.len(),
        slot == turns * reel.ring.len() + at,
    ensures
        reel.ring_place(slot) == at,
{
    let n = reel.ring.len() as int;
    vstd::arithmetic::div_mod::lemma_fundamental_div_mod_converse(slot, n, turns, at);
}

/// Promoting brings the window at an ordinal to focus. What followed it on the
/// ring comes to the front, then the window that had focus, then what preceded
/// it. The reel is shown from the top and changes sides only if that is
/// configured.
pub proof fn law_promotion_place_by_place(
    reel: ReelView,
    slot: int,
    turns: int,
    at: int,
    i: int,
)
    requires
        0 <= at < reel.ring.len(),
        slot == turns * reel.ring.len() + at,
    ensures
        ({
            let after = reel.promoted(slot);
            let n = reel.ring.len();
            &&& after.focus == Some(reel.ring[at])
            &&& 0 <= i < n - 1 - at ==> after.ring[i] == reel.ring[at + 1 + i]
            &&& reel.focus matches Some(old_focus) ==> {
                &&& after.ring.len() == n
                &&& after.ring[n - 1 - at] == old_focus
                &&& 0 <= i < at ==> after.ring[n - at + i] == reel.ring[i]
            }
            &&& reel.focus is None ==> {
                &&& after.ring.len() == n - 1
                &&& 0 <= i < at ==> after.ring[n - 1 - at + i] == reel.ring[i]
            }
            &&& after.offset.bits == 0 && after.animation is None
            &&& after.pending_settle == reel.pending_settle
            &&& after.ms_since_scroll == reel.ms_since_scroll
            &&& same_settings(after, reel)
            &&& !reel.geometry.flip_side_on_promote ==> after.side == reel.side
            &&& reel.geometry.flip_side_on_promote ==> after.side != reel.side
        }),
{
    law_ordinal_wraps(reel, slot, turns, at);
}

/// With an empty ring there is nothing to promote, turn or move.
pub proof fn law_empty_ring_stays(reel: ReelView, slot: int, id: WindowId)
    requires
        reel.ring.len() == 0,
    ensures
        reel.promoted(slot) == reel,
        reel.turned(slot) == reel,
        reel.shifted(id, slot) == reel,
        reel.focused_on(id) == reel,
{
}

/// Focusing a window promotes the place it stands at. The focus window itself
/// and a window that is not there change nothing.
pub proof fn law_focusing_promotes_its_place(reel: ReelView, id: WindowId, at: int)
    ensures
        reel.focus == Some(id) || !on_ring(reel.ring, id) ==> reel.focused_on(id) == reel
            && !reel.can_focus(id),
        reel.focus != Some(id) && first_place(reel.ring, id, at) ==> reel.focused_on(id)
            == reel.promoted(at) && reel.focused_on(id).focus == Some(id) && reel.can_focus(id),
{
    lemma_find_id(reel.ring, id);
    if let Some(k) = find_id(reel.ring, id) {
        assert(reel.ring[k] == id);
    }
    if first_place(reel.ring, id, at) {
        lemma_find_id_is(reel.ring, id, at);
        assert(reel.ring_place(at) == at) by {
            law_ordinal_wraps(reel, at, 0, at);
        }
        assert(reel.ring.contains(reel.ring[at]));
    }
}

/// Turning the ring brings each window a number of places towards the top, the
/// first ones round to the end. Nothing else changes.
pub proof fn law_turning_place_by_place(
    reel: ReelView,
    delta: int,
    turns: int,
    by: int,
    i: int,
)
    requires
        reel.ring.len() >= 2,
        0 <= by < reel.ring.len(),
        delta == turns * reel.ring.len() + by,
        0 <= i < reel.ring.len(),
    ensures
        ({
            let after = reel.turned(delta);
            let n = reel.ring.len();
            &&& after.ring.len() == n
            &&& i + by < n ==> after.ring[i] == reel.ring[i + by]
            &&& i + by >= n ==> after.ring[i] == reel.ring[i + by - n]
            &&& after.focus == reel.focus
            &&& after.side == reel.side
            &&& same_motion(after, reel)
            &&& same_settings(after, reel)
        }),
{
    law_ordinal_wraps(reel, delta, turns, by);
}

/// Moving a ring member puts it the given number of places on, wrapping, and
/// leaves the others in their order. Nothing else changes.
pub proof fn law_moving_place_by_place(
    reel: ReelView,
    id: WindowId,
    at: int,
    delta: int,
    turns: int,
    to: int,
    i: int,
)
    requires
        reel.ring.len() >= 2,
        first_place(reel.ring, id, at),
        delta != 0,
        0 <= to < reel.ring.len(),
        at + delta == turns * reel.ring.len() + to,
        0 <= i < reel.ring.len() - 1,
    ensures
        ({
            let after = reel.shifted(id, delta);
            let n = reel.ring.len();
            let other = if i < at {
                reel.ring[i]
            } else {
                reel.ring[i + 1]
            };
            &&& after.ring.len() == n
            &&& after.ring[to] == id
            &&& i < to ==> after.ring[i] == other
            &&& i >= to ==> after.ring[i + 1] == other
            &&& after.focus == reel.focus
            &&& after.side == reel.side
            &&& same_motion(after, reel)
            &&& same_settings(after, reel)
        }),
{
    lemma_find_id_is(reel.ring, id, at);
    law_ordinal_wraps(reel, at + delta, turns, to);
}

/// Moving by nothing, or a window that is not on the ring, changes nothing.
pub proof fn law_moving_nothing(reel: ReelView, id: WindowId, delta: int)
    requires
        delta == 0 || reel.ring.len() < 2 || !on_ring(reel.ring, id),
    ensures
        reel.shifted(id, delta) == reel,
{
    lemma_find_id(reel.ring, id);
    if let Some(k) = find_id(reel.ring, id) {
        assert(reel.ring[k] == id);
    }
}

/// The offset that brings a ring member to a visual slot is its place less the
/// slot; there is none for a window that is not on the ring.
pub proof fn law_scroll_goal_is_place_less_slot(reel: ReelView, id: WindowId, slot: int, at: int)
    ensures
        first_place(reel.ring, id, at) ==> reel.scroll_goal(id, slot) == Some(at - slot),
        !on_ring(reel.ring, id) ==> reel.scroll_goal(id, slot) is None,
{
    lemma_find_id(reel.ring, id);
    if let Some(k) = find_id(reel.ring, id) {
        assert(reel.ring[k] == id);
    }
    if first_place(reel.ring, id, at) {
        lemma_find_id_is(reel.ring, id, at);
    }
}

/// Giving the reel a new target: a target that is no number is ignored. Under
/// reduced motion, without a duration or close to the target the reel is there at
/// once; else an animation of the configured duration and easing sets out from
/// what is on screen.
pub proof fn law_new_target_is_approached(reel: ReelView, step: Retarget)
    ensures
        ({
            let after = reel.retargeted(step);
            let at_once = reel.reduce_motion || reel.duration_ms == 0 || step.close;
            &&& !number_bits(step.target.bits) ==> after == reel
            &&& number_bits(step.target.bits) && at_once ==> after.offset == step.target
                && after.animation is None
            &&& number_bits(step.target.bits) && !at_once ==> {
                &&& after.offset == reel.offset
                &&& after.animation matches Some(moving) && {
                    &&& moving.target == step.target
                    &&& moving.elapsed_ms == 0
                    &&& moving.duration_ms == reel.duration_ms
                    &&& moving.easing == reel.easing
                    &&& reel.animation is Some ==> moving.start == step.eased
                    &&& reel.animation is None ==> moving.start == reel.offset
                }
            }
            &&& after.ring == reel.ring && after.focus == reel.focus && after.side == reel.side
            &&& after.pending_settle == reel.pending_settle
            &&& after.ms_since_scroll == reel.ms_since_scroll
            &&& same_settings(after, reel)
        }),
{
    law_numbers_by_their_bits(step.target);
}

/// A turn of the wheel arms the settling and gives the reel its target; a turn
/// by nothing or by no number, to no number, or of a reel that fits changes
/// nothing.
pub proof fn law_wheel_arms_the_settling(reel: ReelView, delta: Offset, step: Retarget)
    ensures
        ({
            let after = reel.scrolled(delta, step);
            let moves = number_bits(delta.bits) && delta.bits != 0 && delta.bits
                != 0x8000_0000_0000_0000 && number_bits(step.target.bits) && reel.ring.len()
                > reel.geometry.visible_slots;
            let aimed = reel.retargeted(step);
            &&& !moves ==> after == reel
            &&& moves ==> {
                &&& after.pending_settle
                &&& after.ms_since_scroll == 0
                &&& after.offset == aimed.offset
                &&& after.animation == aimed.animation
                &&& after.ring == reel.ring && after.focus == reel.focus && after.side == reel.side
                &&& same_settings(after, reel)
            }
        }),
{
    law_numbers_by_their_bits(delta);
    law_numbers_by_their_bits(step.target);
}

/// Scrolling to a window gives the reel its target if the window is on the ring
/// and the reel does not fit; else nothing changes.
pub proof fn law_scrolling_to_a_window(reel: ReelView, id: WindowId, step: Retarget)
    ensures
        on_ring(reel.ring, id) && reel.ring.len() > reel.geometry.visible_slots
            ==> reel.scrolled_to(id, step) == reel.retargeted(step),
        !on_ring(reel.ring, id) || reel.ring.len() <= reel.geometry.visible_slots
            ==> reel.scrolled_to(id, step) == reel,
{
    if on_ring(reel.ring, id) {
        let j = choose|j: int| 0 <= j < reel.ring.len() && #[trigger] reel.ring[j] == id;
        assert(reel.ring.contains(reel.ring[j]));
    }
}

/// Settling disarms the timer and gives the reel its target.
pub proof fn law_settling_disarms_the_timer(reel: ReelView, step: Retarget)
    ensures
        ({
            let after = reel.settled(step);
            let aimed = reel.retargeted(step);
            &&& !after.pending_settle
            &&& after.ms_since_scroll == 0
            &&& after.offset == aimed.offset
            &&& after.animation == aimed.animation
            &&& after.ring == reel.ring && after.focus == reel.focus && after.side == reel.side
            &&& same_settings(after, reel)
        }),
{
}

/// What a tick does: an animation that has time left moves on by that time and
/// nothing else happens. One whose time is up leaves the reel at its target, and
/// then an armed settling counts the silence; after 120 milliseconds of it the
/// reel settles.
pub proof fn law_tick_moves_time_on(reel: ReelView, delta_ms: u64, step: Retarget)
    ensures
        ({
            let after = reel.ticked(delta_ms, step);
            let moving = reel.animation->0;
            let runs = reel.animation is Some && moving.elapsed_ms + delta_ms < moving.duration_ms;
            let silence = reel.ms_since_scroll + delta_ms;
            &&& after.ring == reel.ring && after.focus == reel.focus && after.side == reel.side
            &&& same_settings(after, reel)
            &&& runs ==> {
                &&& after.offset == reel.offset
                &&& after.pending_settle == reel.pending_settle
                &&& after.ms_since_scroll == reel.ms_since_scroll
                &&& after.animation matches Some(later) && {
                    &&& later.elapsed_ms == moving.elapsed_ms + delta_ms
                    &&& later.start == moving.start && later.target == moving.target
                    &&& later.duration_ms == moving.duration_ms && later.easing == moving.easing
                }
            }
            &&& !runs && (!reel.pending_settle || silence < 120) ==> {
                &&& after.animation is None
                &&& reel.animation is Some ==> after.offset == moving.target
                &&& reel.animation is None ==> after.offset == reel.offset
                &&& after.pending_settle == reel.pending_settle
                &&& !reel.pending_settle ==> after.ms_since_scroll == reel.ms_since_scroll
                &&& reel.pending_settle ==> after.ms_since_scroll == silence
            }
            &&& !runs && reel.pending_settle && silence >= 120 ==> {
                &&& after == reel.finished().settled(step)
                &&& !after.pending_settle
                &&& after.ms_since_scroll == 0
                &&& number_bits(step.target.bits) ==> after.animation is None && after.offset
                    == step.target || after.animation is Some && after.animation->0.target
                    == step.target
            }
        }),
{
    law_numbers_by_their_bits(step.target);
}

/// Where the reel is heading and what is on screen: the target and the state of
/// a running animation, or the offset at rest.
pub proof fn law_reel_heads_for_its_target(reel: ReelView, eased: Offset)
    ensures
        reel.animation matches Some(moving) ==> reel.heading() == moving.target && reel.on_screen(
            eased,
        ) == eased,
        reel.animation is None ==> reel.heading() == reel.offset && reel.on_screen(eased)
            == reel.offset,
        reel.animating() <==> reel.animation is Some || reel.pending_settle,
        reel.scrollable() <==> reel.ring.len() > reel.geometry.visible_slots,
{
}

/// An animation brought to its end leaves the reel at its target.
pub proof fn law_finished_animation_is_at_its_target(reel: ReelView)
    ensures
        ({
            let after = reel.finished();
            &&& after.animation is None
            &&& reel.animation matches Some(moving) ==> after.offset == moving.target
            &&& reel.animation is None ==> after.offset == reel.offset
            &&& after.ring == reel.ring && after.focus == reel.focus && after.side == reel.side
            &&& after.pending_settle == reel.pending_settle
            &&& after.ms_since_scroll == reel.ms_since_scroll
            &&& same_settings(after, reel)
        }),
{
}

/// Members that are new are taken over in the order of their first occurrences.
proof fn lemma_fresh_order(
    seen: Set<WindowId>,
    ids: Seq<WindowId>,
    a: WindowId,
    i: int,
    b: WindowId,
    j: int,
)
    requires
        first_place(ids, a, i),
        first_place(ids, b, j),
        i < j,
        !seen.contains(a),
        !seen.contains(b),
    ensures
        listed_before(fresh(seen, ids), a, b),
    decreases ids.len(),
{
    let front = ids.drop_last();
    let kept = fresh(seen, front);
    lemma_fresh(seen, front);
    if j < front.len() {
        assert(front[i] == a && front[j] == b);
        lemma_fresh_order(seen, front, a, i, b, j);
        let (p, q) = choose|p: int, q: int|
            0 <= p < q < kept.len() && #[trigger] kept[p] == a && #[trigger] kept[q] == b;
        let after = fresh(seen, ids);
        assert(after[p] == a && after[q] == b);
    } else {
        assert(front[i] == a);
        assert(front.contains(a));
        assert(kept.contains(a));
        assert(!front.contains(b)) by {
            if front.contains(b) {
                let k = choose|k: int| 0 <= k < front.len() && front[k] == b;
                assert(ids[k] == b);
            }
        }
        let after = fresh(seen, ids);
        let p = choose|p: int| 0 <= p < kept.len() && kept[p] == a;
        assert(after == kept.push(b));
        assert(after[p] == a && after[kept.len() as int] == b);
    }
}

/// Windows that are still listed keep their order through a synchronization.
pub proof fn law_sync_keeps_the_order_of_kept_windows(
    reel: ReelView,
    ordered: Seq<WindowId>,
    hint: Option<WindowId>,
    a: WindowId,
    b: WindowId,
)
    requires
        reel.wf(),
        reel.led(),
        listed_before(reel.merged(), a, b),
        on_ring(ordered, a),
        on_ring(ordered, b),
    ensures
        listed_before(reel.synchronized(ordered, hint).merged(), a, b),
{
    law_sync_keeps_order_and_appends(reel, ordered, hint);
    let keep = |id: WindowId| ordered.contains(id);
    let merged = reel.merged();
    let (i, j) = choose|i: int, j: int|
        0 <= i < j < merged.len() && #[trigger] merged[i] == a && #[trigger] merged[j] == b;
    lemma_listed(ordered, a);
    lemma_listed(ordered, b);
    lemma_filter_order(merged, keep, i, j);
    let kept = merged.filter(keep);
    let (p, q) = choose|p: int, q: int|
        0 <= p < q < kept.len() && #[trigger] kept[p] == a && #[trigger] kept[q] == b;
    assert(sync_start(reel, ordered, hint) == kept);
    let after = reel.synchronized(ordered, hint).merged();
    assert(after[p] == a && after[q] == b);
}

proof fn lemma_listed(ids: Seq<WindowId>, id: WindowId)
    ensures
        ids.contains(id) == on_ring(ids, id),
{
    if on_ring(ids, id) {
        let j = choose|j: int| 0 <= j < ids.len() && #[trigger] ids[j] == id;
        assert(ids.contains(ids[j]));
    }
    if ids.contains(id) {
        let j = choose|j: int| 0 <= j < ids.len() && ids[j] == id;
        assert(ids[j] == id);
    }
}

/// A synchronization puts new windows behind those that stay.
pub proof fn law_sync_puts_new_windows_last(
    reel: ReelView,
    ordered: Seq<WindowId>,
    hint: Option<WindowId>,
    a: WindowId,
    b: WindowId,
)
    requires
        reel.wf(),
        reel.led(),
        reel.focus == Some(a) || on_ring(reel.ring, a),
        reel.focus != Some(b) && !on_ring(reel.ring, b),
        on_ring(ordered, a),
        on_ring(ordered, b),
    ensures
        listed_before(reel.synchronized(ordered, hint).merged(), a, b),
{
    law_sync_keeps_order_and_appends(reel, ordered, hint);
    let keep = |id: WindowId| ordered.contains(id);
    let merged = reel.merged();
    lemma_listed(ordered, a);
    lemma_listed(ordered, b);
    lemma_merged_members(reel, a);
    lemma_merged_members(reel, b);
    lemma_filter_members(merged, keep);
    let kept = merged.filter(keep);
    assert(kept.contains(a));
    assert(!kept.contains(b));
    assert(sync_start(reel, ordered, hint) == kept);
    let new = fresh(kept.to_set(), ordered);
    lemma_fresh(kept.to_set(), ordered);
    assert(new.contains(b));
    let p = choose|p: int| 0 <= p < kept.len() && kept[p] == a;
    let q = choose|q: int| 0 <= q < new.len() && new[q] == b;
    let after = reel.synchronized(ordered, hint).merged();
    assert(after == kept + new);
    assert(after[p] == a && after[kept.len() + q] == b);
}

proof fn lemma_merged_members(reel: ReelView, id: WindowId)
    ensures
        reel.merged().contains(id) <==> reel.focus == Some(id) || on_ring(reel.ring, id),
{
    let merged = reel.merged();
    if merged.contains(id) {
        let i = choose|i: int| 0 <= i < merged.len() && merged[i] == id;
        if reel.focus is Some && i > 0 {
            assert(reel.ring[i - 1] == id);
        } else if reel.focus is None {
            assert(reel.ring[i] == id);
        }
    }
    if reel.focus == Some(id) {
        assert(merged[0] == id);
    } else if on_ring(reel.ring, id) {
        let j = choose|j: int| 0 <= j < reel.ring.len() && #[trigger] reel.ring[j] == id;
        if reel.focus is Some {
            assert(merged[j + 1] == id);
        } else {
            assert(merged[j] == id);
        }
    }
}

/// Windows that a synchronization adds come in the order of the list, but for a
/// hint that takes the focus.
pub proof fn law_sync_adds_in_list_order(
    reel: ReelView,
    ordered: Seq<WindowId>,
    hint: Option<WindowId>,
    a: WindowId,
    i: int,
    b: WindowId,
    j: int,
)
    requires
        reel.wf(),
        reel.led(),
        first_place(ordered, a, i),
        first_place(ordered, b, j),
        i < j,
        reel.focus != Some(a) && !on_ring(reel.ring, a),
        reel.focus != Some(b) && !on_ring(reel.ring, b),
        hint != Some(b),
    ensures
        listed_before(reel.synchronized(ordered, hint).merged(), a, b),
{
    law_sync_keeps_order_and_appends(reel, ordered, hint);
    let keep = |id: WindowId| ordered.contains(id);
    let merged = reel.merged();
    lemma_merged_members(reel, a);
    lemma_merged_members(reel, b);
    lemma_filter_members(merged, keep);
    let kept = merged.filter(keep);
    let start = sync_start(reel, ordered, hint);
    let new = fresh(start.to_set(), ordered);
    let after = reel.synchronized(ordered, hint).merged();
    assert(after == start + new);
    lemma_fresh(start.to_set(), ordered);
    assert(ordered.contains(ordered[j]));
    assert(!start.contains(b));
    assert(new.contains(b));
    if start.contains(a) {
        assert(!kept.contains(a));
        let p = choose|p: int| 0 <= p < start.len() && start[p] == a;
        let q = choose|q: int| 0 <= q < new.len() && new[q] == b;
        assert(after[p] == a && after[start.len() + q] == b);
    } else {
        lemma_fresh_order(start.to_set(), ordered, a, i, b, j);
        let (p, q) = choose|p: int, q: int|
            0 <= p < q < new.len() && #[trigger] new[p] == a && #[trigger] new[q] == b;
        assert(after[start.len() + p] == a && after[start.len() + q] == b);
    }
}

/// The ring of a reel without a focus window keeps its order through a
/// synchronization, but for a hint that takes the focus.
pub proof fn law_sync_without_focus_keeps_the_ring_order(
    reel: ReelView,
    ordered: Seq<WindowId>,
    hint: Option<WindowId>,
    a: WindowId,
    b: WindowId,
)
    requires
        reel.wf(),
        reel.focus is None,
        listed_before(reel.ring, a, b),
        on_ring(ordered, a),
        on_ring(ordered, b),
        hint != Some(a),
        hint != Some(b),
    ensures
        listed_before(reel.synchronized(ordered, hint).ring, a, b),
{
    let keep = |id: WindowId| ordered.contains(id);
    lemma_listed(ordered, a);
    lemma_listed(ordered, b);
    let pruned = reel.pruned(ordered);
    let (i, j) = choose|i: int, j: int|
        0 <= i < j < reel.ring.len() && #[trigger] reel.ring[i] == a && #[trigger] reel.ring[j] == b;
    lemma_filter_order(reel.ring, keep, i, j);
    lemma_filter_members(reel.ring, keep);
    assert(pruned.ring == reel.ring.filter(keep));
    assert(listed_before(pruned.ring, a, b));
    let hinted = pruned.hinted(ordered, hint);
    if let Some(id) = hint {
        let other = |x: WindowId| x != id;
        let (p, q) = choose|p: int, q: int|
            0 <= p < q < pruned.ring.len() && #[trigger] pruned.ring[p] == a
                && #[trigger] pruned.ring[q] == b;
        lemma_filter_order(pruned.ring, other, p, q);
        lemma_filter_members(pruned.ring, other);
        if ordered.contains(id) {
            assert(hinted.ring == pruned.ring.filter(other));
        }
    }
    assert(listed_before(hinted.ring, a, b));
    assert(hinted.ring.no_duplicates());
    let extended = hinted.extended(ordered);
    let seen = hinted.ring.to_set() + as_set(hinted.focus);
    let new = fresh(seen, ordered);
    lemma_fresh(seen, ordered);
    let (p, q) = choose|p: int, q: int|
        0 <= p < q < hinted.ring.len() && #[trigger] hinted.ring[p] == a
            && #[trigger] hinted.ring[q] == b;
    assert(hinted.ring.contains(a) && hinted.ring.contains(b));
    assert(seen.contains(a) && seen.contains(b));
    assert(extended.focus != Some(a) && extended.focus != Some(b)) by {
        if new.len() > 0 {
            assert(new.contains(new[0]));
        }
    }
    assert forall|k: int| 0 <= k < hinted.ring.len() implies extended.ring[k] == hinted.ring[k] by {}
    assert(first_place(extended.ring, a, p));
    assert(first_place(extended.ring, b, q));
    lemma_fresh_order(as_set(extended.focus), extended.ring, a, p, b, q);
}

/// A reel that was restored without a focus window gets one from a list: a hint
/// that is listed, else the first listed window that is new. Without either it
/// stays without.
pub proof fn law_sync_gives_a_focus_to_new_windows(
    reel: ReelView,
    ordered: Seq<WindowId>,
    hint: Option<WindowId>,
    a: WindowId,
    i: int,
)
    requires
        reel.wf(),
        reel.focus is None,
    ensures
        ({
            let after = reel.synchronized(ordered, hint);
            let taken = hint is Some && on_ring(ordered, hint->0);
            &&& taken ==> after.focus == hint
            &&& !taken && first_place(ordered, a, i) && !on_ring(reel.ring, a) && (forall|j: int|
                0 <= j < i ==> on_ring(reel.ring, #[trigger] ordered[j])) ==> after.focus == Some(a)
            &&& !taken && (forall|j: int|
                0 <= j < ordered.len() ==> on_ring(reel.ring, #[trigger] ordered[j]))
                ==> after.focus is None
        }),
{
    if let Some(id) = hint {
        lemma_listed(ordered, id);
    }
    let pruned = reel.pruned(ordered);
    let keep = |id: WindowId| ordered.contains(id);
    lemma_filter_members(reel.ring, keep);
    assert(pruned.ring == reel.ring.filter(keep));
    let hinted = pruned.hinted(ordered, hint);
    if !(hint is Some && on_ring(ordered, hint->0)) {
        assert(hinted == pruned);
        let seen = pruned.ring.to_set() + as_set(None);
        let new = fresh(seen, ordered);
        lemma_fresh(seen, ordered);
        if first_place(ordered, a, i) && !on_ring(reel.ring, a) && (forall|j: int|
            0 <= j < i ==> on_ring(reel.ring, #[trigger] ordered[j])) {
            lemma_listed(reel.ring, a);
            assert(!seen.contains(a));
            assert(ordered.contains(ordered[i]));
            assert(new.contains(a));
            let p = choose|p: int| 0 <= p < new.len() && new[p] == a;
            if p > 0 {
                let b = new[0];
                assert(new.contains(b));
                assert(ordered.contains(b) && !seen.contains(b));
                lemma_find_id(ordered, b);
                let j = find_id(ordered, b)->0;
                if j < i {
                    assert(on_ring(reel.ring, ordered[j]));
                    lemma_listed(reel.ring, b);
                    assert(pruned.ring.contains(b));
                } else {
                    assert(j != i);
                    lemma_fresh_order(seen, ordered, a, i, b, j);
                    let (s, t) = choose|s: int, t: int|
                        0 <= s < t < new.len() && #[trigger] new[s] == a && #[trigger] new[t] == b;
                    assert(new[t] == new[0]);
                }
            }
            assert(new[0] == a);
        }
        if forall|j: int| 0 <= j < ordered.len() ==> on_ring(reel.ring, #[trigger] ordered[j]) {
            if new.len() > 0 {
                let b = new[0];
                assert(new.contains(b));
                let j = choose|j: int| 0 <= j < ordered.len() && ordered[j] == b;
                assert(on_ring(reel.ring, ordered[j]));
                lemma_listed(reel.ring, b);
                assert(pruned.ring.contains(b));
            }
        }
    }
}

/// A synchronized reel that fits rests at the top; any other scrolls on as it
/// did. Its side and settings stay.
pub proof fn law_sync_scrolls_on(reel: ReelView, ordered: Seq<WindowId>, hint: Option<WindowId>)
    ensures
        ({
            let after = reel.synchronized(ordered, hint);
            &&& after.side == reel.side
            &&& same_settings(after, reel)
            &&& after.ring.len() > reel.geometry.visible_slots ==> same_motion(after, reel)
            &&& after.ring.len() <= reel.geometry.visible_slots ==> rests_at_the_top(after)
        }),
{
}

/// Mending a ring keeps the first occurrence of each window, in order, and drops
/// the focus window from it.
pub proof fn law_mending_keeps_first_occurrences(
    reel: ReelView,
    a: WindowId,
    i: int,
    b: WindowId,
    j: int,
)
    ensures
        reel.focus matches Some(id) ==> !on_ring(reel.deduplicated().ring, id),
        first_place(reel.ring, a, i) && reel.focus != Some(a) ==> on_ring(
            reel.deduplicated().ring,
            a,
        ),
        first_place(reel.ring, a, i) && first_place(reel.ring, b, j) && i < j && reel.focus != Some(
            a,
        ) && reel.focus != Some(b) ==> listed_before(reel.deduplicated().ring, a, b),
        reel.deduplicated() == (ReelView { ring: reel.deduplicated().ring, ..reel }),
{
    let seen = as_set(reel.focus);
    let after = reel.deduplicated().ring;
    lemma_fresh(seen, reel.ring);
    if let Some(id) = reel.focus {
        lemma_listed(after, id);
        assert(seen.contains(id));
    }
    if first_place(reel.ring, a, i) && reel.focus != Some(a) {
        assert(reel.ring.contains(reel.ring[i]));
        lemma_listed(after, a);
        if first_place(reel.ring, b, j) && i < j && reel.focus != Some(b) {
            lemma_fresh_order(seen, reel.ring, a, i, b, j);
        }
    }
}

} // verus!
