//! What holds of the reel across its operations.

use vstd::prelude::*;

use crate::focus_reel::{empty_reel, ReelView, REEL_SETTLE_DELAY_MS};
use crate::id_list::{
    as_set, find_id, fresh, lemma_filter_members, lemma_filter_same, lemma_find_id,
    lemma_find_id_is, lemma_fresh, lemma_fresh_of_distinct, rotated,
};
use crate::reel_geometry::ReelGeometry;
use crate::scroll::{zero_offset, Offset, Retarget};
use crate::types::WindowId;

verus! {

/// An empty reel is well formed.
pub proof fn law_empty_reel_is_well_formed(geometry: ReelGeometry)
    ensures
        empty_reel(geometry).wf(),
{
}

/// Adding a window keeps the reel well formed and adds that window only.
pub proof fn law_push_adds_exactly_the_window(reel: ReelView, id: WindowId)
    requires
        reel.wf(),
    ensures
        reel.pushed(id).wf(),
        forall|x: WindowId| #[trigger]
            reel.pushed(id).member(x) <==> reel.member(x) || x == id,
{
    let after = reel.pushed(id);
    if !reel.member(id) && reel.focus is Some {
        assert forall|x: WindowId| #[trigger] after.ring.contains(x) <==> reel.ring.contains(x)
            || x == id by {
            lemma_push_contains(reel.ring, id, x);
        }
        assert(after.ring.no_duplicates()) by {
            assert forall|i: int, j: int|
                0 <= i < j < after.ring.len() implies after.ring[i] != after.ring[j] by {
                assert(reel.ring.contains(reel.ring[i]));
            }
        }
    }
    assert forall|x: WindowId| #[trigger] after.member(x) <==> reel.member(x) || x == id by {
        if after.ring.contains(x) {
        }
    }
}

proof fn lemma_push_contains(ids: Seq<WindowId>, id: WindowId, x: WindowId)
    ensures
        ids.push(id).contains(x) <==> ids.contains(x) || x == id,
{
    let after = ids.push(id);
    if ids.contains(x) {
        let i = choose|i: int| 0 <= i < ids.len() && ids[i] == x;
        assert(after[i] == x);
    }
    if x == id {
        assert(after[ids.len() as int] == x);
    }
}

/// Removing a window keeps the reel well formed and removes that window only.
pub proof fn law_remove_removes_exactly_the_window(reel: ReelView, id: WindowId)
    requires
        reel.wf(),
    ensures
        reel.removed(id).wf(),
        forall|x: WindowId| #[trigger]
            reel.removed(id).member(x) <==> reel.member(x) && x != id,
{
    let after = reel.removed(id);
    lemma_find_id(reel.ring, id);
    assert forall|x: WindowId| #[trigger] after.member(x) <==> reel.member(x) && x != id by {
        if reel.focus == Some(id) {
            if reel.ring.len() > 0 {
                lemma_skip_contains(reel.ring, x);
            }
        } else if let Some(at) = find_id(reel.ring, id) {
            lemma_remove_contains(reel.ring, at, x);
        }
    }
    if reel.focus == Some(id) {
        if reel.ring.len() > 0 {
            assert(after.ring =~= reel.ring.skip(1));
            assert(!after.ring.contains(reel.ring[0]));
        }
    } else if let Some(at) = find_id(reel.ring, id) {
        assert(after.ring =~= reel.ring.remove(at));
        if reel.focus is Some && after.ring.contains(reel.focus->0) {
            lemma_remove_contains(reel.ring, at, reel.focus->0);
        }
    }
}

proof fn lemma_skip_contains(ids: Seq<WindowId>, x: WindowId)
    requires
        ids.len() > 0,
    ensures
        ids.contains(x) <==> ids.skip(1).contains(x) || ids[0] == x,
{
    if ids.contains(x) {
        let i = choose|i: int| 0 <= i < ids.len() && ids[i] == x;
        if i > 0 {
            assert(ids.skip(1)[i - 1] == x);
        }
    }
    if ids.skip(1).contains(x) {
        let i = choose|i: int| 0 <= i < ids.skip(1).len() && ids.skip(1)[i] == x;
        assert(ids[i + 1] == x);
    }
}

proof fn lemma_remove_contains(ids: Seq<WindowId>, at: int, x: WindowId)
    requires
        ids.no_duplicates(),
        0 <= at < ids.len(),
    ensures
        ids.remove(at).contains(x) <==> ids.contains(x) && x != ids[at],
{
    let after = ids.remove(at);
    if ids.contains(x) && x != ids[at] {
        let i = choose|i: int| 0 <= i < ids.len() && ids[i] == x;
        if i < at {
            assert(after[i] == x);
        } else {
            assert(after[i - 1] == x);
        }
    }
    if after.contains(x) {
        let i = choose|i: int| 0 <= i < after.len() && after[i] == x;
        if i < at {
            assert(ids[i] == x);
        } else {
            assert(ids[i + 1] == x);
        }
    }
}

/// Promotion is a cyclic permutation of the focus window followed by the ring:
/// `[F, R0, R1, R2, R3] -> [R2, R3, F, R0, R1]`. It brings the item at the
/// ordinal to focus.
pub proof fn law_promotion_rotates_the_merged_sequence(reel: ReelView, slot: int)
    requires
        reel.ring.len() > 0,
    ensures
        0 <= reel.ring_place(slot) < reel.ring.len(),
        reel.promoted(slot).focus == Some(reel.ring[reel.ring_place(slot)]),
        reel.promoted(slot).merged() == rotated(
            reel.merged(),
            reel.ring_place(slot) + (reel.merged().len() - reel.ring.len()),
        ),
{
    let at = reel.ring_place(slot);
    vstd::arithmetic::div_mod::lemma_mod_bound(slot, reel.ring.len() as int);
    let after = reel.promoted(slot);
    assert(after.merged() =~= rotated(
        reel.merged(),
        at + (reel.merged().len() - reel.ring.len()),
    ));
}

/// Promotion keeps the reel well formed and loses or doubles no window.
pub proof fn law_promotion_keeps_every_window(reel: ReelView, slot: int)
    requires
        reel.wf(),
    ensures
        reel.promoted(slot).wf(),
        reel.promoted(slot).merged().len() == reel.merged().len(),
        reel.promoted(slot).merged().to_multiset() == reel.merged().to_multiset(),
        forall|x: WindowId| #[trigger] reel.promoted(slot).member(x) <==> reel.member(x),
{
    if reel.ring.len() > 0 {
        let at = reel.ring_place(slot);
        let before = reel.merged();
        let after = reel.promoted(slot);
        law_promotion_rotates_the_merged_sequence(reel, slot);
        lemma_rotation_multiset(before, at + (before.len() - reel.ring.len()));
        lemma_wf_merged(reel);
        assert(after.merged().no_duplicates());
        assert forall|i: int, j: int| 0 <= i < j < after.ring.len() implies after.ring[i]
            != after.ring[j] by {
            assert(after.merged()[i + 1] == after.ring[i]);
            assert(after.merged()[j + 1] == after.ring[j]);
        }
        if after.ring.contains(after.focus->0) {
            let i = choose|i: int| 0 <= i < after.ring.len() && after.ring[i] == after.focus->0;
            assert(after.merged()[i + 1] == after.merged()[0]);
        }
        assert forall|x: WindowId| #[trigger] after.member(x) <==> reel.member(x) by {
            lemma_merged_members(reel, x);
            lemma_merged_members(after, x);
            before.to_multiset_ensures();
            after.merged().to_multiset_ensures();
            assert(before.contains(x) <==> before.to_multiset().count(x) > 0);
        }
    }
}

proof fn lemma_merged_members(reel: ReelView, x: WindowId)
    ensures
        reel.member(x) <==> reel.merged().contains(x),
{
    if let Some(id) = reel.focus {
        let all = reel.merged();
        assert(all.skip(1) =~= reel.ring);
        lemma_skip_contains(all, x);
    }
}

proof fn lemma_rotation_multiset<A>(s: Seq<A>, by: int)
    requires
        0 <= by <= s.len(),
    ensures
        rotated(s, by).to_multiset() == s.to_multiset(),
{
    let front = s.take(by);
    let back = s.skip(by);
    vstd::seq_lib::lemma_multiset_commutative(front, back);
    vstd::seq_lib::lemma_multiset_commutative(back, front);
    assert(s =~= front + back);
    assert(s.to_multiset() =~= rotated(s, by).to_multiset());
}

/// With mirroring on, each promotion puts the reel on the other side and the
/// next one puts it back; with mirroring off it stays where it is.
pub proof fn law_promotions_mirror_and_mirror_back(reel: ReelView, slot: int, later: int)
    requires
        reel.merged().len() >= 2,
        reel.wf(),
    ensures
        reel.promoted(slot).side == if reel.geometry.flip_side_on_promote {
            reel.side.opposite()
        } else {
            reel.side
        },
        reel.promoted(slot).promoted(later).side == reel.side,
{
    law_promotion_keeps_every_window(reel, slot);
}

/// Focusing a ring member brings it to focus and keeps every window.
pub proof fn law_focusing_a_window_brings_it_to_focus(reel: ReelView, id: WindowId)
    requires
        reel.wf(),
    ensures
        reel.focused_on(id).wf(),
        reel.member(id) ==> reel.focused_on(id).focus == Some(id),
        !reel.member(id) ==> reel.focused_on(id) == reel,
        forall|x: WindowId| #[trigger] reel.focused_on(id).member(x) <==> reel.member(x),
{
    lemma_find_id(reel.ring, id);
    if reel.focus != Some(id) && find_id(reel.ring, id) is Some {
        let at = find_id(reel.ring, id)->0;
        vstd::arithmetic::div_mod::lemma_small_mod(at as nat, reel.ring.len());
        law_promotion_rotates_the_merged_sequence(reel, at);
        law_promotion_keeps_every_window(reel, at);
    }
}

/// `focus_prev` undoes `focus_next`: focus window, ring and side are as before.
pub proof fn law_focus_prev_undoes_focus_next(reel: ReelView)
    requires
        reel.focus is Some,
        reel.ring.len() > 0,
    ensures
        ({
            let back = reel.promoted(0).promoted(reel.ring.len() - 1);
            &&& back.ring == reel.ring
            &&& back.focus == reel.focus
            &&& back.side == reel.side
        }),
{
    let n = reel.ring.len();
    vstd::arithmetic::div_mod::lemma_small_mod(0, n);
    vstd::arithmetic::div_mod::lemma_small_mod((n - 1) as nat, n);
    let next = reel.promoted(0);
    assert(next.ring =~= reel.ring.skip(1).push(reel.focus->0));
    assert(next.ring[n - 1] == reel.focus->0);
    let back = next.promoted(n - 1);
    assert(back.ring =~= reel.ring);
}

/// `focus_next` undoes `focus_prev`: focus window, ring and side are as before.
pub proof fn law_focus_next_undoes_focus_prev(reel: ReelView)
    requires
        reel.focus is Some,
        reel.ring.len() > 0,
    ensures
        ({
            let back = reel.promoted(reel.ring.len() - 1).promoted(0);
            &&& back.ring == reel.ring
            &&& back.focus == reel.focus
            &&& back.side == reel.side
        }),
{
    let n = reel.ring.len();
    vstd::arithmetic::div_mod::lemma_small_mod(0, n);
    vstd::arithmetic::div_mod::lemma_small_mod((n - 1) as nat, n);
    let prev = reel.promoted(n - 1);
    assert(prev.ring =~= seq![reel.focus->0] + reel.ring.drop_last());
    let back = prev.promoted(0);
    assert(back.ring =~= reel.ring);
}

/// The reel after `focus_next` has been called `times` times.
pub open spec fn advanced(reel: ReelView, times: nat) -> ReelView
    decreases times,
{
    if times == 0 {
        reel
    } else {
        advanced(reel, (times - 1) as nat).promoted(0)
    }
}

/// Calling `focus_next` once for each window visits every window once and comes
/// back to the start: after `k` calls the merged sequence is turned by `k`.
pub proof fn law_focus_next_cycles_through_all_windows(reel: ReelView, times: nat)
    requires
        reel.wf(),
        reel.led(),
        times <= reel.merged().len(),
    ensures
        advanced(reel, times).wf(),
        advanced(reel, times).led(),
        advanced(reel, times).merged() == rotated(reel.merged(), times as int),
        times == reel.merged().len() ==> advanced(reel, times).merged() == reel.merged(),
    decreases times,
{
    let all = reel.merged();
    if times > 0 {
        let before = advanced(reel, (times - 1) as nat);
        law_focus_next_cycles_through_all_windows(reel, (times - 1) as nat);
        law_promotion_keeps_every_window(before, 0);
        assert(before.merged().len() == all.len());
        if before.ring.len() > 0 {
            vstd::arithmetic::div_mod::lemma_small_mod(0, before.ring.len());
            law_promotion_rotates_the_merged_sequence(before, 0);
            assert(rotated(rotated(all, times - 1), 1) =~= rotated(all, times as int));
        } else {
            assert(before.merged() =~= rotated(all, times as int));
        }
    } else {
        assert(rotated(all, 0) =~= all);
    }
    assert(rotated(all, all.len() as int) =~= all);
}

/// Turning the ring keeps the reel well formed, touches nothing but the order
/// of the ring, and is undone by turning it back.
pub proof fn law_turning_back_restores_the_ring(reel: ReelView, delta: int)
    requires
        reel.wf(),
    ensures
        reel.turned(delta).wf(),
        reel.turned(delta) == (ReelView { ring: reel.turned(delta).ring, ..reel }),
        reel.turned(delta).ring.to_multiset() == reel.ring.to_multiset(),
        reel.turned(delta).turned(-delta) == reel,
{
    let n = reel.ring.len() as int;
    if n >= 2 {
        let by = reel.ring_place(delta);
        vstd::arithmetic::div_mod::lemma_mod_bound(delta, n);
        vstd::arithmetic::div_mod::lemma_mod_bound(-delta, n);
        let after = reel.turned(delta);
        lemma_rotation_multiset(reel.ring, by);
        assert(after.ring.len() == n);
        if reel.focus is Some && after.ring.contains(reel.focus->0) {
            let i = choose|i: int| 0 <= i < after.ring.len() && after.ring[i] == reel.focus->0;
            if i < n - by {
                assert(reel.ring[i + by] == reel.focus->0);
            } else {
                assert(reel.ring[i - (n - by)] == reel.focus->0);
            }
        }
        let back = (-delta) % n;
        assert(back == if by == 0 {
            0
        } else {
            n - by
        }) by {
            lemma_opposite_mod(delta, n);
        }
        assert(rotated(after.ring, back) =~= reel.ring);
        assert(after.turned(-delta) =~= reel);
    }
}

proof fn lemma_opposite_mod(delta: int, n: int)
    requires
        n > 0,
    ensures
        (-delta) % n == if delta % n == 0 {
            0
        } else {
            n - delta % n
        },
{
    let q = delta / n;
    let by = delta % n;
    vstd::arithmetic::div_mod::lemma_fundamental_div_mod(delta, n);
    vstd::arithmetic::div_mod::lemma_mod_bound(delta, n);
    if by == 0 {
        assert(-delta == (-q) * n + 0) by (nonlinear_arith)
            requires
                delta == n * q + by,
                by == 0,
        ;
        vstd::arithmetic::div_mod::lemma_fundamental_div_mod_converse(-delta, n, -q, 0);
    } else {
        assert(-delta == (-q - 1) * n + (n - by)) by (nonlinear_arith)
            requires
                delta == n * q + by,
        ;
        vstd::arithmetic::div_mod::lemma_fundamental_div_mod_converse(-delta, n, -q - 1, n - by);
    }
}

/// Moving a ring member keeps the reel well formed and every window in it,
/// touches nothing but the order of the ring, and is undone by moving it back.
pub proof fn law_moving_back_restores_the_ring(reel: ReelView, id: WindowId, delta: int)
    requires
        reel.wf(),
    ensures
        reel.shifted(id, delta).wf(),
        reel.shifted(id, delta) == (ReelView { ring: reel.shifted(id, delta).ring, ..reel }),
        forall|x: WindowId| #[trigger] reel.shifted(id, delta).member(x) <==> reel.member(x),
        reel.shifted(id, delta).shifted(id, -delta) == reel,
{
    lemma_find_id(reel.ring, id);
    let n = reel.ring.len() as int;
    if find_id(reel.ring, id) is Some && delta != 0 && n >= 2 {
        let at = find_id(reel.ring, id)->0;
        let to = reel.ring_place(at + delta);
        vstd::arithmetic::div_mod::lemma_mod_bound(at + delta, n);
        let rest = reel.ring.remove(at);
        let after = reel.shifted(id, delta);
        assert(after.ring == rest.insert(to, id));
        assert forall|x: WindowId| #[trigger] after.ring.contains(x) <==> reel.ring.contains(x) by {
            lemma_remove_contains(reel.ring, at, x);
            lemma_insert_contains(rest, to, id, x);
        }
        assert(!rest.contains(id)) by {
            lemma_remove_contains(reel.ring, at, id);
        }
        assert(after.ring.no_duplicates()) by {
            assert forall|i: int, j: int| 0 <= i < j < after.ring.len() implies after.ring[i]
                != after.ring[j] by {
                let a = if i < to { i } else { i - 1 };
                let b = if j < to { j } else { j - 1 };
                if i == to {
                    assert(rest[b] == after.ring[j]);
                    assert(rest.contains(rest[b]));
                } else if j == to {
                    assert(rest[a] == after.ring[i]);
                    assert(rest.contains(rest[a]));
                } else {
                    assert(rest[a] == after.ring[i]);
                    assert(rest[b] == after.ring[j]);
                    assert(rest.no_duplicates());
                }
            }
        }
        assert forall|j: int| 0 <= j < to implies after.ring[j] != id by {
            assert(rest.contains(rest[j]));
        }
        lemma_find_id_is(after.ring, id, to);
        assert((to - delta) % n == at) by {
            lemma_mod_shift(at + delta, delta, n);
            vstd::arithmetic::div_mod::lemma_small_mod(at as nat, n as nat);
        }
        assert(after.ring.remove(to) =~= rest);
        assert(rest.insert(at, id) =~= reel.ring);
        assert(after.shifted(id, -delta) =~= reel);
    }
}

proof fn lemma_mod_shift(x: int, d: int, n: int)
    requires
        n > 0,
    ensures
        (x % n - d) % n == (x - d) % n,
{
    vstd::arithmetic::div_mod::lemma_sub_mod_noop(x % n, d, n);
    vstd::arithmetic::div_mod::lemma_sub_mod_noop(x, d, n);
    vstd::arithmetic::div_mod::lemma_mod_twice(x, n);
}

proof fn lemma_insert_contains(ids: Seq<WindowId>, at: int, id: WindowId, x: WindowId)
    requires
        0 <= at <= ids.len(),
    ensures
        ids.insert(at, id).contains(x) <==> ids.contains(x) || x == id,
{
    let after = ids.insert(at, id);
    if ids.contains(x) {
        let i = choose|i: int| 0 <= i < ids.len() && ids[i] == x;
        if i < at {
            assert(after[i] == x);
        } else {
            assert(after[i + 1] == x);
        }
    }
    if x == id {
        assert(after[at] == x);
    }
    if after.contains(x) {
        let i = choose|i: int| 0 <= i < after.len() && after[i] == x;
        if i < at {
            assert(ids[i] == x);
        } else if i > at {
            assert(ids[i - 1] == x);
        }
    }
}

/// What a synchronized reel starts from: the windows that are still listed, in
/// the order they had, or a listed hint if none is left.
pub open spec fn sync_start(
    reel: ReelView,
    ordered: Seq<WindowId>,
    hint: Option<WindowId>,
) -> Seq<WindowId> {
    let kept = reel.merged().filter(|id: WindowId| ordered.contains(id));
    match hint {
        Some(id) if kept.len() == 0 && ordered.contains(id) => seq![id],
        _ => kept,
    }
}

/// Synchronizing keeps the windows that are still listed, in the order they
/// had, and appends the listed windows that are new in list order. If none is
/// left, a listed hint becomes the focus window.
pub proof fn law_sync_keeps_order_and_appends(
    reel: ReelView,
    ordered: Seq<WindowId>,
    hint: Option<WindowId>,
)
    requires
        reel.wf(),
        reel.led(),
    ensures
        reel.synchronized(ordered, hint).merged() == sync_start(reel, ordered, hint) + fresh(
            sync_start(reel, ordered, hint).to_set(),
            ordered,
        ),
        reel.synchronized(ordered, hint).led(),
{
    let pruned = reel.pruned(ordered);
    let hinted = pruned.hinted(ordered, hint);
    let extended = hinted.extended(ordered);
    lemma_pruned(reel, ordered);
    lemma_hinted(pruned, ordered, hint);
    lemma_extended(hinted, ordered);
    lemma_fresh_of_distinct(as_set(extended.focus), extended.ring);
    let synced = reel.synchronized(ordered, hint);
    assert(synced.ring == extended.ring && synced.focus == extended.focus);
}

/// A synchronized reel is well formed and holds exactly the listed windows,
/// each once.
pub proof fn law_sync_holds_exactly_the_listed_windows(
    reel: ReelView,
    ordered: Seq<WindowId>,
    hint: Option<WindowId>,
)
    requires
        reel.wf(),
    ensures
        reel.synchronized(ordered, hint).wf(),
        forall|x: WindowId| #[trigger]
            reel.synchronized(ordered, hint).member(x) <==> ordered.contains(x),
{
    let pruned = reel.pruned(ordered);
    let hinted = pruned.hinted(ordered, hint);
    let extended = hinted.extended(ordered);
    lemma_pruned(reel, ordered);
    lemma_hinted(pruned, ordered, hint);
    lemma_extended(hinted, ordered);
    lemma_fresh_of_distinct(as_set(extended.focus), extended.ring);
    let synced = reel.synchronized(ordered, hint);
    assert(synced.ring == extended.ring && synced.focus == extended.focus);
    assert forall|x: WindowId| #[trigger] synced.member(x) <==> ordered.contains(x) by {
        assert(extended.member(x) <==> ordered.contains(x));
    }
}

/// The hint seeds focus when the reel has none: a listed hint becomes the focus
/// window of a reel that is without one, or that holds none of the listed
/// windows. It never takes focus from a window that is still listed.
pub proof fn law_hint_seeds_a_missing_focus(
    reel: ReelView,
    ordered: Seq<WindowId>,
    hint: Option<WindowId>,
)
    requires
        reel.wf(),
    ensures
        reel.focus is None || (forall|x: WindowId| #[trigger]
            reel.member(x) ==> !ordered.contains(x)) ==> (hint matches Some(id)
            ==> ordered.contains(id) ==> reel.synchronized(ordered, hint).focus == Some(id)),
        reel.focus matches Some(focus) ==> ordered.contains(focus) ==> reel.synchronized(
            ordered,
            hint,
        ).focus == Some(focus),
{
    lemma_pruned(reel, ordered);
    let pruned = reel.pruned(ordered);
    if pruned.focus is Some {
        assert(pruned.member(pruned.focus->0));
        assert(reel.member(pruned.focus->0));
    }
}

/// A hint leaves a reel well formed; only a reel without a focus window takes
/// it.
proof fn lemma_hinted(reel: ReelView, ordered: Seq<WindowId>, hint: Option<WindowId>)
    requires
        reel.wf(),
        forall|x: WindowId| #[trigger] reel.member(x) ==> ordered.contains(x),
    ensures
        reel.hinted(ordered, hint).wf(),
        reel.led() ==> reel.hinted(ordered, hint).led(),
        reel.led() ==> reel.hinted(ordered, hint).merged() == match hint {
            Some(id) if reel.merged().len() == 0 && ordered.contains(id) => seq![id],
            _ => reel.merged(),
        },
        forall|x: WindowId| #[trigger] reel.hinted(ordered, hint).member(x) ==> ordered.contains(x),
{
    let hinted = reel.hinted(ordered, hint);
    if reel.focus is None && hint is Some && ordered.contains(hint->0) {
        let id = hint->0;
        let others = |x: WindowId| x != id;
        lemma_filter_members(reel.ring, others);
        assert(hinted.ring == reel.ring.filter(others));
        if reel.led() {
            assert(hinted.ring =~= Seq::empty());
            assert(hinted.merged() =~= seq![hint->0]);
        }
    }
    assert forall|x: WindowId| #[trigger] hinted.member(x) implies ordered.contains(x) by {
        if hinted == reel || hinted.ring.contains(x) {
            assert(reel.member(x));
        }
    }
}

/// Extending appends exactly the listed windows that are new.
proof fn lemma_extended(reel: ReelView, ordered: Seq<WindowId>)
    requires
        reel.wf(),
        forall|x: WindowId| #[trigger] reel.member(x) ==> ordered.contains(x),
    ensures
        reel.extended(ordered).wf(),
        reel.led() ==> reel.extended(ordered).led(),
        reel.led() ==> reel.extended(ordered).merged() == reel.merged() + fresh(
            reel.merged().to_set(),
            ordered,
        ),
        forall|x: WindowId| #[trigger] reel.extended(ordered).member(x) <==> ordered.contains(x),
{
    let front = reel.merged();
    let extended = reel.extended(ordered);
    let seen = reel.ring.to_set() + as_set(reel.focus);
    let new = fresh(seen, ordered);
    lemma_fresh(seen, ordered);
    assert(seen =~= front.to_set()) by {
        assert forall|x: WindowId| seen.contains(x) == front.to_set().contains(x) by {
            lemma_merged_members(reel, x);
        }
    }
    if reel.led() {
        assert(extended.merged() =~= front + new);
    }
    let all = reel.ring + new;
    assert forall|i: int, j: int| 0 <= i < j < all.len() implies all[i] != all[j] by {
        if i < reel.ring.len() && j >= reel.ring.len() {
            assert(new.contains(new[j - reel.ring.len()]));
            assert(reel.ring.contains(reel.ring[i]));
        }
    }
    let seeds = reel.focus is None && new.len() > 0;
    if seeds {
        assert(extended.ring =~= all.remove(reel.ring.len() as int));
        assert(all[reel.ring.len() as int] == new[0]);
    }
    assert forall|x: WindowId| #[trigger] extended.ring.contains(x) <==> (reel.ring.contains(x)
        || new.contains(x)) && !(seeds && x == new[0]) by {
        lemma_concat_contains(reel.ring, new, x);
        if seeds {
            lemma_remove_contains(all, reel.ring.len() as int, x);
        }
    }
    assert forall|x: WindowId| #[trigger] extended.member(x) <==> ordered.contains(x) by {
        assert(extended.ring.contains(x) <==> (reel.ring.contains(x) || new.contains(x)) && !(seeds
            && x == new[0]));
        if seeds {
            assert(new.contains(new[0]));
        }
        if reel.member(x) {
            assert(ordered.contains(x));
        }
    }
}

proof fn lemma_wf_merged(reel: ReelView)
    requires
        reel.wf(),
    ensures
        reel.merged().no_duplicates(),
{
    let all = reel.merged();
    assert forall|i: int, j: int| 0 <= i < j < all.len() implies all[i] != all[j] by {
        if reel.focus is Some && i == 0 {
            assert(reel.ring.contains(reel.ring[j - 1]));
        }
    }
}

proof fn lemma_merged_wf(reel: ReelView)
    requires
        reel.merged().no_duplicates(),
    ensures
        reel.wf(),
{
    let all = reel.merged();
    if reel.focus is Some {
        assert forall|i: int, j: int| 0 <= i < j < reel.ring.len() implies reel.ring[i]
            != reel.ring[j] by {
            assert(all[i + 1] == reel.ring[i] && all[j + 1] == reel.ring[j]);
        }
        if reel.ring.contains(reel.focus->0) {
            let i = choose|i: int| 0 <= i < reel.ring.len() && reel.ring[i] == reel.focus->0;
            assert(all[i + 1] == all[0]);
        }
    }
}

proof fn lemma_concat_contains(a: Seq<WindowId>, b: Seq<WindowId>, x: WindowId)
    ensures
        (a + b).contains(x) <==> a.contains(x) || b.contains(x),
{
    let all = a + b;
    if a.contains(x) {
        let i = choose|i: int| 0 <= i < a.len() && a[i] == x;
        assert(all[i] == x);
    }
    if b.contains(x) {
        let i = choose|i: int| 0 <= i < b.len() && b[i] == x;
        assert(all[i + a.len()] == x);
    }
    if all.contains(x) {
        let i = choose|i: int| 0 <= i < all.len() && all[i] == x;
        if i < a.len() {
            assert(a[i] == x);
        } else {
            assert(b[i - a.len()] == x);
        }
    }
}

proof fn lemma_pruned(reel: ReelView, ordered: Seq<WindowId>)
    requires
        reel.wf(),
    ensures
        reel.pruned(ordered).wf(),
        reel.led() ==> reel.pruned(ordered).led(),
        reel.pruned(ordered).merged() == reel.merged().filter(
            |id: WindowId| ordered.contains(id),
        ),
        forall|x: WindowId| #[trigger]
            reel.pruned(ordered).member(x) <==> reel.member(x) && ordered.contains(x),
{
    let p = |id: WindowId| ordered.contains(id);
    let all = reel.merged();
    let pruned = reel.pruned(ordered);
    let kept = reel.ring.filter(p);
    lemma_filter_members(reel.ring, p);
    lemma_filter_members(all, p);
    if let Some(f) = reel.focus {
        Seq::filter_distributes_over_add(seq![f], reel.ring, p);
        reveal(Seq::filter);
        assert(seq![f].drop_last() =~= Seq::empty());
        assert(seq![f].drop_last().filter(p) =~= Seq::empty());
        assert(seq![f].filter(p) =~= if p(f) {
            seq![f]
        } else {
            Seq::empty()
        });
        assert(all.filter(p) =~= seq![f].filter(p) + kept);
        assert(pruned.merged() =~= all.filter(p));
    } else {
        assert(pruned.merged() =~= all.filter(p));
    }
    lemma_wf_merged(reel);
    lemma_merged_wf(pruned);
    assert forall|x: WindowId| #[trigger] pruned.member(x) <==> reel.member(x)
        && ordered.contains(x) by {
        lemma_merged_members(reel, x);
        lemma_merged_members(pruned, x);
        assert(all.filter(p).contains(x) <==> all.contains(x) && p(x));
    }
}

/// Synchronizing twice against one list is synchronizing once. Of a reel that
/// is without a focus window this is said for one hint: another could seed it.
pub proof fn law_sync_is_idempotent(
    reel: ReelView,
    ordered: Seq<WindowId>,
    hint: Option<WindowId>,
    later_hint: Option<WindowId>,
)
    requires
        reel.wf(),
        reel.led() || later_hint == hint,
    ensures
        reel.synchronized(ordered, hint).synchronized(ordered, later_hint) == reel.synchronized(
            ordered,
            hint,
        ),
{
    let once = reel.synchronized(ordered, hint);
    law_sync_holds_exactly_the_listed_windows(reel, ordered, hint);
    law_hint_seeds_a_missing_focus(reel, ordered, hint);
    if once.focus is None && reel.led() {
        law_sync_keeps_order_and_appends(reel, ordered, hint);
        if later_hint is Some && ordered.contains(later_hint->0) {
            assert(once.member(later_hint->0));
        }
    }
    lemma_sync_unchanged(once, ordered, later_hint);
}

/// Synchronizing a reel that holds exactly the listed windows, and does not
/// take the hint, moves none.
proof fn lemma_sync_unchanged(once: ReelView, ordered: Seq<WindowId>, later_hint: Option<WindowId>)
    requires
        once.wf(),
        once.focus is Some || !(later_hint matches Some(id) && ordered.contains(id)),
        forall|x: WindowId| #[trigger] once.member(x) <==> ordered.contains(x),
    ensures
        once.synchronized(ordered, later_hint) == once.clamped(),
{
    lemma_all_listed(once, ordered);
    lemma_none_new(once, ordered);
    lemma_fresh_of_distinct(as_set(once.focus), once.ring);
    assert(once.deduplicated() =~= once);
}

proof fn lemma_all_listed(reel: ReelView, ordered: Seq<WindowId>)
    requires
        forall|x: WindowId| #[trigger] reel.member(x) ==> ordered.contains(x),
    ensures
        reel.pruned(ordered) == reel,
{
    let listed = |id: WindowId| ordered.contains(id);
    let any = |id: WindowId| true;
    assert forall|i: int| 0 <= i < reel.ring.len() implies listed(#[trigger] reel.ring[i]) == any(
        reel.ring[i],
    ) by {
        assert(reel.member(reel.ring[i]));
    }
    lemma_filter_same(reel.ring, listed, any);
    lemma_filter_all(reel.ring);
    if reel.focus is Some {
        assert(reel.member(reel.focus->0));
    }
    assert(reel.pruned(ordered).ring == reel.ring);
}

proof fn lemma_none_new(reel: ReelView, ordered: Seq<WindowId>)
    requires
        forall|x: WindowId| #[trigger] ordered.contains(x) ==> reel.member(x),
    ensures
        reel.extended(ordered) == reel,
{
    let seen = reel.ring.to_set() + as_set(reel.focus);
    let new = fresh(seen, ordered);
    lemma_fresh(seen, ordered);
    if new.len() > 0 {
        assert(new.contains(new[0]));
        assert(reel.member(new[0]));
    }
    assert(reel.ring + new =~= reel.ring);
}

proof fn lemma_filter_all(ids: Seq<WindowId>)
    ensures
        ids.filter(|id: WindowId| true) == ids,
    decreases ids.len(),
{
    reveal(Seq::filter);
    if ids.len() > 0 {
        lemma_filter_all(ids.drop_last());
        assert(ids.drop_last().push(ids.last()) =~= ids);
    }
}

/// A reel that fits entirely does not scroll, neither by the wheel nor to a
/// window, and losing or synchronizing windows until it fits brings it back to
/// the top, at rest.
pub proof fn law_reel_that_fits_does_not_scroll(
    reel: ReelView,
    delta: Offset,
    step: Retarget,
    id: WindowId,
)
    requires
        !reel.scrollable(),
    ensures
        reel.scrolled(delta, step) == reel,
        reel.scrolled_to(id, step) == reel,
        reel.clamped().offset == zero_offset(),
        !reel.clamped().animating(),
        reel.clamped().ring == reel.ring,
        reel.clamped().focus == reel.focus,
{
}

/// Every offset the reel holds or heads for is a finite number.
pub open spec fn offsets_finite(reel: ReelView) -> bool {
    &&& reel.offset.finite()
    &&& reel.animation matches Some(animation) ==> animation.target.finite()
}

/// Every offset is finite from the start and stays so, whatever targets the
/// reel is given.
pub proof fn law_offsets_stay_finite(
    reel: ReelView,
    slot: int,
    delta: Offset,
    delta_ms: u64,
    step: Retarget,
    id: WindowId,
    ordered: Seq<WindowId>,
    hint: Option<WindowId>,
)
    requires
        offsets_finite(reel),
    ensures
        offsets_finite(empty_reel(reel.geometry)),
        offsets_finite(reel.deduplicated()),
        offsets_finite(reel.pushed(id)),
        offsets_finite(reel.promoted(slot)),
        offsets_finite(reel.focused_on(id)),
        offsets_finite(reel.turned(slot)),
        offsets_finite(reel.shifted(id, slot)),
        offsets_finite(reel.scrolled(delta, step)),
        offsets_finite(reel.scrolled_to(id, step)),
        offsets_finite(reel.settled(step)),
        offsets_finite(reel.retargeted(step)),
        offsets_finite(reel.ticked(delta_ms, step)),
        offsets_finite(reel.finished()),
        offsets_finite(reel.removed(id)),
        offsets_finite(reel.synchronized(ordered, hint)),
{
}

/// Restoring leaves a reel well formed with every window it had, and one that
/// was well formed as it was. The focus window, or that there is none, stays.
pub proof fn law_restoring_mends_only_what_is_broken(reel: ReelView)
    ensures
        reel.deduplicated().wf(),
        reel.deduplicated().focus == reel.focus,
        forall|x: WindowId| #[trigger] reel.deduplicated().member(x) <==> reel.member(x),
        reel.wf() ==> reel.deduplicated() == reel,
{
    lemma_fresh(as_set(reel.focus), reel.ring);
    if reel.wf() {
        lemma_fresh_of_distinct(as_set(reel.focus), reel.ring);
        assert(reel.deduplicated() =~= reel);
    }
}

/// A reel that starts empty has a focus window as long as it has any window, and
/// so has every reel once it has got one.
pub proof fn law_windows_keep_a_focus(
    reel: ReelView,
    slot: int,
    id: WindowId,
    ordered: Seq<WindowId>,
    hint: Option<WindowId>,
)
    requires
        reel.wf(),
        reel.led(),
    ensures
        empty_reel(reel.geometry).led(),
        reel.pushed(id).led(),
        reel.removed(id).led(),
        reel.promoted(slot).led(),
        reel.focused_on(id).led(),
        reel.turned(slot).led(),
        reel.shifted(id, slot).led(),
        reel.synchronized(ordered, hint).led(),
{
    law_sync_keeps_order_and_appends(reel, ordered, hint);
    lemma_find_id(reel.ring, id);
}

/// Under reduced motion the reel jumps to its target and never animates.
pub proof fn law_reduced_motion_jumps(reel: ReelView, step: Retarget)
    requires
        reel.reduce_motion,
        reel.animation is None,
    ensures
        reel.retargeted(step).animation is None,
        step.target.finite() ==> reel.retargeted(step).offset == step.target,
        !reel.settled(step).animating(),
{
}

/// Scrolling that is redirected while an animation runs starts from the offset
/// on screen and ends at the new target.
pub proof fn law_retargeting_is_continuous(reel: ReelView, step: Retarget)
    requires
        step.target.finite(),
    ensures
        reel.retargeted(step).heading() == step.target,
        match reel.retargeted(step).animation {
            Some(animation) => animation.start == reel.on_screen(step.eased)
                && animation.elapsed_ms == 0,
            None => reel.retargeted(step).offset == step.target,
        },
{
}

/// Wheel ticks and time leave the windows and their order alone.
pub proof fn law_scrolling_moves_no_window(
    reel: ReelView,
    delta: Offset,
    delta_ms: u64,
    step: Retarget,
)
    ensures
        reel.scrolled(delta, step).merged() == reel.merged(),
        reel.settled(step).merged() == reel.merged(),
        reel.ticked(delta_ms, step).merged() == reel.merged(),
{
}

/// After the wheel the reel waits out the settle delay where it is, and then
/// heads for the snap target.
pub proof fn law_wheel_settles_after_the_silence(reel: ReelView, delta_ms: u64, step: Retarget)
    requires
        reel.pending_settle,
        reel.animation is None,
    ensures
        reel.ms_since_scroll + delta_ms < REEL_SETTLE_DELAY_MS ==> {
            &&& reel.ticked(delta_ms, step).offset == reel.offset
            &&& reel.ticked(delta_ms, step).pending_settle
        },
        reel.ms_since_scroll + delta_ms >= REEL_SETTLE_DELAY_MS ==> {
            &&& step.target.finite() ==> reel.ticked(delta_ms, step).heading() == step.target
            &&& !reel.ticked(delta_ms, step).pending_settle
        },
{
}

/// A promotion presents the reel from the top, with no animation running.
pub proof fn law_promotion_presents_the_reel_from_the_top(reel: ReelView, slot: int)
    requires
        reel.ring.len() > 0,
    ensures
        reel.promoted(slot).offset == zero_offset(),
        reel.promoted(slot).animation is None,
{
}

/// An upper bound on the milliseconds until the reel is at rest.
pub open spec fn time_left(reel: ReelView) -> int {
    let moving = match reel.animation {
        Some(animation) => if animation.running() {
            animation.duration_ms - animation.elapsed_ms
        } else {
            0
        },
        None => 0,
    };
    let waiting = if !reel.pending_settle {
        0
    } else if reel.ms_since_scroll < REEL_SETTLE_DELAY_MS {
        REEL_SETTLE_DELAY_MS - reel.ms_since_scroll + reel.duration_ms + 1
    } else {
        reel.duration_ms + 1
    };
    moving + waiting
}

/// Left alone, the reel comes to rest: a tick that asks for another frame
/// brings the end nearer.
pub proof fn law_ticks_come_to_rest(reel: ReelView, delta_ms: u64, step: Retarget)
    requires
        delta_ms > 0,
    ensures
        0 <= time_left(reel.ticked(delta_ms, step)),
        reel.ticked(delta_ms, step).animating() ==> time_left(reel.ticked(delta_ms, step))
            < time_left(reel),
{
}

} // verus!
