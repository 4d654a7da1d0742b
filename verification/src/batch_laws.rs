//! What a request asks of the window system, and what is remembered for it.

use vstd::prelude::*;

use crate::app_state::AppState;
use crate::border_laws::{
    law_monitor_rects_are_the_monitors_own, law_presented_pixels_stay_off_bordering_monitors,
    law_union_is_the_smallest_cover, pixel_in, share_border,
};
use crate::landing_laws::{first_monitor, unknown_monitor};
use crate::ownership_laws::{
    first_home, homeless, law_first_entry_of_an_identity_counts,
    law_window_belongs_to_its_first_workspace, noted_owner,
};
use crate::physical_placement::{
    border_around, has_monitor, presented, projection, rects_of, signature_rows, tab_strip,
    topology_rows, union_of, ConstrainedAxes, ObservationView, PhysicalDecision, PhysicalKind,
};
use crate::physical_requests::still_valid;
use crate::physical_state::{counted, entry, PresentationView};
use crate::sorting::{ascending, OrderedRow};
use crate::types::{MonitorId, MonitorInfo, Rect, Visibility, WindowId, WindowPlacement};

verus! {

/// Whether one row comes no later than another: the first number in which they
/// differ decides.
pub open spec fn rows_in_order(a: Seq<int>, b: Seq<int>) -> bool
    decreases a.len(),
{
    if a.len() == 0 || b.len() == 0 {
        true
    } else if a[0] != b[0] {
        a[0] < b[0]
    } else {
        rows_in_order(a.skip(1), b.skip(1))
    }
}

proof fn lemma_ascending<R: OrderedRow>(rows: Seq<R>)
    ensures
        ascending(rows).to_multiset() == rows.to_multiset(),
        ascending(rows).len() == rows.len(),
        forall|p: int, q: int|
            0 <= p < q < rows.len() ==> R::row_leq(
                #[trigger] ascending(rows)[p],
                #[trigger] ascending(rows)[q],
            ),
        forall|i: int| 0 <= i < rows.len() ==> ascending(rows).contains(#[trigger] rows[i]),
        forall|p: int| 0 <= p < rows.len() ==> rows.contains(#[trigger] ascending(rows)[p]),
{
    let leq = |a: R, b: R| R::row_leq(a, b);
    R::row_order_is_total();
    rows.lemma_sort_by_ensures(leq);
    let sorted = ascending(rows);
    rows.to_multiset_ensures();
    sorted.to_multiset_ensures();
    assert(sorted.len() == rows.len());
    assert forall|p: int, q: int| 0 <= p < q < rows.len() implies R::row_leq(
        #[trigger] sorted[p],
        #[trigger] sorted[q],
    ) by {
        assert(leq(sorted[p], sorted[q]));
    }
    assert forall|i: int| 0 <= i < rows.len() implies sorted.contains(#[trigger] rows[i]) by {
        assert(rows.contains(rows[i]));
        assert(rows.to_multiset().count(rows[i]) > 0);
    }
    assert forall|p: int| 0 <= p < rows.len() implies rows.contains(#[trigger] sorted[p]) by {
        assert(sorted.contains(sorted[p]));
        assert(sorted.to_multiset().count(sorted[p]) > 0);
    }
}

/// The arrangement of the monitors names each with its identity, place, size and
/// scale, as often as it is there and no other, in ascending order.
pub proof fn law_arrangement_names_every_monitor(
    monitors: Seq<MonitorInfo>,
    i: int,
    p: int,
    q: int,
)
    requires
        0 <= i < monitors.len(),
        0 <= p < monitors.len(),
        0 <= q < monitors.len(),
    ensures
        ({
            let rows = ascending(signature_rows(monitors));
            let m = monitors[i];
            &&& rows.len() == monitors.len()
            &&& rows.contains((m.id, m.rect.x, m.rect.y, m.rect.width, m.rect.height, m.scale_milli))
            &&& exists|j: int|
                0 <= j < monitors.len() && rows[p] == (
                    (#[trigger] monitors[j]).id,
                    monitors[j].rect.x,
                    monitors[j].rect.y,
                    monitors[j].rect.width,
                    monitors[j].rect.height,
                    monitors[j].scale_milli,
                )
            &&& p < q ==> rows_in_order(
                seq![
                    rows[p].0 as int,
                    rows[p].1 as int,
                    rows[p].2 as int,
                    rows[p].3 as int,
                    rows[p].4 as int,
                    rows[p].5 as int,
                ],
                seq![
                    rows[q].0 as int,
                    rows[q].1 as int,
                    rows[q].2 as int,
                    rows[q].3 as int,
                    rows[q].4 as int,
                    rows[q].5 as int,
                ],
            )
        }),
{
    let unsorted = signature_rows(monitors);
    lemma_ascending(unsorted);
    let rows = ascending(unsorted);
    assert(rows.contains(unsorted[i]));
    assert(unsorted.contains(rows[p]));
    let j = choose|j: int| 0 <= j < unsorted.len() && unsorted[j] == rows[p];
    assert(unsorted[j] == (
        monitors[j].id,
        monitors[j].rect.x,
        monitors[j].rect.y,
        monitors[j].rect.width,
        monitors[j].rect.height,
        monitors[j].scale_milli,
    ));
    let a = seq![
        rows[p].0 as int,
        rows[p].1 as int,
        rows[p].2 as int,
        rows[p].3 as int,
        rows[p].4 as int,
        rows[p].5 as int,
    ];
    let b = seq![
        rows[q].0 as int,
        rows[q].1 as int,
        rows[q].2 as int,
        rows[q].3 as int,
        rows[q].4 as int,
        rows[q].5 as int,
    ];
    reveal_with_fuel(rows_in_order, 7);
    assert(a.skip(1)[0] == a[1] && a.skip(1).skip(1)[0] == a[2]);
    assert(a.skip(1).skip(1).skip(1)[0] == a[3]);
    assert(a.skip(1).skip(1).skip(1).skip(1)[0] == a[4]);
    assert(a.skip(1).skip(1).skip(1).skip(1).skip(1)[0] == a[5]);
    assert(b.skip(1)[0] == b[1] && b.skip(1).skip(1)[0] == b[2]);
    assert(b.skip(1).skip(1).skip(1)[0] == b[3]);
    assert(b.skip(1).skip(1).skip(1).skip(1)[0] == b[4]);
    assert(b.skip(1).skip(1).skip(1).skip(1).skip(1)[0] == b[5]);
}

/// The topology of a context names every monitor rectangle with its place and
/// size, and no other, in ascending order.
pub proof fn law_topology_names_every_rectangle(monitors: Seq<Rect>, i: int, p: int, q: int)
    requires
        0 <= i < monitors.len(),
        0 <= p < monitors.len(),
        0 <= q < monitors.len(),
    ensures
        ({
            let rows = ascending(topology_rows(monitors));
            let m = monitors[i];
            &&& rows.len() == monitors.len()
            &&& rows.contains((m.x, m.y, m.width, m.height))
            &&& exists|j: int|
                0 <= j < monitors.len() && rows[p] == (
                    (#[trigger] monitors[j]).x,
                    monitors[j].y,
                    monitors[j].width,
                    monitors[j].height,
                )
            &&& p < q ==> rows_in_order(
                seq![rows[p].0 as int, rows[p].1 as int, rows[p].2 as int, rows[p].3 as int],
                seq![rows[q].0 as int, rows[q].1 as int, rows[q].2 as int, rows[q].3 as int],
            )
        }),
{
    let unsorted = topology_rows(monitors);
    lemma_ascending(unsorted);
    let rows = ascending(unsorted);
    assert(rows.contains(unsorted[i]));
    assert(unsorted.contains(rows[p]));
    let j = choose|j: int| 0 <= j < unsorted.len() && unsorted[j] == rows[p];
    assert(unsorted[j] == (monitors[j].x, monitors[j].y, monitors[j].width, monitors[j].height));
    let a = seq![rows[p].0 as int, rows[p].1 as int, rows[p].2 as int, rows[p].3 as int];
    let b = seq![rows[q].0 as int, rows[q].1 as int, rows[q].2 as int, rows[q].3 as int];
    reveal_with_fuel(rows_in_order, 5);
    assert(a.skip(1)[0] == a[1] && a.skip(1).skip(1)[0] == a[2]);
    assert(a.skip(1).skip(1).skip(1)[0] == a[3]);
    assert(b.skip(1)[0] == b[1] && b.skip(1).skip(1)[0] == b[2]);
    assert(b.skip(1).skip(1).skip(1)[0] == b[3]);
}

/// Two arrangements are the same only if each monitor of one is in the other,
/// with the same identity, place, size and scale.
pub proof fn law_equal_arrangements_have_the_same_monitors(
    a: Seq<MonitorInfo>,
    b: Seq<MonitorInfo>,
    i: int,
)
    requires
        ascending(signature_rows(a)) == ascending(signature_rows(b)),
        0 <= i < a.len(),
    ensures
        a.len() == b.len(),
        exists|j: int|
            0 <= j < b.len() && (#[trigger] b[j]).id == a[i].id && b[j].rect == a[i].rect
                && b[j].scale_milli == a[i].scale_milli,
{
    lemma_ascending(signature_rows(a));
    lemma_ascending(signature_rows(b));
    let row = signature_rows(a)[i];
    let rows = ascending(signature_rows(a));
    assert(rows.contains(row));
    let p = choose|p: int| 0 <= p < rows.len() && rows[p] == row;
    assert(signature_rows(b).contains(ascending(signature_rows(b))[p]));
    let j = choose|j: int| 0 <= j < signature_rows(b).len() && signature_rows(b)[j] == row;
    assert(b[j].rect == a[i].rect);
}

/// Whether a window belongs to a monitor that is there: the one of its first
/// workspace, or the one it is leaving.
pub open spec fn belongs_to(state: AppState, id: WindowId, at: int, index: int, m: int) -> bool {
    ||| first_home(state.workspaces@, id, at, index) && first_monitor(
        state.monitors@,
        state.workspaces@[at].monitor_id,
        m,
    )
    ||| homeless(state.workspaces@, id) && noted_owner(state, id) is Some && first_monitor(
        state.monitors@,
        noted_owner(state, id)->0,
        m,
    )
}

/// A window is owned by the monitor it belongs to, with that monitor's
/// rectangle.
pub proof fn law_owner_is_the_monitor_it_belongs_to(
    state: AppState,
    id: WindowId,
    at: int,
    index: int,
    m: int,
)
    requires
        belongs_to(state, id, at, index, m),
    ensures
        state.owning_monitor(id) == Some((state.monitors@[m].id, state.monitors@[m].rect)),
{
    law_window_belongs_to_its_first_workspace(state, id, at, index);
    law_first_entry_of_an_identity_counts(state, state.monitors@[m].id, m, 0);
}

/// A context holds what it was asked about: the owner and its rectangle and
/// scale, the monitors, what was read of the window, and its size.
pub proof fn law_context_is_read_off_the_state(
    state: AppState,
    id: WindowId,
    m: int,
    window: Rect,
)
    requires
        first_monitor(state.monitors@, state.monitors@[m].id, m),
    ensures
        ({
            let owner = state.monitors@[m];
            let rects = rects_of(state.monitors@);
            let context = state.context_of(id, owner.id, owner.rect, window, rects);
            &&& context.owner_id == owner.id
            &&& context.owner_rect == owner.rect
            &&& context.scale_milli == owner.scale_milli
            &&& context.topology == ascending(topology_rows(rects))
            &&& context.window_width == window.width
            &&& context.window_height == window.height
            &&& state.natives@.contains_key(id) ==> context.insets == state.natives@[id].insets
                && context.native_style == state.natives@[id].style_bits
            &&& !state.natives@.contains_key(id) ==> context.insets == (0i32, 0i32, 0i32, 0i32)
                && context.native_style == 0
        }),
{
    law_first_entry_of_an_identity_counts(state, state.monitors@[m].id, m, 0);
}

/// An owner is known exactly if some monitor has its identity.
pub proof fn law_known_owner_has_a_monitor(monitors: Seq<MonitorInfo>, id: MonitorId)
    ensures
        has_monitor(monitors, id) <==> !unknown_monitor(monitors, id),
        forall|m: int| #[trigger] first_monitor(monitors, id, m) ==> has_monitor(monitors, id),
{
    if !unknown_monitor(monitors, id) {
        let i = choose|i: int| 0 <= i < monitors.len() && (#[trigger] monitors[i]).id == id;
        assert(monitors[i].id == id);
    }
}

/// What is known of a window after part of a batch is what was known before, or
/// nothing.
proof fn lemma_known_or_dropped(
    state: AppState,
    placements: Seq<WindowPlacement>,
    request: u64,
    invalidation: u64,
    id: WindowId,
)
    ensures
        ({
            let after = entry(
                state.projected_all(placements, request, invalidation).observations,
                id,
            );
            &&& after is None || after == entry(state.physical@.observations, id)
            &&& (forall|j: int|
                0 <= j < placements.len() ==> (#[trigger] placements[j]).window_id != id)
                ==> after == entry(state.physical@.observations, id)
        }),
    decreases placements.len(),
{
    if placements.len() > 0 {
        let front = placements.drop_last();
        lemma_known_or_dropped(state, front, request, invalidation, id);
        if forall|j: int|
            0 <= j < placements.len() ==> (#[trigger] placements[j]).window_id != id {
            assert forall|j: int| 0 <= j < front.len() implies (#[trigger] front[j]).window_id
                != id by {
                assert(placements[j].window_id != id);
            }
            assert(placements[placements.len() - 1].window_id != id);
        }
    }
}

/// How the placement at a position was projected.
proof fn lemma_projected_at(
    state: AppState,
    placements: Seq<WindowPlacement>,
    request: u64,
    invalidation: u64,
    i: int,
) -> (kept: Option<ObservationView>)
    requires
        0 <= i < placements.len(),
        state.owning_monitor(placements[i].window_id) is Some,
    ensures
        ({
            let logical = placements[i];
            let id = logical.window_id;
            let (owner_id, owner) = state.owning_monitor(id)->0;
            let rects = rects_of(state.monitors@);
            let context = state.context_of(id, owner_id, owner, logical.rect, rects);
            let known = entry(
                state.projected_all(placements.take(i), request, invalidation).observations,
                id,
            );
            let decided = state.decided(kept, logical, owner, context);
            let all = state.projected_all(placements, request, invalidation);
            &&& kept == still_valid(
                known,
                projection(logical.rect, owner, rects, state.park_sentinel),
                context,
            )
            &&& all.physical.len() == placements.len()
            &&& all.physical[i] == presented(logical, decided)
            &&& (forall|j: int|
                i < j < placements.len() ==> (#[trigger] placements[j]).window_id != id) ==> {
                &&& all.presentations.contains_key(id)
                &&& all.presentations[id] == PresentationView {
                    window_id: id,
                    logical,
                    owner_id,
                    physical: presented(logical, decided),
                    kind: decided.kind_of(),
                    axes: decided.axes_of(),
                    context,
                    request_id: request,
                    invalidation_id: invalidation,
                    confirmed: false,
                }
                &&& entry(all.observations, id) == if kept is None || decided
                    == PhysicalDecision::Unchanged {
                    None
                } else {
                    known
                }
            }
        }),
    decreases placements.len(),
{
    let front = placements.drop_last();
    lemma_lengths(state, front, request, invalidation);
    if i < front.len() {
        assert(front[i] == placements[i]);
        assert(front.take(i) =~= placements.take(i));
        let kept = lemma_projected_at(state, front, request, invalidation, i);
        let id = placements[i].window_id;
        if forall|j: int| i < j < placements.len() ==> (#[trigger] placements[j]).window_id != id {
            assert forall|j: int| i < j < front.len() implies (#[trigger] front[j]).window_id
                != id by {
                assert(placements[j].window_id != id);
            }
            assert(placements[placements.len() - 1].window_id != id);
        }
        kept
    } else {
        assert(placements.take(i) =~= front);
        let logical = placements[i];
        let id = logical.window_id;
        let (owner_id, owner) = state.owning_monitor(id)->0;
        let rects = rects_of(state.monitors@);
        let context = state.context_of(id, owner_id, owner, logical.rect, rects);
        let known = entry(state.projected_all(front, request, invalidation).observations, id);
        still_valid(
            known,
            projection(logical.rect, owner, rects, state.park_sentinel),
            context,
        )
    }
}

proof fn lemma_lengths(
    state: AppState,
    placements: Seq<WindowPlacement>,
    request: u64,
    invalidation: u64,
)
    ensures
        state.projected_all(placements, request, invalidation).physical.len() == placements.len(),
    decreases placements.len(),
{
    if placements.len() > 0 {
        lemma_lengths(state, placements.drop_last(), request, invalidation);
    }
}

/// Nothing a request leaves on screen of a window that is subject to projection
/// shows a pixel on a monitor that shares a border with the window's own,
/// whatever was learned of the window before.
pub proof fn law_requested_pixels_stay_off_bordering_monitors(
    state: AppState,
    placements: Seq<WindowPlacement>,
    request: u64,
    invalidation: u64,
    i: int,
    at: int,
    index: int,
    m: int,
    n: int,
    border: int,
    px: int,
    py: int,
)
    requires
        0 <= i < placements.len(),
        placements[i].rect.width > 0,
        placements[i].rect.height > 0,
        !state.exempt(placements[i]),
        belongs_to(state, placements[i].window_id, at, index, m),
        0 <= n < state.monitors@.len(),
        state.monitors@[n].rect != state.monitors@[m].rect,
        share_border(state.monitors@[m].rect, state.monitors@[n].rect, border),
        pixel_in(state.monitors@[n].rect, px, py),
    ensures
        ({
            let asked = state.projected_all(placements, request, invalidation).physical[i];
            asked.visibility == Visibility::Visible ==> !pixel_in(asked.rect, px, py)
        }),
{
    let logical = placements[i];
    let owner = state.monitors@[m].rect;
    let rects = rects_of(state.monitors@);
    law_owner_is_the_monitor_it_belongs_to(state, logical.window_id, at, index, m);
    let kept = lemma_projected_at(state, placements, request, invalidation, i);
    law_monitor_rects_are_the_monitors_own(state.monitors@, n);
    law_presented_pixels_stay_off_bordering_monitors(
        logical.rect,
        owner,
        rects,
        state.park_sentinel,
        n,
        border,
        px,
        py,
    );
}

/// A request asks for each placement that is subject to projection what becomes
/// of it: left alone where the projection leaves it alone, shown in its slice
/// unless its application was seen to reject it, else hidden.
pub proof fn law_requested_placement_follows_the_projection(
    state: AppState,
    placements: Seq<WindowPlacement>,
    request: u64,
    invalidation: u64,
    i: int,
    at: int,
    index: int,
    m: int,
)
    requires
        0 <= i < placements.len(),
        !state.exempt(placements[i]),
        belongs_to(state, placements[i].window_id, at, index, m),
    ensures
        ({
            let logical = placements[i];
            let asked = state.projected_all(placements, request, invalidation).physical[i];
            let rects = rects_of(state.monitors@);
            let known = state.physical@.observations.contains_key(logical.window_id);
            match projection(
                logical.rect,
                state.monitors@[m].rect,
                rects,
                state.park_sentinel,
            ) {
                PhysicalDecision::Unchanged => asked == logical,
                PhysicalDecision::Constrained { rect, .. } => {
                    &&& !known ==> asked.visibility == Visibility::Visible && asked.rect == rect
                    &&& asked.visibility == Visibility::Visible ==> asked.rect == rect
                },
                PhysicalDecision::Parked { .. } => asked.visibility != Visibility::Visible,
            }
        }),
{
    let logical = placements[i];
    law_owner_is_the_monitor_it_belongs_to(state, logical.window_id, at, index, m);
    let kept = lemma_projected_at(state, placements, request, invalidation, i);
    lemma_known_or_dropped(state, placements.take(i), request, invalidation, logical.window_id);
}

/// What is pending of a window after a request is its last placement of the
/// batch: where it belongs, what was asked of the window system, in which
/// context and for which request, and that none of it is confirmed yet.
pub proof fn law_pending_presentation_field_by_field(
    state: AppState,
    placements: Seq<WindowPlacement>,
    i: int,
    at: int,
    index: int,
    m: int,
)
    requires
        0 <= i < placements.len(),
        forall|j: int|
            i < j < placements.len() ==> (#[trigger] placements[j]).window_id
                != placements[i].window_id,
        belongs_to(state, placements[i].window_id, at, index, m),
    ensures
        ({
            let logical = placements[i];
            let id = logical.window_id;
            let after = state.requested(placements);
            let asked = state.projected_all(
                placements,
                after.request_seq,
                state.physical@.invalidation,
            ).physical[i];
            let p = after.pending[id];
            &&& after.pending.contains_key(id)
            &&& p.window_id == id
            &&& p.logical == logical
            &&& p.physical == asked
            &&& p.owner_id == state.monitors@[m].id
            &&& p.context == state.context_of(
                id,
                state.monitors@[m].id,
                state.monitors@[m].rect,
                logical.rect,
                rects_of(state.monitors@),
            )
            &&& p.request_id == after.request_seq
            &&& p.invalidation_id == state.physical@.invalidation
            &&& !p.confirmed
            &&& p.kind == PhysicalKind::Unchanged ==> p.physical == logical
            &&& p.kind == PhysicalKind::Constrained ==> p.physical.visibility == Visibility::Visible
            &&& p.kind == PhysicalKind::Parked ==> p.physical.visibility != Visibility::Visible
            &&& state.exempt(logical) ==> p.kind == PhysicalKind::Unchanged
        }),
{
    law_owner_is_the_monitor_it_belongs_to(state, placements[i].window_id, at, index, m);
    let request = counted(state.physical@.request_seq, 1);
    let kept = lemma_projected_at(
        state,
        placements,
        request,
        state.physical@.invalidation,
        i,
    );
}

/// A window that is not in the batch has nothing pending.
pub proof fn law_only_the_batch_is_pending(
    state: AppState,
    placements: Seq<WindowPlacement>,
    request: u64,
    invalidation: u64,
    id: WindowId,
)
    requires
        forall|j: int| 0 <= j < placements.len() ==> (#[trigger] placements[j]).window_id != id,
    ensures
        !state.projected_all(placements, request, invalidation).presentations.contains_key(id),
        entry(state.projected_all(placements, request, invalidation).observations, id) == entry(
            state.physical@.observations,
            id,
        ),
    decreases placements.len(),
{
    if placements.len() > 0 {
        let front = placements.drop_last();
        assert forall|j: int| 0 <= j < front.len() implies (#[trigger] front[j]).window_id != id by {
            assert(placements[j].window_id != id);
        }
        law_only_the_batch_is_pending(state, front, request, invalidation, id);
        assert(placements[placements.len() - 1].window_id != id);
    }
}

/// A request takes the next number, which starts over at zero past the largest.
/// It alone is open, pending and in flight, under the changes counted so far;
/// nothing that was presented or applied before changes.
pub proof fn law_request_takes_the_next_number(
    state: AppState,
    placements: Seq<WindowPlacement>,
    other: u64,
)
    ensures
        ({
            let before = state.physical@;
            let after = state.requested(placements);
            let number = after.request_seq;
            &&& before.request_seq < u64::MAX ==> number == before.request_seq + 1
            &&& before.request_seq == u64::MAX ==> number == 0
            &&& after.inflight == Some(number)
            &&& after.pending_request == number
            &&& after.dispatch_request == number
            &&& after.pending_invalidation == before.invalidation
            &&& after.invalidation == before.invalidation
            &&& after.origins.contains_key(other) <==> other == number
            &&& after.origins[number] == after.pending
            &&& after.last == before.last
            &&& after.last_applied == before.last_applied
            &&& after.topology == before.topology
        }),
{
}

/// What a request leaves of what is known of rejected sizes: the lesson of a
/// window that is asked for once stays only while its window is still cut or
/// parked in the circumstances of the lesson. Nothing new is learned.
pub proof fn law_lessons_expire_with_their_circumstances(
    state: AppState,
    placements: Seq<WindowPlacement>,
    request: u64,
    invalidation: u64,
    i: int,
    at: int,
    index: int,
    m: int,
)
    requires
        0 <= i < placements.len(),
        forall|j: int|
            0 <= j < placements.len() && j != i ==> (#[trigger] placements[j]).window_id
                != placements[i].window_id,
        belongs_to(state, placements[i].window_id, at, index, m),
    ensures
        ({
            let logical = placements[i];
            let id = logical.window_id;
            let owner = state.monitors@[m];
            let rects = rects_of(state.monitors@);
            let context = state.context_of(id, owner.id, owner.rect, logical.rect, rects);
            let before = entry(state.physical@.observations, id);
            let after = entry(
                state.projected_all(placements, request, invalidation).observations,
                id,
            );
            &&& before is None ==> after is None
            &&& state.exempt(logical) ==> after is None
            &&& before matches Some(seen) ==> !state.exempt(logical) ==> match projection(
                logical.rect,
                owner.rect,
                rects,
                state.park_sentinel,
            ) {
                PhysicalDecision::Unchanged => after is None,
                PhysicalDecision::Constrained { axes, .. } => after == if seen.context.agrees(
                    context,
                    axes,
                ) {
                    Some(seen)
                } else {
                    None
                },
                PhysicalDecision::Parked { .. } => {
                    let axes = ConstrainedAxes {
                        left: false,
                        right: seen.width_affected,
                        top: false,
                        bottom: seen.height_affected,
                    };
                    after == if seen.context.agrees(context, axes) {
                        Some(seen)
                    } else {
                        None
                    }
                },
            }
        }),
{
    let id = placements[i].window_id;
    law_owner_is_the_monitor_it_belongs_to(state, id, at, index, m);
    let kept = lemma_projected_at(state, placements, request, invalidation, i);
    let front = placements.take(i);
    assert forall|j: int| 0 <= j < front.len() implies (#[trigger] front[j]).window_id != id by {
        assert(placements[j].window_id != id);
    }
    lemma_known_or_dropped(state, front, request, invalidation, id);
}

/// A decoration goes nowhere if its window is parked; else it is cut as a window
/// there would be, and left out where that would be hidden.
pub proof fn law_decoration_is_cut_like_a_window(
    state: AppState,
    id: WindowId,
    rect: Rect,
    at: int,
    index: int,
    m: int,
)
    requires
        belongs_to(state, id, at, index, m),
    ensures
        ({
            let place = state.decoration_place(id, rect);
            let parked = state.physical@.showing(id) is Some && state.physical@.showing(id)->0.kind
                == PhysicalKind::Parked;
            let projected = projection(
                rect,
                state.monitors@[m].rect,
                rects_of(state.monitors@),
                state.park_sentinel,
            );
            &&& parked ==> place is None
            &&& !parked ==> match projected {
                PhysicalDecision::Unchanged => place == Some(rect),
                PhysicalDecision::Constrained { rect: slice, .. } => place == Some(slice),
                PhysicalDecision::Parked { .. } => place is None,
            }
        }),
{
    law_owner_is_the_monitor_it_belongs_to(state, id, at, index, m);
}

/// What is drawn of a decoration shows no pixel on a monitor that shares a border
/// with the one its window belongs to.
pub proof fn law_decoration_stays_off_bordering_monitors(
    state: AppState,
    id: WindowId,
    rect: Rect,
    at: int,
    index: int,
    m: int,
    n: int,
    border: int,
    px: int,
    py: int,
)
    requires
        rect.width > 0,
        rect.height > 0,
        belongs_to(state, id, at, index, m),
        0 <= n < state.monitors@.len(),
        state.monitors@[n].rect != state.monitors@[m].rect,
        share_border(state.monitors@[m].rect, state.monitors@[n].rect, border),
        pixel_in(state.monitors@[n].rect, px, py),
    ensures
        state.decoration_place(id, rect) matches Some(drawn) ==> !pixel_in(drawn, px, py),
{
    law_owner_is_the_monitor_it_belongs_to(state, id, at, index, m);
    law_monitor_rects_are_the_monitors_own(state.monitors@, n);
    law_presented_pixels_stay_off_bordering_monitors(
        rect,
        state.monitors@[m].rect,
        rects_of(state.monitors@),
        state.park_sentinel,
        n,
        border,
        px,
        py,
    );
}

/// The decoration of a window that belongs to no known monitor goes nowhere.
pub proof fn law_decoration_needs_an_owner(state: AppState, id: WindowId, rect: Rect)
    requires
        homeless(state.workspaces@, id),
        noted_owner(state, id) is None,
    ensures
        state.decoration_place(id, rect) is None,
{
    law_window_belongs_to_its_first_workspace(state, id, 0, 0);
}

/// A window that moves and shows a pixel on a monitor that shares a border with
/// its own, at the start or in the end, crosses that border on its way.
pub proof fn law_move_onto_a_bordering_monitor_crosses_its_edge(
    state: AppState,
    id: WindowId,
    start: Rect,
    target: Rect,
    at: int,
    index: int,
    m: int,
    n: int,
    border: int,
    px: int,
    py: int,
)
    requires
        belongs_to(state, id, at, index, m),
        start.width > 0 && start.height > 0 && target.width > 0 && target.height > 0,
        start.x + start.width - target.x <= i32::MAX,
        target.x + target.width - start.x <= i32::MAX,
        start.y + start.height - target.y <= i32::MAX,
        target.y + target.height - start.y <= i32::MAX,
        0 <= n < state.monitors@.len(),
        state.monitors@[n].rect != state.monitors@[m].rect,
        share_border(state.monitors@[m].rect, state.monitors@[n].rect, border),
        pixel_in(state.monitors@[n].rect, px, py),
        pixel_in(start, px, py) || pixel_in(target, px, py),
    ensures
        state.sweeps_out(id, start, target),
{
    law_owner_is_the_monitor_it_belongs_to(state, id, at, index, m);
    law_monitor_rects_are_the_monitors_own(state.monitors@, n);
    law_union_is_the_smallest_cover(start, target, start, px, py);
    law_presented_pixels_stay_off_bordering_monitors(
        union_of(start, target),
        state.monitors@[m].rect,
        rects_of(state.monitors@),
        state.park_sentinel,
        n,
        border,
        px,
        py,
    );
}

/// A window that moves within a rectangle which the projection leaves alone
/// crosses no border, and neither does one that belongs to no monitor.
pub proof fn law_move_within_bounds_crosses_no_edge(
    state: AppState,
    id: WindowId,
    start: Rect,
    target: Rect,
    at: int,
    index: int,
    m: int,
)
    ensures
        belongs_to(state, id, at, index, m) ==> (state.sweeps_out(id, start, target) <==> !(
        projection(
            union_of(start, target),
            state.monitors@[m].rect,
            rects_of(state.monitors@),
            state.park_sentinel,
        ) is Unchanged)),
        homeless(state.workspaces@, id) && noted_owner(state, id) is None ==> !state.sweeps_out(
            id,
            start,
            target,
        ),
{
    if belongs_to(state, id, at, index, m) {
        law_owner_is_the_monitor_it_belongs_to(state, id, at, index, m);
    }
    if homeless(state.workspaces@, id) && noted_owner(state, id) is None {
        law_window_belongs_to_its_first_workspace(state, id, 0, 0);
    }
}

/// A tab strip is as wide as its window and ends the gap above it, where there is
/// room; it shares no pixel with the window.
pub proof fn law_tab_strip_stands_above_its_window(
    window: Rect,
    strip_height: i32,
    bottom_gap: i32,
    px: int,
    py: int,
)
    ensures
        ({
            let strip = tab_strip(window, strip_height, bottom_gap);
            let gap = if bottom_gap < 0 { 0int } else { bottom_gap as int };
            &&& strip.x == window.x && strip.width == window.width
            &&& strip_height >= 0 ==> strip.height == strip_height
            &&& strip_height < 0 ==> strip.height == 0
            &&& window.y - strip.height - gap >= i32::MIN ==> strip.y + strip.height + gap
                == window.y && !(pixel_in(strip, px, py) && pixel_in(window, px, py))
            &&& window.y - strip.height - gap < i32::MIN ==> strip.y == i32::MIN
        }),
{
}

/// A border reaches its width past the content less one pixel on every side,
/// where that can be held.
pub proof fn law_border_surrounds_its_content(content: Rect, bw: i32)
    requires
        0 <= bw <= 0x3fff_ffff,
        content.width >= 2,
        content.height >= 2,
        i32::MIN <= content.x + 1 - bw,
        i32::MIN <= content.y + 1 - bw,
        content.x < i32::MAX,
        content.y < i32::MAX,
        content.width - 2 + 2 * bw <= i32::MAX,
        content.height - 2 + 2 * bw <= i32::MAX,
    ensures
        ({
            let border = border_around(content, bw);
            &&& border.x == content.x + 1 - bw
            &&& border.y == content.y + 1 - bw
            &&& border.x + border.width == content.x + content.width - 1 + bw
            &&& border.y + border.height == content.y + content.height - 1 + bw
        }),
{
}

} // verus!
