//! What becomes of a request: which results are taken in, what a landing
//! confirms, what is learned from a rejected slice, and what is parked then.

use vstd::prelude::*;

use crate::app_state::{monitor_ids, AppState};
use crate::border_laws::law_failed_slice_is_hidden_off_every_monitor;
use crate::id_list::{find_id, lemma_find_id, lemma_find_id_is};
use crate::physical_follow_up::placement_in;
use crate::physical_placement::{clears, rects_of, signature_rows, ConstrainedAxes, PhysicalKind};
use crate::physical_requests::landing_of;
use crate::physical_state::{entry, PhysicalView, PresentationView};
use crate::sorting::ascending;
use crate::types::{
    MonitorId, MonitorInfo, PlacementLanding, Rect, Visibility, WindowId, WindowPlacement,
};

verus! {

/// Whether results belong to the pending request and nothing changed since it
/// was made.
pub open spec fn up_to_date(p: PhysicalView, request: u64, invalidation: u64) -> bool {
    &&& request == p.pending_request
    &&& invalidation == p.pending_invalidation
    &&& invalidation == p.invalidation
    &&& request == 0 || p.inflight == Some(request)
}

/// Whether the presentations of a request are known and all its own.
pub open spec fn origins_known(p: PhysicalView, request: u64, invalidation: u64) -> bool {
    &&& p.origins.contains_key(request)
    &&& forall|id: WindowId| #[trigger]
        p.origins[request].contains_key(id) ==> p.origins[request][id].request_id == request
            && p.origins[request][id].invalidation_id == invalidation
}

/// Whether landing `at` is the last one reported of a window.
pub open spec fn last_landing(landings: Seq<PlacementLanding>, id: WindowId, at: int) -> bool {
    &&& 0 <= at < landings.len()
    &&& landings[at].window_id == id
    &&& forall|j: int| at < j < landings.len() ==> (#[trigger] landings[j]).window_id != id
}

/// Whether monitor `at` is the first with an identity.
pub open spec fn first_monitor(monitors: Seq<MonitorInfo>, id: MonitorId, at: int) -> bool {
    &&& 0 <= at < monitors.len()
    &&& monitors[at].id == id
    &&& forall|j: int| 0 <= j < at ==> (#[trigger] monitors[j]).id != id
}

/// Whether no monitor has an identity.
pub open spec fn unknown_monitor(monitors: Seq<MonitorInfo>, id: MonitorId) -> bool {
    forall|j: int| 0 <= j < monitors.len() ==> (#[trigger] monitors[j]).id != id
}

/// Whether a rectangle stays behind the cut edges of its owner and within the
/// size it was given along a cut axis.
pub open spec fn within_cut(
    requested: Rect,
    actual: Rect,
    owner: Rect,
    axes: ConstrainedAxes,
) -> bool {
    &&& axes.left ==> owner.x <= actual.x
    &&& axes.right ==> actual.x + actual.width <= owner.x + owner.width
    &&& axes.top ==> owner.y <= actual.y
    &&& axes.bottom ==> actual.y + actual.height <= owner.y + owner.height
    &&& axes.left || axes.right ==> actual.width <= requested.width
    &&& axes.top || axes.bottom ==> actual.height <= requested.height
}

/// Whether a rectangle lies beside, above or below each monitor.
pub open spec fn apart_from_all(rect: Rect, monitors: Seq<MonitorInfo>) -> bool {
    forall|i: int|
        0 <= i < monitors.len() ==> (rect.x + rect.width <= (#[trigger] monitors[i]).rect.x
            || monitors[i].rect.x + monitors[i].rect.width <= rect.x || rect.y + rect.height
            <= monitors[i].rect.y || monitors[i].rect.y + monitors[i].rect.height <= rect.y)
}

/// The landing that counts is the last one reported of a window.
pub proof fn law_the_last_landing_counts(landings: Seq<PlacementLanding>, id: WindowId, at: int)
    ensures
        last_landing(landings, id, at) ==> landing_of(landings, id) == Some(landings[at]),
        landing_of(landings, id) is None <==> forall|j: int|
            0 <= j < landings.len() ==> (#[trigger] landings[j]).window_id != id,
    decreases landings.len(),
{
    if landings.len() > 0 {
        let front = landings.drop_last();
        law_the_last_landing_counts(front, id, at);
        let last = landings.len() - 1;
        if landings[last].window_id == id {
            assert(landings[last].window_id == id);
        } else {
            if last_landing(landings, id, at) {
                assert forall|j: int| at < j < front.len() implies (#[trigger] front[j]).window_id
                    != id by {
                    assert(landings[j].window_id != id);
                }
                assert(last_landing(front, id, at));
            }
            if landing_of(landings, id) is None {
                assert forall|j: int| 0 <= j < landings.len() implies (
                #[trigger] landings[j]).window_id != id by {
                    if j < last {
                        assert(front[j].window_id != id);
                    }
                }
            }
            if forall|j: int| 0 <= j < landings.len() ==> (#[trigger] landings[j]).window_id != id {
                assert forall|j: int| 0 <= j < front.len() implies (#[trigger] front[j]).window_id
                    != id by {
                    assert(landings[j].window_id != id);
                }
            }
        }
    }
}

/// Results that do not belong to the pending request, or that something made
/// stale, change nothing. Nor does anything but the list of open requests change
/// where the request is not known, or not wholly its own.
pub proof fn law_only_the_current_request_is_taken_in(
    state: AppState,
    request: u64,
    invalidation: u64,
    landings: Seq<PlacementLanding>,
    dispatched: Seq<WindowPlacement>,
    other: u64,
)
    ensures
        !up_to_date(state.physical@, request, invalidation) ==> state.consumed(
            request,
            invalidation,
            landings,
        ) == state.physical@,
        !up_to_date(state.physical@, request, invalidation) || !origins_known(
            state.physical@,
            request,
            invalidation,
        ) ==> {
            let after = state.consumed(request, invalidation, landings);
            &&& after == (PhysicalView { origins: after.origins, ..state.physical@ })
            &&& up_to_date(state.physical@, request, invalidation) ==> !after.origins.contains_key(
                request,
            )
            &&& other != request ==> entry(after.origins, other) == entry(
                state.physical@.origins,
                other,
            )
            &&& state.follow_up(request, invalidation, landings, dispatched).len() == 0
        },
{
}

/// Taking a request in settles it: its presentations become those last made,
/// each as it was but for the confirmation; nothing is pending and the request is
/// open no longer, while every other stays as it was. The layout counts as
/// applied under the current monitors.
pub proof fn law_taking_in_settles_the_request(
    state: AppState,
    request: u64,
    invalidation: u64,
    landings: Seq<PlacementLanding>,
    id: WindowId,
    other: u64,
)
    requires
        up_to_date(state.physical@, request, invalidation),
        origins_known(state.physical@, request, invalidation),
    ensures
        ({
            let before = state.physical@;
            let origins = before.origins[request];
            let after = state.consumed(request, invalidation, landings);
            &&& after.last.contains_key(id) == origins.contains_key(id)
            &&& origins.contains_key(id) ==> after.last[id] == (PresentationView {
                confirmed: after.last[id].confirmed,
                ..origins[id]
            })
            &&& !after.pending.contains_key(id)
            &&& !after.origins.contains_key(request)
            &&& other != request ==> after.origins.contains_key(other)
                == before.origins.contains_key(other) && after.origins[other]
                == before.origins[other]
            &&& before.inflight == Some(request) ==> after.inflight is None
            &&& before.inflight != Some(request) ==> after.inflight == before.inflight
            &&& after.last_applied == after.invalidation
            &&& after.request_seq == before.request_seq
            &&& after.dispatch_request == before.dispatch_request
            &&& after.pending_request == before.pending_request
            &&& after.pending_invalidation == before.pending_invalidation
            &&& after.topology == ascending(signature_rows(state.monitors@))
        }),
{
    assert(state.takes_in(request, invalidation));
}

/// What a read-back confirms: a window that was left alone if it could be read,
/// a parked one if it lies off every monitor, a sliced one if it kept behind the
/// cut edges and to its size. A failed or unreadable placement confirms nothing,
/// and without a landing, or an owner to hold a slice against, nothing changes.
pub proof fn law_confirmation_follows_the_read_back(
    state: AppState,
    request: u64,
    invalidation: u64,
    landings: Seq<PlacementLanding>,
    id: WindowId,
    at: int,
    m: int,
)
    requires
        state.physical@.wf(),
        up_to_date(state.physical@, request, invalidation),
        origins_known(state.physical@, request, invalidation),
        state.physical@.origins[request].contains_key(id),
    ensures
        ({
            let p = state.physical@.origins[request][id];
            let after = state.consumed(request, invalidation, landings).last[id];
            let landing = landings[at];
            let read = !landing.failed && !landing.unreadable;
            &&& (forall|j: int|
                0 <= j < landings.len() ==> (#[trigger] landings[j]).window_id != id)
                ==> after.confirmed == p.confirmed
            &&& last_landing(landings, id, at) && p.kind == PhysicalKind::Unchanged ==> (
            after.confirmed <==> read && landing.actual_visible_rect is Some)
            &&& last_landing(landings, id, at) && p.kind == PhysicalKind::Parked ==> (
            after.confirmed <==> read && (landing.actual_outer_rect matches Some(outer)
                && apart_from_all(outer, state.monitors@)))
            &&& last_landing(landings, id, at) && p.kind == PhysicalKind::Constrained
                && first_monitor(state.monitors@, p.owner_id, m) ==> (after.confirmed
                <==> p.confirmed || (read && landing.actual_outer_rect is Some && (
            landing.actual_visible_rect matches Some(visible) && within_cut(
                p.physical.rect,
                visible,
                state.monitors@[m].rect,
                p.axes,
            ))))
            &&& p.kind == PhysicalKind::Constrained && unknown_monitor(
                state.monitors@,
                p.owner_id,
            ) ==> after.confirmed == p.confirmed
        }),
{
    assert(state.takes_in(request, invalidation));
    let p = state.physical@.origins[request][id];
    assert(p.window_id == id);
    law_the_last_landing_counts(landings, id, at);
    lemma_apart_is_clear(state, landings[at]);
    if first_monitor(state.monitors@, p.owner_id, m) {
        lemma_first_monitor(state, p.owner_id, m);
    }
    if unknown_monitor(state.monitors@, p.owner_id) {
        lemma_unknown_monitor(state, p.owner_id);
    }
}

/// An identity that no monitor has names none.
proof fn lemma_unknown_monitor(state: AppState, id: MonitorId)
    requires
        unknown_monitor(state.monitors@, id),
    ensures
        state.monitor(id) is None,
{
    if state.monitor(id) is Some {
        let m = lemma_monitor_index(state, id);
        assert(state.monitors@[m].id != id);
    }
}

/// Lying apart from the monitors is clearing them.
proof fn lemma_apart_is_clear(state: AppState, landing: PlacementLanding)
    ensures
        landing.actual_outer_rect matches Some(outer) ==> clears(outer, rects_of(state.monitors@))
            == apart_from_all(outer, state.monitors@),
{
    if let Some(outer) = landing.actual_outer_rect {
        let rects = rects_of(state.monitors@);
        if clears(outer, rects) {
            assert forall|i: int| 0 <= i < state.monitors@.len() implies (outer.x + outer.width <= (
            #[trigger] state.monitors@[i]).rect.x || state.monitors@[i].rect.x
                + state.monitors@[i].rect.width <= outer.x || outer.y + outer.height
                <= state.monitors@[i].rect.y || state.monitors@[i].rect.y
                + state.monitors@[i].rect.height <= outer.y) by {
                assert(!outer.meets(rects[i]));
            }
        }
        if apart_from_all(outer, state.monitors@) {
            assert forall|i: int| 0 <= i < rects.len() implies !outer.meets(#[trigger] rects[i]) by {
                assert(rects[i] == state.monitors@[i].rect);
            }
        }
    }
}

/// The first monitor with an identity is the one it names.
proof fn lemma_first_monitor(state: AppState, id: MonitorId, m: int)
    requires
        first_monitor(state.monitors@, id, m),
    ensures
        state.monitor(id) == Some(state.monitors@[m]),
{
    let ids = monitor_ids(state.monitors@);
    assert forall|j: int| 0 <= j < m implies ids[j] != id by {
        assert(state.monitors@[j].id != id);
    }
    lemma_find_id_is(ids, id, m);
}

/// Whether the landing of a sliced window shows that it did not keep to its
/// slice.
pub open spec fn broke_its_slice(
    p: PresentationView,
    landing: PlacementLanding,
    owner: Rect,
) -> bool {
    &&& p.kind == PhysicalKind::Constrained
    &&& landing.actual_outer_rect is Some
    &&& {
        ||| landing.failed
        ||| landing.unreadable
        ||| landing.actual_visible_rect is None
        ||| landing.actual_visible_rect matches Some(visible) && !within_cut(
            p.physical.rect,
            visible,
            owner,
            p.axes,
        )
    }
}

/// The follow-up parks exactly the windows that broke their slices: hidden, at
/// the outer size they were measured at, before every monitor. Every other
/// placement is repeated as it was dispatched.
pub proof fn law_broken_slices_are_parked(
    state: AppState,
    request: u64,
    invalidation: u64,
    landings: Seq<PlacementLanding>,
    dispatched: Seq<WindowPlacement>,
    i: int,
    at: int,
    m: int,
    n: int,
)
    requires
        state.physical@.wf(),
        up_to_date(state.physical@, request, invalidation),
        origins_known(state.physical@, request, invalidation),
        0 <= i < dispatched.len(),
        state.physical@.origins[request].contains_key(dispatched[i].window_id),
        last_landing(landings, dispatched[i].window_id, at),
        first_monitor(
            state.monitors@,
            state.physical@.origins[request][dispatched[i].window_id].owner_id,
            m,
        ),
        0 <= n < state.monitors@.len(),
    ensures
        ({
            let p = state.physical@.origins[request][dispatched[i].window_id];
            let batch = state.follow_up(request, invalidation, landings, dispatched);
            let broke = broke_its_slice(p, landings[at], state.monitors@[m].rect);
            &&& batch.len() == 0 || batch.len() == dispatched.len()
            &&& broke ==> {
                let parked = batch[i];
                &&& batch.len() == dispatched.len()
                &&& parked.window_id == dispatched[i].window_id
                &&& parked.column_index == dispatched[i].column_index
                &&& parked.visibility == Visibility::OffScreenRight
                &&& landings[at].actual_outer_rect matches Some(outer) && parked.rect.width
                    == outer.width && parked.rect.height == outer.height
                &&& parked.rect.x <= state.park_sentinel && parked.rect.y <= state.park_sentinel
                &&& parked.rect.x > i32::MIN ==> parked.rect.x + parked.rect.width
                    <= state.monitors@[n].rect.x
                &&& parked.rect.y > i32::MIN ==> parked.rect.y + parked.rect.height
                    <= state.monitors@[n].rect.y
            }
            &&& !broke && batch.len() > 0 ==> batch[i] == dispatched[i]
        }),
{
    assert(state.takes_in(request, invalidation));
    let id = dispatched[i].window_id;
    let origins = state.physical@.origins[request];
    let p = origins[id];
    law_the_last_landing_counts(landings, id, at);
    lemma_first_monitor(state, p.owner_id, m);
    let failed = state.failures(origins, landings);
    let retained = state.retained_outers(origins, landings);
    let broke = broke_its_slice(p, landings[at], state.monitors@[m].rect);
    assert(failed.contains(id) == broke);
    if broke {
        assert(!failed.is_empty()) by {
            assert(failed.contains(id));
        }
        let rects = rects_of(state.monitors@);
        assert(rects[n] == state.monitors@[n].rect);
        law_failed_slice_is_hidden_off_every_monitor(
            dispatched[i],
            failed,
            retained,
            rects,
            state.park_sentinel,
            n,
        );
        assert(retained.contains_key(id));
    }
}

/// A follow-up repeats the placement of every window that was not sliced, was not
/// in the request, whose owner is gone, or of which nothing was reported.
pub proof fn law_follow_up_repeats_the_others(
    state: AppState,
    request: u64,
    invalidation: u64,
    landings: Seq<PlacementLanding>,
    dispatched: Seq<WindowPlacement>,
    i: int,
)
    requires
        state.physical@.wf(),
        0 <= i < dispatched.len(),
        ({
            let id = dispatched[i].window_id;
            ||| !state.physical@.origins[request].contains_key(id)
            ||| state.physical@.origins[request][id].kind != PhysicalKind::Constrained
            ||| unknown_monitor(state.monitors@, state.physical@.origins[request][id].owner_id)
            ||| forall|j: int| 0 <= j < landings.len() ==> (#[trigger] landings[j]).window_id != id
        }),
    ensures
        ({
            let batch = state.follow_up(request, invalidation, landings, dispatched);
            batch.len() > 0 ==> batch.len() == dispatched.len() && batch[i] == dispatched[i]
        }),
{
    let id = dispatched[i].window_id;
    let owner_id = state.physical@.origins[request][id].owner_id;
    law_the_last_landing_counts(landings, id, 0);
    if unknown_monitor(state.monitors@, owner_id) {
        lemma_unknown_monitor(state, owner_id);
    }
}

/// Without a window that broke its slice there is no follow-up, and nothing is
/// learned: what was known of rejected sizes stays, and earlier requests are not
/// made stale.
pub proof fn law_kept_slices_need_no_follow_up(
    state: AppState,
    request: u64,
    invalidation: u64,
    landings: Seq<PlacementLanding>,
    dispatched: Seq<WindowPlacement>,
)
    requires
        state.physical@.wf(),
        up_to_date(state.physical@, request, invalidation),
        origins_known(state.physical@, request, invalidation),
        forall|id: WindowId, at: int, m: int|
            state.physical@.origins[request].contains_key(id) && #[trigger] last_landing(
                landings,
                id,
                at,
            ) && #[trigger] first_monitor(
                state.monitors@,
                state.physical@.origins[request][id].owner_id,
                m,
            ) ==> !broke_its_slice(
                state.physical@.origins[request][id],
                landings[at],
                state.monitors@[m].rect,
            ),
    ensures
        state.follow_up(request, invalidation, landings, dispatched).len() == 0,
        state.consumed(request, invalidation, landings).observations
            == state.physical@.observations,
        state.consumed(request, invalidation, landings).invalidation
            == state.physical@.invalidation,
{
    let origins = state.physical@.origins[request];
    assert(state.takes_in(request, invalidation));
    assert forall|id: WindowId| origins.contains_key(id) implies !(state.judged(
        origins[id],
        landings,
    ) is Failed) by {
        if state.judged(origins[id], landings) is Failed {
            let at = lemma_landing_index(landings, id);
            let m = lemma_monitor_index(state, origins[id].owner_id);
            law_the_last_landing_counts(landings, id, at);
            lemma_first_monitor(state, origins[id].owner_id, m);
            assert(!broke_its_slice(origins[id], landings[at], state.monitors@[m].rect));
        }
    }
    assert(state.failures(origins, landings) =~= Set::empty());
    assert(state.taught(origins, landings) =~= Set::empty());
    assert(state.observations_after(origins, landings) =~= state.physical@.observations);
}

/// Where the landing of a window stands.
proof fn lemma_landing_index(landings: Seq<PlacementLanding>, id: WindowId) -> (at: int)
    requires
        landing_of(landings, id) is Some,
    ensures
        last_landing(landings, id, at),
    decreases landings.len(),
{
    let last = landings.len() - 1;
    if landings[last].window_id == id {
        last
    } else {
        let front = landings.drop_last();
        let at = lemma_landing_index(front, id);
        assert forall|j: int| at < j < landings.len() implies (#[trigger] landings[j]).window_id
            != id by {
            if j < last {
                assert(front[j].window_id != id);
            }
        }
        at
    }
}

/// Where the monitor with an identity stands.
proof fn lemma_monitor_index(state: AppState, id: MonitorId) -> (m: int)
    requires
        state.monitor(id) is Some,
    ensures
        first_monitor(state.monitors@, id, m),
{
    let ids = monitor_ids(state.monitors@);
    lemma_find_id(ids, id);
    let m = find_id(ids, id)->0;
    assert(ids[m] == state.monitors@[m].id);
    assert forall|j: int| 0 <= j < m implies (#[trigger] state.monitors@[j]).id != id by {
        assert(ids[j] != id);
    }
    m
}

/// What is remembered of a broken slice: the size the window took, at least one
/// pixel, the size of its frame, the context it was sliced in, and which axes it
/// concerns: those that were cut, and both where it grew across the cut.
pub proof fn law_broken_slice_teaches_its_size(
    state: AppState,
    request: u64,
    invalidation: u64,
    landings: Seq<PlacementLanding>,
    id: WindowId,
    at: int,
    m: int,
)
    requires
        state.physical@.wf(),
        up_to_date(state.physical@, request, invalidation),
        origins_known(state.physical@, request, invalidation),
        state.physical@.origins[request].contains_key(id),
        last_landing(landings, id, at),
        first_monitor(state.monitors@, state.physical@.origins[request][id].owner_id, m),
        broke_its_slice(
            state.physical@.origins[request][id],
            landings[at],
            state.monitors@[m].rect,
        ),
    ensures
        landings[at].actual_visible_rect matches Some(visible) ==> {
            let p = state.physical@.origins[request][id];
            let after = state.consumed(request, invalidation, landings);
            let seen = after.observations[id];
            let outer = landings[at].actual_outer_rect->0;
            let cut_width = p.axes.left || p.axes.right;
            let cut_height = p.axes.top || p.axes.bottom;
            let grew = (cut_width && visible.height > p.physical.rect.height) || (cut_height
                && visible.width > p.physical.rect.width);
            &&& after.observations.contains_key(id)
            &&& seen.context == p.context
            &&& seen.required_width == if visible.width >= 1 { visible.width } else { 1 }
            &&& seen.required_height == if visible.height >= 1 { visible.height } else { 1 }
            &&& seen.retained_outer_width == if outer.width >= 1 { outer.width } else { 1 }
            &&& seen.retained_outer_height == if outer.height >= 1 { outer.height } else { 1 }
            &&& seen.coupled == grew
            &&& seen.width_affected == (cut_width || grew)
            &&& seen.height_affected == (cut_height || grew)
        },
        landings[at].actual_visible_rect is None ==> entry(
            state.consumed(request, invalidation, landings).observations,
            id,
        ) == entry(state.physical@.observations, id),
{
    assert(state.takes_in(request, invalidation));
    let origins = state.physical@.origins[request];
    law_the_last_landing_counts(landings, id, at);
    lemma_first_monitor(state, origins[id].owner_id, m);
    assert(origins[id].window_id == id);
    assert(state.judged(origins[id], landings) is Failed);
    assert(state.taught(origins, landings).contains(id) == (landings[at].actual_visible_rect
        is Some));
}

/// A lesson makes earlier requests stale: where one window alone teaches one,
/// one change is counted.
pub proof fn law_lesson_makes_earlier_requests_stale(
    state: AppState,
    request: u64,
    invalidation: u64,
    landings: Seq<PlacementLanding>,
    id: WindowId,
    at: int,
    m: int,
)
    requires
        state.physical@.wf(),
        up_to_date(state.physical@, request, invalidation),
        origins_known(state.physical@, request, invalidation),
        state.physical@.origins[request].contains_key(id),
        last_landing(landings, id, at),
        first_monitor(state.monitors@, state.physical@.origins[request][id].owner_id, m),
        broke_its_slice(
            state.physical@.origins[request][id],
            landings[at],
            state.monitors@[m].rect,
        ),
        landings[at].actual_visible_rect is Some,
        forall|other: WindowId| #[trigger]
            state.physical@.origins[request].contains_key(other) && other != id
                ==> state.physical@.origins[request][other].kind != PhysicalKind::Constrained,
    ensures
        ({
            let after = state.consumed(request, invalidation, landings).invalidation;
            &&& state.physical@.invalidation < u64::MAX ==> after == state.physical@.invalidation
                + 1
            &&& state.physical@.invalidation == u64::MAX ==> after == 0
        }),
{
    assert(state.takes_in(request, invalidation));
    let origins = state.physical@.origins[request];
    law_the_last_landing_counts(landings, id, at);
    lemma_first_monitor(state, origins[id].owner_id, m);
    assert(state.judged(origins[id], landings) is Failed);
    let taught = state.taught(origins, landings);
    assert(taught.contains(id));
    assert forall|other: WindowId| taught.contains(other) implies other == id by {
        if other != id {
            assert(origins.contains_key(other));
            assert(origins[other].kind != PhysicalKind::Constrained);
        }
    }
    assert(taught =~= Set::empty().insert(id));
    assert(taught.len() == 1);
}

/// A window that was not in the request, or did not break its slice, keeps what
/// was known of it.
pub proof fn law_lessons_concern_their_own_window(
    state: AppState,
    request: u64,
    invalidation: u64,
    landings: Seq<PlacementLanding>,
    id: WindowId,
    at: int,
    m: int,
)
    requires
        state.physical@.wf(),
        ({
            ||| !state.physical@.origins.contains_key(request)
            ||| !state.physical@.origins[request].contains_key(id)
            ||| state.physical@.origins[request][id].kind != PhysicalKind::Constrained
            ||| forall|j: int| 0 <= j < landings.len() ==> (#[trigger] landings[j]).window_id != id
            ||| {
                &&& last_landing(landings, id, at)
                &&& first_monitor(state.monitors@, state.physical@.origins[request][id].owner_id, m)
                &&& !broke_its_slice(
                    state.physical@.origins[request][id],
                    landings[at],
                    state.monitors@[m].rect,
                )
            }
        }),
    ensures
        entry(state.consumed(request, invalidation, landings).observations, id) == entry(
            state.physical@.observations,
            id,
        ),
{
    if state.takes_in(request, invalidation) {
        let origins = state.physical@.origins[request];
        law_the_last_landing_counts(landings, id, at);
        if origins.contains_key(id) && first_monitor(state.monitors@, origins[id].owner_id, m) {
            lemma_first_monitor(state, origins[id].owner_id, m);
        }
        assert(!state.taught(origins, landings).contains(id));
    }
}

/// A window that a follow-up batch hides counts as parked there and unconfirmed;
/// every other presentation stays as it is.
pub proof fn law_follow_up_marks_what_it_hides(
    state: AppState,
    batch: Seq<WindowPlacement>,
    id: WindowId,
    i: int,
)
    requires
        state.physical@.wf(),
        state.physical@.last.contains_key(id),
    ensures
        ({
            let before = state.physical@.last[id];
            let after = state.follow_up_begun(batch);
            &&& after == (PhysicalView { last: after.last, ..state.physical@ })
            &&& after.last.contains_key(id)
            &&& (forall|j: int|
                0 <= j < batch.len() ==> (#[trigger] batch[j]).window_id != id
                    || batch[j].visibility == Visibility::Visible) ==> after.last[id] == before
            &&& 0 <= i < batch.len() && batch[i].window_id == id && batch[i].visibility
                != Visibility::Visible && (forall|j: int|
                0 <= j < i ==> (#[trigger] batch[j]).window_id != id) ==> after.last[id] == (
            PresentationView {
                kind: PhysicalKind::Parked,
                physical: batch[i],
                confirmed: false,
                ..before
            })
        }),
{
    assert(state.physical@.last[id].window_id == id);
    if 0 <= i < batch.len() && batch[i].window_id == id && (forall|j: int|
        0 <= j < i ==> (#[trigger] batch[j]).window_id != id) {
        lemma_first_placement(batch, id, i);
    }
}

proof fn lemma_first_placement(batch: Seq<WindowPlacement>, id: WindowId, i: int)
    requires
        0 <= i < batch.len(),
        batch[i].window_id == id,
        forall|j: int| 0 <= j < i ==> (#[trigger] batch[j]).window_id != id,
    ensures
        placement_in(batch, id) == Some(batch[i]),
    decreases batch.len(),
{
    if i > 0 {
        let rest = batch.skip(1);
        assert(batch[0].window_id != id);
        assert(rest[i - 1] == batch[i]);
        assert forall|j: int| 0 <= j < i - 1 implies (#[trigger] rest[j]).window_id != id by {
            assert(batch[j + 1].window_id != id);
        }
        lemma_first_placement(rest, id, i - 1);
    }
}

/// After a follow-up batch, a parked window is confirmed exactly if its landing
/// was read and lies off every monitor; any other presentation, and one without
/// a landing, stays as it is.
pub proof fn law_follow_up_confirms_what_cleared_the_monitors(
    state: AppState,
    landings: Seq<PlacementLanding>,
    id: WindowId,
    at: int,
)
    requires
        state.physical@.last.contains_key(id),
    ensures
        ({
            let before = state.physical@.last[id];
            let after = state.follow_up_completed(landings);
            let landing = landings[at];
            &&& after == (PhysicalView { last: after.last, ..state.physical@ })
            &&& after.last.contains_key(id)
            &&& after.last[id] == (PresentationView {
                confirmed: after.last[id].confirmed,
                ..before
            })
            &&& before.kind != PhysicalKind::Parked ==> after.last[id] == before
            &&& (forall|j: int|
                0 <= j < landings.len() ==> (#[trigger] landings[j]).window_id != id)
                ==> after.last[id] == before
            &&& before.kind == PhysicalKind::Parked && last_landing(landings, id, at) ==> (
            after.last[id].confirmed <==> !landing.failed && !landing.unreadable && (
            landing.actual_outer_rect matches Some(outer) && apart_from_all(
                outer,
                state.monitors@,
            )))
        }),
{
    law_the_last_landing_counts(landings, id, at);
    lemma_apart_is_clear(state, landings[at]);
}

/// Only the pending request can be given up. Its presentations then count as
/// those last made, none confirmed; a request that asked for nothing leaves the
/// last ones alone.
pub proof fn law_giving_up_keeps_the_best_guess(
    state: AppState,
    request: u64,
    invalidation: u64,
    id: WindowId,
    other: u64,
)
    ensures
        ({
            let before = state.physical@;
            let after = state.abandoned(request, invalidation);
            let mine = request != 0 && before.pending_request == request
                && before.pending_invalidation == invalidation;
            &&& !mine ==> after == before
            &&& mine ==> {
                &&& after.pending_request == 0 && after.pending_invalidation == 0
                &&& !after.pending.contains_key(id)
                &&& !after.origins.contains_key(request)
                &&& other != request ==> after.origins.contains_key(other)
                    == before.origins.contains_key(other)
                &&& after.inflight != Some(request)
                &&& before.inflight != Some(request) ==> after.inflight == before.inflight
                &&& after.observations == before.observations
                &&& after.invalidation == before.invalidation
                &&& after.request_seq == before.request_seq
                &&& after.dispatch_request == before.dispatch_request
                &&& before.origins.contains_key(request) && before.origins[request].contains_key(
                    other,
                ) ==> {
                    &&& after.last.contains_key(id) == before.origins[request].contains_key(id)
                    &&& after.last.contains_key(id) ==> after.last[id] == (PresentationView {
                        confirmed: false,
                        ..before.origins[request][id]
                    })
                    &&& after.last_applied == before.invalidation
                    &&& after.topology == ascending(signature_rows(state.monitors@))
                }
                &&& !before.origins.contains_key(request) || (forall|x: WindowId|
                    !(#[trigger] before.origins[request].contains_key(x))) ==> after.last
                    == before.last && after.last_applied == before.last_applied && after.topology
                    == before.topology
            }
        }),
{
    let before = state.physical@;
    if before.origins.contains_key(request) {
        let origins = before.origins[request];
        if origins.contains_key(other) {
            assert(origins.dom().contains(other));
        }
        if forall|x: WindowId| !(#[trigger] origins.contains_key(x)) {
            assert(origins.dom() =~= Set::empty());
        }
    }
}

/// An empty layout is acknowledged only by the current request, which asked for
/// nothing, and where nothing was presented before; that alone changes, and only
/// what counts as applied.
pub proof fn law_empty_layout_is_acknowledged_by_its_request(
    state: AppState,
    request: u64,
    invalidation: u64,
    logically_empty: bool,
    id: WindowId,
)
    ensures
        ({
            let before = state.physical@;
            let after = state.acknowledged(request, invalidation, logically_empty);
            let may = logically_empty && request != 0 && up_to_date(before, request, invalidation)
                && before.origins.contains_key(request);
            &&& after == (PhysicalView {
                last_applied: after.last_applied,
                topology: after.topology,
                ..before
            })
            &&& !may || before.last.contains_key(id) || (before.origins.contains_key(request)
                && before.origins[request].contains_key(id)) ==> after == before
            &&& may && (forall|x: WindowId| !(#[trigger] before.last.contains_key(x))) && (forall|
                x: WindowId,
            |
                !(#[trigger] before.origins[request].contains_key(x))) ==> after.last_applied
                == before.invalidation && after.topology == ascending(
                signature_rows(state.monitors@),
            )
        }),
{
    let before = state.physical@;
    if before.last.contains_key(id) {
        assert(before.last.dom().contains(id));
    }
    if forall|x: WindowId| !(#[trigger] before.last.contains_key(x)) {
        assert(before.last.dom() =~= Set::empty());
    }
    if before.origins.contains_key(request) {
        let origins = before.origins[request];
        if origins.contains_key(id) {
            assert(origins.dom().contains(id));
        }
        if forall|x: WindowId| !(#[trigger] origins.contains_key(x)) {
            assert(origins.dom() =~= Set::empty());
        }
    }
}

/// A layout pass may be skipped exactly if nothing was made stale since the last
/// one, the monitors are arranged as they were, and every presentation of it was
/// confirmed.
pub proof fn law_skipping_needs_everything_as_it_was(state: AppState, id: WindowId)
    ensures
        state.settled_down() ==> {
            &&& state.physical@.invalidation == state.physical@.last_applied
            &&& state.physical@.topology == ascending(signature_rows(state.monitors@))
            &&& state.physical@.last.contains_key(id) ==> state.physical@.last[id].confirmed
        },
        state.physical@.invalidation == state.physical@.last_applied && state.physical@.topology
            == ascending(signature_rows(state.monitors@)) && (forall|x: WindowId| #[trigger]
            state.physical@.last.contains_key(x) ==> state.physical@.last[x].confirmed)
            ==> state.settled_down(),
{
}

/// How a window is shown: as its pending request has it while that request is
/// the one in flight, else as it was last presented. It may be exposed only where
/// that was confirmed, it is not parked, and nothing changed since.
pub proof fn law_pending_presentation_comes_first(p: PhysicalView, id: WindowId)
    ensures
        ({
            let pending = p.pending[id];
            let mine = p.pending.contains_key(id) && p.inflight == Some(pending.request_id)
                && p.pending_request == pending.request_id && p.pending_invalidation
                == pending.invalidation_id;
            &&& mine ==> p.current_pending(id) == Some(pending) && p.showing(id) == Some(pending)
            &&& !mine ==> p.current_pending(id) is None
            &&& !mine && p.last.contains_key(id) ==> p.showing(id) == Some(p.last[id])
            &&& !mine && !p.last.contains_key(id) ==> p.showing(id) is None
            &&& p.exposable(id) <==> p.invalidation == p.last_applied && p.last.contains_key(id)
                && p.last[id].confirmed && p.last[id].kind != PhysicalKind::Parked
        }),
{
}

/// Results belong to the pending request if they carry its number and that of
/// the change it was made under, and it is in flight; they are current if nothing
/// changed since.
pub proof fn law_results_are_matched_by_number(p: PhysicalView, request: u64, invalidation: u64)
    ensures
        p.matches_inflight(request, invalidation) <==> request == p.pending_request && invalidation
            == p.pending_invalidation && (request == 0 || p.inflight == Some(request)),
        p.is_current(request, invalidation) <==> up_to_date(p, request, invalidation),
{
}

/// A change is counted, and nothing else happens; a window that is forgotten is
/// known nowhere, any other as before.
pub proof fn law_changes_are_counted(p: PhysicalView, id: WindowId, other: WindowId)
    ensures
        p.invalidation < 0xffff_ffff_ffff_ffff ==> p.bumped().invalidation == p.invalidation + 1,
        p.invalidation == 0xffff_ffff_ffff_ffff ==> p.bumped().invalidation == 0,
        p.bumped() == (PhysicalView { invalidation: p.bumped().invalidation, ..p }),
        ({
            let after = p.forgotten(id);
            &&& !after.observations.contains_key(id)
            &&& !after.last.contains_key(id)
            &&& !after.pending.contains_key(id)
            &&& after.invalidation == p.bumped().invalidation
            &&& other != id ==> {
                &&& entry(after.observations, other) == entry(p.observations, other)
                &&& entry(after.last, other) == entry(p.last, other)
                &&& entry(after.pending, other) == entry(p.pending, other)
            }
            &&& after == (PhysicalView {
                observations: after.observations,
                last: after.last,
                pending: after.pending,
                invalidation: after.invalidation,
                ..p
            })
        }),
{
}

/// The bookkeeping is well formed exactly if each presentation stands under the
/// window it is of: those last made, those pending, and those of open requests.
pub proof fn law_presentations_stand_under_their_windows(
    p: PhysicalView,
    id: WindowId,
    request: u64,
)
    ensures
        p.wf() ==> {
            &&& p.last.contains_key(id) ==> p.last[id].window_id == id
            &&& p.pending.contains_key(id) ==> p.pending[id].window_id == id
            &&& p.origins.contains_key(request) && p.origins[request].contains_key(id)
                ==> p.origins[request][id].window_id == id
        },
        (forall|x: WindowId| #[trigger] p.last.contains_key(x) ==> p.last[x].window_id == x) && (
        forall|x: WindowId| #[trigger] p.pending.contains_key(x) ==> p.pending[x].window_id == x)
            && (forall|r: u64, x: WindowId|
            p.origins.contains_key(r) && #[trigger] p.origins[r].contains_key(x)
                ==> p.origins[r][x].window_id == x) ==> p.wf(),
{
}

} // verus!
