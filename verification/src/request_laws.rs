//! What holds of requests for physical placements across their life.

use vstd::prelude::*;

use crate::app_state::AppState;
use crate::physical_follow_up::{completed, followed};
use crate::physical_placement::{decision, projection, rects_of, PhysicalDecision, PhysicalKind};
use crate::physical_requests::{landed, landing_of, rejection};
use crate::physical_state::{counted, keyed_by_window, PresentationView};
use crate::types::{PlacementLanding, Rect, Visibility, WindowId, WindowPlacement};

verus! {

/// Results of a request that is not current, or that something made stale,
/// change nothing and need no follow-up.
pub proof fn law_stale_results_change_nothing(
    state: AppState,
    request: u64,
    invalidation: u64,
    landings: Seq<PlacementLanding>,
    dispatched: Seq<WindowPlacement>,
)
    requires
        !state.physical@.is_current(request, invalidation),
    ensures
        state.consumed(request, invalidation, landings) == state.physical@,
        state.follow_up(request, invalidation, landings, dispatched) == Seq::<
            WindowPlacement,
        >::empty(),
{
}

/// A request is taken in at most once: its results coming in again change
/// nothing and need no follow-up.
pub proof fn law_request_is_taken_in_once(
    before: AppState,
    after: AppState,
    request: u64,
    invalidation: u64,
    landings: Seq<PlacementLanding>,
    again: Seq<PlacementLanding>,
    dispatched: Seq<WindowPlacement>,
)
    requires
        before.physical@.is_current(request, invalidation),
        after == (AppState { physical: after.physical, ..before }),
        after.physical@ == before.consumed(request, invalidation, landings),
    ensures
        !after.takes_in(request, invalidation),
        after.consumed(request, invalidation, again) == after.physical@,
        after.follow_up(request, invalidation, again, dispatched) == Seq::<
            WindowPlacement,
        >::empty(),
{
    assert(!after.physical@.origins.contains_key(request));
    assert(after.physical@.origins.remove(request) =~= after.physical@.origins);
}

/// A new request supersedes all others: their results are stale from then on.
pub proof fn law_new_request_supersedes_earlier_ones(
    before: AppState,
    after: AppState,
    placements: Seq<WindowPlacement>,
    request: u64,
    invalidation: u64,
    landings: Seq<PlacementLanding>,
)
    requires
        after == (AppState { physical: after.physical, ..before }),
        after.physical@ == before.requested(placements),
        request != counted(before.physical@.request_seq, 1),
    ensures
        !after.physical@.is_current(request, invalidation),
        after.consumed(request, invalidation, landings) == after.physical@,
        after.physical@.is_current(
            counted(before.physical@.request_seq, 1),
            before.physical@.invalidation,
        ),
{
}

/// Once a batch is requested, every window of it that has a known owner is
/// expected where the request puts it.
pub proof fn law_requested_presentation_is_expected(
    before: AppState,
    after: AppState,
    placements: Seq<WindowPlacement>,
    i: int,
)
    requires
        after == (AppState { physical: after.physical, ..before }),
        after.physical@ == before.requested(placements),
        0 <= i < placements.len(),
        before.owning_monitor(placements[i].window_id) is Some,
    ensures
        ({
            let id = placements[i].window_id;
            &&& after.physical@.pending.contains_key(id)
            &&& after.physical@.showing(id) == Some(after.physical@.pending[id])
            &&& !after.physical@.pending[id].confirmed
        }),
{
    let request = counted(before.physical@.request_seq, 1);
    lemma_projection(before, placements, request, before.physical@.invalidation);
    lemma_presented_windows(before, placements, request, before.physical@.invalidation, i);
}

/// The batch handed to the window system has one placement for each that was
/// asked for, of the same window and in the same order. A window without a
/// known owner keeps its placement.
pub proof fn law_batch_keeps_its_windows(
    state: AppState,
    placements: Seq<WindowPlacement>,
    request: u64,
    invalidation: u64,
    i: int,
)
    requires
        0 <= i < placements.len(),
    ensures
        ({
            let physical = state.projected_all(placements, request, invalidation).physical;
            &&& physical.len() == placements.len()
            &&& physical[i].window_id == placements[i].window_id
            &&& physical[i].column_index == placements[i].column_index
            &&& state.owning_monitor(placements[i].window_id) is None ==> physical[i]
                == placements[i]
            &&& state.exempt(placements[i]) ==> physical[i] == placements[i]
        }),
    decreases placements.len(),
{
    lemma_batch_length(state, placements, request, invalidation);
    let before = placements.drop_last();
    lemma_batch_length(state, before, request, invalidation);
    if i < before.len() {
        law_batch_keeps_its_windows(state, before, request, invalidation, i);
        assert(before[i] == placements[i]);
    }
}

proof fn lemma_batch_length(
    state: AppState,
    placements: Seq<WindowPlacement>,
    request: u64,
    invalidation: u64,
)
    ensures
        state.projected_all(placements, request, invalidation).physical.len() == placements.len(),
    decreases placements.len(),
{
    if placements.len() > 0 {
        lemma_batch_length(state, placements.drop_last(), request, invalidation);
    }
}

/// The presentations of a batch stand under their windows, belong to the
/// request and are unconfirmed.
proof fn lemma_projection(
    state: AppState,
    placements: Seq<WindowPlacement>,
    request: u64,
    invalidation: u64,
)
    ensures
        ({
            let all = state.projected_all(placements, request, invalidation).presentations;
            &&& keyed_by_window(all)
            &&& AppState::all_of_request(all, request, invalidation)
            &&& forall|id: WindowId| #[trigger] all.contains_key(id) ==> !all[id].confirmed
        }),
    decreases placements.len(),
{
    if placements.len() > 0 {
        lemma_projection(state, placements.drop_last(), request, invalidation);
    }
}

proof fn lemma_presented_windows(
    state: AppState,
    placements: Seq<WindowPlacement>,
    request: u64,
    invalidation: u64,
    i: int,
)
    requires
        0 <= i < placements.len(),
        state.owning_monitor(placements[i].window_id) is Some,
    ensures
        state.projected_all(placements, request, invalidation).presentations.contains_key(
            placements[i].window_id,
        ),
    decreases placements.len(),
{
    let before = placements.drop_last();
    if i < before.len() {
        assert(before[i] == placements[i]);
        lemma_presented_windows(state, before, request, invalidation, i);
    }
}

/// Every operation keeps each presentation under its own window.
pub proof fn law_presentations_stay_with_their_windows(
    state: AppState,
    placements: Seq<WindowPlacement>,
    request: u64,
    invalidation: u64,
    landings: Seq<PlacementLanding>,
    id: WindowId,
    p: PresentationView,
    landing: PlacementLanding,
    logically_empty: bool,
)
    requires
        state.physical@.wf(),
    ensures
        state.requested(placements).wf(),
        state.consumed(request, invalidation, landings).wf(),
        state.abandoned(request, invalidation).wf(),
        state.physical@.forgotten(id).wf(),
        state.physical@.bumped().wf(),
        state.physical@.taught_by(p, landing).wf(),
        state.acknowledged(request, invalidation, logically_empty).wf(),
        state.follow_up_begun(placements).wf(),
        state.follow_up_completed(landings).wf(),
{
    lemma_projection(
        state,
        placements,
        counted(state.physical@.request_seq, 1),
        state.physical@.invalidation,
    );
}

/// After the landings of a request were taken in, a layout pass may be skipped
/// exactly if every one of its presentations was confirmed.
pub proof fn law_fast_path_needs_every_landing_confirmed(
    before: AppState,
    after: AppState,
    request: u64,
    invalidation: u64,
    landings: Seq<PlacementLanding>,
)
    requires
        before.takes_in(request, invalidation),
        after == (AppState { physical: after.physical, ..before }),
        after.physical@ == before.consumed(request, invalidation, landings),
    ensures
        after.settled_down() <==> forall|id: WindowId| #[trigger]
            after.physical@.last.contains_key(id) ==> after.physical@.last[id].confirmed,
{
}

/// A window is only ever confirmed by a landing: where none came back, a
/// presentation that was unconfirmed stays so.
pub proof fn law_no_confirmation_without_a_landing(
    state: AppState,
    request: u64,
    invalidation: u64,
    landings: Seq<PlacementLanding>,
    id: WindowId,
)
    requires
        state.physical@.wf(),
        state.takes_in(request, invalidation),
        state.physical@.origins[request].contains_key(id),
        !state.physical@.origins[request][id].confirmed,
        state.consumed(request, invalidation, landings).last[id].confirmed,
    ensures
        landing_of(landings, id) matches Some(landing) && !landing.failed && !landing.unreadable,
{
    assert(state.physical@.origins.contains_key(request));
}

/// A follow-up parks exactly the windows that did not keep to their slices and
/// repeats every other placement as it was.
pub proof fn law_follow_up_parks_only_failed_slices(
    state: AppState,
    request: u64,
    invalidation: u64,
    landings: Seq<PlacementLanding>,
    dispatched: Seq<WindowPlacement>,
    i: int,
)
    requires
        0 <= i < dispatched.len(),
        state.takes_in(request, invalidation),
        !state.failures(state.physical@.origins[request], landings).is_empty(),
    ensures
        ({
            let batch = state.follow_up(request, invalidation, landings, dispatched);
            let failed = state.failures(state.physical@.origins[request], landings).contains(
                dispatched[i].window_id,
            );
            &&& batch.len() == dispatched.len()
            &&& batch[i].window_id == dispatched[i].window_id
            &&& failed ==> batch[i].visibility == Visibility::OffScreenRight
            &&& !failed ==> batch[i] == dispatched[i]
        }),
{
}

/// A window that was cut and came back larger than its slice along a cut axis
/// is parked the next time it would be cut so in the same context, without
/// asking for that slice again.
pub proof fn law_rejected_slice_is_parked_next_time(
    window: Rect,
    owner: Rect,
    monitors: Seq<Rect>,
    sentinel: i32,
    p: PresentationView,
    visible: Rect,
    outer: Rect,
)
    requires
        projection(window, owner, monitors, sentinel) == (PhysicalDecision::Constrained {
            rect: p.physical.rect,
            axes: p.axes,
        }),
        ({
            ||| p.axes.clips_width() && visible.width > p.physical.rect.width
            ||| p.axes.clips_height() && visible.height > p.physical.rect.height
        }),
    ensures
        decision(
            window,
            owner,
            monitors,
            Some(rejection(p, visible, outer)),
            p.context,
            sentinel,
        ) is Parked,
{
}

/// What a request that was given up asked for is not taken as done: no window
/// of it is safe to expose and no layout pass is skipped.
pub proof fn law_abandoned_request_confirms_nothing(
    before: AppState,
    after: AppState,
    request: u64,
    invalidation: u64,
    id: WindowId,
)
    requires
        before.gives_up(request, invalidation),
        after == (AppState { physical: after.physical, ..before }),
        after.physical@ == before.abandoned(request, invalidation),
        before.physical@.origins.contains_key(request),
        before.physical@.origins[request].contains_key(id),
    ensures
        !after.physical@.exposable(id),
        !after.settled_down(),
        after.physical@.current_pending(id) is None,
        after.physical@.inflight != Some(request),
{
    let origins = before.physical@.origins[request];
    assert(origins.dom().contains(id));
    assert(after.physical@.last.contains_key(id));
}

/// A window that a follow-up batch hides counts as parked and unconfirmed until
/// a landing shows that it cleared every monitor.
pub proof fn law_follow_up_window_is_parked_until_it_lands(
    state: AppState,
    batch: Seq<WindowPlacement>,
    landing: Option<PlacementLanding>,
    p: PresentationView,
    i: int,
)
    requires
        0 <= i < batch.len(),
        batch[i].window_id == p.window_id,
        batch[i].visibility != Visibility::Visible,
    ensures
        followed(p, batch).kind == PhysicalKind::Parked,
        !followed(p, batch).confirmed,
        completed(followed(p, batch), landing, rects_of(state.monitors@)).confirmed ==> (landing
            matches Some(found) && landed(PhysicalKind::Parked, found, rects_of(state.monitors@))),
{
}

} // verus!
