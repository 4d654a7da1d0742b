//! Requests for physical placements: projecting a batch of placements onto the
//! monitors, and taking in what the window system made of it.

use vstd::prelude::*;
use vstd::std_specs::hash::spec_keys_iter;
use vstd::std_specs::iter::IteratorSpec;
use std::collections::{HashMap, HashSet};

use crate::app_state::AppState;
use crate::physical_placement::{
    clears, contained, convert_failed_slices_to_parks, decide_physical_rect, decision,
    evaluate_protected_axis_containment, followed_up, monitor_rects, no_axes, observed,
    parking_clears_monitors, physical_from_decision, presented, project_physical_rect, projection,
    rects_of, sat_sum, signature_rows, sorted_topology, topology_rows, topology_signature,
    ConstrainedAxes, ContextView, GeometryContext, ObservationView, PhysicalDecision, PhysicalKind,
    PhysicalRejectionObservation, CONTAINMENT_TOLERANCE,
};
use crate::physical_state::{
    counted, entry, keyed_by_window, next_count, observation_views, presentation_views,
    PhysicalPresentation, PhysicalState, PhysicalView, PresentationView,
};
use crate::sorting::ascending;
use crate::types::{
    clamp_i32, larger, max_i32, native_of, native_window, MonitorId, PlacementLanding, Rect,
    WindowId, WindowPlacement,
};

verus! {

/// The axes that an observation is compared along: those of the slice, or those
/// it was made on where the window is not sliced.
pub open spec fn compared_axes(
    observation: ObservationView,
    projected: PhysicalDecision,
) -> ConstrainedAxes {
    match projected {
        PhysicalDecision::Constrained { axes, .. } => axes,
        _ => ConstrainedAxes {
            right: observation.width_affected,
            bottom: observation.height_affected,
            ..no_axes()
        },
    }
}

/// An observation, dropped if it was made in another context.
pub open spec fn still_valid(
    observation: Option<ObservationView>,
    projected: PhysicalDecision,
    context: ContextView,
) -> Option<ObservationView> {
    match observation {
        Some(seen) if seen.context.agrees(context, compared_axes(seen, projected)) => Some(seen),
        _ => None,
    }
}

/// What projecting a batch yields.
#[verifier::ext_equal]
pub struct Projection {
    /// Observations that are still valid.
    pub observations: Map<WindowId, ObservationView>,
    /// How each window is presented.
    pub presentations: Map<WindowId, PresentationView>,
    /// The physical placements, in batch order.
    pub physical: Seq<WindowPlacement>,
}

impl AppState {
    /// The monitor that owns a window and its rectangle, if it is known.
    pub open spec fn owning_monitor(self, id: WindowId) -> Option<(MonitorId, Rect)> {
        match self.owner(id) {
            Some(owner_id) => match self.monitor(owner_id) {
                Some(monitor) => Some((owner_id, monitor.rect)),
                None => None,
            },
            None => None,
        }
    }

    /// The context that a window of the given size is placed in.
    pub open spec fn context_of(
        self,
        id: WindowId,
        owner_id: MonitorId,
        owner: Rect,
        window: Rect,
        monitors: Seq<Rect>,
    ) -> ContextView {
        ContextView {
            owner_id,
            owner_rect: owner,
            topology: ascending(topology_rows(monitors)),
            scale_milli: match self.monitor(owner_id) {
                Some(monitor) => monitor.scale_milli,
                None => 1000,
            },
            insets: native_of(self.natives@, id).insets,
            native_style: native_of(self.natives@, id).style_bits,
            window_width: window.width,
            window_height: window.height,
        }
    }

    /// What is done with a placement of an owned window, given what its
    /// application rejected before.
    pub open spec fn decided(
        self,
        observation: Option<ObservationView>,
        logical: WindowPlacement,
        owner: Rect,
        context: ContextView,
    ) -> PhysicalDecision {
        if self.exempt(logical) {
            PhysicalDecision::Unchanged
        } else {
            decision(
                logical.rect,
                owner,
                rects_of(self.monitors@),
                observation,
                context,
                self.park_sentinel,
            )
        }
    }

    /// One placement of a batch projected.
    pub open spec fn projected_next(
        self,
        before: Projection,
        logical: WindowPlacement,
        request: u64,
        invalidation: u64,
    ) -> Projection {
        let id = logical.window_id;
        let monitors = rects_of(self.monitors@);
        match self.owning_monitor(id) {
            None => Projection { physical: before.physical.push(logical), ..before },
            Some((owner_id, owner)) => {
                let context = self.context_of(id, owner_id, owner, logical.rect, monitors);
                let kept = still_valid(
                    entry(before.observations, id),
                    projection(logical.rect, owner, monitors, self.park_sentinel),
                    context,
                );
                let decided = self.decided(kept, logical, owner, context);
                let physical = presented(logical, decided);
                Projection {
                    observations: if kept is None || decided == PhysicalDecision::Unchanged {
                        before.observations.remove(id)
                    } else {
                        before.observations
                    },
                    presentations: before.presentations.insert(
                        id,
                        PresentationView {
                            window_id: id,
                            logical,
                            owner_id,
                            physical,
                            kind: decided.kind_of(),
                            axes: decided.axes_of(),
                            context,
                            request_id: request,
                            invalidation_id: invalidation,
                            confirmed: false,
                        },
                    ),
                    physical: before.physical.push(physical),
                }
            },
        }
    }

    /// A batch of placements projected in order.
    pub open spec fn projected_all(
        self,
        placements: Seq<WindowPlacement>,
        request: u64,
        invalidation: u64,
    ) -> Projection
        decreases placements.len(),
    {
        if placements.len() == 0 {
            Projection {
                observations: self.physical@.observations,
                presentations: Map::empty(),
                physical: Seq::empty(),
            }
        } else {
            self.projected_next(
                self.projected_all(placements.drop_last(), request, invalidation),
                placements.last(),
                request,
                invalidation,
            )
        }
    }

    /// The bookkeeping after a batch was projected: a new request is pending,
    /// and no earlier one is in flight any more.
    pub open spec fn requested(self, placements: Seq<WindowPlacement>) -> PhysicalView {
        let request = counted(self.physical@.request_seq, 1);
        let invalidation = self.physical@.invalidation;
        let batch = self.projected_all(placements, request, invalidation);
        PhysicalView {
            observations: batch.observations,
            pending: batch.presentations,
            origins: Map::empty().insert(request, batch.presentations),
            inflight: Some(request),
            request_seq: request,
            dispatch_request: request,
            pending_request: request,
            pending_invalidation: invalidation,
            ..self.physical@
        }
    }

    /// The context that a window of the given size is placed in.
    pub fn geometry_context_for(
        &self,
        window_id: WindowId,
        owner_id: MonitorId,
        owner: Rect,
        window: Rect,
        monitor_rects: &[Rect],
    ) -> (r: GeometryContext)
        ensures
            r@ == self.context_of(window_id, owner_id, owner, window, monitor_rects@),
    {
        let scale_milli: u32 = match self.monitor_index(owner_id) {
            Some(at) => self.monitors[at].scale_milli,
            None => 1000,
        };
        let native = native_window(&self.natives, window_id);
        GeometryContext {
            owner_id,
            owner_rect: owner,
            topology: sorted_topology(monitor_rects),
            scale_milli,
            insets: native.insets,
            native_style: native.style_bits,
            window_width: window.width,
            window_height: window.height,
        }
    }

    /// The monitor that owns a window and its rectangle, if it is known.
    pub fn owning_monitor_of(&self, window_id: WindowId) -> (r: Option<(MonitorId, Rect)>)
        ensures
            r == self.owning_monitor(window_id),
    {
        match self.owner_id_for_window(window_id) {
            Some(owner_id) => match self.monitor_rect(owner_id) {
                Some(owner) => Some((owner_id, owner)),
                None => None,
            },
            None => None,
        }
    }

    /// Project one placement of an owned window: how it is presented, and
    /// whether what is known of rejected sizes stays valid.
    fn present(
        &self,
        observation: Option<&PhysicalRejectionObservation>,
        logical: WindowPlacement,
        owner_id: MonitorId,
        owner: Rect,
        rects: &[Rect],
        request_id: u64,
        invalidation_id: u64,
    ) -> (r: (PhysicalPresentation, bool))
        requires
            rects@ == rects_of(self.monitors@),
        ensures
            ({
                let context = self.context_of(
                    logical.window_id,
                    owner_id,
                    owner,
                    logical.rect,
                    rects@,
                );
                let kept = still_valid(
                    observed(observation),
                    projection(logical.rect, owner, rects@, self.park_sentinel),
                    context,
                );
                let decided = self.decided(kept, logical, owner, context);
                &&& r.0@ == PresentationView {
                    window_id: logical.window_id,
                    logical,
                    owner_id,
                    physical: presented(logical, decided),
                    kind: decided.kind_of(),
                    axes: decided.axes_of(),
                    context,
                    request_id,
                    invalidation_id,
                    confirmed: false,
                }
                &&& r.1 == (kept is Some && decided != PhysicalDecision::Unchanged)
            }),
    {
        let context = self.geometry_context_for(
            logical.window_id,
            owner_id,
            owner,
            logical.rect,
            rects,
        );
        let projected = project_physical_rect(logical.rect, owner, rects, self.park_sentinel);
        let kept: Option<&PhysicalRejectionObservation> = match observation {
            Some(seen) => {
                let axes = match projected {
                    PhysicalDecision::Constrained { axes, .. } => axes,
                    PhysicalDecision::Unchanged | PhysicalDecision::Parked { .. } => {
                        ConstrainedAxes {
                            left: false,
                            right: seen.width_affected,
                            top: false,
                            bottom: seen.height_affected,
                        }
                    },
                };
                if seen.context.matches(&context, axes) {
                    Some(seen)
                } else {
                    None
                }
            },
            None => None,
        };
        let decision = if self.is_projection_exempt(&logical) {
            PhysicalDecision::Unchanged
        } else {
            decide_physical_rect(
                logical.rect,
                owner,
                rects,
                kept,
                &context,
                self.park_sentinel,
            )
        };
        let stays = kept.is_some() && decision != PhysicalDecision::Unchanged;
        let physical = physical_from_decision(logical, decision);
        let presentation = PhysicalPresentation {
            window_id: logical.window_id,
            logical,
            owner_id,
            physical,
            kind: decision.kind(),
            axes: decision.axes(),
            context,
            request_id,
            invalidation_id,
            confirmed: false,
        };
        (presentation, stays)
    }

    /// Project a batch of placements onto the monitors and make it the pending
    /// request. A placement of a window without a known owner is passed on as
    /// it is.
    pub fn apply_physical_projection(&mut self, placements: Vec<WindowPlacement>) -> (r: Vec<
        WindowPlacement,
    >)
        ensures
            final(self).physical@ == old(self).requested(placements@),
            *final(self) == (AppState { physical: final(self).physical, ..*old(self) }),
            r@ == old(self).projected_all(
                placements@,
                counted(old(self).physical@.request_seq, 1),
                old(self).physical@.invalidation,
            ).physical,
    {
        broadcast use vstd::std_specs::hash::group_hash_axioms;

        let request_id: u64 = next_count(self.physical.request_seq);
        self.physical.request_seq = request_id;
        self.physical.dispatch_request_id = request_id;
        let invalidation_id: u64 = self.physical.invalidation_id;
        self.physical.inflight_request_id = Some(request_id);
        let rects = monitor_rects(&self.monitors);
        let mut presentations: HashMap<WindowId, PhysicalPresentation> = HashMap::new();
        let mut physical: Vec<WindowPlacement> = Vec::new();
        let ghost world = *old(self);
        let ghost started = self.physical;
        let mut i: usize = 0;
        proof {
            assert(placements@.take(0) =~= Seq::empty());
            assert(presentation_views(presentations@) =~= Map::empty());
        }
        while i < placements.len()
            invariant
                0 <= i <= placements@.len(),
                *self == (AppState { physical: self.physical, ..world }),
                self.physical == (PhysicalState {
                    observations: self.physical.observations,
                    ..started
                }),
                rects@ == rects_of(world.monitors@),
                ({
                    let done = world.projected_all(
                        placements@.take(i as int),
                        request_id,
                        invalidation_id,
                    );
                    &&& observation_views(self.physical.observations@) == done.observations
                    &&& presentation_views(presentations@) == done.presentations
                    &&& physical@ == done.physical
                }),
            decreases placements@.len() - i,
        {
            broadcast use vstd::std_specs::hash::group_hash_axioms;

            let ghost done = world.projected_all(
                placements@.take(i as int),
                request_id,
                invalidation_id,
            );
            let ghost before = self.physical.observations@;
            let ghost held = presentations@;
            let logical = placements[i];
            proof {
                assert(placements@.take(i + 1).drop_last() =~= placements@.take(i as int));
                assert(placements@.take(i + 1).last() == logical);
            }
            match self.owning_monitor_of(logical.window_id) {
                Some((owner_id, owner)) => {
                    let observation = self.physical.observations.get(&logical.window_id);
                    assert(observed(observation) == entry(done.observations, logical.window_id));
                    let (presentation, stays) = self.present(
                        observation,
                        logical,
                        owner_id,
                        owner,
                        rects.as_slice(),
                        request_id,
                        invalidation_id,
                    );
                    if !stays {
                        self.physical.observations.remove(&logical.window_id);
                    }
                    physical.push(presentation.physical);
                    let ghost view = presentation@;
                    presentations.insert(logical.window_id, presentation);
                    proof {
                        assert(presentation_views(presentations@) =~= presentation_views(
                            held,
                        ).insert(logical.window_id, view));
                        assert(observation_views(before.remove(logical.window_id))
                            =~= observation_views(before).remove(logical.window_id));
                    }
                },
                None => {
                    physical.push(logical);
                },
            }
            i = i + 1;
        }
        assert(placements@.take(i as int) =~= placements@);
        self.physical.pending_presentations = presentations.clone();
        self.physical.inflight_origins.clear();
        let ghost views = presentation_views(presentations@);
        self.physical.inflight_origins.insert(request_id, presentations);
        self.physical.pending_request_id = request_id;
        self.physical.pending_invalidation_id = invalidation_id;
        assert(self.physical@.origins =~= Map::empty().insert(request_id, views));
        assert(self.physical@ =~= world.requested(placements@));
        physical
    }
}

/// The last landing reported of a window.
pub open spec fn landing_of(landings: Seq<PlacementLanding>, id: WindowId) -> Option<
    PlacementLanding,
>
    decreases landings.len(),
{
    if landings.len() == 0 {
        None
    } else if landings.last().window_id == id {
        Some(landings.last())
    } else {
        landing_of(landings.drop_last(), id)
    }
}

/// Whether a landing shows that a window which was not sliced is where it was
/// put: parked clear of every monitor, or readable at all.
pub open spec fn landed(kind: PhysicalKind, landing: PlacementLanding, monitors: Seq<Rect>) -> bool {
    &&& !landing.failed
    &&& !landing.unreadable
    &&& match kind {
        PhysicalKind::Parked => landing.actual_outer_rect matches Some(rect) && clears(
            rect,
            monitors,
        ),
        _ => landing.actual_visible_rect is Some,
    }
}

/// Whether a landing shows that a window keeps to its slice.
pub open spec fn kept_to_slice(p: PresentationView, landing: PlacementLanding, owner: Rect) -> bool {
    &&& !landing.failed
    &&& !landing.unreadable
    &&& landing.actual_visible_rect matches Some(actual) && contained(
        p.physical.rect,
        actual,
        owner,
        p.axes,
        CONTAINMENT_TOLERANCE,
    )
}

/// What a landing says of a presentation.
pub enum Verdict {
    /// Nothing: the window was not read back.
    Open,
    /// Whether the window is where it was put.
    Landed(bool),
    /// The window did not keep to its slice; its outer rectangle.
    Failed(Rect),
}

/// What a landing says of a presentation.
pub open spec fn verdict(
    p: PresentationView,
    owner: Option<Rect>,
    landing: Option<PlacementLanding>,
    monitors: Seq<Rect>,
) -> Verdict {
    match landing {
        None => Verdict::Open,
        Some(landing) => if p.kind != PhysicalKind::Constrained {
            Verdict::Landed(landed(p.kind, landing, monitors))
        } else {
            match (owner, landing.actual_outer_rect) {
                (Some(owner), Some(outer)) => if kept_to_slice(p, landing, owner) {
                    Verdict::Landed(true)
                } else {
                    Verdict::Failed(outer)
                },
                _ => Verdict::Open,
            }
        },
    }
}

/// A presentation after its landing was taken in.
pub open spec fn settled(p: PresentationView, outcome: Verdict) -> PresentationView {
    match outcome {
        Verdict::Landed(confirmed) => PresentationView { confirmed, ..p },
        _ => p,
    }
}

/// Whether a size outgrows what was requested by more than the tolerance.
pub open spec fn outgrows(actual: i32, requested: i32) -> bool {
    actual > clamp_i32(requested + CONTAINMENT_TOLERANCE)
}

/// Whether a window that was cut along one axis grew along the other.
pub open spec fn grew_across(p: PresentationView, visible: Rect) -> bool {
    ||| p.axes.clips_width() && outgrows(visible.height, p.physical.rect.height)
    ||| p.axes.clips_height() && outgrows(visible.width, p.physical.rect.width)
}

/// What is learned from a window that did not keep to its slice.
pub open spec fn rejection(p: PresentationView, visible: Rect, outer: Rect) -> ObservationView {
    let coupled = grew_across(p, visible);
    ObservationView {
        required_width: larger(visible.width as int, 1) as i32,
        required_height: larger(visible.height as int, 1) as i32,
        retained_outer_width: larger(outer.width as int, 1) as i32,
        retained_outer_height: larger(outer.height as int, 1) as i32,
        width_affected: p.axes.clips_width() || coupled,
        height_affected: p.axes.clips_height() || coupled,
        coupled,
        context: p.context,
    }
}

/// What is learned from a landing, if it was read back in full.
pub open spec fn learned(p: PresentationView, landing: PlacementLanding) -> Option<ObservationView> {
    match (landing.actual_visible_rect, landing.actual_outer_rect) {
        (Some(visible), Some(outer)) => Some(rejection(p, visible, outer)),
        _ => None,
    }
}

impl PhysicalView {
    /// The bookkeeping with what a landing teaches; new knowledge makes earlier
    /// requests stale.
    pub open spec fn taught_by(self, p: PresentationView, landing: PlacementLanding) -> PhysicalView {
        match learned(p, landing) {
            Some(seen) => PhysicalView {
                observations: self.observations.insert(p.window_id, seen),
                ..self
            }.bumped(),
            None => self,
        }
    }
}

impl AppState {
    /// The rectangle of a monitor.
    pub open spec fn rect_of_monitor(self, id: MonitorId) -> Option<Rect> {
        match self.monitor(id) {
            Some(monitor) => Some(monitor.rect),
            None => None,
        }
    }

    /// What the landings say of a presentation.
    pub open spec fn judged(self, p: PresentationView, landings: Seq<PlacementLanding>) -> Verdict {
        verdict(
            p,
            self.rect_of_monitor(p.owner_id),
            landing_of(landings, p.window_id),
            rects_of(self.monitors@),
        )
    }

    /// What is learned from the landings about sizes that a window rejects.
    pub open spec fn lesson(self, p: PresentationView, landings: Seq<PlacementLanding>) -> Option<
        ObservationView,
    > {
        match (self.judged(p, landings), landing_of(landings, p.window_id)) {
            (Verdict::Failed(_), Some(landing)) => learned(p, landing),
            _ => None,
        }
    }

    /// The windows of a request that did not keep to their slices.
    pub open spec fn failures(
        self,
        origins: Map<WindowId, PresentationView>,
        landings: Seq<PlacementLanding>,
    ) -> Set<WindowId> {
        Set::new(
            |id: WindowId|
                origins.contains_key(id) && self.judged(origins[id], landings) is Failed,
        )
    }

    /// The outer rectangles of the windows that did not keep to their slices.
    pub open spec fn retained_outers(
        self,
        origins: Map<WindowId, PresentationView>,
        landings: Seq<PlacementLanding>,
    ) -> Map<WindowId, Rect> {
        Map::new(
            |id: WindowId| self.failures(origins, landings).contains(id),
            |id: WindowId| self.judged(origins[id], landings)->Failed_0,
        )
    }

    /// The windows of a request that something was learned about.
    pub open spec fn taught(
        self,
        origins: Map<WindowId, PresentationView>,
        landings: Seq<PlacementLanding>,
    ) -> Set<WindowId> {
        Set::new(
            |id: WindowId|
                origins.contains_key(id) && self.lesson(origins[id], landings) is Some,
        )
    }

    /// The observations with what was learned from a request.
    pub open spec fn observations_after(
        self,
        origins: Map<WindowId, PresentationView>,
        landings: Seq<PlacementLanding>,
    ) -> Map<WindowId, ObservationView> {
        self.physical@.observations.union_prefer_right(
            Map::new(
                |id: WindowId| self.taught(origins, landings).contains(id),
                |id: WindowId| self.lesson(origins[id], landings)->0,
            ),
        )
    }

    /// The presentations of a request after the landings were taken in.
    pub open spec fn settled_all(
        self,
        origins: Map<WindowId, PresentationView>,
        landings: Seq<PlacementLanding>,
    ) -> Map<WindowId, PresentationView> {
        Map::new(
            |id: WindowId| origins.contains_key(id),
            |id: WindowId| settled(origins[id], self.judged(origins[id], landings)),
        )
    }

    /// Whether every presentation of a request belongs to it.
    pub open spec fn all_of_request(
        origins: Map<WindowId, PresentationView>,
        request: u64,
        invalidation: u64,
    ) -> bool {
        forall|id: WindowId| #[trigger]
            origins.contains_key(id) ==> origins[id].request_id == request
                && origins[id].invalidation_id == invalidation
    }

    /// Whether the landings of a request are taken in: it is current and was
    /// not taken in before.
    pub open spec fn takes_in(self, request: u64, invalidation: u64) -> bool {
        &&& self.physical@.is_current(request, invalidation)
        &&& entry(self.physical@.origins, request) matches Some(origins)
            && AppState::all_of_request(origins, request, invalidation)
    }

    /// The bookkeeping after the landings of a request came in.
    pub open spec fn consumed(
        self,
        request: u64,
        invalidation: u64,
        landings: Seq<PlacementLanding>,
    ) -> PhysicalView {
        let before = self.physical@;
        if !before.is_current(request, invalidation) {
            before
        } else if !self.takes_in(request, invalidation) {
            PhysicalView { origins: before.origins.remove(request), ..before }
        } else {
            let origins = before.origins[request];
            let count = counted(
                before.invalidation,
                self.taught(origins, landings).len(),
            );
            PhysicalView {
                observations: self.observations_after(origins, landings),
                last: self.settled_all(origins, landings),
                pending: Map::empty(),
                origins: before.origins.remove(request),
                inflight: if before.inflight == Some(request) {
                    None
                } else {
                    before.inflight
                },
                invalidation: count,
                last_applied: count,
                topology: ascending(signature_rows(self.monitors@)),
                ..before
            }
        }
    }

    /// The follow-up batch that parks the windows which did not keep to their
    /// slices; empty if all of them did.
    pub open spec fn follow_up(
        self,
        request: u64,
        invalidation: u64,
        landings: Seq<PlacementLanding>,
        dispatched: Seq<WindowPlacement>,
    ) -> Seq<WindowPlacement> {
        if self.takes_in(request, invalidation) {
            let origins = self.physical@.origins[request];
            let failed = self.failures(origins, landings);
            let retained = self.retained_outers(origins, landings);
            if failed.is_empty() {
                Seq::empty()
            } else {
                dispatched.map_values(
                    |p: WindowPlacement|
                        followed_up(
                            p,
                            failed,
                            retained,
                            rects_of(self.monitors@),
                            self.park_sentinel,
                        ),
                )
            }
        } else {
            Seq::empty()
        }
    }

    /// What is learned from a window that did not keep to its slice.
    fn rejection_of(
        &self,
        presentation: &PhysicalPresentation,
        landing: &PlacementLanding,
    ) -> (r: Option<PhysicalRejectionObservation>)
        ensures
            match r {
                Some(seen) => learned(presentation@, *landing) == Some(seen@),
                None => learned(presentation@, *landing) is None,
            },
    {
        match (landing.actual_visible_rect, landing.actual_outer_rect) {
            (Some(visible), Some(outer)) => {
                let requested = presentation.physical.rect;
                let axes = presentation.axes;
                let coupled = (axes.width() && visible.height > sat_sum(
                    requested.height,
                    CONTAINMENT_TOLERANCE,
                )) || (axes.height() && visible.width > sat_sum(
                    requested.width,
                    CONTAINMENT_TOLERANCE,
                ));
                Some(
                    PhysicalRejectionObservation {
                        required_width: max_i32(visible.width, 1),
                        required_height: max_i32(visible.height, 1),
                        retained_outer_width: max_i32(outer.width, 1),
                        retained_outer_height: max_i32(outer.height, 1),
                        width_affected: axes.width() || coupled,
                        height_affected: axes.height() || coupled,
                        coupled,
                        context: presentation.context.clone(),
                    },
                )
            },
            _ => None,
        }
    }

    /// Remember what a window rejected; a landing that was not read back in
    /// full teaches nothing.
    pub fn record_physical_observation(
        &mut self,
        presentation: &PhysicalPresentation,
        landing: &PlacementLanding,
    )
        ensures
            *final(self) == (AppState { physical: final(self).physical, ..*old(self) }),
            final(self).physical@ == old(self).physical@.taught_by(presentation@, *landing),
    {
        broadcast use vstd::std_specs::hash::group_hash_axioms;

        if let Some(seen) = self.rejection_of(presentation, landing) {
            let ghost before = self.physical.observations@;
            let ghost view = seen@;
            self.physical.observations.insert(presentation.window_id, seen);
            assert(observation_views(self.physical.observations@) =~= observation_views(
                before,
            ).insert(presentation.window_id, view));
            self.bump_physical_invalidation();
        }
    }

    /// What a landing says of a presentation.
    fn judge(
        &self,
        presentation: &PhysicalPresentation,
        landing: Option<PlacementLanding>,
        rects: &[Rect],
    ) -> (r: Verdict)
        ensures
            r == verdict(
                presentation@,
                self.rect_of_monitor(presentation.owner_id),
                landing,
                rects@,
            ),
    {
        let landing = match landing {
            Some(landing) => landing,
            None => {
                return Verdict::Open;
            },
        };
        match presentation.kind {
            PhysicalKind::Constrained => {},
            PhysicalKind::Parked => {
                let clear = match landing.actual_outer_rect {
                    Some(rect) => parking_clears_monitors(rect, rects),
                    None => false,
                };
                return Verdict::Landed(!landing.failed && !landing.unreadable && clear);
            },
            PhysicalKind::Unchanged => {
                return Verdict::Landed(
                    !landing.failed && !landing.unreadable && landing.actual_visible_rect.is_some(),
                );
            },
        }
        let owner = match self.monitor_rect(presentation.owner_id) {
            Some(owner) => owner,
            None => {
                return Verdict::Open;
            },
        };
        let outer = match landing.actual_outer_rect {
            Some(outer) => outer,
            None => {
                return Verdict::Open;
            },
        };
        let inside = match landing.actual_visible_rect {
            Some(visible) => evaluate_protected_axis_containment(
                presentation.physical.rect,
                visible,
                owner,
                presentation.axes,
                CONTAINMENT_TOLERANCE,
            ),
            None => false,
        };
        if !landing.failed && !landing.unreadable && inside {
            Verdict::Landed(true)
        } else {
            Verdict::Failed(outer)
        }
    }
}

impl AppState {
    /// Take in what the window system made of a request. Returns the follow-up
    /// batch that parks the windows which did not keep to their slices.
    ///
    /// Results of a request that is stale or was taken in before change
    /// nothing and need no follow-up.
    pub fn consume_physical_landings(
        &mut self,
        request_id: u64,
        invalidation_id: u64,
        landings: &[PlacementLanding],
        dispatched: &[WindowPlacement],
    ) -> (r: Vec<WindowPlacement>)
        requires
            old(self).physical@.wf(),
        ensures
            final(self).physical@ == old(self).consumed(request_id, invalidation_id, landings@),
            *final(self) == (AppState { physical: final(self).physical, ..*old(self) }),
            r@ == old(self).follow_up(request_id, invalidation_id, landings@, dispatched@),
    {
        broadcast use vstd::std_specs::hash::group_hash_axioms;

        let ghost world = *old(self);
        if !self.physical_result_is_current(request_id, invalidation_id) {
            return Vec::new();
        }
        let ghost stored = self.physical.inflight_origins@;
        let origins = match self.physical.inflight_origins.remove(&request_id) {
            Some(origins) => origins,
            None => {
                assert(self.physical@ =~= world.consumed(request_id, invalidation_id, landings@));
                return Vec::new();
            },
        };
        let ghost all = presentation_views(origins@);
        proof {
            assert(world.physical@.origins.contains_key(request_id));
            assert(world.physical@.origins[request_id] == all);
            assert(self.physical@.origins =~= world.physical@.origins.remove(request_id));
        }
        if !belongs_to_request(&origins, request_id, invalidation_id) {
            assert(self.physical@ =~= world.consumed(request_id, invalidation_id, landings@));
            return Vec::new();
        }
        if self.physical.inflight_request_id == Some(request_id) {
            self.physical.inflight_request_id = None;
        }
        let rects = monitor_rects(&self.monitors);
        proof {
            lemma_judgement_ignores_requests(world, *self, all, landings@);
        }
        let (confirmed, failed_ids, retained) = self.settle_origins(
            origins,
            landings,
            rects.as_slice(),
        );
        self.physical.last_presentations = confirmed;
        self.physical.last_applied_invalidation = self.physical.invalidation_id;
        self.physical.last_topology_signature = topology_signature(&self.monitors);
        self.physical.pending_presentations.clear();
        proof {
            assert(presentation_views(self.physical.pending_presentations@) =~= Map::empty());
            assert(self.physical@ =~= world.consumed(request_id, invalidation_id, landings@));
        }
        if failed_ids.is_empty() {
            return Vec::new();
        }
        let batch = convert_failed_slices_to_parks(
            dispatched,
            &failed_ids,
            &retained,
            rects.as_slice(),
            self.park_sentinel,
        );
        assert(batch@ =~= world.follow_up(request_id, invalidation_id, landings@, dispatched@));
        batch
    }

    /// Hold the landings against the presentations of a request: the
    /// presentations with what they confirm, the windows that did not keep to
    /// their slices, and their outer rectangles.
    fn settle_origins(
        &mut self,
        origins: HashMap<WindowId, PhysicalPresentation>,
        landings: &[PlacementLanding],
        rects: &[Rect],
    ) -> (r: (
        HashMap<WindowId, PhysicalPresentation>,
        HashSet<WindowId>,
        HashMap<WindowId, Rect>,
    ))
        requires
            keyed_by_window(presentation_views(origins@)),
            rects@ == rects_of(old(self).monitors@),
        ensures
            ({
                let all = presentation_views(origins@);
                &&& presentation_views(r.0@) == old(self).settled_all(all, landings@)
                &&& r.1@ == old(self).failures(all, landings@)
                &&& r.2@ == old(self).retained_outers(all, landings@)
                &&& final(self).physical@ == PhysicalView {
                    observations: old(self).observations_after(all, landings@),
                    invalidation: counted(
                        old(self).physical@.invalidation,
                        old(self).taught(all, landings@).len(),
                    ),
                    ..old(self).physical@
                }
                &&& *final(self) == AppState { physical: final(self).physical, ..*old(self) }
            }),
    {
        broadcast use vstd::std_specs::hash::group_hash_axioms;

        let ghost world = *old(self);
        let ghost all = presentation_views(origins@);
        let ghost stored = origins@;
        let keys = key_list(&origins);
        let mut waiting = origins;
        let mut confirmed: HashMap<WindowId, PhysicalPresentation> = HashMap::new();
        let mut failed_ids: HashSet<WindowId> = HashSet::new();
        let mut retained: HashMap<WindowId, Rect> = HashMap::new();
        let mut i: usize = 0;
        let ghost mut done: Set<WindowId> = Set::empty();
        proof {
            assert(world.taught(all, landings@).intersect(done) =~= Set::empty());
            assert(world.physical@.invalidation == counted(world.physical@.invalidation, 0));
        }
        while i < keys.len()
            invariant
                0 <= i <= keys@.len(),
                keys@.no_duplicates(),
                keys@.to_set() == all.dom(),
                all == presentation_views(stored),
                keyed_by_window(all),
                rects@ == rects_of(world.monitors@),
                *self == (AppState { physical: self.physical, ..world }),
                done.finite(),
                forall|id: WindowId| #[trigger]
                    done.contains(id) <==> exists|j: int| 0 <= j < i && #[trigger] keys@[j] == id,
                forall|j: int|
                    i <= j < keys@.len() ==> waiting@.contains_key(#[trigger] keys@[j])
                        && waiting@[keys@[j]] == stored[keys@[j]],
                confirmed@.dom() == done,
                forall|id: WindowId| #[trigger]
                    done.contains(id) ==> all.contains_key(id) && confirmed@[id]@ == settled(
                        all[id],
                        world.judged(all[id], landings@),
                    ),
                forall|id: WindowId| #[trigger]
                    failed_ids@.contains(id) <==> done.contains(id) && world.judged(
                        all[id],
                        landings@,
                    ) is Failed,
                retained@.dom() == failed_ids@,
                forall|id: WindowId| #[trigger]
                    failed_ids@.contains(id) ==> retained@[id] == world.judged(
                        all[id],
                        landings@,
                    )->Failed_0,
                self.physical@ == (PhysicalView {
                    observations: self.physical@.observations,
                    invalidation: counted(
                        world.physical@.invalidation,
                        world.taught(all, landings@).intersect(done).len(),
                    ),
                    ..world.physical@
                }),
                forall|id: WindowId| #[trigger]
                    self.physical@.observations.contains_key(id) <==> (
                    world.physical@.observations.contains_key(id) || (done.contains(id)
                        && world.lesson(all[id], landings@) is Some)),
                forall|id: WindowId| #[trigger]
                    self.physical@.observations.contains_key(id) ==> self.physical@.observations[id]
                        == if done.contains(id) && world.lesson(all[id], landings@) is Some {
                        world.lesson(all[id], landings@)->0
                    } else {
                        world.physical@.observations[id]
                    },
            decreases keys@.len() - i,
        {
            broadcast use vstd::std_specs::hash::group_hash_axioms;

            let id: WindowId = keys[i];
            let ghost before = done;
            let ghost learning = world.taught(all, landings@);
            assert(keys@.to_set().contains(id));
            assert(all.contains_key(id));
            assert(!before.contains(id));
            let taken = waiting.remove(&id);
            assert(taken == Some(stored[id]));
            if let Some(mut presentation) = taken {
                assert(presentation@ == all[id]);
                let landing = last_landing(landings, id);
                let outcome = self.judge(&presentation, landing, rects);
                assert(outcome == world.judged(all[id], landings@));
                match outcome {
                    Verdict::Landed(shown) => {
                        presentation.confirmed = shown;
                    },
                    Verdict::Failed(outer) => {
                        failed_ids.insert(id);
                        retained.insert(id, outer);
                        if let Some(found) = landing {
                            self.record_physical_observation(&presentation, &found);
                        }
                    },
                    Verdict::Open => {},
                }
                confirmed.insert(id, presentation);
            }
            proof {
                done = done.insert(id);
                if world.lesson(all[id], landings@) is Some {
                    assert(learning.intersect(done) =~= learning.intersect(before).insert(id));
                } else {
                    assert(learning.intersect(done) =~= learning.intersect(before));
                }
                lemma_counted_next(
                    world.physical@.invalidation,
                    learning.intersect(before).len(),
                );
                assert forall|x: WindowId| #[trigger] done.contains(x) <==> exists|j: int|
                    0 <= j < i + 1 && #[trigger] keys@[j] == x by {
                    if before.contains(x) {
                        let j = choose|j: int| 0 <= j < i && #[trigger] keys@[j] == x;
                        assert(keys@[j] == x);
                    }
                }
                assert(confirmed@.dom() =~= done);
                assert(retained@.dom() =~= failed_ids@);
            }
            i = i + 1;
        }
        proof {
            assert(done =~= all.dom()) by {
                assert forall|x: WindowId| done.contains(x) <==> all.contains_key(x) by {
                    if all.contains_key(x) {
                        assert(keys@.to_set().contains(x));
                        let j = choose|j: int| 0 <= j < keys@.len() && keys@[j] == x;
                        assert(keys@[j] == x);
                    }
                }
            }
            let learning = world.taught(all, landings@);
            assert(learning.intersect(done) =~= learning);
            assert(presentation_views(confirmed@) =~= world.settled_all(all, landings@));
            assert(failed_ids@ =~= world.failures(all, landings@));
            assert(retained@ =~= world.retained_outers(all, landings@));
            assert(self.physical@.observations =~= world.observations_after(all, landings@));
        }
        (confirmed, failed_ids, retained)
    }
}

/// Whether every presentation of a request belongs to it.
fn belongs_to_request(
    origins: &HashMap<WindowId, PhysicalPresentation>,
    request_id: u64,
    invalidation_id: u64,
) -> (r: bool)
    ensures
        r == AppState::all_of_request(presentation_views(origins@), request_id, invalidation_id),
{
    broadcast use vstd::std_specs::hash::group_hash_axioms;

    let ghost all = presentation_views(origins@);
    let keys = key_list(origins);
    let mut i: usize = 0;
    while i < keys.len()
        invariant
            0 <= i <= keys@.len(),
            keys@.to_set() == all.dom(),
            all == presentation_views(origins@),
            forall|j: int|
                0 <= j < i ==> all[#[trigger] keys@[j]].request_id == request_id
                    && all[keys@[j]].invalidation_id == invalidation_id,
        decreases keys@.len() - i,
    {
        broadcast use vstd::std_specs::hash::group_hash_axioms;

        assert(keys@.to_set().contains(keys@[i as int]));
        assert(all.contains_key(keys@[i as int]));
        if let Some(origin) = origins.get(&keys[i]) {
            if origin.request_id != request_id || origin.invalidation_id != invalidation_id {
                return false;
            }
        }
        i = i + 1;
    }
    assert forall|id: WindowId| #[trigger] all.contains_key(id) implies all[id].request_id
        == request_id && all[id].invalidation_id == invalidation_id by {
        assert(keys@.to_set().contains(id));
        let j = choose|j: int| 0 <= j < keys@.len() && keys@[j] == id;
        assert(all[keys@[j]].request_id == request_id);
    }
    true
}

/// What is made of the landings does not depend on which requests are known.
proof fn lemma_judgement_ignores_requests(
    a: AppState,
    b: AppState,
    all: Map<WindowId, PresentationView>,
    landings: Seq<PlacementLanding>,
)
    requires
        b == (AppState { physical: b.physical, ..a }),
        b.physical@.observations == a.physical@.observations,
    ensures
        a.settled_all(all, landings) == b.settled_all(all, landings),
        a.failures(all, landings) == b.failures(all, landings),
        a.retained_outers(all, landings) == b.retained_outers(all, landings),
        a.taught(all, landings) == b.taught(all, landings),
        a.observations_after(all, landings) == b.observations_after(all, landings),
{
    assert forall|p: PresentationView| #[trigger] a.judged(p, landings) == b.judged(p, landings) by {
        assert(a.rect_of_monitor(p.owner_id) == b.rect_of_monitor(p.owner_id));
    }
    assert forall|p: PresentationView| #[trigger] a.lesson(p, landings) == b.lesson(p, landings) by {
        assert(a.judged(p, landings) == b.judged(p, landings));
    }
    assert(a.settled_all(all, landings) =~= b.settled_all(all, landings));
    assert(a.failures(all, landings) =~= b.failures(all, landings));
    assert(a.retained_outers(all, landings) =~= b.retained_outers(all, landings));
    assert(a.taught(all, landings) =~= b.taught(all, landings));
    assert(a.observations_after(all, landings) =~= b.observations_after(all, landings));
}

/// Counting on by one.
proof fn lemma_counted_next(count: u64, by: nat)
    ensures
        counted(counted(count, by), 1) == counted(count, by + 1),
{
}

/// The last landing reported of a window.
fn last_landing(landings: &[PlacementLanding], id: WindowId) -> (r: Option<PlacementLanding>)
    ensures
        r == landing_of(landings@, id),
{
    let mut i: usize = landings.len();
    assert(landings@.take(i as int) =~= landings@);
    while i > 0
        invariant
            0 <= i <= landings@.len(),
            landing_of(landings@, id) == landing_of(landings@.take(i as int), id),
        decreases i,
    {
        let landing = landings[i - 1];
        assert(landings@.take(i as int).last() == landing);
        assert(landings@.take(i as int).drop_last() =~= landings@.take(i - 1));
        if landing.window_id == id {
            return Some(landing);
        }
        i = i - 1;
    }
    None
}

impl PhysicalState {
    /// Whether every presentation stands under its own window.
    pub fn is_well_formed(&self) -> (r: bool)
        ensures
            r == self@.wf(),
    {
        broadcast use vstd::std_specs::hash::group_hash_axioms;

        if !all_keyed_by_window(&self.last_presentations) || !all_keyed_by_window(
            &self.pending_presentations,
        ) {
            return false;
        }
        let requests = key_list(&self.inflight_origins);
        let mut i: usize = 0;
        while i < requests.len()
            invariant
                0 <= i <= requests@.len(),
                requests@.to_set() == self.inflight_origins@.dom(),
                forall|j: int|
                    0 <= j < i ==> keyed_by_window(self@.origins[#[trigger] requests@[j]]),
            decreases requests@.len() - i,
        {
            broadcast use vstd::std_specs::hash::group_hash_axioms;

            let request: u64 = requests[i];
            assert(requests@.to_set().contains(request));
            if let Some(origins) = self.inflight_origins.get(&request) {
                assert(self@.origins.contains_key(request));
                assert(self@.origins[request] == presentation_views(origins@));
                if !all_keyed_by_window(origins) {
                    return false;
                }
            }
            i = i + 1;
        }
        assert forall|request: u64| #[trigger]
            self@.origins.contains_key(request) implies keyed_by_window(
            self@.origins[request],
        ) by {
            assert(requests@.to_set().contains(request));
            let j = choose|j: int| 0 <= j < requests@.len() && requests@[j] == request;
            assert(requests@[j] == request);
        }
        true
    }
}

/// Whether every presentation stands under its own window.
fn all_keyed_by_window(presentations: &HashMap<WindowId, PhysicalPresentation>) -> (r: bool)
    ensures
        r == keyed_by_window(presentation_views(presentations@)),
{
    broadcast use vstd::std_specs::hash::group_hash_axioms;

    let ghost all = presentation_views(presentations@);
    let keys = key_list(presentations);
    let mut i: usize = 0;
    while i < keys.len()
        invariant
            0 <= i <= keys@.len(),
            keys@.to_set() == presentations@.dom(),
            all == presentation_views(presentations@),
            forall|j: int| 0 <= j < i ==> all[#[trigger] keys@[j]].window_id == keys@[j],
        decreases keys@.len() - i,
    {
        broadcast use vstd::std_specs::hash::group_hash_axioms;

        let id: WindowId = keys[i];
        assert(keys@.to_set().contains(id));
        if let Some(presentation) = presentations.get(&id) {
            assert(all.contains_key(id));
            if presentation.window_id != id {
                return false;
            }
        }
        i = i + 1;
    }
    assert forall|id: WindowId| #[trigger] all.contains_key(id) implies all[id].window_id == id by {
        assert(keys@.to_set().contains(id));
        let j = choose|j: int| 0 <= j < keys@.len() && keys@[j] == id;
        assert(keys@[j] == id);
    }
    true
}

/// The keys of a map, in some order.
pub fn key_list<V>(map: &HashMap<u64, V>) -> (r: Vec<u64>)
    ensures
        r@.no_duplicates(),
        r@.to_set() == map@.dom(),
{
    broadcast use vstd::std_specs::hash::group_hash_axioms;

    let mut keys: Vec<u64> = Vec::new();
    for key in iter: map.keys()
        invariant
            keys@.len() == iter.index(),
            forall|j: int| 0 <= j < keys@.len() ==> keys@[j] == *iter.seq()[j],
    {
        keys.push(*key);
    }
    assert(keys@ =~= spec_keys_iter(map).remaining().unref());
    keys
}

} // verus!
