//! Bookkeeping of physical placements: what was requested of the window system,
//! what it did, and which windows rejected the size they were given.

use vstd::prelude::*;
use std::collections::HashMap;

use crate::app_state::AppState;
use crate::physical_placement::{
    ConstrainedAxes, ContextView, GeometryContext, ObservationView, PhysicalKind,
    PhysicalRejectionObservation,
};
use crate::types::{MonitorId, Rect, WindowId, WindowPlacement};

verus! {

/// How a window was presented in one request.
#[derive(Debug)]
pub struct PhysicalPresentation {
    pub window_id: WindowId,
    pub logical: WindowPlacement,
    pub owner_id: MonitorId,
    pub physical: WindowPlacement,
    pub kind: PhysicalKind,
    pub axes: ConstrainedAxes,
    pub context: GeometryContext,
    pub request_id: u64,
    pub invalidation_id: u64,
    /// Whether a landing showed that the window is where it was put.
    pub confirmed: bool,
}

/// The value of a [`PhysicalPresentation`].
#[verifier::ext_equal]
pub struct PresentationView {
    pub window_id: WindowId,
    pub logical: WindowPlacement,
    pub owner_id: MonitorId,
    pub physical: WindowPlacement,
    pub kind: PhysicalKind,
    pub axes: ConstrainedAxes,
    pub context: ContextView,
    pub request_id: u64,
    pub invalidation_id: u64,
    pub confirmed: bool,
}

impl View for PhysicalPresentation {
    type V = PresentationView;

    open spec fn view(&self) -> PresentationView {
        PresentationView {
            window_id: self.window_id,
            logical: self.logical,
            owner_id: self.owner_id,
            physical: self.physical,
            kind: self.kind,
            axes: self.axes,
            context: self.context@,
            request_id: self.request_id,
            invalidation_id: self.invalidation_id,
            confirmed: self.confirmed,
        }
    }
}

impl Clone for PhysicalPresentation {
    fn clone(&self) -> (r: Self)
        ensures
            r@ == self@,
    {
        PhysicalPresentation {
            window_id: self.window_id,
            logical: self.logical,
            owner_id: self.owner_id,
            physical: self.physical,
            kind: self.kind,
            axes: self.axes,
            context: self.context.clone(),
            request_id: self.request_id,
            invalidation_id: self.invalidation_id,
            confirmed: self.confirmed,
        }
    }
}

/// Requests for physical placements and what became of them.
#[derive(Debug)]
pub struct PhysicalState {
    /// Sizes that windows rejected.
    pub observations: HashMap<WindowId, PhysicalRejectionObservation>,
    /// Presentations of the last consumed request.
    pub last_presentations: HashMap<WindowId, PhysicalPresentation>,
    /// Presentations of the pending request.
    pub pending_presentations: HashMap<WindowId, PhysicalPresentation>,
    /// Presentations by the request that made them, until it is consumed.
    pub inflight_origins: HashMap<u64, HashMap<WindowId, PhysicalPresentation>>,
    /// The request that is in flight.
    pub inflight_request_id: Option<u64>,
    /// Number of the last request.
    pub request_seq: u64,
    /// Request that may be dispatched.
    pub dispatch_request_id: u64,
    /// The pending request; zero if there is none.
    pub pending_request_id: u64,
    /// Invalidation that the pending request was made under.
    pub pending_invalidation_id: u64,
    /// Counts the changes that make earlier requests stale.
    pub invalidation_id: u64,
    /// Invalidation that the last presentations were consumed under.
    pub last_applied_invalidation: u64,
    /// Monitor arrangement that the last presentations were consumed under.
    pub last_topology_signature: Vec<(MonitorId, i32, i32, i32, i32, u32)>,
}

impl PhysicalState {
    /// No request was made yet, and nothing of the current layout was applied.
    pub fn new() -> (r: Self)
        ensures
            r@.wf(),
            r@ == (PhysicalView {
                observations: Map::empty(),
                last: Map::empty(),
                pending: Map::empty(),
                origins: Map::empty(),
                inflight: None,
                request_seq: 0,
                dispatch_request: 0,
                pending_request: 0,
                pending_invalidation: 0,
                invalidation: 1,
                last_applied: 0,
                topology: Seq::empty(),
            }),
    {
        let r = PhysicalState {
            observations: HashMap::new(),
            last_presentations: HashMap::new(),
            pending_presentations: HashMap::new(),
            inflight_origins: HashMap::new(),
            inflight_request_id: None,
            request_seq: 0,
            dispatch_request_id: 0,
            pending_request_id: 0,
            pending_invalidation_id: 0,
            invalidation_id: 1,
            last_applied_invalidation: 0,
            last_topology_signature: Vec::new(),
        };
        assert(r@.observations =~= Map::empty());
        assert(r@.last =~= Map::empty());
        assert(r@.pending =~= Map::empty());
        assert(r@.origins =~= Map::empty());
        r
    }
}

/// The values of a set of presentations.
pub open spec fn presentation_views(presentations: Map<WindowId, PhysicalPresentation>) -> Map<
    WindowId,
    PresentationView,
> {
    presentations.map_values(|p: PhysicalPresentation| p@)
}

/// The values of a set of observations.
pub open spec fn observation_views(
    observations: Map<WindowId, PhysicalRejectionObservation>,
) -> Map<WindowId, ObservationView> {
    observations.map_values(|o: PhysicalRejectionObservation| o@)
}

/// The value of a [`PhysicalState`].
#[verifier::ext_equal]
pub struct PhysicalView {
    pub observations: Map<WindowId, ObservationView>,
    pub last: Map<WindowId, PresentationView>,
    pub pending: Map<WindowId, PresentationView>,
    pub origins: Map<u64, Map<WindowId, PresentationView>>,
    pub inflight: Option<u64>,
    pub request_seq: u64,
    pub dispatch_request: u64,
    pub pending_request: u64,
    pub pending_invalidation: u64,
    pub invalidation: u64,
    pub last_applied: u64,
    pub topology: Seq<(MonitorId, i32, i32, i32, i32, u32)>,
}

impl View for PhysicalState {
    type V = PhysicalView;

    open spec fn view(&self) -> PhysicalView {
        PhysicalView {
            observations: observation_views(self.observations@),
            last: presentation_views(self.last_presentations@),
            pending: presentation_views(self.pending_presentations@),
            origins: self.inflight_origins@.map_values(
                |m: HashMap<WindowId, PhysicalPresentation>| presentation_views(m@),
            ),
            inflight: self.inflight_request_id,
            request_seq: self.request_seq,
            dispatch_request: self.dispatch_request_id,
            pending_request: self.pending_request_id,
            pending_invalidation: self.pending_invalidation_id,
            invalidation: self.invalidation_id,
            last_applied: self.last_applied_invalidation,
            topology: self.last_topology_signature@,
        }
    }
}

/// The entry of a map, if it has one.
pub open spec fn entry<V>(map: Map<u64, V>, id: u64) -> Option<V> {
    if map.contains_key(id) {
        Some(map[id])
    } else {
        None
    }
}

/// Whether every presentation stands under its own window.
pub open spec fn keyed_by_window(presentations: Map<WindowId, PresentationView>) -> bool {
    forall|id: WindowId| #[trigger]
        presentations.contains_key(id) ==> presentations[id].window_id == id
}

/// A counter advanced `by` steps; it wraps round.
pub open spec fn counted(count: u64, by: nat) -> u64 {
    ((count + by) % 0x1_0000_0000_0000_0000) as u64
}

impl PhysicalView {
    /// Every presentation stands under its own window.
    pub open spec fn wf(self) -> bool {
        &&& keyed_by_window(self.last)
        &&& keyed_by_window(self.pending)
        &&& forall|request: u64| #[trigger]
            self.origins.contains_key(request) ==> keyed_by_window(self.origins[request])
    }

    /// The pending presentation of a window, if its request is the current one.
    pub open spec fn current_pending(self, id: WindowId) -> Option<PresentationView> {
        match entry(self.pending, id) {
            Some(p) if self.inflight == Some(p.request_id) && self.pending_request == p.request_id
                && self.pending_invalidation == p.invalidation_id => Some(p),
            _ => None,
        }
    }

    /// How a window is presented, as far as is known: by the current pending
    /// request, else by the last one consumed.
    pub open spec fn showing(self, id: WindowId) -> Option<PresentationView> {
        match self.current_pending(id) {
            Some(p) => Some(p),
            None => entry(self.last, id),
        }
    }

    /// Whether a window is known to be on screen where it was put: its landing
    /// was confirmed, it is not parked, and nothing made that stale.
    pub open spec fn exposable(self, id: WindowId) -> bool {
        &&& self.invalidation == self.last_applied
        &&& entry(self.last, id) matches Some(p) && p.confirmed && p.kind != PhysicalKind::Parked
    }

    /// Whether a result belongs to the request that is pending.
    pub open spec fn matches_inflight(self, request: u64, invalidation: u64) -> bool {
        &&& request == self.pending_request
        &&& invalidation == self.pending_invalidation
        &&& request == 0 || self.inflight == Some(request)
    }

    /// Whether a result belongs to the pending request and nothing made it
    /// stale since.
    pub open spec fn is_current(self, request: u64, invalidation: u64) -> bool {
        self.matches_inflight(request, invalidation) && invalidation == self.invalidation
    }

    /// Something made earlier requests stale.
    pub open spec fn bumped(self) -> PhysicalView {
        PhysicalView { invalidation: counted(self.invalidation, 1), ..self }
    }

    /// All that is known of a window forgotten.
    pub open spec fn forgotten(self, id: WindowId) -> PhysicalView {
        PhysicalView {
            observations: self.observations.remove(id),
            last: self.last.remove(id),
            pending: self.pending.remove(id),
            ..self
        }.bumped()
    }
}

impl AppState {
    /// Count a change that makes earlier requests stale.
    pub fn bump_physical_invalidation(&mut self) -> (r: u64)
        ensures
            final(self).physical@ == old(self).physical@.bumped(),
            *final(self) == (AppState { physical: final(self).physical, ..*old(self) }),
            r == final(self).physical@.invalidation,
    {
        self.physical.invalidation_id = next_count(self.physical.invalidation_id);
        self.physical.invalidation_id
    }

    /// Forget all that is known of a window.
    pub fn clear_physical_window_state(&mut self, window_id: WindowId)
        ensures
            final(self).physical@ == old(self).physical@.forgotten(window_id),
            *final(self) == (AppState { physical: final(self).physical, ..*old(self) }),
    {
        broadcast use vstd::std_specs::hash::group_hash_axioms;

        let ghost before = self.physical@;
        self.physical.observations.remove(&window_id);
        self.physical.last_presentations.remove(&window_id);
        self.physical.pending_presentations.remove(&window_id);
        self.bump_physical_invalidation();
        assert(self.physical@ =~= before.forgotten(window_id));
    }

    /// The pending presentation of a window, if its request is the current one.
    pub fn current_pending_physical_presentation(&self, window_id: WindowId) -> (r: Option<
        &PhysicalPresentation,
    >)
        ensures
            match r {
                Some(p) => self.physical@.current_pending(window_id) == Some(p@),
                None => self.physical@.current_pending(window_id) is None,
            },
    {
        broadcast use vstd::std_specs::hash::group_hash_axioms;

        match self.physical.pending_presentations.get(&window_id) {
            Some(presentation) => {
                if self.physical.inflight_request_id == Some(presentation.request_id)
                    && self.physical.pending_request_id == presentation.request_id
                    && self.physical.pending_invalidation_id == presentation.invalidation_id {
                    Some(presentation)
                } else {
                    None
                }
            },
            None => None,
        }
    }

    /// How a window is presented, as far as is known.
    fn shown_presentation(&self, window_id: WindowId) -> (r: Option<&PhysicalPresentation>)
        ensures
            match r {
                Some(p) => self.physical@.showing(window_id) == Some(p@),
                None => self.physical@.showing(window_id) is None,
            },
    {
        broadcast use vstd::std_specs::hash::group_hash_axioms;

        match self.current_pending_physical_presentation(window_id) {
            Some(presentation) => Some(presentation),
            None => self.physical.last_presentations.get(&window_id),
        }
    }

    /// Where a window is expected to be.
    pub fn expected_physical_rect(&self, window_id: WindowId) -> (r: Option<Rect>)
        ensures
            r == match self.physical@.showing(window_id) {
                Some(p) => Some(p.physical.rect),
                None => None,
            },
    {
        match self.shown_presentation(window_id) {
            Some(presentation) => Some(presentation.physical.rect),
            None => None,
        }
    }

    /// Whether a window is parked off screen.
    pub fn is_physically_parked(&self, window_id: WindowId) -> (r: bool)
        ensures
            r == (self.physical@.showing(window_id) matches Some(p) && p.kind
                == PhysicalKind::Parked),
    {
        match self.shown_presentation(window_id) {
            Some(presentation) => presentation.kind == PhysicalKind::Parked,
            None => false,
        }
    }

    /// Whether a window is known to be on screen where it was put.
    pub fn physical_landing_is_safe_to_expose(&self, window_id: WindowId) -> (r: bool)
        ensures
            r == self.physical@.exposable(window_id),
    {
        broadcast use vstd::std_specs::hash::group_hash_axioms;

        let landed = match self.physical.last_presentations.get(&window_id) {
            Some(presentation) => presentation.confirmed && presentation.kind
                != PhysicalKind::Parked,
            None => false,
        };
        self.physical.invalidation_id == self.physical.last_applied_invalidation && landed
    }

    /// The pending request and the invalidation it was made under.
    pub fn physical_request_ids(&self) -> (r: (u64, u64))
        ensures
            r == (self.physical@.pending_request, self.physical@.pending_invalidation),
    {
        (self.physical.pending_request_id, self.physical.pending_invalidation_id)
    }

    /// Whether a result belongs to the request that is pending.
    pub fn physical_result_matches_inflight(&self, request_id: u64, invalidation_id: u64) -> (r:
        bool)
        ensures
            r == self.physical@.matches_inflight(request_id, invalidation_id),
    {
        request_id == self.physical.pending_request_id && invalidation_id
            == self.physical.pending_invalidation_id && (request_id == 0
            || self.physical.inflight_request_id == Some(request_id))
    }

    /// Whether a result belongs to the pending request and nothing made it
    /// stale since.
    pub fn physical_result_is_current(&self, request_id: u64, invalidation_id: u64) -> (r: bool)
        ensures
            r == self.physical@.is_current(request_id, invalidation_id),
    {
        self.physical_result_matches_inflight(request_id, invalidation_id) && invalidation_id
            == self.physical.invalidation_id
    }

    /// Whether the size a window took in a request says what the layout's size
    /// for it should be: not where the request itself cut or parked it.
    pub fn allows_core_size_feedback(&self, request_id: u64, window_id: WindowId) -> (r: bool)
        ensures
            r == match entry(self.physical@.origins, request_id) {
                Some(origins) => match entry(origins, window_id) {
                    Some(origin) => origin.kind == PhysicalKind::Unchanged,
                    None => true,
                },
                None => true,
            },
    {
        broadcast use vstd::std_specs::hash::group_hash_axioms;

        match self.physical.inflight_origins.get(&request_id) {
            Some(origins) => match origins.get(&window_id) {
                Some(origin) => origin.kind == PhysicalKind::Unchanged,
                None => true,
            },
            None => true,
        }
    }
}

/// The next value of a counter that wraps round.
pub fn next_count(count: u64) -> (r: u64)
    ensures
        r == counted(count, 1),
{
    if count == u64::MAX {
        0
    } else {
        count + 1
    }
}

} // verus!
