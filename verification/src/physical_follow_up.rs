//! What happens around a request for physical placements: giving it up,
//! following up on rejected slices, and what may be concluded meanwhile.

use vstd::prelude::*;
use std::collections::HashMap;

use crate::app_state::AppState;
use crate::physical_placement::{
    monitor_rects, parking_clears_monitors, project_physical_rect, projection, rects_of,
    signature_rows, topology_signature, union_of, union_rects, PhysicalDecision, PhysicalKind,
};
use crate::physical_requests::{key_list, landed, landing_of};
use crate::physical_state::{
    entry, presentation_views, PhysicalPresentation, PhysicalState, PhysicalView, PresentationView,
};
use crate::sorting::ascending;
use crate::types::{
    MonitorId, PlacementLanding, Rect, Visibility, WindowId, WindowPlacement,
};

verus! {

/// Presentations of which none is confirmed.
pub open spec fn unconfirmed(presentations: Map<WindowId, PresentationView>) -> Map<
    WindowId,
    PresentationView,
> {
    presentations.map_values(
        |p: PresentationView| PresentationView { confirmed: false, ..p },
    )
}

/// The first placement of a window in a batch.
pub open spec fn placement_in(batch: Seq<WindowPlacement>, id: WindowId) -> Option<WindowPlacement>
    decreases batch.len(),
{
    if batch.len() == 0 {
        None
    } else if batch[0].window_id == id {
        Some(batch[0])
    } else {
        placement_in(batch.skip(1), id)
    }
}

/// Whether a batch hides a window.
pub open spec fn hides(batch: Seq<WindowPlacement>, id: WindowId) -> bool {
    exists|i: int|
        0 <= i < batch.len() && (#[trigger] batch[i]).window_id == id && batch[i].visibility
            != Visibility::Visible
}

/// A presentation once a follow-up batch is under way: a window that the batch
/// hides is parked where the batch puts it, unconfirmed.
pub open spec fn followed(p: PresentationView, batch: Seq<WindowPlacement>) -> PresentationView {
    if hides(batch, p.window_id) {
        PresentationView {
            kind: PhysicalKind::Parked,
            physical: placement_in(batch, p.window_id)->0,
            confirmed: false,
            ..p
        }
    } else {
        p
    }
}

/// A presentation after the landing of a follow-up batch: a parked window is
/// confirmed if it cleared every monitor.
pub open spec fn completed(
    p: PresentationView,
    landing: Option<PlacementLanding>,
    monitors: Seq<Rect>,
) -> PresentationView {
    match landing {
        Some(landing) if p.kind == PhysicalKind::Parked => PresentationView {
            confirmed: landed(PhysicalKind::Parked, landing, monitors),
            ..p
        },
        _ => p,
    }
}

impl AppState {
    /// The monitor arrangement in ascending order.
    pub open spec fn arrangement(self) -> Seq<(MonitorId, i32, i32, i32, i32, u32)> {
        ascending(signature_rows(self.monitors@))
    }

    /// Whether a request is given up: it is the pending one.
    pub open spec fn gives_up(self, request: u64, invalidation: u64) -> bool {
        &&& request != 0
        &&& self.physical@.pending_request == request
        &&& self.physical@.pending_invalidation == invalidation
    }

    /// The bookkeeping after a request was given up. What it asked for is the
    /// best guess at where the windows are, and nothing of it is confirmed.
    pub open spec fn abandoned(self, request: u64, invalidation: u64) -> PhysicalView {
        let before = self.physical@;
        if !self.gives_up(request, invalidation) {
            before
        } else {
            let cleared = PhysicalView {
                pending: Map::empty(),
                origins: before.origins.remove(request),
                inflight: if before.inflight == Some(request) {
                    None
                } else {
                    before.inflight
                },
                pending_request: 0,
                pending_invalidation: 0,
                ..before
            };
            match entry(before.origins, request) {
                Some(origins) if !origins.dom().is_empty() => PhysicalView {
                    last: unconfirmed(origins),
                    last_applied: before.invalidation,
                    topology: self.arrangement(),
                    ..cleared
                },
                _ => cleared,
            }
        }
    }

    /// Whether an empty request may be acknowledged: nothing is laid out,
    /// nothing was presented before, and the request is current and empty.
    pub open spec fn acknowledges(self, request: u64, invalidation: u64, logically_empty: bool) -> bool {
        &&& logically_empty
        &&& request != 0
        &&& self.physical@.is_current(request, invalidation)
        &&& self.physical@.last.dom().is_empty()
        &&& entry(self.physical@.origins, request) matches Some(origins)
            && origins.dom().is_empty()
    }

    /// Whether a layout pass can be skipped: nothing changed since the last one
    /// and every landing of it was confirmed.
    pub open spec fn settled_down(self) -> bool {
        &&& self.physical@.invalidation == self.physical@.last_applied
        &&& self.arrangement() == self.physical@.topology
        &&& forall|id: WindowId| #[trigger]
            self.physical@.last.contains_key(id) ==> self.physical@.last[id].confirmed
    }

    /// The bookkeeping after an empty request came back: if it may be
    /// acknowledged, the empty layout counts as applied.
    pub open spec fn acknowledged(
        self,
        request: u64,
        invalidation: u64,
        logically_empty: bool,
    ) -> PhysicalView {
        if self.acknowledges(request, invalidation, logically_empty) {
            PhysicalView {
                last_applied: self.physical@.invalidation,
                topology: self.arrangement(),
                ..self.physical@
            }
        } else {
            self.physical@
        }
    }

    /// The bookkeeping once a follow-up batch is under way.
    pub open spec fn follow_up_begun(self, batch: Seq<WindowPlacement>) -> PhysicalView {
        PhysicalView {
            last: self.physical@.last.map_values(|p: PresentationView| followed(p, batch)),
            ..self.physical@
        }
    }

    /// The bookkeeping after the landings of a follow-up batch.
    pub open spec fn follow_up_completed(self, landings: Seq<PlacementLanding>) -> PhysicalView {
        PhysicalView {
            last: Map::new(
                |id: WindowId| self.physical@.last.contains_key(id),
                |id: WindowId|
                    completed(
                        self.physical@.last[id],
                        landing_of(landings, id),
                        rects_of(self.monitors@),
                    ),
            ),
            ..self.physical@
        }
    }

    /// Give up a request whose result will not come.
    pub fn abandon_physical_request(&mut self, request_id: u64, invalidation_id: u64)
        ensures
            final(self).physical@ == old(self).abandoned(request_id, invalidation_id),
            *final(self) == (AppState { physical: final(self).physical, ..*old(self) }),
    {
        broadcast use vstd::std_specs::hash::group_hash_axioms;

        let ghost world = *old(self);
        if request_id == 0 || self.physical.pending_request_id != request_id
            || self.physical.pending_invalidation_id != invalidation_id {
            return;
        }
        if let Some(origins) = self.physical.inflight_origins.remove(&request_id) {
            let ghost all = presentation_views(origins@);
            assert(world.physical@.origins.contains_key(request_id));
            assert(world.physical@.origins[request_id] == all);
            assert(all.dom() =~= origins@.dom());
            if !origins.is_empty() {
                self.physical.last_presentations = unconfirm_all(origins);
                self.physical.last_applied_invalidation = self.physical.invalidation_id;
                self.physical.last_topology_signature = topology_signature(&self.monitors);
            }
        }
        if self.physical.inflight_request_id == Some(request_id) {
            self.physical.inflight_request_id = None;
        }
        self.physical.pending_presentations.clear();
        self.physical.pending_request_id = 0;
        self.physical.pending_invalidation_id = 0;
        proof {
            assert(self.physical@.origins =~= world.physical@.origins.remove(request_id));
            assert(presentation_views(self.physical.pending_presentations@) =~= Map::empty());
            assert(self.physical@ =~= world.abandoned(request_id, invalidation_id));
        }
    }

    /// Acknowledge an empty request: the empty layout counts as applied.
    pub fn acknowledge_empty_physical_state(
        &mut self,
        request_id: u64,
        invalidation_id: u64,
        logically_empty: bool,
    )
        ensures
            final(self).physical@ == old(self).acknowledged(
                request_id,
                invalidation_id,
                logically_empty,
            ),
            *final(self) == (AppState { physical: final(self).physical, ..*old(self) }),
    {
        broadcast use vstd::std_specs::hash::group_hash_axioms;

        let nothing_shown = self.physical.last_presentations.is_empty();
        assert(self.physical@.last.dom() =~= self.physical.last_presentations@.dom());
        assert(nothing_shown == self.physical.last_presentations@.dom().is_empty());
        if !logically_empty || request_id == 0 || !self.physical_result_is_current(
            request_id,
            invalidation_id,
        ) || !nothing_shown {
            return;
        }
        match self.physical.inflight_origins.get(&request_id) {
            Some(origins) => {
                let ghost all = presentation_views(origins@);
                assert(self.physical@.origins[request_id] == all);
                assert(all.dom() =~= origins@.dom());
                if !origins.is_empty() {
                    return;
                }
            },
            None => {
                return;
            },
        }
        self.physical.last_applied_invalidation = self.physical.invalidation_id;
        self.physical.last_topology_signature = topology_signature(&self.monitors);
    }

    /// Whether a layout pass can be skipped.
    pub fn physical_fast_path_ok(&self) -> (r: bool)
        ensures
            r == self.settled_down(),
    {
        self.physical.invalidation_id == self.physical.last_applied_invalidation
            && signatures_equal(
            &topology_signature(&self.monitors),
            &self.physical.last_topology_signature,
        ) && all_confirmed(&self.physical.last_presentations)
    }

    /// Note that a follow-up batch is under way.
    pub fn begin_physical_follow_up(&mut self, follow_up: &[WindowPlacement])
        ensures
            final(self).physical@ == old(self).follow_up_begun(follow_up@),
            *final(self) == (AppState { physical: final(self).physical, ..*old(self) }),
    {
        broadcast use vstd::std_specs::hash::group_hash_axioms;

        let ghost world = *old(self);
        let ghost all = world.physical@.last;
        let ghost stored = self.physical.last_presentations@;
        let keys = key_list(&self.physical.last_presentations);
        let mut i: usize = 0;
        while i < keys.len()
            invariant
                0 <= i <= keys@.len(),
                keys@.no_duplicates(),
                keys@.to_set() == stored.dom(),
                all == presentation_views(stored),
                *self == (AppState { physical: self.physical, ..world }),
                self.physical == (PhysicalState {
                    last_presentations: self.physical.last_presentations,
                    ..world.physical
                }),
                self.physical.last_presentations@.dom() == stored.dom(),
                forall|j: int|
                    0 <= j < i ==> self.physical.last_presentations@[#[trigger] keys@[j]]@
                        == followed(all[keys@[j]], follow_up@),
                forall|j: int|
                    i <= j < keys@.len() ==> self.physical.last_presentations@[#[trigger] keys@[j]]
                        == stored[keys@[j]],
            decreases keys@.len() - i,
        {
            broadcast use vstd::std_specs::hash::group_hash_axioms;

            let id: WindowId = keys[i];
            assert(keys@.to_set().contains(id));
            let ghost before = self.physical.last_presentations@;
            if let Some(mut presentation) = self.physical.last_presentations.remove(&id) {
                assert(presentation@ == all[id]);
                if batch_hides(follow_up, presentation.window_id) {
                    presentation.kind = PhysicalKind::Parked;
                    if let Some(parked) = first_placement(follow_up, presentation.window_id) {
                        presentation.physical = parked;
                    }
                    presentation.confirmed = false;
                    proof {
                        lemma_hidden_is_placed(follow_up@, presentation.window_id);
                    }
                }
                self.physical.last_presentations.insert(id, presentation);
            }
            assert(self.physical.last_presentations@.dom() =~= stored.dom());
            i = i + 1;
        }
        proof {
            let after = presentation_views(self.physical.last_presentations@);
            let wanted = world.follow_up_begun(follow_up@).last;
            assert forall|id: WindowId| after.contains_key(id) implies after[id] == wanted[id] by {
                assert(keys@.to_set().contains(id));
                let j = choose|j: int| 0 <= j < keys@.len() && keys@[j] == id;
                assert(keys@[j] == id);
            }
            assert(after =~= wanted);
        }
    }

    /// Take in the landings of a follow-up batch.
    pub fn complete_physical_follow_up(&mut self, landings: &[PlacementLanding])
        ensures
            final(self).physical@ == old(self).follow_up_completed(landings@),
            *final(self) == (AppState { physical: final(self).physical, ..*old(self) }),
    {
        broadcast use vstd::std_specs::hash::group_hash_axioms;

        let ghost world = *old(self);
        let ghost all = world.physical@.last;
        let rects = monitor_rects(&self.monitors);
        let mut i: usize = 0;
        assert(landings@.take(0) =~= Seq::empty());
        while i < landings.len()
            invariant
                0 <= i <= landings@.len(),
                rects@ == rects_of(world.monitors@),
                all == world.physical@.last,
                *self == (AppState { physical: self.physical, ..world }),
                self.physical == (PhysicalState {
                    last_presentations: self.physical.last_presentations,
                    ..world.physical
                }),
                self.physical.last_presentations@.dom() == all.dom(),
                forall|id: WindowId| #[trigger]
                    all.contains_key(id) ==> self.physical.last_presentations@[id]@ == completed(
                        all[id],
                        landing_of(landings@.take(i as int), id),
                        rects@,
                    ),
            decreases landings@.len() - i,
        {
            broadcast use vstd::std_specs::hash::group_hash_axioms;

            let landing = landings[i];
            let id: WindowId = landing.window_id;
            assert(landings@.take(i + 1).drop_last() =~= landings@.take(i as int));
            assert(landings@.take(i + 1).last() == landing);
            if let Some(mut presentation) = self.physical.last_presentations.remove(&id) {
                assert(all.contains_key(id));
                if presentation.kind == PhysicalKind::Parked {
                    let clear = match landing.actual_outer_rect {
                        Some(rect) => parking_clears_monitors(rect, rects.as_slice()),
                        None => false,
                    };
                    presentation.confirmed = !landing.failed && !landing.unreadable && clear;
                }
                self.physical.last_presentations.insert(id, presentation);
            }
            assert(self.physical.last_presentations@.dom() =~= all.dom());
            i = i + 1;
        }
        proof {
            assert(landings@.take(i as int) =~= landings@);
            assert(presentation_views(self.physical.last_presentations@)
                =~= world.follow_up_completed(landings@).last);
        }
    }

    /// Whether a window that moves between two rectangles crosses an edge of
    /// its monitor that touches another monitor.
    pub open spec fn sweeps_out(self, id: WindowId, start: Rect, target: Rect) -> bool {
        match self.owning_monitor(id) {
            Some((_, owner)) => projection(
                union_of(start, target),
                owner,
                rects_of(self.monitors@),
                self.park_sentinel,
            ) != PhysicalDecision::Unchanged,
            None => false,
        }
    }

    /// Whether a window that moves between two rectangles crosses an edge of
    /// its monitor that touches another monitor.
    pub fn swept_rect_meets_protected_boundary(
        &self,
        window_id: WindowId,
        start: Rect,
        target: Rect,
    ) -> (r: bool)
        ensures
            r == self.sweeps_out(window_id, start, target),
            r == match self.owning_monitor(window_id) {
                Some((_, owner)) => projection(
                    union_of(start, target),
                    owner,
                    rects_of(self.monitors@),
                    self.park_sentinel,
                ) != PhysicalDecision::Unchanged,
                None => false,
            },
    {
        match self.owning_monitor_of(window_id) {
            Some((_, owner)) => {
                let rects = monitor_rects(&self.monitors);
                let swept = union_rects(start, target);
                project_physical_rect(swept, owner, rects.as_slice(), self.park_sentinel)
                    != PhysicalDecision::Unchanged
            },
            None => false,
        }
    }

    /// Where the decoration of a window goes: nowhere if the window is parked
    /// or the decoration would be, else cut as a window there would be.
    pub fn project_decoration_rect(&self, window_id: WindowId, rect: Rect) -> (r: Option<Rect>)
        ensures
            r == self.decoration_place(window_id, rect),
    {
        if self.is_physically_parked(window_id) {
            return None;
        }
        match self.owning_monitor_of(window_id) {
            Some((_, owner)) => {
                let rects = monitor_rects(&self.monitors);
                match project_physical_rect(rect, owner, rects.as_slice(), self.park_sentinel) {
                    PhysicalDecision::Parked { .. } => None,
                    PhysicalDecision::Constrained { rect: slice, .. } => Some(slice),
                    PhysicalDecision::Unchanged => Some(rect),
                }
            },
            None => None,
        }
    }

    /// Where the decoration of a window goes.
    pub open spec fn decoration_place(self, id: WindowId, rect: Rect) -> Option<Rect> {
        let parked = match self.physical@.showing(id) {
            Some(p) => p.kind == PhysicalKind::Parked,
            None => false,
        };
        match self.owning_monitor(id) {
            Some((_, owner)) if !parked => match projection(
                rect,
                owner,
                rects_of(self.monitors@),
                self.park_sentinel,
            ) {
                PhysicalDecision::Parked { .. } => None,
                PhysicalDecision::Constrained { rect: slice, .. } => Some(slice),
                PhysicalDecision::Unchanged => Some(rect),
            },
            _ => None,
        }
    }
}

/// Presentations of which none is confirmed.
fn unconfirm_all(origins: HashMap<WindowId, PhysicalPresentation>) -> (r: HashMap<
    WindowId,
    PhysicalPresentation,
>)
    ensures
        presentation_views(r@) == unconfirmed(presentation_views(origins@)),
{
    broadcast use vstd::std_specs::hash::group_hash_axioms;

    let ghost stored = origins@;
    let keys = key_list(&origins);
    let mut changed = origins;
    let mut i: usize = 0;
    while i < keys.len()
        invariant
            0 <= i <= keys@.len(),
            keys@.no_duplicates(),
            keys@.to_set() == stored.dom(),
            changed@.dom() == stored.dom(),
            forall|j: int|
                0 <= j < i ==> changed@[#[trigger] keys@[j]]@ == (PresentationView {
                    confirmed: false,
                    ..stored[keys@[j]]@
                }),
            forall|j: int|
                i <= j < keys@.len() ==> changed@[#[trigger] keys@[j]] == stored[keys@[j]],
        decreases keys@.len() - i,
    {
        broadcast use vstd::std_specs::hash::group_hash_axioms;

        let id: WindowId = keys[i];
        assert(keys@.to_set().contains(id));
        if let Some(mut presentation) = changed.remove(&id) {
            presentation.confirmed = false;
            changed.insert(id, presentation);
        }
        assert(changed@.dom() =~= stored.dom());
        i = i + 1;
    }
    proof {
        let after = presentation_views(changed@);
        let wanted = unconfirmed(presentation_views(stored));
        assert forall|id: WindowId| after.contains_key(id) implies after[id] == wanted[id] by {
            assert(keys@.to_set().contains(id));
            let j = choose|j: int| 0 <= j < keys@.len() && keys@[j] == id;
            assert(keys@[j] == id);
        }
        assert(after =~= wanted);
    }
    changed
}

/// Whether every presentation is confirmed.
fn all_confirmed(presentations: &HashMap<WindowId, PhysicalPresentation>) -> (r: bool)
    ensures
        r == (forall|id: WindowId| #[trigger]
            presentation_views(presentations@).contains_key(id) ==> presentation_views(
                presentations@,
            )[id].confirmed),
{
    broadcast use vstd::std_specs::hash::group_hash_axioms;

    let ghost all = presentation_views(presentations@);
    let keys = key_list(presentations);
    let mut i: usize = 0;
    while i < keys.len()
        invariant
            0 <= i <= keys@.len(),
            keys@.to_set() == presentations@.dom(),
            all == presentation_views(presentations@),
            forall|j: int| 0 <= j < i ==> all[#[trigger] keys@[j]].confirmed,
        decreases keys@.len() - i,
    {
        broadcast use vstd::std_specs::hash::group_hash_axioms;

        assert(keys@.to_set().contains(keys@[i as int]));
        assert(all.contains_key(keys@[i as int]));
        if let Some(presentation) = presentations.get(&keys[i]) {
            if !presentation.confirmed {
                return false;
            }
        }
        i = i + 1;
    }
    assert forall|id: WindowId| #[trigger] all.contains_key(id) implies all[id].confirmed by {
        assert(keys@.to_set().contains(id));
        let j = choose|j: int| 0 <= j < keys@.len() && keys@[j] == id;
        assert(all[keys@[j]].confirmed);
    }
    true
}

/// Whether two monitor arrangements are the same.
fn signatures_equal(
    a: &Vec<(MonitorId, i32, i32, i32, i32, u32)>,
    b: &Vec<(MonitorId, i32, i32, i32, i32, u32)>,
) -> (r: bool)
    ensures
        r == (a@ == b@),
{
    if a.len() != b.len() {
        return false;
    }
    let mut i: usize = 0;
    while i < a.len()
        invariant
            0 <= i <= a@.len(),
            a@.len() == b@.len(),
            forall|j: int| 0 <= j < i ==> a@[j] == b@[j],
        decreases a@.len() - i,
    {
        let (id, x, y, width, height, scale) = a[i];
        let (other_id, other_x, other_y, other_width, other_height, other_scale) = b[i];
        if id != other_id || x != other_x || y != other_y || width != other_width || height
            != other_height || scale != other_scale {
            return false;
        }
        i = i + 1;
    }
    assert(a@ =~= b@);
    true
}

/// Whether a batch hides a window.
fn batch_hides(batch: &[WindowPlacement], id: WindowId) -> (r: bool)
    ensures
        r == hides(batch@, id),
{
    let mut i: usize = 0;
    while i < batch.len()
        invariant
            0 <= i <= batch@.len(),
            forall|j: int|
                0 <= j < i ==> !((#[trigger] batch@[j]).window_id == id && batch@[j].visibility
                    != Visibility::Visible),
        decreases batch@.len() - i,
    {
        let placement = batch[i];
        if placement.window_id == id && placement.visibility != Visibility::Visible {
            return true;
        }
        i = i + 1;
    }
    false
}

/// The first placement of a window in a batch.
fn first_placement(batch: &[WindowPlacement], id: WindowId) -> (r: Option<WindowPlacement>)
    ensures
        r == placement_in(batch@, id),
{
    let mut i: usize = 0;
    assert(batch@.skip(0) =~= batch@);
    while i < batch.len()
        invariant
            0 <= i <= batch@.len(),
            placement_in(batch@, id) == placement_in(batch@.skip(i as int), id),
        decreases batch@.len() - i,
    {
        let placement = batch[i];
        if placement.window_id == id {
            return Some(placement);
        }
        assert(batch@.skip(i as int).skip(1) =~= batch@.skip(i + 1));
        i = i + 1;
    }
    None
}

/// A window that a batch hides is placed by it.
proof fn lemma_hidden_is_placed(batch: Seq<WindowPlacement>, id: WindowId)
    requires
        hides(batch, id),
    ensures
        placement_in(batch, id) is Some,
    decreases batch.len(),
{
    if batch[0].window_id != id {
        let i = choose|i: int|
            0 <= i < batch.len() && (#[trigger] batch[i]).window_id == id && batch[i].visibility
                != Visibility::Visible;
        assert(batch.skip(1)[i - 1] == batch[i]);
        lemma_hidden_is_placed(batch.skip(1), id);
    }
}

} // verus!
