//! Focus + Reel layout model: main window plus a slot-machine reel of thumbnails.
//!
//! This is the state machine for the "Focus + Reel" workspace shape:
//!
//! ```text
//! [ F ]  [ R0, R1, R2, R3, ... ]
//! ```
//!
//! where `F` is the single interactive focus window and `R*` is a ring of
//! windows presented as scaled-down thumbnails in a vertical slot-machine reel
//! on one side of the screen.
//!
//! Promoting a reel item is a *cyclic permutation* of the merged
//! `[F, R0, R1, ...]` sequence:
//!
//! ```text
//! [F, R0, R1, R2, R3] -> [R2, R3, F, R0, R1]   (promote R2)
//! ```
//!
//! The reel scrolls continuously: the on-screen item at visual slot `i` sits at
//!
//! ```text
//! y_i = top_inset + (i - reel_offset) * slot_height
//! ```
//!
//! Releasing the wheel snaps `reel_offset` to the nearest integer slot. The
//! layout can be mirrored explicitly via [`ReelSide`] instead of relying on the
//! order windows happen to be in.

use vstd::prelude::*;
use std::collections::{HashSet, VecDeque};

use crate::id_list::{
    as_set, drop_id, find_id, fresh, ids_outside, keep_allowed, keep_first_occurrences,
    lemma_contains_last, lemma_filter_same, lemma_find_id, position_of, ring_set, rotate_left,
    rotated, set_of, wrap_index,
};
use crate::reel_geometry::{reference_geometry, ReelGeometry, ReelSide};
use crate::reel_layout::{
    ids_shown, lemma_slot_row, shown_ids, ReelFrame, ReelLayout, ReelSlotView,
};
use crate::scroll::{
    default_easing, zero_offset, Easing, Offset, Retarget, ScrollAnimation,
    DEFAULT_ANIMATION_DURATION_MS,
};
use crate::types::{fits_i32, holds_i32, max_i32, Rect, WindowId};

verus! {

/// Milliseconds of wheel silence before the reel snaps to the nearest slot.
pub const REEL_SETTLE_DELAY_MS: u64 = 120;

/// Focus + Reel ring state.
///
/// Kept by every operation:
/// - `focus` is never a member of `ring`.
/// - `ring` holds unique window IDs.
/// - `reel_offset` is finite; it may be any real number (the ring is cyclic).
#[derive(Debug, Clone)]
pub struct FocusReelState {
    /// Reel ring in display order. `ring[0]` is the first slot under the
    /// focus window at offset 0.
    ring: VecDeque<WindowId>,
    /// The promoted main window.
    focus: Option<WindowId>,
    /// Continuous scroll offset in slot units.
    reel_offset: Offset,
    /// Which side the reel column occupies.
    side: ReelSide,
    /// Geometry knobs.
    geometry: ReelGeometry,
    /// Active snap animation for the reel offset.
    active_animation: Option<ScrollAnimation>,
    /// A wheel gesture moved the offset and the snap is armed; the engine
    /// waits [`REEL_SETTLE_DELAY_MS`] of frame silence before snapping.
    pending_settle: bool,
    /// Milliseconds elapsed since the last wheel tick (while `pending_settle`).
    ms_since_scroll: u64,
    /// Snap instantly instead of animating (reduced motion).
    reduce_motion: bool,
    /// Snap animation duration in milliseconds.
    duration_ms: u64,
    /// Snap animation easing.
    easing: Easing,
}

/// The value of a [`FocusReelState`].
#[verifier::ext_equal]
pub struct ReelView {
    pub ring: Seq<WindowId>,
    pub focus: Option<WindowId>,
    pub offset: Offset,
    pub side: ReelSide,
    pub geometry: ReelGeometry,
    pub animation: Option<ScrollAnimation>,
    pub pending_settle: bool,
    pub ms_since_scroll: u64,
    pub reduce_motion: bool,
    pub duration_ms: u64,
    pub easing: Easing,
}

impl View for FocusReelState {
    type V = ReelView;

    closed spec fn view(&self) -> ReelView {
        ReelView {
            ring: self.ring@,
            focus: self.focus,
            offset: self.reel_offset,
            side: self.side,
            geometry: self.geometry,
            animation: self.active_animation,
            pending_settle: self.pending_settle,
            ms_since_scroll: self.ms_since_scroll,
            reduce_motion: self.reduce_motion,
            duration_ms: self.duration_ms,
            easing: self.easing,
        }
    }
}

/// Whether a turn of the wheel goes anywhere: a finite distance other than zero
/// to a finite target.
pub open spec fn turns(delta: Offset, step: Retarget) -> bool {
    delta.finite() && !delta.is_nought() && step.target.finite()
}

/// An empty reel.
pub open spec fn empty_reel(geometry: ReelGeometry) -> ReelView {
    ReelView {
        ring: Seq::empty(),
        focus: None,
        offset: zero_offset(),
        side: ReelSide::Right,
        geometry,
        animation: None,
        pending_settle: false,
        ms_since_scroll: 0,
        reduce_motion: false,
        duration_ms: DEFAULT_ANIMATION_DURATION_MS,
        easing: default_easing(),
    }
}

impl ReelView {
    /// The ring holds each window once, and not the focus window.
    pub open spec fn wf(self) -> bool {
        &&& self.ring.no_duplicates()
        &&& self.focus matches Some(id) ==> !self.ring.contains(id)
    }

    /// There is a focus window if there is any window at all. Only a restored
    /// reel can be without.
    pub open spec fn led(self) -> bool {
        self.focus is None ==> self.ring.len() == 0
    }

    /// A window of the reel.
    pub open spec fn member(self, id: WindowId) -> bool {
        self.focus == Some(id) || self.ring.contains(id)
    }

    /// The focus window followed by the ring.
    pub open spec fn merged(self) -> Seq<WindowId> {
        match self.focus {
            Some(id) => seq![id] + self.ring,
            None => self.ring,
        }
    }

    /// There are more ring members than visible slots.
    pub open spec fn scrollable(self) -> bool {
        self.ring.len() > self.geometry.visible_slots
    }

    /// An animation runs or a wheel settle is pending.
    pub open spec fn animating(self) -> bool {
        self.animation is Some || self.pending_settle
    }

    /// The offset reset where the reel no longer has enough items to scroll.
    pub open spec fn clamped(self) -> ReelView {
        if self.scrollable() {
            self
        } else {
            ReelView {
                offset: zero_offset(),
                animation: None,
                pending_settle: false,
                ms_since_scroll: 0,
                ..self
            }
        }
    }

    /// A running animation brought to its end.
    pub open spec fn finished(self) -> ReelView {
        match self.animation {
            Some(animation) => ReelView { offset: animation.target, animation: None, ..self },
            None => self,
        }
    }

    /// Where the scrolling is heading: the target of the running animation, or
    /// the resting offset.
    pub open spec fn heading(self) -> Offset {
        match self.animation {
            Some(animation) => animation.target,
            None => self.offset,
        }
    }

    /// The offset on screen, given where a running animation is.
    pub open spec fn on_screen(self, eased: Offset) -> Offset {
        match self.animation {
            Some(_) => eased,
            None => self.offset,
        }
    }

    /// Scrolling redirected to a new target: at once under reduced motion,
    /// without a duration or when already there; else by an animation from the
    /// offset on screen. A target that is not finite is refused.
    pub open spec fn retargeted(self, step: Retarget) -> ReelView {
        if !step.target.finite() {
            self
        } else if self.reduce_motion || self.duration_ms == 0 || step.close {
            ReelView { offset: step.target, animation: None, ..self }
        } else {
            ReelView {
                animation: Some(
                    ScrollAnimation {
                        start: self.on_screen(step.eased),
                        target: step.target,
                        duration_ms: self.duration_ms,
                        elapsed_ms: 0,
                        easing: self.easing,
                    },
                ),
                ..self
            }
        }
    }

    /// The wheel moved by `delta`. A reel that fits does not scroll, nor does
    /// any without a finite distance to a finite target.
    pub open spec fn scrolled(self, delta: Offset, step: Retarget) -> ReelView {
        if !turns(delta, step) || !self.scrollable() {
            self
        } else {
            ReelView { pending_settle: true, ms_since_scroll: 0, ..self }.retargeted(step)
        }
    }

    /// The offset at which a ring member occupies a visual slot: its position
    /// less the slot.
    pub open spec fn scroll_goal(self, id: WindowId, slot: int) -> Option<int> {
        match find_id(self.ring, id) {
            Some(at) => Some(at - slot),
            None => None,
        }
    }

    /// Scrolled so that a window comes into view. A reel that fits does not
    /// scroll.
    pub open spec fn scrolled_to(self, id: WindowId, step: Retarget) -> ReelView {
        if self.ring.contains(id) && self.scrollable() {
            self.retargeted(step)
        } else {
            self
        }
    }

    /// The wheel gesture ended.
    pub open spec fn settled(self, step: Retarget) -> ReelView {
        ReelView { pending_settle: false, ms_since_scroll: 0, ..self }.retargeted(step)
    }

    /// Silence since the last wheel tick after another `delta_ms`.
    pub open spec fn silence_after(self, delta_ms: u64) -> u64 {
        if self.ms_since_scroll + delta_ms <= u64::MAX {
            (self.ms_since_scroll + delta_ms) as u64
        } else {
            u64::MAX
        }
    }

    /// Another `delta_ms` passed: a running animation advances; once there is
    /// none, an armed settle waits out the delay and then snaps.
    pub open spec fn ticked(self, delta_ms: u64, step: Retarget) -> ReelView {
        if self.animation is Some && self.animation->0.after(delta_ms).running() {
            ReelView { animation: Some(self.animation->0.after(delta_ms)), ..self }
        } else {
            let rested = self.finished();
            let silence = rested.silence_after(delta_ms);
            if !rested.pending_settle {
                rested
            } else if silence < REEL_SETTLE_DELAY_MS {
                ReelView { ms_since_scroll: silence, ..rested }
            } else {
                rested.settled(step)
            }
        }
    }

    /// A window added at the end: as the focus window if there is none.
    pub open spec fn pushed(self, id: WindowId) -> ReelView {
        if self.member(id) {
            self
        } else if self.focus is None {
            ReelView { focus: Some(id), ..self }
        } else {
            ReelView { ring: self.ring.push(id), ..self }
        }
    }

    /// A window removed; the front ring item follows a removed focus window.
    pub open spec fn removed(self, id: WindowId) -> ReelView {
        if self.focus == Some(id) {
            self.next_takes_focus().clamped()
        } else {
            match find_id(self.ring, id) {
                Some(at) => ReelView { ring: self.ring.remove(at), ..self }.clamped(),
                None => self,
            }
        }
    }

    /// The front ring item becomes the focus window; none does when the ring is
    /// empty.
    pub open spec fn next_takes_focus(self) -> ReelView {
        if self.ring.len() > 0 {
            ReelView { focus: Some(self.ring[0]), ring: self.ring.skip(1), ..self }
        } else {
            ReelView { focus: None, ..self }
        }
    }

    /// Position on the ring of an ordinal, which wraps in both directions.
    pub open spec fn ring_place(self, slot: int) -> int {
        slot % self.ring.len() as int
    }

    /// The item at an ordinal promoted to focus; the old focus takes the place
    /// it vacates.
    pub open spec fn promoted(self, slot: int) -> ReelView {
        if self.ring.len() == 0 {
            self
        } else {
            let at = self.ring_place(slot);
            let demoted = match self.focus {
                Some(id) => seq![id],
                None => Seq::empty(),
            };
            ReelView {
                focus: Some(self.ring[at]),
                ring: self.ring.skip(at + 1) + demoted + self.ring.take(at),
                offset: zero_offset(),
                animation: None,
                side: if self.geometry.flip_side_on_promote {
                    self.side.opposite()
                } else {
                    self.side
                },
                ..self
            }
        }
    }

    /// A ring member promoted by its identity.
    pub open spec fn focused_on(self, id: WindowId) -> ReelView {
        if self.focus == Some(id) {
            self
        } else {
            match find_id(self.ring, id) {
                Some(at) => self.promoted(at),
                None => self,
            }
        }
    }

    /// Whether [`ReelView::focused_on`] promotes anything.
    pub open spec fn can_focus(self, id: WindowId) -> bool {
        self.focus != Some(id) && self.ring.contains(id)
    }

    /// The ring turned by `delta` places.
    pub open spec fn turned(self, delta: int) -> ReelView {
        if self.ring.len() < 2 {
            self
        } else {
            ReelView { ring: rotated(self.ring, self.ring_place(delta)), ..self }
        }
    }

    /// A ring member moved by `delta` places, wrapping.
    pub open spec fn shifted(self, id: WindowId, delta: int) -> ReelView {
        match find_id(self.ring, id) {
            Some(at) if delta != 0 && self.ring.len() >= 2 => ReelView {
                ring: self.ring.remove(at).insert(self.ring_place(at + delta), id),
                ..self
            },
            _ => self,
        }
    }

    /// Windows that are no longer listed pruned; if the focus window is one of
    /// them the next ring member takes focus.
    pub open spec fn pruned(self, ordered: Seq<WindowId>) -> ReelView {
        let kept = ReelView {
            ring: self.ring.filter(|id: WindowId| ordered.contains(id)),
            ..self
        };
        if self.focus matches Some(id) && !ordered.contains(id) {
            kept.next_takes_focus()
        } else {
            kept
        }
    }

    /// Listed windows that are new appended in list order, the first of them as
    /// the focus window if there is none.
    pub open spec fn extended(self, ordered: Seq<WindowId>) -> ReelView {
        let new = fresh(self.ring.to_set() + as_set(self.focus), ordered);
        if self.focus is None && new.len() > 0 {
            ReelView { focus: Some(new[0]), ring: self.ring + new.skip(1), ..self }
        } else {
            ReelView { ring: self.ring + new, ..self }
        }
    }

    /// A listed hint taken as the focus window if there is none.
    pub open spec fn hinted(self, ordered: Seq<WindowId>, hint: Option<WindowId>) -> ReelView {
        match hint {
            Some(id) if self.focus is None && ordered.contains(id) => ReelView {
                focus: Some(id),
                ring: self.ring.filter(|x: WindowId| x != id),
                ..self
            },
            _ => self,
        }
    }

    /// Repeated ring members, and the focus window, dropped from the ring.
    pub open spec fn deduplicated(self) -> ReelView {
        ReelView { ring: fresh(as_set(self.focus), self.ring), ..self }
    }

    /// Membership synchronized against the ordered window list.
    pub open spec fn synchronized(self, ordered: Seq<WindowId>, hint: Option<WindowId>) -> ReelView {
        self.pruned(ordered).hinted(ordered, hint).extended(ordered).deduplicated().clamped()
    }
}

impl Default for FocusReelState {
    fn default() -> (r: Self)
        ensures
            r@ == empty_reel(reference_geometry()),
    {
        let r = FocusReelState {
            ring: VecDeque::new(),
            focus: None,
            reel_offset: Offset::zero(),
            side: ReelSide::default(),
            geometry: ReelGeometry::default(),
            active_animation: None,
            pending_settle: false,
            ms_since_scroll: 0,
            reduce_motion: false,
            duration_ms: DEFAULT_ANIMATION_DURATION_MS,
            easing: Easing::default(),
        };
        assert(r@ =~= empty_reel(reference_geometry()));
        r
    }
}

impl FocusReelState {
    /// New empty reel with default geometry.
    pub fn new() -> (r: Self)
        ensures
            r@ == empty_reel(reference_geometry()),
    {
        FocusReelState::default()
    }

    /// New empty reel with explicit geometry.
    pub fn with_geometry(geometry: ReelGeometry) -> (r: Self)
        ensures
            r@ == empty_reel(geometry.clean()),
    {
        let mut r = FocusReelState::default();
        r.geometry = geometry.sanitized();
        r
    }

    /// A reel restored from what persists of one. Nothing animates, and the
    /// animation is unconfigured: without a duration. What no reel holds is
    /// mended: ring members that are repeated or in focus, and an offset that is
    /// not finite. A missing focus window stays missing.
    pub fn restored(
        ring: Vec<WindowId>,
        focus: Option<WindowId>,
        reel_offset: Offset,
        side: ReelSide,
        geometry: ReelGeometry,
    ) -> (r: Self)
        ensures
            r@ == (ReelView {
                ring: ring@,
                focus,
                offset: if reel_offset.finite() {
                    reel_offset
                } else {
                    zero_offset()
                },
                side,
                geometry,
                duration_ms: 0,
                ..empty_reel(geometry)
            }).deduplicated(),
    {
        let mut members: VecDeque<WindowId> = VecDeque::new();
        let mut i: usize = 0;
        while i < ring.len()
            invariant
                0 <= i <= ring@.len(),
                members@ == ring@.take(i as int),
            decreases ring@.len() - i,
        {
            members.push_back(ring[i]);
            i = i + 1;
            assert(members@ =~= ring@.take(i as int));
        }
        assert(members@ =~= ring@);
        keep_first_occurrences(&mut members, focus);
        FocusReelState {
            ring: members,
            focus,
            reel_offset: if reel_offset.is_finite() {
                reel_offset
            } else {
                Offset::zero()
            },
            side,
            geometry,
            active_animation: None,
            pending_settle: false,
            ms_since_scroll: 0,
            reduce_motion: false,
            duration_ms: 0,
            easing: Easing::default(),
        }
    }

    /// Current geometry.
    pub fn geometry(&self) -> (r: ReelGeometry)
        ensures
            r == self@.geometry,
    {
        self.geometry
    }

    /// Replace geometry.
    pub fn set_geometry(&mut self, geometry: ReelGeometry)
        ensures
            final(self)@ == (ReelView { geometry: geometry.clean(), ..old(self)@ }),
    {
        self.geometry = geometry.sanitized();
    }

    /// Current side.
    pub fn side(&self) -> (r: ReelSide)
        ensures
            r == self@.side,
    {
        self.side
    }

    /// Set the reel side.
    pub fn set_side(&mut self, side: ReelSide)
        ensures
            final(self)@ == (ReelView { side, ..old(self)@ }),
    {
        self.side = side;
    }

    /// Toggle the reel side (explicit mirror layout).
    pub fn flip_side(&mut self) -> (r: ReelSide)
        ensures
            final(self)@ == (ReelView { side: old(self)@.side.opposite(), ..old(self)@ }),
            r == old(self)@.side.opposite(),
    {
        self.side = self.side.flipped();
        self.side
    }

    /// Focus window currently occupying the main rect.
    pub fn focus(&self) -> (r: Option<WindowId>)
        ensures
            r == self@.focus,
    {
        self.focus
    }

    /// Number of ring members (does not count the focus window).
    pub fn reel_len(&self) -> (r: usize)
        ensures
            r == self@.ring.len(),
    {
        self.ring.len()
    }

    /// Total managed windows (focus + ring).
    pub fn len(&self) -> (r: usize)
        requires
            self@.merged().len() <= usize::MAX,
        ensures
            r == self@.merged().len(),
    {
        if self.focus.is_some() {
            self.ring.len() + 1
        } else {
            self.ring.len()
        }
    }

    /// Whether there are no windows at all.
    pub fn is_empty(&self) -> (r: bool)
        ensures
            r == (self@.merged().len() == 0),
    {
        self.focus.is_none() && self.ring.len() == 0
    }

    /// Ring members in display order.
    pub fn ring(&self) -> (r: Vec<WindowId>)
        ensures
            r@ == self@.ring,
    {
        let mut members: Vec<WindowId> = Vec::new();
        let mut i: usize = 0;
        while i < self.ring.len()
            invariant
                0 <= i <= self.ring@.len(),
                members@ == self.ring@.take(i as int),
            decreases self.ring@.len() - i,
        {
            members.push(self.ring[i]);
            i = i + 1;
            assert(members@ =~= self.ring@.take(i as int));
        }
        assert(members@ =~= self.ring@);
        members
    }

    /// Position of a window in the ring.
    pub fn ring_position(&self, window_id: WindowId) -> (r: Option<usize>)
        ensures
            match r {
                Some(at) => find_id(self@.ring, window_id) == Some(at as int),
                None => find_id(self@.ring, window_id) is None,
            },
    {
        position_of(&self.ring, window_id)
    }

    /// Whether a window (focus or ring member) belongs to this reel.
    pub fn contains(&self, window_id: WindowId) -> (r: bool)
        ensures
            r == self@.member(window_id),
    {
        proof {
            lemma_find_id(self.ring@, window_id);
        }
        self.focus == Some(window_id) || position_of(&self.ring, window_id).is_some()
    }

    /// Raw (possibly animating) reel offset.
    pub fn reel_offset(&self) -> (r: Offset)
        ensures
            r == self@.offset,
    {
        self.reel_offset
    }

    /// Offset used for rendering this frame, given where a running animation
    /// currently is.
    pub fn effective_offset(&self, eased: Offset) -> (r: Offset)
        ensures
            r == self@.on_screen(eased),
    {
        match self.active_animation {
            Some(_) => eased,
            None => self.reel_offset,
        }
    }

    /// The running animation.
    pub fn animation(&self) -> (r: Option<ScrollAnimation>)
        ensures
            r == self@.animation,
    {
        self.active_animation
    }

    /// Where the scrolling is heading: the target of the running animation, or
    /// the resting offset.
    pub fn scroll_heading(&self) -> (r: Offset)
        ensures
            r == self@.heading(),
    {
        match self.active_animation {
            Some(animation) => animation.target,
            None => self.reel_offset,
        }
    }

    /// Whether a snap animation or a pending wheel settle is active.
    pub fn is_animating(&self) -> (r: bool)
        ensures
            r == self@.animating(),
    {
        self.active_animation.is_some() || self.pending_settle
    }

    /// Configure reduced motion (snap instantly).
    pub fn set_reduce_motion(&mut self, reduce: bool)
        ensures
            final(self)@ == if reduce {
                ReelView { reduce_motion: reduce, ..old(self)@ }.finished()
            } else {
                ReelView { reduce_motion: reduce, ..old(self)@ }
            },
    {
        self.reduce_motion = reduce;
        if reduce {
            self.finish_animation();
        }
    }

    /// Configure the snap animation.
    pub fn set_animation(&mut self, duration_ms: u64, easing: Easing)
        ensures
            final(self)@ == (ReelView { duration_ms, easing, ..old(self)@ }),
    {
        self.duration_ms = duration_ms;
        self.easing = easing;
    }

    /// Append a window to the ring without touching focus.
    ///
    /// No-op for duplicates and for the current focus. The first window of an
    /// empty reel becomes the focus.
    pub fn push_back(&mut self, window_id: WindowId)
        ensures
            final(self)@ == old(self)@.pushed(window_id),
    {
        if self.contains(window_id) {
            return;
        }
        if self.focus.is_none() {
            self.focus = Some(window_id);
            return;
        }
        self.ring.push_back(window_id);
    }

    /// Remove a window from the reel.
    ///
    /// If the removed window was the focus, the front ring item is promoted
    /// (the reel advances by one). Returns the window that ended up focused.
    pub fn remove(&mut self, window_id: WindowId) -> (r: Option<WindowId>)
        ensures
            final(self)@ == old(self)@.removed(window_id),
            r == final(self)@.focus,
    {
        if self.focus == Some(window_id) {
            self.focus = self.ring.pop_front();
            assert(self@ =~= old(self)@.next_takes_focus());
            self.clamp_offset_for_membership();
            return self.focus;
        }
        if let Some(at) = position_of(&self.ring, window_id) {
            self.ring.remove(at);
            self.clamp_offset_for_membership();
        }
        self.focus
    }

    /// Promote the item at a reel ordinal to focus via cyclic permutation.
    ///
    /// `slot` is the ring ordinal `i` from `y_i = top + (i - reel_offset) * h`
    /// (what [`FocusReelState::hit_test`] returns). The result matches the
    /// merged-deque rotation `[F, R0, ...] -> [promoted, following..., F,
    /// preceding...]`.
    ///
    /// Returns the new focus window.
    pub fn promote_slot(&mut self, slot: i64) -> (r: Option<WindowId>)
        ensures
            final(self)@ == old(self)@.promoted(slot as int),
            r == final(self)@.focus,
    {
        let n: usize = self.ring.len();
        if n == 0 {
            return self.focus;
        }
        let idx: usize = wrap_index(slot, n);
        proof {
            lemma_small_place(self@, idx as int);
        }
        self.promote_place(idx)
    }

    /// Promote the ring item at a position.
    fn promote_place(&mut self, idx: usize) -> (r: Option<WindowId>)
        requires
            idx < old(self)@.ring.len(),
        ensures
            final(self)@ == old(self)@.promoted(idx as int),
            r == final(self)@.focus,
    {
        let ghost ring = self.ring@;
        let n: usize = self.ring.len();
        proof {
            lemma_small_place(self@, idx as int);
        }
        rotate_left(&mut self.ring, idx);
        let promoted = self.ring.pop_front();
        assert(self.ring@ =~= ring.skip(idx + 1) + ring.take(idx as int));
        if let Some(old_focus) = self.focus {
            // The old focus takes the promoted item's vacated ring position:
            // the ring is now what followed the promoted item and then what
            // preceded it, and the promoted item sat between the two.
            let insert_at: usize = n - 1 - idx;
            self.ring.insert(insert_at, old_focus);
            assert(self.ring@ =~= ring.skip(idx + 1) + seq![old_focus] + ring.take(idx as int));
        } else {
            assert(self.ring@ =~= ring.skip(idx + 1) + Seq::empty() + ring.take(idx as int));
        }
        self.focus = promoted;
        // Present the reel from the top after a promotion.
        self.reel_offset = Offset::zero();
        self.active_animation = None;
        if self.geometry.flip_side_on_promote {
            self.side = self.side.flipped();
        }
        self.focus
    }

    /// Promote the next ring item (the one directly under the focus window).
    pub fn focus_next(&mut self) -> (r: Option<WindowId>)
        ensures
            final(self)@ == old(self)@.promoted(0),
            r == final(self)@.focus,
    {
        self.promote_slot(0)
    }

    /// Promote the last ring item (wrap backwards through the ring).
    pub fn focus_prev(&mut self) -> (r: Option<WindowId>)
        ensures
            final(self)@ == old(self)@.promoted(old(self)@.ring.len() - 1),
            r == final(self)@.focus,
    {
        if self.ring.len() == 0 {
            return self.focus;
        }
        self.promote_place(self.ring.len() - 1)
    }

    /// Promote `window_id` if it is a ring member. No-op for the focus.
    pub fn focus_window(&mut self, window_id: WindowId) -> (r: bool)
        ensures
            final(self)@ == old(self)@.focused_on(window_id),
            r == old(self)@.can_focus(window_id),
    {
        proof {
            lemma_find_id(self.ring@, window_id);
        }
        if self.focus == Some(window_id) {
            return false;
        }
        match position_of(&self.ring, window_id) {
            Some(at) => {
                self.promote_place(at);
                true
            },
            None => false,
        }
    }

    /// Rotate the whole ring by `delta` positions (positive advances items
    /// toward the top of the reel). The focus window is unaffected, so this is
    /// the reel's equivalent of "move the shelf" for the strip's
    /// `move_window_up/down/left/right` commands.
    /// Returns whether anything moved.
    pub fn rotate_ring(&mut self, delta: i64) -> (r: bool)
        ensures
            final(self)@ == old(self)@.turned(delta as int),
            r == (old(self)@.ring.len() >= 2 && old(self)@.ring_place(delta as int) != 0),
    {
        let n: usize = self.ring.len();
        if n < 2 {
            return false;
        }
        let step: usize = wrap_index(delta, n);
        rotate_left(&mut self.ring, step);
        step != 0
    }

    /// Move a ring member `delta` positions through the ring (wrapping).
    /// Has no effect on the focus window.
    pub fn move_in_ring(&mut self, window_id: WindowId, delta: i64) -> (r: bool)
        requires
            match find_id(old(self)@.ring, window_id) {
                Some(at) => i64::MIN <= at + delta <= i64::MAX && at <= i64::MAX,
                None => true,
            },
        ensures
            final(self)@ == old(self)@.shifted(window_id, delta as int),
            r == (delta != 0 && old(self)@.ring.len() >= 2 && old(self)@.ring.contains(window_id)),
    {
        proof {
            lemma_find_id(self.ring@, window_id);
        }
        if delta == 0 {
            return false;
        }
        let n: usize = self.ring.len();
        if n < 2 {
            return false;
        }
        match position_of(&self.ring, window_id) {
            Some(at) => {
                self.ring.remove(at);
                let target: usize = wrap_index(at as i64 + delta, n);
                self.ring.insert(target, window_id);
                true
            },
            None => false,
        }
    }

    /// Whether the reel has more items than the configured visible slots.
    ///
    /// A reel that fits entirely must not scroll: wrapping would only shuffle
    /// the same items into empty space.
    pub fn can_scroll(&self) -> (r: bool)
        ensures
            r == self@.scrollable(),
    {
        self.ring.len() > self.geometry.visible_slots
    }

    /// Reset the offset when the reel no longer has enough items to scroll.
    fn clamp_offset_for_membership(&mut self)
        ensures
            final(self)@ == old(self)@.clamped(),
    {
        if !self.can_scroll() {
            self.reel_offset = Offset::zero();
            self.active_animation = None;
            self.pending_settle = false;
            self.ms_since_scroll = 0;
        }
    }

    /// Scroll the reel by `delta` slots (positive scrolls toward later items).
    ///
    /// The offset stays continuous; call [`FocusReelState::settle`] when the
    /// wheel gesture ends to snap to the nearest slot. The target of `step` is
    /// [`FocusReelState::scroll_heading`] plus `delta`: rapid wheel ticks add
    /// up while an animation is in flight instead of fighting each other.
    pub fn scroll_by(&mut self, delta: Offset, step: Retarget)
        ensures
            final(self)@ == old(self)@.scrolled(delta, step),
    {
        if !delta.is_finite() || delta.is_zero() {
            return;
        }
        // The offset has to stay finite, however far the wheel is turned.
        if !step.target.is_finite() {
            return;
        }
        // A reel with `visible_slots` or fewer ring members fits entirely;
        // scrolling it would only shuffle items into empty space.
        if !self.can_scroll() {
            return;
        }
        self.pending_settle = true;
        self.ms_since_scroll = 0;
        self.animate_offset_to(step);
    }

    /// The offset to scroll to so that `window_id` occupies the given visual
    /// slot, if the window is on the ring.
    pub fn scroll_target(&self, window_id: WindowId, slot: usize) -> (r: Option<i128>)
        ensures
            match r {
                Some(target) => self@.scroll_goal(window_id, slot as int) == Some(target as int),
                None => self@.scroll_goal(window_id, slot as int) is None,
            },
    {
        match position_of(&self.ring, window_id) {
            Some(at) => Some(at as i128 - slot as i128),
            None => None,
        }
    }

    /// Scroll so `window_id` occupies a given visual slot. The target of `step`
    /// is the window's [`FocusReelState::scroll_target`] for that slot. Returns
    /// whether the window is on the ring; a reel that fits stays where it is.
    pub fn scroll_to_window(&mut self, window_id: WindowId, step: Retarget) -> (r: bool)
        ensures
            r == old(self)@.ring.contains(window_id),
            final(self)@ == old(self)@.scrolled_to(window_id, step),
    {
        proof {
            lemma_find_id(self.ring@, window_id);
        }
        if position_of(&self.ring, window_id).is_none() {
            return false;
        }
        if self.can_scroll() {
            self.animate_offset_to(step);
        }
        true
    }

    /// Snap to the nearest integer slot, animating unless reduced motion.
    ///
    /// The target of `step` is [`FocusReelState::scroll_heading`] rounded: an
    /// explicit settle mid-scroll snaps to where the wheel was heading.
    pub fn settle(&mut self, step: Retarget)
        ensures
            final(self)@ == old(self)@.settled(step),
    {
        self.pending_settle = false;
        self.ms_since_scroll = 0;
        self.animate_offset_to(step);
    }

    /// Advance a running scroll animation or the wheel settle timer.
    /// Returns true while the reel still needs animation frames.
    ///
    /// `step` is that of [`FocusReelState::settle`], for the case that the
    /// timer expires; it starts from [`FocusReelState::scroll_heading`], where
    /// a running animation has come to rest by then.
    pub fn tick(&mut self, delta_ms: u64, step: Retarget) -> (r: bool)
        ensures
            final(self)@ == old(self)@.ticked(delta_ms, step),
            r == final(self)@.animating(),
    {
        if let Some(mut animation) = self.active_animation {
            let running = animation.tick(delta_ms);
            self.active_animation = Some(animation);
            if running {
                return true;
            }
            self.finish_animation();
        }
        if !self.pending_settle {
            return false;
        }
        self.ms_since_scroll = self.ms_since_scroll.saturating_add(delta_ms);
        if self.ms_since_scroll < REEL_SETTLE_DELAY_MS {
            return true;
        }
        self.settle(step);
        self.active_animation.is_some()
    }

    /// Cancel any snap animation, leaving the offset where it is.
    pub fn stop_animation(&mut self)
        ensures
            final(self)@ == (ReelView {
                animation: None,
                pending_settle: false,
                ms_since_scroll: 0,
                ..old(self)@
            }),
    {
        self.active_animation = None;
        self.pending_settle = false;
        self.ms_since_scroll = 0;
    }

    fn animate_offset_to(&mut self, step: Retarget)
        ensures
            final(self)@ == old(self)@.retargeted(step),
    {
        if !step.target.is_finite() {
            return;
        }
        // Start from the currently rendered position so retargeting mid-scroll
        // is continuous instead of jumping back to the animation's start.
        let start = self.effective_offset(step.eased);
        if self.reduce_motion || self.duration_ms == 0 || step.close {
            self.reel_offset = step.target;
            self.active_animation = None;
            return;
        }
        self.active_animation = Some(
            ScrollAnimation::new(start, step.target, self.duration_ms, self.easing),
        );
    }

    fn finish_animation(&mut self)
        ensures
            final(self)@ == old(self)@.finished(),
    {
        if let Some(animation) = self.active_animation {
            self.reel_offset = animation.target;
            self.active_animation = None;
        }
    }

    /// Whether the layout of a frame can be computed for a viewport.
    pub fn can_lay_out(&self, viewport: Rect, frame: &ReelFrame) -> (r: bool)
        ensures
            r == (self@.frame_fits(viewport, *frame) && self@.column_fits(viewport)),
    {
        let geometry = self.geometry.sanitized();
        if !geometry.fits(viewport, self.side) {
            return false;
        }
        let (_, reel_x) = geometry.side_x(viewport, self.side);
        let slot_w: i32 = geometry.slot_width_effective();
        let band = geometry.reel_band(viewport);
        if !holds_i32(reel_x as i64 + slot_w as i64) || !holds_i32(
            band.y as i64 + band.height as i64,
        ) {
            return false;
        }
        if self.ring.len() == 0 {
            return true;
        }
        let rows: usize = frame.drops.len();
        if rows < 3 || rows - 3 != geometry.visible_slots || rows as u64 > i64::MAX as u64
            || frame.base == i64::MIN || frame.base - 1 > i64::MAX - rows as i64 {
            return false;
        }
        let content_h: i32 = max_i32(geometry.resolved_slot_height(viewport) - geometry.gap, 1);
        let mut k: usize = 0;
        while k < rows
            invariant
                0 <= k <= rows,
                rows == frame.drops@.len(),
                rows == self@.row_count(),
                self@.ring.len() > 0,
                geometry == self@.geometry.clean(),
                band == geometry.band(viewport),
                geometry.band_fits(viewport),
                content_h == self@.content_rise(viewport),
                forall|j: int|
                    0 <= j < k ==> fits_i32(#[trigger] self@.row_top(viewport, *frame, j))
                        && fits_i32(
                        self@.row_top(viewport, *frame, j) + self@.content_rise(viewport),
                    ),
            decreases rows - k,
        {
            let top: i64 = band.y as i64 + frame.drops[k] as i64;
            assert(top == self@.row_top(viewport, *frame, k as int));
            if !holds_i32(top) || !holds_i32(top + content_h as i64) {
                return false;
            }
            k = k + 1;
        }
        true
    }

    /// Compute the layout for a viewport.
    pub fn layout(&self, viewport: Rect, frame: &ReelFrame) -> (r: ReelLayout)
        requires
            self@.frame_fits(viewport, *frame),
        ensures
            r@ == self@.arranged(viewport, *frame),
    {
        let geometry = self.geometry.sanitized();
        let (focus_x, reel_x) = geometry.side_x(viewport, self.side);
        let band = geometry.reel_band(viewport);
        let main_rect = Rect::new(
            focus_x,
            band.y,
            geometry.focus_width(viewport),
            geometry.focus_height(viewport),
        );
        let slot_w: i32 = geometry.slot_width_effective();
        let slots = self.visible_rows(viewport, frame, geometry, reel_x);
        let visible_ids = ids_shown(&slots);
        let hidden = ids_outside(&self.ring, &visible_ids);
        proof {
            lemma_filter_same(
                self.ring@,
                |id: WindowId| !visible_ids@.contains(id),
                |id: WindowId| !shown_ids(slots@).contains(id),
            );
        }
        let focus = match self.focus {
            Some(id) => Some((id, main_rect)),
            None => None,
        };
        ReelLayout {
            focus,
            main_rect,
            slots,
            hidden,
            side: self.side,
            offset: frame.offset,
            column_rect: Rect::new(reel_x, band.y, slot_w, band.height),
        }
    }

    /// The slots shown in a frame, top to bottom.
    fn visible_rows(
        &self,
        viewport: Rect,
        frame: &ReelFrame,
        geometry: ReelGeometry,
        reel_x: i32,
    ) -> (r: Vec<ReelSlotView>)
        requires
            self@.frame_fits(viewport, *frame),
            geometry == self@.geometry.clean(),
            reel_x == geometry.reel_start(viewport, self@.side),
        ensures
            r@ == self@.frame_slots(viewport, *frame),
    {
        broadcast use vstd::std_specs::hash::group_hash_axioms;

        let slot_w: i32 = geometry.slot_width_effective();
        let slot_h: i32 = geometry.resolved_slot_height(viewport);
        // Each slot gives up `gap` of content height for the padding between
        // it and the next slot; the stride stays `slot_h` so the first slot
        // remains flush with the top edge.
        let content_h: i32 = max_i32(slot_h - geometry.gap, 1);
        let band = geometry.reel_band(viewport);
        let n: usize = self.ring.len();
        let mut slots: Vec<ReelSlotView> = Vec::new();
        if n == 0 {
            return slots;
        }
        let band_end: i32 = band.bottom();
        assert(0 <= geometry.visible_slots * slot_h <= usize::MAX * i32::MAX) by (nonlinear_arith)
            requires
                0 <= slot_h <= i32::MAX,
                0 <= geometry.visible_slots <= usize::MAX,
        ;
        let reach: i128 = geometry.visible_slots as i128 * slot_h as i128;
        let mut shown: HashSet<usize> = HashSet::new();
        let rows: usize = frame.drops.len();
        let mut k: usize = 0;
        // One row lies beyond each edge so partially-visible entries render
        // (and clip) instead of popping in.
        while k < rows
            invariant
                0 <= k <= rows,
                n == self.ring@.len(),
                n > 0,
                rows == frame.drops@.len(),
                self@.frame_fits(viewport, *frame),
                geometry == self@.geometry.clean(),
                reel_x == geometry.reel_start(viewport, self@.side),
                slot_w == geometry.slot_extent(),
                content_h == self@.content_rise(viewport),
                band == geometry.band(viewport),
                band_end == band.end_y(),
                reach == self@.reach(viewport),
                slots@ == self@.slots_upto(viewport, *frame, k as nat),
                forall|p: usize| #[trigger]
                    shown@.contains(p) <==> exists|j: int|
                        0 <= j < k && #[trigger] self@.row_in_band(viewport, *frame, j)
                            && self@.row_place(*frame, j) == p,
            decreases rows - k,
        {
            broadcast use vstd::std_specs::hash::group_hash_axioms;

            let ordinal: i64 = frame.base - 1 + k as i64;
            let ring_idx: usize = wrap_index(ordinal, n);
            assert(ring_idx == self@.row_place(*frame, k as int));
            let ghost top = self@.row_top(viewport, *frame, k as int);
            assert(fits_i32(top) && fits_i32(top + content_h));
            let y: i32 = band.y + frame.drops[k];
            let rect = Rect::new(reel_x, y, slot_w, content_h);
            let ghost before = shown@;
            // Entries fully outside the band, or past the last visible slot, are
            // culled before deduping, so a culled duplicate can't hide the
            // on-screen copy. With fewer ring
            // members than slots the wheel would repeat items; each is shown
            // once.
            if y + content_h > band.y && y < band_end && (frame.drops[k] as i128) < reach {
                assert(self@.row_in_band(viewport, *frame, k as int));
                let first = shown.insert(ring_idx);
                if first {
                    let full_top = y >= band.y;
                    let full_bottom = y + content_h <= band_end;
                    slots.push(
                        ReelSlotView {
                            window_id: self.ring[ring_idx],
                            slot: ordinal,
                            rect,
                            fully_visible: full_top && full_bottom,
                        },
                    );
                }
                assert(first == self@.row_shown(viewport, *frame, k as int)) by {
                    if self@.row_shown(viewport, *frame, k as int) && before.contains(ring_idx) {
                        let j = choose|j: int|
                            0 <= j < k && #[trigger] self@.row_in_band(viewport, *frame, j)
                                && self@.row_place(*frame, j) == ring_idx;
                        assert(false);
                    }
                }
                assert forall|p: usize| #[trigger]
                    shown@.contains(p) <==> exists|j: int|
                        0 <= j < k + 1 && #[trigger] self@.row_in_band(viewport, *frame, j)
                            && self@.row_place(*frame, j) == p by {
                    if before.contains(p) {
                        let j = choose|j: int|
                            0 <= j < k && #[trigger] self@.row_in_band(viewport, *frame, j)
                                && self@.row_place(*frame, j) == p;
                        assert(self@.row_in_band(viewport, *frame, j));
                    }
                }
            } else {
                assert(!self@.row_in_band(viewport, *frame, k as int));
            }
            k = k + 1;
        }
        slots
    }

    /// Hit-test a screen point against the rendered reel slots.
    ///
    /// Returns the ring ordinal and window under the point. Fractional
    /// offsets are respected, so clicks during a scroll resolve to the item
    /// actually rendered at that pixel row. Only the area covered by a
    /// rendered slot counts: clicking the blank part of a partially-filled
    /// reel column (fewer ring members than the column can show) is not a hit
    /// and must not wrap around the ring.
    pub fn hit_test(&self, viewport: Rect, x: i32, y: i32, frame: &ReelFrame) -> (r: Option<
        (i64, WindowId),
    >)
        requires
            self@.ring.len() > 0 ==> {
                &&& self@.frame_fits(viewport, *frame)
                &&& self@.column_fits(viewport)
            },
        ensures
            r == self@.hit(viewport, *frame, x, y),
    {
        if self.ring.len() == 0 {
            return None;
        }
        let layout = self.layout(viewport, frame);
        proof {
            lemma_slots_fit(self@, viewport, *frame);
        }
        layout.slot_at(x, y)
    }

    /// Synchronize ring membership against the authoritative ordered window
    /// list for the workspace.
    ///
    /// - Removed windows are pruned; if the focus disappeared the next ring
    ///   member is promoted.
    /// - New windows are appended in list order.
    /// - `focus_hint` (normally the workspace's focused window) seeds focus
    ///   only when the reel currently has none; explicit promotion goes
    ///   through [`FocusReelState::focus_window`] so ordering is preserved.
    pub fn sync_membership(&mut self, ordered: &[WindowId], focus_hint: Option<WindowId>)
        ensures
            final(self)@ == old(self)@.synchronized(ordered@, focus_hint),
    {
        broadcast use vstd::std_specs::hash::group_hash_axioms;

        let allowed = set_of(ordered);
        let ghost initial = self@;
        keep_allowed(&mut self.ring, &allowed);
        proof {
            lemma_filter_same(
                initial.ring,
                |id: WindowId| allowed@.contains(id),
                |id: WindowId| ordered@.contains(id),
            );
        }
        if let Some(id) = self.focus {
            if !allowed.contains(&id) {
                self.focus = self.ring.pop_front();
                assert(self@ =~= initial.pruned(ordered@));
            }
        }
        assert(self@ =~= initial.pruned(ordered@));
        let ghost pruned = self@;
        if self.focus.is_none() {
            if let Some(hint) = focus_hint {
                if allowed.contains(&hint) {
                    self.focus = Some(hint);
                    drop_id(&mut self.ring, hint);
                }
            }
        }
        assert(self@ =~= pruned.hinted(ordered@, focus_hint));
        self.append_new(ordered);
        // Drop duplicates defensively (ring is authoritative, dedupe in place).
        keep_first_occurrences(&mut self.ring, self.focus);
        self.clamp_offset_for_membership();
    }

    /// Append the listed windows that the reel does not hold yet.
    fn append_new(&mut self, ordered: &[WindowId])
        ensures
            final(self)@ == old(self)@.extended(ordered@),
    {
        broadcast use vstd::std_specs::hash::group_hash_axioms;

        let ghost initial = self@;
        let ghost held = initial.ring.to_set() + as_set(initial.focus);
        let mut present = ring_set(&self.ring);
        if let Some(focus) = self.focus {
            present.insert(focus);
        }
        assert(present@ =~= held);
        let mut i: usize = 0;
        assert(ordered@.take(0) =~= Seq::empty());
        assert(self@ =~= initial.extended(ordered@.take(0)));
        assert(held + fresh(held, ordered@.take(0)).to_set() =~= held);
        while i < ordered.len()
            invariant
                0 <= i <= ordered@.len(),
                held == initial.ring.to_set() + as_set(initial.focus),
                self@ == initial.extended(ordered@.take(i as int)),
                present@ == held + fresh(held, ordered@.take(i as int)).to_set(),
            decreases ordered@.len() - i,
        {
            broadcast use vstd::std_specs::hash::group_hash_axioms;

            let ghost new = fresh(held, ordered@.take(i as int));
            let ghost more = fresh(held, ordered@.take(i + 1));
            let id: WindowId = ordered[i];
            assert(ordered@.take(i + 1).drop_last() =~= ordered@.take(i as int));
            assert(ordered@.take(i + 1).last() == id);
            let unseen = present.insert(id);
            assert(unseen ==> more == new.push(id));
            assert(!unseen ==> more == new);
            if unseen {
                if self.focus.is_none() {
                    self.focus = Some(id);
                    assert(new.len() == 0);
                    assert(more.skip(1) =~= Seq::empty());
                } else {
                    self.ring.push_back(id);
                    assert(initial.focus is None ==> more.skip(1) =~= new.skip(1).push(id));
                }
                assert(self@.ring =~= initial.extended(ordered@.take(i + 1)).ring);
                assert(more.to_set() =~= new.to_set().insert(id)) by {
                    assert forall|x: WindowId| more.contains(x) == (new.contains(x) || x == id) by {
                        lemma_contains_last(more, x);
                        assert(more.drop_last() =~= new);
                    }
                }
            }
            assert(present@ =~= held + more.to_set());
            i = i + 1;
        }
        assert(ordered@.take(i as int) =~= ordered@);
    }
}

/// A position on the ring is the place of its own ordinal.
proof fn lemma_small_place(reel: ReelView, at: int)
    requires
        0 <= at < reel.ring.len(),
    ensures
        reel.ring_place(at) == at,
{
    vstd::arithmetic::div_mod::lemma_small_mod(at as nat, reel.ring.len());
}

/// The slots of a frame that can be computed have edges that can be computed.
proof fn lemma_slots_fit(reel: ReelView, viewport: Rect, frame: ReelFrame)
    requires
        reel.ring.len() > 0,
        reel.frame_fits(viewport, frame),
        reel.column_fits(viewport),
    ensures
        forall|i: int|
            0 <= i < reel.frame_slots(viewport, frame).len() ==> fits_i32(
                (#[trigger] reel.frame_slots(viewport, frame)[i]).rect.end_x(),
            ) && fits_i32(reel.frame_slots(viewport, frame)[i].rect.end_y()),
{
    let slots = reel.frame_slots(viewport, frame);
    assert forall|i: int| 0 <= i < slots.len() implies fits_i32((#[trigger] slots[i]).rect.end_x())
        && fits_i32(slots[i].rect.end_y()) by {
        let k = lemma_slot_row(reel, viewport, frame, reel.row_count() as nat, i);
        assert(fits_i32(reel.row_top(viewport, frame, k)));
    }
}

} // verus!
