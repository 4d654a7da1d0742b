//! A workspace running the Focus + Reel layout model.
//!
//! A [`Workspace`] keeps its column list as the authoritative *set* of managed
//! windows. When it runs in reel mode, the [`FocusReelState`] it holds becomes
//! the geometry and focus source of truth: the columns are only membership.

use vstd::prelude::*;
use std::collections::HashSet;

use crate::focus_reel::{empty_reel, FocusReelState, ReelView};
use crate::id_list::{find_id, lemma_filter_push, lemma_find_id, position_in};
use crate::reel_geometry::{ReelGeometry, ReelSide};
use crate::reel_laws::{
    law_focusing_a_window_brings_it_to_focus, law_sync_holds_exactly_the_listed_windows,
    law_sync_keeps_order_and_appends,
};
use crate::reel_layout::{ReelFrame, ReelLayout};
use crate::scroll::{Easing, Offset, Retarget};
use crate::types::{Rect, WindowId};

verus! {

/// A column of windows.
#[derive(Debug, Clone)]
pub struct Column {
    pub windows: Vec<WindowId>,
}

/// A workspace: its windows in columns, which of them has focus, and the reel
/// if it runs that model.
#[derive(Debug)]
pub struct Workspace {
    pub columns: Vec<Column>,
    pub minimized_windows: HashSet<WindowId>,
    pub floating: HashSet<WindowId>,
    pub fullscreen: Option<WindowId>,
    pub focused_column: usize,
    pub focused_window_in_column: usize,
    /// Reel state, while the workspace runs the Focus + Reel model.
    pub focus_reel: Option<FocusReelState>,
    pub reduce_motion: bool,
    pub scroll_duration_ms: u64,
    pub scroll_easing: Easing,
    /// The column focus moved and the active tab has yet to follow it.
    pub tab_sync_pending: bool,
}

/// The windows of all columns, in column order.
pub open spec fn column_windows(columns: Seq<Column>) -> Seq<WindowId>
    decreases columns.len(),
{
    if columns.len() == 0 {
        Seq::empty()
    } else {
        column_windows(columns.drop_last()) + columns.last().windows@
    }
}

/// The first column that holds a window and its position there.
pub open spec fn location_in(columns: Seq<Column>, id: WindowId) -> Option<(int, int)>
    decreases columns.len(),
{
    if columns.len() == 0 {
        None
    } else {
        match location_in(columns.drop_last(), id) {
            Some(found) => Some(found),
            None => match find_id(columns.last().windows@, id) {
                Some(at) => Some((columns.len() - 1, at)),
                None => None,
            },
        }
    }
}

impl Workspace {
    /// The value of the reel.
    pub open spec fn reel(self) -> Option<ReelView> {
        match self.focus_reel {
            Some(reel) => Some(reel@),
            None => None,
        }
    }

    /// Whether a window stands aside from the layout: floating or minimized.
    pub open spec fn aside(self, id: WindowId) -> bool {
        self.floating@.contains(id) || self.minimized_windows@.contains(id)
    }

    /// Windows of the columns that are neither floating nor minimized, in
    /// column order.
    pub open spec fn tiled(self) -> Seq<WindowId> {
        column_windows(self.columns@).filter(|id: WindowId| !self.aside(id))
    }

    /// The window the column focus points at.
    pub open spec fn column_focus(self) -> Option<WindowId> {
        if self.focused_column < self.columns@.len() && self.focused_window_in_column
            < self.columns@[self.focused_column as int].windows@.len() {
            Some(
                self.columns@[self.focused_column as int].windows@[self.focused_window_in_column as int],
            )
        } else {
            None
        }
    }

    /// Column and position of a window.
    pub open spec fn location(self, id: WindowId) -> Option<(int, int)> {
        location_in(self.columns@, id)
    }

    /// The reel of the workspace replaced and nothing else changed.
    pub open spec fn with_reel(self, reel: Option<ReelView>, after: Workspace) -> bool {
        &&& after.reel() == reel
        &&& after == Workspace { focus_reel: after.focus_reel, ..self }
    }

    /// The reel of the workspace replaced and its focus window mirrored into
    /// the column focus. A focus window outside the columns leaves the column
    /// focus where it is.
    pub open spec fn with_reel_mirrored(self, reel: ReelView, after: Workspace) -> bool {
        let at = match reel.focus {
            Some(id) => self.location(id),
            None => None,
        };
        &&& after.reel() == Some(reel)
        &&& match at {
            Some((column, window)) => after == Workspace {
                focus_reel: after.focus_reel,
                focused_column: column as usize,
                focused_window_in_column: window as usize,
                tab_sync_pending: true,
                ..self
            },
            None => after == Workspace { focus_reel: after.focus_reel, ..self },
        }
    }

    /// A reel over no windows with the motion settings of the workspace.
    pub open spec fn blank_reel(self, geometry: ReelGeometry) -> ReelView {
        ReelView {
            reduce_motion: self.reduce_motion,
            duration_ms: self.scroll_duration_ms,
            easing: self.scroll_easing,
            ..empty_reel(geometry.clean())
        }
    }

    /// The reel that enabling the model starts from: the tiled windows in
    /// column order with the column focus, if it is tiled, promoted.
    pub open spec fn seeded_reel(self, geometry: ReelGeometry) -> ReelView {
        let seeded = self.blank_reel(geometry).synchronized(self.tiled(), None);
        match self.column_focus() {
            Some(id) => seeded.focused_on(id),
            None => seeded,
        }
    }

    /// Whether this workspace is running the Focus + Reel model.
    pub fn is_focus_reel(&self) -> (r: bool)
        ensures
            r == self.reel() is Some,
    {
        self.focus_reel.is_some()
    }

    /// The reel state, if active.
    pub fn focus_reel(&self) -> (r: Option<&FocusReelState>)
        ensures
            match r {
                Some(reel) => self.focus_reel == Some(*reel),
                None => self.focus_reel is None,
            },
    {
        self.focus_reel.as_ref()
    }

    /// Mutable reel state, if active.
    pub fn focus_reel_mut(&mut self) -> (r: Option<&mut FocusReelState>)
        ensures
            match r {
                Some(reel) => old(self).focus_reel == Some(*reel) && *final(self) == (Workspace {
                    focus_reel: Some(*final(reel)),
                    ..*old(self)
                }),
                None => old(self).focus_reel is None && *final(self) == *old(self),
            },
    {
        self.focus_reel.as_mut()
    }

    /// Enable the Focus + Reel model, seeding the ring from the current tiled
    /// windows in column order and promoting the current focus.
    pub fn enable_focus_reel(&mut self, geometry: ReelGeometry)
        ensures
            old(self).with_reel(Some(old(self).seeded_reel(geometry)), *final(self)),
    {
        let mut state = FocusReelState::with_geometry(geometry);
        state.set_reduce_motion(self.reduce_motion);
        state.set_animation(self.scroll_duration_ms, self.scroll_easing);
        assert(state@ =~= self.blank_reel(geometry));

        let ordered = self.tiled_window_ids();
        state.sync_membership(ordered.as_slice(), None);
        if let Some(id) = self.column_focused_window() {
            state.focus_window(id);
        }
        self.focus_reel = Some(state);
    }

    /// Disable the Focus + Reel model. The column layout takes over again.
    pub fn disable_focus_reel(&mut self)
        ensures
            old(self).with_reel(None, *final(self)),
    {
        self.focus_reel = None;
    }

    /// Swap in a different geometry.
    pub fn set_reel_geometry(&mut self, geometry: ReelGeometry)
        ensures
            match old(self).reel() {
                Some(reel) => old(self).with_reel(
                    Some(ReelView { geometry: geometry.clean(), ..reel }),
                    *final(self),
                ),
                None => *final(self) == *old(self),
            },
    {
        if let Some(reel) = self.focus_reel.as_mut() {
            reel.set_geometry(geometry);
        }
    }

    /// Tiled (non-floating, non-minimized) windows in column order.
    pub fn tiled_window_ids(&self) -> (r: Vec<WindowId>)
        ensures
            r@ == self.tiled(),
    {
        let ghost p = |id: WindowId| !self.aside(id);
        let mut ids: Vec<WindowId> = Vec::new();
        let mut c: usize = 0;
        proof {
            reveal(Seq::filter);
            assert(self.columns@.take(0) =~= Seq::empty());
            assert(column_windows(self.columns@.take(0)).filter(p) =~= Seq::empty());
        }
        while c < self.columns.len()
            invariant
                0 <= c <= self.columns@.len(),
                p == (|id: WindowId| !self.aside(id)),
                ids@ == column_windows(self.columns@.take(c as int)).filter(p),
            decreases self.columns@.len() - c,
        {
            let windows = &self.columns[c].windows;
            let ghost front = column_windows(self.columns@.take(c as int));
            let mut i: usize = 0;
            assert(front + windows@.take(0) =~= front);
            while i < windows.len()
                invariant
                    0 <= i <= windows@.len(),
                    p == (|id: WindowId| !self.aside(id)),
                    ids@ == (front + windows@.take(i as int)).filter(p),
                decreases windows@.len() - i,
            {
                broadcast use vstd::std_specs::hash::group_hash_axioms;

                let id: WindowId = windows[i];
                proof {
                    assert(front + windows@.take(i + 1) =~= (front + windows@.take(i as int)).push(
                        id,
                    ));
                    lemma_filter_push(front + windows@.take(i as int), id, p);
                }
                if !self.floating.contains(&id) && !self.minimized_windows.contains(&id) {
                    ids.push(id);
                }
                i = i + 1;
            }
            proof {
                assert(windows@.take(i as int) =~= windows@);
                assert(self.columns@.take(c + 1).drop_last() =~= self.columns@.take(c as int));
                assert(self.columns@.take(c + 1).last() == self.columns@[c as int]);
            }
            c = c + 1;
        }
        assert(self.columns@.take(c as int) =~= self.columns@);
        ids
    }

    /// The window the column state currently points at (reel-independent).
    pub fn column_focused_window(&self) -> (r: Option<WindowId>)
        ensures
            r == self.column_focus(),
    {
        if self.focused_column < self.columns.len() {
            let windows = &self.columns[self.focused_column].windows;
            if self.focused_window_in_column < windows.len() {
                return Some(windows[self.focused_window_in_column]);
            }
        }
        None
    }

    /// Column and position of a window.
    pub fn find_window_location(&self, window_id: WindowId) -> (r: Option<(usize, usize)>)
        ensures
            match r {
                Some((column, window)) => self.location(window_id) == Some(
                    (column as int, window as int),
                ),
                None => self.location(window_id) is None,
            },
    {
        let mut c: usize = 0;
        assert(self.columns@.take(0) =~= Seq::empty());
        while c < self.columns.len()
            invariant
                0 <= c <= self.columns@.len(),
                location_in(self.columns@.take(c as int), window_id) is None,
            decreases self.columns@.len() - c,
        {
            let ghost seen = self.columns@.take(c + 1);
            assert(seen.drop_last() =~= self.columns@.take(c as int));
            assert(seen.last() == self.columns@[c as int]);
            if let Some(at) = position_in(&self.columns[c].windows, window_id) {
                assert(location_in(seen, window_id) == Some((c as int, at as int)));
                proof {
                    lemma_location_extends(self.columns@, c + 1, window_id);
                }
                return Some((c, at));
            }
            c = c + 1;
        }
        assert(self.columns@.take(c as int) =~= self.columns@);
        None
    }

    /// Promote the item at visual slot `slot` to the focus window.
    pub fn reel_promote(&mut self, slot: i64) -> (r: Option<WindowId>)
        ensures
            match old(self).reel() {
                Some(reel) => old(self).with_reel_mirrored(
                    reel.promoted(slot as int),
                    *final(self),
                ) && r == reel.promoted(slot as int).focus,
                None => *final(self) == *old(self) && r is None,
            },
    {
        let focused = match self.focus_reel.as_mut() {
            Some(reel) => reel.promote_slot(slot),
            None => {
                return None;
            },
        };
        self.reel_sync_column_focus();
        focused
    }

    /// Promote `window_id` if it is a reel member. Returns whether it moved.
    pub fn reel_focus_window(&mut self, window_id: WindowId) -> (r: bool)
        ensures
            r == (old(self).reel() matches Some(reel) && reel.can_focus(window_id)),
            r ==> old(self).with_reel_mirrored(
                old(self).reel()->0.focused_on(window_id),
                *final(self),
            ),
            !r ==> old(self).with_reel(old(self).reel(), *final(self)),
    {
        proof {
            if let Some(reel) = self.reel() {
                lemma_find_id(reel.ring, window_id);
            }
        }
        let promoted = match self.focus_reel.as_mut() {
            Some(reel) => reel.focus_window(window_id),
            None => false,
        };
        if promoted {
            self.reel_sync_column_focus();
        }
        promoted
    }

    /// Advance the reel by one (the item under the focus window becomes focus).
    pub fn reel_focus_next(&mut self) -> (r: Option<WindowId>)
        ensures
            match old(self).reel() {
                Some(reel) => old(self).with_reel_mirrored(reel.promoted(0), *final(self)) && r
                    == reel.promoted(0).focus,
                None => *final(self) == *old(self) && r is None,
            },
    {
        let focused = match self.focus_reel.as_mut() {
            Some(reel) => reel.focus_next(),
            None => {
                return None;
            },
        };
        self.reel_sync_column_focus();
        focused
    }

    /// Step the reel backwards by one.
    pub fn reel_focus_prev(&mut self) -> (r: Option<WindowId>)
        ensures
            match old(self).reel() {
                Some(reel) => old(self).with_reel_mirrored(
                    reel.promoted(reel.ring.len() - 1),
                    *final(self),
                ) && r == reel.promoted(reel.ring.len() - 1).focus,
                None => *final(self) == *old(self) && r is None,
            },
    {
        let focused = match self.focus_reel.as_mut() {
            Some(reel) => reel.focus_prev(),
            None => {
                return None;
            },
        };
        self.reel_sync_column_focus();
        focused
    }

    /// Scroll the reel by `delta` slots. Continuous while the wheel moves.
    pub fn reel_scroll_by(&mut self, delta: Offset, step: Retarget)
        ensures
            match old(self).reel() {
                Some(reel) => old(self).with_reel(Some(reel.scrolled(delta, step)), *final(self)),
                None => *final(self) == *old(self),
            },
    {
        if let Some(reel) = self.focus_reel.as_mut() {
            reel.scroll_by(delta, step);
        }
    }

    /// Whether the reel has more items than the visible slots, i.e. whether
    /// scrolling can change what is shown.
    pub fn reel_can_scroll(&self) -> (r: bool)
        ensures
            r == (self.reel() matches Some(reel) && reel.scrollable()),
    {
        match self.focus_reel.as_ref() {
            Some(reel) => reel.can_scroll(),
            None => false,
        }
    }

    /// Snap the reel to the nearest integer slot (call when the wheel stops).
    pub fn reel_settle(&mut self, step: Retarget)
        ensures
            match old(self).reel() {
                Some(reel) => old(self).with_reel(Some(reel.settled(step)), *final(self)),
                None => *final(self) == *old(self),
            },
    {
        if let Some(reel) = self.focus_reel.as_mut() {
            reel.settle(step);
        }
    }

    /// Set the side the reel column occupies.
    pub fn reel_set_side(&mut self, side: ReelSide)
        ensures
            match old(self).reel() {
                Some(reel) => old(self).with_reel(Some(ReelView { side, ..reel }), *final(self)),
                None => *final(self) == *old(self),
            },
    {
        if let Some(reel) = self.focus_reel.as_mut() {
            reel.set_side(side);
        }
    }

    /// Toggle the reel side explicitly.
    pub fn reel_flip_side(&mut self) -> (r: Option<ReelSide>)
        ensures
            match old(self).reel() {
                Some(reel) => old(self).with_reel(
                    Some(ReelView { side: reel.side.opposite(), ..reel }),
                    *final(self),
                ) && r == Some(reel.side.opposite()),
                None => *final(self) == *old(self) && r is None,
            },
    {
        match self.focus_reel.as_mut() {
            Some(reel) => Some(reel.flip_side()),
            None => None,
        }
    }

    /// Move a ring member through the ring by `delta` positions.
    pub fn reel_move_in_ring(&mut self, window_id: WindowId, delta: i64) -> (r: bool)
        requires
            old(self).reel() matches Some(reel) ==> match find_id(reel.ring, window_id) {
                Some(at) => i64::MIN <= at + delta <= i64::MAX && at <= i64::MAX,
                None => true,
            },
        ensures
            match old(self).reel() {
                Some(reel) => old(self).with_reel(
                    Some(reel.shifted(window_id, delta as int)),
                    *final(self),
                ) && r == (delta != 0 && reel.ring.len() >= 2 && reel.ring.contains(window_id)),
                None => *final(self) == *old(self) && !r,
            },
    {
        match self.focus_reel.as_mut() {
            Some(reel) => reel.move_in_ring(window_id, delta),
            None => false,
        }
    }

    /// Rotate the whole reel ring by `delta` positions. Reel counterpart of
    /// the strip's `move_window_*` commands.
    pub fn reel_rotate_ring(&mut self, delta: i64) -> (r: bool)
        ensures
            match old(self).reel() {
                Some(reel) => old(self).with_reel(Some(reel.turned(delta as int)), *final(self))
                    && r == (reel.ring.len() >= 2 && reel.ring_place(delta as int) != 0),
                None => *final(self) == *old(self) && !r,
            },
    {
        match self.focus_reel.as_mut() {
            Some(reel) => reel.rotate_ring(delta),
            None => false,
        }
    }

    /// Current reel offset, given where a running animation currently is.
    pub fn reel_offset(&self, eased: Offset) -> (r: Option<Offset>)
        ensures
            r == match self.reel() {
                Some(reel) => Some(reel.on_screen(eased)),
                None => None,
            },
    {
        match self.focus_reel.as_ref() {
            Some(reel) => Some(reel.effective_offset(eased)),
            None => None,
        }
    }

    /// Resolved reel layout for a viewport.
    pub fn reel_layout(&self, viewport: Rect, frame: &ReelFrame) -> (r: Option<ReelLayout>)
        requires
            self.reel() matches Some(reel) ==> reel.frame_fits(viewport, *frame),
        ensures
            match self.reel() {
                Some(reel) => r is Some && r->0@ == reel.arranged(viewport, *frame),
                None => r is None,
            },
    {
        match self.focus_reel.as_ref() {
            Some(reel) => Some(reel.layout(viewport, frame)),
            None => None,
        }
    }

    /// Hit-test a screen point against the reel column.
    pub fn reel_hit_test(&self, viewport: Rect, x: i32, y: i32, frame: &ReelFrame) -> (r: Option<
        (i64, WindowId),
    >)
        requires
            self.reel() matches Some(reel) ==> reel.ring.len() > 0 ==> reel.frame_fits(
                viewport,
                *frame,
            ) && reel.column_fits(viewport),
        ensures
            r == match self.reel() {
                Some(reel) => reel.hit(viewport, *frame, x, y),
                None => None,
            },
    {
        match self.focus_reel.as_ref() {
            Some(reel) => reel.hit_test(viewport, x, y, frame),
            None => None,
        }
    }

    /// The reel's focus window, if the model is active.
    pub fn reel_focused_window(&self) -> (r: Option<WindowId>)
        ensures
            r == match self.reel() {
                Some(reel) => reel.focus,
                None => None,
            },
    {
        match self.focus_reel.as_ref() {
            Some(reel) => reel.focus(),
            None => None,
        }
    }

    /// Mirror the reel focus into the column focus indices so all existing
    /// column-based consumers (focus sync, tab strip, summaries) report the
    /// same window the reel presents as the main window.
    pub fn reel_sync_column_focus(&mut self)
        ensures
            match old(self).reel() {
                Some(reel) => old(self).with_reel_mirrored(reel, *final(self)),
                None => *final(self) == *old(self),
            },
            final(self).focus_reel == old(self).focus_reel,
    {
        let focus = match self.reel_focused_window() {
            Some(id) => id,
            None => {
                return;
            },
        };
        if let Some((column, window)) = self.find_window_location(focus) {
            self.focused_column = column;
            self.focused_window_in_column = window;
            self.tab_sync_pending = true;
        }
    }

    /// Record a tiled window being added.
    pub fn reel_note_added(&mut self, window_id: WindowId)
        ensures
            match old(self).reel() {
                Some(reel) if !old(self).minimized_windows@.contains(window_id) => old(
                    self,
                ).with_reel(Some(reel.pushed(window_id)), *final(self)),
                _ => *final(self) == *old(self),
            },
    {
        broadcast use vstd::std_specs::hash::group_hash_axioms;

        if self.minimized_windows.contains(&window_id) {
            return;
        }
        if let Some(reel) = self.focus_reel.as_mut() {
            reel.push_back(window_id);
        }
    }

    /// Promote the column focus into the reel after a mutation that moved
    /// the column focus (new-window insertion, unfloat restore). No-op when
    /// the focused window is not a reel member.
    pub fn reel_sync_focus_from_columns(&mut self)
        ensures
            match (old(self).reel(), old(self).column_focus()) {
                (Some(reel), Some(id)) => old(self).with_reel(
                    Some(reel.focused_on(id)),
                    *final(self),
                ),
                _ => *final(self) == *old(self),
            },
    {
        let focus = match self.column_focused_window() {
            Some(id) => id,
            None => {
                return;
            },
        };
        proof {
            if let Some(reel) = self.reel() {
                lemma_find_id(reel.ring, focus);
            }
        }
        if let Some(reel) = self.focus_reel.as_mut() {
            if reel.focus() != Some(focus) && reel.contains(focus) {
                reel.focus_window(focus);
            }
        }
    }

    /// Record a tiled window being removed.
    pub fn reel_note_removed(&mut self, window_id: WindowId)
        ensures
            match old(self).reel() {
                Some(reel) => if reel.focus == Some(window_id) {
                    old(self).with_reel_mirrored(reel.removed(window_id), *final(self))
                } else {
                    old(self).with_reel(Some(reel.removed(window_id)), *final(self))
                },
                None => *final(self) == *old(self),
            },
    {
        let was_focus = match self.focus_reel.as_mut() {
            Some(reel) => {
                let was_focus = reel.focus() == Some(window_id);
                reel.remove(window_id);
                was_focus
            },
            None => {
                return;
            },
        };
        if was_focus {
            self.reel_sync_column_focus();
        }
    }

    /// Whether a window of the workspace covers the whole monitor.
    pub fn is_fullscreen(&self) -> (r: bool)
        ensures
            r == self.fullscreen is Some,
    {
        self.fullscreen.is_some()
    }

    /// The window that covers the whole monitor.
    pub fn fullscreen_window_id(&self) -> (r: Option<WindowId>)
        ensures
            r == self.fullscreen,
    {
        self.fullscreen
    }

    /// Whether a window floats above the layout.
    pub fn is_floating(&self, window_id: WindowId) -> (r: bool)
        ensures
            r == self.floating@.contains(window_id),
    {
        broadcast use vstd::std_specs::hash::group_hash_axioms;

        self.floating.contains(&window_id)
    }
}

/// A window found in the first columns is found there in all of them.
proof fn lemma_location_extends(columns: Seq<Column>, count: int, id: WindowId)
    requires
        0 <= count <= columns.len(),
        location_in(columns.take(count), id) is Some,
    ensures
        location_in(columns, id) == location_in(columns.take(count), id),
    decreases columns.len() - count,
{
    if count == columns.len() {
        assert(columns.take(count) =~= columns);
    } else {
        assert(columns.take(count + 1).drop_last() =~= columns.take(count));
        lemma_location_extends(columns, count + 1, id);
    }
}

/// A location names a place that holds the window.
proof fn lemma_location(columns: Seq<Column>, id: WindowId)
    ensures
        match location_in(columns, id) {
            Some((column, window)) => {
                &&& 0 <= column < columns.len()
                &&& 0 <= window < columns[column].windows@.len()
                &&& columns[column].windows@[window] == id
            },
            None => !column_windows(columns).contains(id),
        },
    decreases columns.len(),
{
    if columns.len() > 0 {
        lemma_location(columns.drop_last(), id);
        lemma_find_id(columns.last().windows@, id);
        let front = column_windows(columns.drop_last());
        let back = columns.last().windows@;
        if location_in(columns, id) is None && (front + back).contains(id) {
            let i = choose|i: int| 0 <= i < (front + back).len() && (front + back)[i] == id;
            if i < front.len() {
                assert(front.contains(front[i]));
            } else {
                assert(back.contains(back[i - front.len()]));
            }
        }
    }
}

/// Whenever the reel focus is mirrored, the column focus points at the window
/// the reel presents, for any reel focus that is in the columns.
pub proof fn law_mirrored_column_focus_is_the_reel_focus(
    before: Workspace,
    reel: ReelView,
    after: Workspace,
)
    requires
        before.with_reel_mirrored(reel, after),
        reel.focus is Some,
        column_windows(before.columns@).contains(reel.focus->0),
    ensures
        after.column_focus() == reel.focus,
{
    lemma_location(before.columns@, reel.focus->0);
    let (column, window) = before.location(reel.focus->0)->0;
    let windows = before.columns@[column].windows;
    assert(before.columns.len() == before.columns@.len());
    assert(windows.len() == windows@.len());
}

/// Enabling the model seeds a well-formed reel that holds exactly the tiled
/// windows: a minimized or floating column focus is not one of them. A tiled
/// column focus becomes the focus window.
pub proof fn law_enabled_reel_holds_the_tiled_windows(workspace: Workspace, geometry: ReelGeometry)
    ensures
        workspace.seeded_reel(geometry).wf(),
        workspace.seeded_reel(geometry).led(),
        forall|id: WindowId| #[trigger]
            workspace.seeded_reel(geometry).member(id) <==> workspace.tiled().contains(id),
        workspace.column_focus() matches Some(id) ==> workspace.tiled().contains(id)
            ==> workspace.seeded_reel(geometry).focus == Some(id),
{
    let blank = workspace.blank_reel(geometry);
    let tiled = workspace.tiled();
    let seeded = blank.synchronized(tiled, None);
    law_sync_holds_exactly_the_listed_windows(blank, tiled, None);
    law_sync_keeps_order_and_appends(blank, tiled, None);
    if let Some(id) = workspace.column_focus() {
        law_focusing_a_window_brings_it_to_focus(seeded, id);
        assert(seeded.member(id) <==> tiled.contains(id));
        assert forall|x: WindowId| #[trigger]
            workspace.seeded_reel(geometry).member(x) <==> tiled.contains(x) by {
            assert(seeded.member(x) <==> tiled.contains(x));
            assert(seeded.focused_on(id).member(x) <==> seeded.member(x));
        }
    }
}

} // verus!
