//! Focus + Reel presentation and input.
//!
//! The layout decides *where* the focus window and the reel slots are; this
//! module turns that into what is presented:
//!
//! - every visible reel item is a long-lived thumbnail, so the live window
//!   keeps its full-size client area while being parked off-screen;
//! - the focused window is live at the main rect;
//! - wheel ticks and clicks over thumbnails route back into the reel.

use vstd::prelude::*;
use std::collections::HashMap;

use crate::app_state::{workspace_monitors, AppState, LayoutModeConfig, MonitorWorkspaces};
use crate::focus_reel::turns;
use crate::id_list::{lemma_filter_push, lemma_find_id};
use crate::reel_layout::{lemma_region_fits, LayoutView, ReelFrame, ReelSlotView};
use crate::scroll::{Easing, Offset, Retarget};
use crate::types::{MonitorId, MonitorInfo, Rect, WindowId, WindowPlacement};
use crate::workspace::Workspace;

verus! {

/// One visible reel slot in a presentation plan.
#[derive(Debug, Clone, Copy, PartialEq, Eq, Structural)]
pub struct ReelSlotPlan {
    /// Ring member shown in this slot.
    pub window_id: WindowId,
    /// Full screen-space destination rect for the thumbnail.
    pub rect: Rect,
    /// Reel band used to clip partially scrolled slots.
    pub clip: Rect,
    /// Whether the slot lies entirely inside the reel band.
    pub fully_visible: bool,
}

/// Platform-agnostic presentation plan for the current frame.
#[derive(Debug, Clone, PartialEq)]
pub struct ReelPresentationPlan {
    /// The live focus window and its main rect.
    pub focus: Option<(WindowId, Rect)>,
    /// Visible slots, in top-to-bottom order.
    pub slots: Vec<ReelSlotPlan>,
    /// Ring members kept registered but hidden (scrolled out of view).
    pub hidden: Vec<WindowId>,
    /// Screen-space reel band of the focused monitor, for click interception.
    pub click_region: Option<Rect>,
}

/// The value of a [`ReelPresentationPlan`].
#[verifier::ext_equal]
pub struct PlanView {
    pub focus: Option<(WindowId, Rect)>,
    pub slots: Seq<ReelSlotPlan>,
    pub hidden: Seq<WindowId>,
    pub click_region: Option<Rect>,
}

impl View for ReelPresentationPlan {
    type V = PlanView;

    open spec fn view(&self) -> PlanView {
        PlanView {
            focus: self.focus,
            slots: self.slots@,
            hidden: self.hidden@,
            click_region: self.click_region,
        }
    }
}

/// A plan that shows nothing.
pub open spec fn blank_plan() -> PlanView {
    PlanView { focus: None, slots: Seq::empty(), hidden: Seq::empty(), click_region: None }
}

impl Default for ReelPresentationPlan {
    fn default() -> (r: Self)
        ensures
            r@ == blank_plan(),
    {
        ReelPresentationPlan {
            focus: None,
            slots: Vec::new(),
            hidden: Vec::new(),
            click_region: None,
        }
    }
}

/// A short thumbnail-rect tween played after a promotion.
///
/// Every previously visible destination rect animates to its new one while
/// the live windows jump to their final layout: the promoted item scales up
/// from its slot to the main rect, the demoted main window scales back down
/// into the reel, and the remaining slots slide.
#[derive(Debug)]
pub struct ReelTransition {
    /// Milliseconds elapsed since the promotion.
    pub elapsed_ms: u64,
    /// Total tween duration.
    pub duration_ms: u64,
    /// Easing curve.
    pub easing: Easing,
    /// Destination rects from the previous frame, keyed by window.
    pub from_rects: HashMap<WindowId, Rect>,
    /// Window being promoted to the main position. Its live window must not be
    /// moved until the tween finishes: the overlay thumbnail is the only
    /// representation of it during the animation, so moving the live window
    /// first would be a visible jump.
    pub focus_window: Option<WindowId>,
}

impl ReelTransition {
    /// Whether the tween still runs.
    pub open spec fn running(self) -> bool {
        self.elapsed_ms < self.duration_ms
    }

    /// Where a thumbnail comes from, if it has another place to go to.
    pub open spec fn origin(self, id: WindowId, target: Rect) -> Option<Rect> {
        if self.from_rects@.contains_key(id) && self.from_rects@[id] != target {
            Some(self.from_rects@[id])
        } else {
            None
        }
    }

    /// The tween after another `delta_ms`.
    pub open spec fn after(self, delta_ms: u64) -> ReelTransition {
        ReelTransition {
            elapsed_ms: if self.elapsed_ms + delta_ms <= u64::MAX {
                (self.elapsed_ms + delta_ms) as u64
            } else {
                u64::MAX
            },
            ..self
        }
    }

    /// Advance by `delta_ms`; returns true while still running.
    pub fn tick(&mut self, delta_ms: u64) -> (r: bool)
        ensures
            *final(self) == old(self).after(delta_ms),
            r == final(self).running(),
    {
        self.elapsed_ms = self.elapsed_ms.saturating_add(delta_ms);
        self.elapsed_ms < self.duration_ms
    }
}

/// Where the thumbnail of a window comes from in this frame: its rect from
/// before the promotion when a transition is active and that differs from the
/// settled target. The destination rect is then on the way between the two,
/// otherwise it is the target.
pub open spec fn tween_from(
    transition: Option<ReelTransition>,
    id: WindowId,
    target: Rect,
) -> Option<Rect> {
    match transition {
        Some(transition) => transition.origin(id, target),
        None => None,
    }
}

/// Where the thumbnail of a window comes from in this frame.
pub fn tween_origin(transition: &Option<ReelTransition>, window_id: WindowId, target: Rect) -> (r:
    Option<Rect>)
    ensures
        r == tween_from(*transition, window_id, target),
{
    broadcast use vstd::std_specs::hash::group_hash_axioms;

    match transition {
        Some(transition) => match transition.from_rects.get(&window_id) {
            Some(from) => {
                if *from != target {
                    Some(*from)
                } else {
                    None
                }
            },
            None => None,
        },
        None => None,
    }
}

/// The rectangles of slots by window; the last slot of a window counts.
pub open spec fn slot_rects(slots: Seq<ReelSlotPlan>, start: Map<WindowId, Rect>) -> Map<
    WindowId,
    Rect,
>
    decreases slots.len(),
{
    if slots.len() == 0 {
        start
    } else {
        slot_rects(slots.drop_last(), start).insert(slots.last().window_id, slots.last().rect)
    }
}

impl PlanView {
    /// Every presented destination rect (focus + visible slots).
    pub open spec fn rects(self) -> Map<WindowId, Rect> {
        slot_rects(
            self.slots,
            match self.focus {
                Some((id, rect)) => Map::empty().insert(id, rect),
                None => Map::empty(),
            },
        )
    }

    /// The plan with the layout of one more monitor.
    pub open spec fn with_layout(self, layout: LayoutView, focused: bool) -> PlanView {
        PlanView {
            focus: match layout.focus {
                Some(shown) => Some(shown),
                None => self.focus,
            },
            slots: self.slots + layout.slots.map_values(
                |slot: ReelSlotView| slot_plan(slot, layout.column_rect),
            ),
            hidden: self.hidden + layout.hidden,
            click_region: if focused {
                layout.region()
            } else {
                self.click_region
            },
        }
    }
}

/// The plan of a slot in a column.
pub open spec fn slot_plan(slot: ReelSlotView, column: Rect) -> ReelSlotPlan {
    ReelSlotPlan {
        window_id: slot.window_id,
        rect: slot.rect,
        clip: column,
        fully_visible: slot.fully_visible,
    }
}

/// Snapshot every currently presented destination rect (focus + visible
/// slots) so a promotion can tween from it.
pub fn presentation_rects(plan: &ReelPresentationPlan) -> (r: HashMap<WindowId, Rect>)
    ensures
        r@ == plan@.rects(),
{
    broadcast use vstd::std_specs::hash::group_hash_axioms;

    let mut rects: HashMap<WindowId, Rect> = HashMap::new();
    if let Some((window_id, rect)) = plan.focus {
        rects.insert(window_id, rect);
    }
    let ghost start = rects@;
    let mut i: usize = 0;
    assert(plan.slots@.take(0) =~= Seq::empty());
    while i < plan.slots.len()
        invariant
            0 <= i <= plan.slots@.len(),
            rects@ == slot_rects(plan.slots@.take(i as int), start),
        decreases plan.slots@.len() - i,
    {
        broadcast use vstd::std_specs::hash::group_hash_axioms;

        let slot = plan.slots[i];
        assert(plan.slots@.take(i + 1).drop_last() =~= plan.slots@.take(i as int));
        rects.insert(slot.window_id, slot.rect);
        i = i + 1;
    }
    assert(plan.slots@.take(i as int) =~= plan.slots@);
    rects
}

/// Whether a rectangle contains a point.
pub open spec fn contains_point(rect: Rect, x: i32, y: i32) -> bool {
    rect.x <= x < rect.end_x() && rect.y <= y < rect.end_y()
}

/// The first monitor that contains a point.
pub open spec fn monitor_under(monitors: Seq<MonitorInfo>, x: i32, y: i32) -> Option<int>
    decreases monitors.len(),
{
    if monitors.len() == 0 {
        None
    } else {
        match monitor_under(monitors.drop_last(), x, y) {
            Some(at) => Some(at),
            None => if contains_point(monitors.last().rect, x, y) {
                Some(monitors.len() - 1)
            } else {
                None
            },
        }
    }
}

proof fn lemma_monitor_under_is(monitors: Seq<MonitorInfo>, x: i32, y: i32, at: int)
    requires
        0 <= at < monitors.len(),
        contains_point(monitors[at].rect, x, y),
        forall|j: int| 0 <= j < at ==> !contains_point((#[trigger] monitors[j]).rect, x, y),
    ensures
        monitor_under(monitors, x, y) == Some(at),
    decreases monitors.len(),
{
    let front = monitors.drop_last();
    if at < front.len() {
        assert(front[at] == monitors[at]);
        lemma_monitor_under_is(front, x, y, at);
    } else {
        lemma_monitor_under_none(front, x, y);
    }
}

proof fn lemma_monitor_under_none(monitors: Seq<MonitorInfo>, x: i32, y: i32)
    requires
        forall|j: int|
            0 <= j < monitors.len() ==> !contains_point((#[trigger] monitors[j]).rect, x, y),
    ensures
        monitor_under(monitors, x, y) is None,
    decreases monitors.len(),
{
    if monitors.len() > 0 {
        lemma_monitor_under_none(monitors.drop_last(), x, y);
    }
}

impl AppState {
    /// The workspace whose reel monitor `i` presents: the active one, unless a
    /// window covers the whole monitor.
    pub open spec fn reel_workspace(self, i: int) -> Option<Workspace> {
        match self.active(self.monitors@[i].id) {
            Some(workspace) if workspace.fullscreen is None => Some(workspace),
            _ => None,
        }
    }

    /// The frame of monitor `i` can be computed.
    pub open spec fn frame_ready(self, i: int, frame: ReelFrame) -> bool {
        self.reel_workspace(i) matches Some(workspace) ==> workspace.reel() matches Some(reel)
            ==> reel.frame_fits(self.monitors@[i].viewport, frame) && reel.column_fits(
            self.monitors@[i].viewport,
        )
    }

    /// There is a frame for every monitor, and each can be computed.
    pub open spec fn frames_ready(self, frames: Seq<ReelFrame>) -> bool {
        &&& frames.len() == self.monitors@.len()
        &&& forall|i: int| 0 <= i < frames.len() ==> self.frame_ready(i, #[trigger] frames[i])
    }

    /// The presentation plan of the first `count` monitors.
    pub open spec fn planned(self, frames: Seq<ReelFrame>, count: nat) -> PlanView
        decreases count,
    {
        if count == 0 {
            blank_plan()
        } else {
            let i = count - 1;
            let before = self.planned(frames, (count - 1) as nat);
            match self.reel_workspace(i) {
                Some(workspace) => match workspace.reel() {
                    Some(reel) => before.with_layout(
                        reel.arranged(self.monitors@[i].viewport, frames[i]),
                        self.monitors@[i].id == self.focused_monitor,
                    ),
                    None => before,
                },
                None => before,
            }
        }
    }

    /// The presentation plan of all monitors.
    pub open spec fn plan(self, frames: Seq<ReelFrame>) -> PlanView {
        self.planned(frames, self.monitors@.len())
    }

    /// The monitor whose reel a point belongs to, in Focus + Reel mode.
    pub open spec fn reel_monitor(self, x: i32, y: i32) -> Option<int> {
        match monitor_under(self.monitors@, x, y) {
            Some(i) if self.mode == LayoutModeConfig::Serval && self.reel_workspace(i) is Some =>
                Some(i),
            _ => None,
        }
    }

    /// The reel slot under a point: its monitor, ordinal and window.
    pub open spec fn reel_slot_under(self, x: i32, y: i32, frames: Seq<ReelFrame>) -> Option<
        (int, i64, WindowId),
    > {
        match self.reel_monitor(x, y) {
            Some(i) => match self.reel_workspace(i)->0.reel() {
                Some(reel) => match reel.hit(self.monitors@[i].viewport, frames[i], x, y) {
                    Some((slot, id)) => Some((i, slot, id)),
                    None => None,
                },
                None => None,
            },
            None => None,
        }
    }

    /// Whether a wheel tick at a point scrolls a reel.
    pub open spec fn wheel_scrolls(self, x: i32, y: i32, frames: Seq<ReelFrame>) -> bool {
        self.reel_slot_under(x, y, frames) matches Some((i, _, _)) && self.reel_workspace(
            i,
        )->0.reel()->0.scrollable()
    }

    /// The frame that a wheel tick at a point is held against can be computed,
    /// if there is one: that of a reel under the point with something to scroll.
    pub open spec fn wheel_frame_ready(self, x: i32, y: i32, frames: Seq<ReelFrame>) -> bool {
        self.reel_monitor(x, y) matches Some(i) ==> self.reel_workspace(i)->0.reel() matches Some(
            reel,
        ) ==> reel.scrollable() ==> i < frames.len() && self.frame_ready(i, frames[i])
    }

    /// The frames that a click at a point is held against can be computed, if
    /// there are any: those of all monitors, for a click on one of them in
    /// Focus + Reel mode.
    pub open spec fn click_frames_ready(self, x: i32, y: i32, frames: Seq<ReelFrame>) -> bool {
        self.mode == LayoutModeConfig::Serval && monitor_under(self.monitors@, x, y) is Some
            ==> self.frames_ready(frames)
    }

    /// The active workspace of a monitor replaced by `changed`, and no other
    /// workspace touched.
    pub open spec fn replaces_active(
        self,
        id: MonitorId,
        changed: Workspace,
        after: Seq<MonitorWorkspaces>,
    ) -> bool {
        self.active_place(id) matches Some((at, index)) && {
            let before = self.workspaces@;
            &&& after == before.update(at, after[at])
            &&& after[at] == MonitorWorkspaces { list: after[at].list, ..before[at] }
            &&& after[at].list@ == before[at].list@.update(index, changed)
        }
    }

    /// The tween that starts with a promotion.
    pub open spec fn starts_transition(
        self,
        from: Map<WindowId, Rect>,
        focus_window: Option<WindowId>,
        started: Option<ReelTransition>,
    ) -> bool {
        if self.reduce_motion || self.layout_duration_ms == 0 || from.dom().is_empty() {
            started is None
        } else {
            &&& started matches Some(transition)
            &&& transition.elapsed_ms == 0
            &&& transition.duration_ms == self.layout_duration_ms
            &&& transition.easing == self.easing
            &&& transition.from_rects@ == from
            &&& transition.focus_window == focus_window
        }
    }

    /// Whether there is a frame for every monitor and each can be computed.
    pub fn can_present(&self, frames: &Vec<ReelFrame>) -> (r: bool)
        ensures
            r == self.frames_ready(frames@),
    {
        if frames.len() != self.monitors.len() {
            return false;
        }
        let mut i: usize = 0;
        while i < frames.len()
            invariant
                0 <= i <= frames@.len(),
                frames@.len() == self.monitors@.len(),
                forall|j: int| 0 <= j < i ==> self.frame_ready(j, #[trigger] frames@[j]),
            decreases frames@.len() - i,
        {
            let monitor = self.monitors[i];
            let mut ready = true;
            if let Some((at, index)) = self.active_workspace(monitor.id) {
                let workspace = &self.workspaces[at].list[index];
                if !workspace.is_fullscreen() {
                    if let Some(reel) = workspace.focus_reel() {
                        ready = reel.can_lay_out(monitor.viewport, &frames[i]);
                    }
                }
            }
            assert(ready == self.frame_ready(i as int, frames@[i as int]));
            if !ready {
                return false;
            }
            i = i + 1;
        }
        true
    }

    /// Position of the first monitor that contains a point.
    pub fn monitor_index_at_point(&self, x: i32, y: i32) -> (r: Option<usize>)
        ensures
            match r {
                Some(at) => monitor_under(self.monitors@, x, y) == Some(at as int) && at
                    < self.monitors@.len(),
                None => monitor_under(self.monitors@, x, y) is None,
            },
    {
        let mut i: usize = 0;
        while i < self.monitors.len()
            invariant
                0 <= i <= self.monitors@.len(),
                forall|j: int|
                    0 <= j < i ==> !contains_point((#[trigger] self.monitors@[j]).rect, x, y),
            decreases self.monitors@.len() - i,
        {
            let rect = self.monitors[i].rect;
            if x >= rect.x && (x as i64) < rect.x as i64 + rect.width as i64 && y >= rect.y
                && (y as i64) < rect.y as i64 + rect.height as i64 {
                proof {
                    lemma_monitor_under_is(self.monitors@, x, y, i as int);
                }
                return Some(i);
            }
            i = i + 1;
        }
        proof {
            lemma_monitor_under_none(self.monitors@, x, y);
        }
        None
    }

    /// Monitor whose full rect contains the given screen point.
    pub fn monitor_at_point(&self, x: i32, y: i32) -> (r: Option<MonitorId>)
        ensures
            r == match monitor_under(self.monitors@, x, y) {
                Some(at) => Some(self.monitors@[at].id),
                None => None,
            },
    {
        match self.monitor_index_at_point(x, y) {
            Some(at) => Some(self.monitors[at].id),
            None => None,
        }
    }

    /// Route a wheel tick to the reel under the cursor.
    ///
    /// Returns `true` when the wheel was over the reel column and the offset
    /// moved. The reel engine arms its own settle timer, so the caller only
    /// needs to drive the animation frame loop afterwards. `turn` is the
    /// distance in slots, positive toward later reel items; `step` is that of
    /// the reel under the cursor (see [`Workspace::reel_scroll_by`]). A turn that
    /// goes nowhere is not taken, and leaves the monitor focus alone.
    pub fn handle_reel_wheel(
        &mut self,
        turn: Offset,
        step: Retarget,
        x: i32,
        y: i32,
        frames: &Vec<ReelFrame>,
    ) -> (r: bool)
        requires
            old(self).wheel_frame_ready(x, y, frames@),
        ensures
            r == (old(self).wheel_scrolls(x, y, frames@) && turns(turn, step)),
            old(self).identities_distinct() ==> final(self).identities_distinct(),
            !r ==> *final(self) == *old(self),
            r ==> ({
                let (i, _, _) = old(self).reel_slot_under(x, y, frames@)->0;
                let id = old(self).monitors@[i].id;
                let before = old(self).active(id)->0;
                let after = final(self).active(id)->0;
                &&& before.with_reel(Some(before.reel()->0.scrolled(turn, step)), after)
                &&& old(self).replaces_active(id, after, final(self).workspaces@)
                &&& *final(self) == AppState {
                    workspaces: final(self).workspaces,
                    focused_monitor: id,
                    ..*old(self)
                }
            }),
    {
        if !self.reel_mode_active() {
            return false;
        }
        let i: usize = match self.monitor_index_at_point(x, y) {
            Some(i) => i,
            None => {
                return false;
            },
        };
        let monitor = self.monitors[i];
        let (at, index) = match self.active_workspace(monitor.id) {
            Some(place) => place,
            None => {
                return false;
            },
        };
        let workspace = &self.workspaces[at].list[index];
        if workspace.is_fullscreen() {
            return false;
        }
        // A reel with `visible_slots` or fewer items fits entirely; the wheel
        // has nothing to scroll.
        if !workspace.reel_can_scroll() {
            return false;
        }
        if !turn.is_finite() || turn.is_zero() || !step.target.is_finite() {
            return false;
        }
        assert(self.frame_ready(i as int, frames@[i as int]));
        if workspace.reel_hit_test(monitor.viewport, x, y, &frames[i]).is_none() {
            return false;
        }
        self.workspaces[at].list[index].reel_scroll_by(turn, step);
        self.focused_monitor = monitor.id;
        proof {
            lemma_active_place_kept(*old(self), *self, at as int, monitor.id);
        }
        true
    }
}

impl AppState {
    /// Promote the reel item under a click.
    ///
    /// Returns `true` when a slot was hit and promoted. The caller is
    /// responsible for applying the layout and driving the animation frame
    /// loop.
    pub fn handle_reel_click(&mut self, x: i32, y: i32, frames: &Vec<ReelFrame>) -> (r: bool)
        requires
            old(self).click_frames_ready(x, y, frames@),
        ensures
            r == old(self).reel_slot_under(x, y, frames@) is Some,
            old(self).identities_distinct() ==> final(self).identities_distinct(),
            !r ==> *final(self) == *old(self),
            r ==> ({
                let (i, slot, window_id) = old(self).reel_slot_under(x, y, frames@)->0;
                let id = old(self).monitors@[i].id;
                let before = old(self).active(id)->0;
                let after = final(self).active(id)->0;
                let promoted = before.reel()->0.promoted(slot as int);
                &&& before.with_reel_mirrored(promoted, after)
                &&& old(self).replaces_active(id, after, final(self).workspaces@)
                &&& old(self).starts_transition(
                    old(self).plan(frames@).rects(),
                    Some(
                        match promoted.focus {
                            Some(focus) => focus,
                            None => window_id,
                        },
                    ),
                    final(self).reel_transition,
                )
                &&& *final(self) == AppState {
                    workspaces: final(self).workspaces,
                    focused_monitor: id,
                    reel_transition: final(self).reel_transition,
                    ..*old(self)
                }
            }),
    {
        if !self.reel_mode_active() {
            return false;
        }
        let i: usize = match self.monitor_index_at_point(x, y) {
            Some(i) => i,
            None => {
                return false;
            },
        };
        let monitor = self.monitors[i];
        // Snapshot the presentation before the ring changes so the promotion
        // can tween every thumbnail from its previous rect.
        let from_rects = presentation_rects(&plan_reel_presentation(self, frames));
        let (at, index) = match self.active_workspace(monitor.id) {
            Some(place) => place,
            None => {
                return false;
            },
        };
        let workspace = &self.workspaces[at].list[index];
        if workspace.is_fullscreen() {
            return false;
        }
        assert(self.frame_ready(i as int, frames@[i as int]));
        let (slot, window_id) = match workspace.reel_hit_test(monitor.viewport, x, y, &frames[i]) {
            Some(hit) => hit,
            None => {
                return false;
            },
        };
        let promoted = self.workspaces[at].list[index].reel_promote(slot);
        let focus_window = match promoted {
            Some(focus) => focus,
            None => window_id,
        };
        self.begin_reel_transition(from_rects, Some(focus_window));
        self.focused_monitor = monitor.id;
        proof {
            lemma_active_place_kept(*old(self), *self, at as int, monitor.id);
        }
        true
    }

    /// Start the short thumbnail tween for a promotion, if motion is allowed.
    pub fn begin_reel_transition(
        &mut self,
        from_rects: HashMap<WindowId, Rect>,
        focus_window: Option<WindowId>,
    )
        ensures
            old(self).starts_transition(from_rects@, focus_window, final(self).reel_transition),
            *final(self) == (AppState {
                reel_transition: final(self).reel_transition,
                ..*old(self)
            }),
    {
        broadcast use vstd::std_specs::hash::group_hash_axioms;

        let duration_ms: u64 = self.layout_duration_ms;
        if self.reduce_motion || duration_ms == 0 || from_rects.is_empty() {
            self.reel_transition = None;
            return;
        }
        self.reel_transition = Some(
            ReelTransition {
                elapsed_ms: 0,
                duration_ms,
                easing: self.easing,
                from_rects,
                focus_window,
            },
        );
    }

    /// The window whose live move is held back.
    pub open spec fn held_back(self) -> Option<WindowId> {
        match self.reel_transition {
            Some(transition) => transition.focus_window,
            None => None,
        }
    }

    /// Drop the promoted window from a placement batch while its promotion
    /// tween is running, so the live window stays parked until the landing
    /// pass.
    pub fn suppress_reel_transition_focus(&self, placements: &mut Vec<WindowPlacement>)
        ensures
            final(placements)@ == match self.held_back() {
                Some(id) => old(placements)@.filter(|p: WindowPlacement| p.window_id != id),
                None => old(placements)@,
            },
    {
        let focus_window: WindowId = match &self.reel_transition {
            Some(transition) => match transition.focus_window {
                Some(id) => id,
                None => {
                    return;
                },
            },
            None => {
                return;
            },
        };
        let ghost all = placements@;
        let ghost keeps = |p: WindowPlacement| p.window_id != focus_window;
        let mut kept: Vec<WindowPlacement> = Vec::new();
        let mut i: usize = 0;
        proof {
            reveal(Seq::filter);
            assert(all.take(0).filter(keeps) =~= Seq::empty());
        }
        while i < placements.len()
            invariant
                0 <= i <= all.len(),
                placements@ == all,
                keeps == (|p: WindowPlacement| p.window_id != focus_window),
                kept@ == all.take(i as int).filter(keeps),
            decreases all.len() - i,
        {
            let placement = placements[i];
            proof {
                assert(all.take(i + 1) =~= all.take(i as int).push(placement));
                lemma_filter_push(all.take(i as int), placement, keeps);
            }
            if placement.window_id != focus_window {
                kept.push(placement);
            }
            i = i + 1;
        }
        assert(all.take(i as int) =~= all);
        *placements = kept;
    }
}

/// Build the presentation plan for the current layout.
pub fn plan_reel_presentation(state: &AppState, frames: &Vec<ReelFrame>) -> (r:
    ReelPresentationPlan)
    requires
        state.frames_ready(frames@),
    ensures
        r@ == state.plan(frames@),
{
    let mut plan = ReelPresentationPlan::default();
    let mut i: usize = 0;
    while i < state.monitors.len()
        invariant
            0 <= i <= state.monitors@.len(),
            state.frames_ready(frames@),
            plan@ == state.planned(frames@, i as nat),
        decreases state.monitors@.len() - i,
    {
        let monitor = state.monitors[i];
        let ghost before = plan@;
        assert(state.frame_ready(i as int, frames@[i as int]));
        if let Some((at, index)) = state.active_workspace(monitor.id) {
            let workspace = &state.workspaces[at].list[index];
            // A fullscreen window owns the whole monitor: hide the reel.
            if !workspace.is_fullscreen() {
                if let Some(layout) = workspace.reel_layout(monitor.viewport, &frames[i]) {
                    if let Some(shown) = layout.focus {
                        plan.focus = Some(shown);
                    }
                    let mut k: usize = 0;
                    let ghost column = layout.column_rect;
                    let ghost added = layout.slots@.map_values(
                        |slot: ReelSlotView| slot_plan(slot, column),
                    );
                    assert(before.slots + added.take(0) =~= before.slots);
                    while k < layout.slots.len()
                        invariant
                            0 <= k <= layout.slots@.len(),
                            column == layout.column_rect,
                            added == layout.slots@.map_values(
                                |slot: ReelSlotView| slot_plan(slot, column),
                            ),
                            plan.slots@ == before.slots + added.take(k as int),
                            plan.hidden@ == before.hidden,
                            plan.click_region == before.click_region,
                            plan.focus == (match layout.focus {
                                Some(shown) => Some(shown),
                                None => before.focus,
                            }),
                        decreases layout.slots@.len() - k,
                    {
                        let slot = layout.slots[k];
                        plan.slots.push(
                            ReelSlotPlan {
                                window_id: slot.window_id,
                                rect: slot.rect,
                                clip: layout.column_rect,
                                fully_visible: slot.fully_visible,
                            },
                        );
                        assert(plan.slots@ =~= before.slots + added.take(k + 1));
                        k = k + 1;
                    }
                    assert(added.take(k as int) =~= added);
                    extend_ids(&mut plan.hidden, &layout.hidden);
                    // Only the focused monitor's reel receives raw input; a
                    // wheel or click on another monitor's reel is handled when
                    // that monitor gains focus. Interception is limited to the
                    // rendered slots so the blank part of a partially-filled
                    // column passes clicks through.
                    if monitor.id == state.focused_monitor {
                        proof {
                            lemma_region_fits(
                                workspace.reel()->0,
                                monitor.viewport,
                                frames@[i as int],
                            );
                        }
                        plan.click_region = layout.rendered_region();
                    }
                    let ghost focused = monitor.id == state.focused_monitor;
                    assert(plan@ =~= before.with_layout(layout@, focused));
                }
            }
        }
        i = i + 1;
    }
    plan
}

/// Append a list to another.
fn extend_ids(ids: &mut Vec<WindowId>, more: &Vec<WindowId>)
    ensures
        final(ids)@ == old(ids)@ + more@,
{
    let ghost start = ids@;
    let mut i: usize = 0;
    assert(start + more@.take(0) =~= start);
    while i < more.len()
        invariant
            0 <= i <= more@.len(),
            ids@ == start + more@.take(i as int),
        decreases more@.len() - i,
    {
        ids.push(more[i]);
        assert(ids@ =~= start + more@.take(i + 1));
        i = i + 1;
    }
    assert(more@.take(i as int) =~= more@);
}

/// Changing a workspace in place moves no active workspace.
proof fn lemma_active_place_kept(before: AppState, after: AppState, at: int, id: MonitorId)
    requires
        0 <= at < before.workspaces@.len(),
        after.workspaces@ == before.workspaces@.update(at, after.workspaces@[at]),
        after.workspaces@[at].monitor_id == before.workspaces@[at].monitor_id,
        after.workspaces@[at].active == before.workspaces@[at].active,
        after.workspaces@[at].list@.len() == before.workspaces@[at].list@.len(),
    ensures
        after.active_place(id) == before.active_place(id),
        workspace_monitors(after.workspaces@) == workspace_monitors(before.workspaces@),
{
    let monitors = workspace_monitors(before.workspaces@);
    assert(workspace_monitors(after.workspaces@) =~= monitors);
    lemma_find_id(monitors, id);
}

} // verus!
