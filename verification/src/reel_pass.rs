//! One pass over the thumbnails: which are registered, what each shows.
//!
//! A pass is driven step by step, because a thumbnail may fail to register:
//! each step says which window has to be registered first, takes the outcome,
//! and says what to do with the thumbnail then.

use vstd::prelude::*;
use std::collections::HashSet;

use crate::app_state::{AppState, LayoutModeConfig};
use crate::presentation::{
    blank_plan, plan_reel_presentation, tween_from, tween_origin, PlanView, ReelPresentationPlan,
    ReelTransition,
};
use crate::reel_layout::ReelFrame;
use crate::types::{Rect, WindowId};

verus! {

/// What to do with a registered thumbnail.
#[derive(Debug, Clone, Copy, PartialEq, Eq, Structural)]
pub struct ThumbnailUpdate {
    pub window_id: WindowId,
    /// Where the thumbnail comes from, while it is on its way.
    pub from: Option<Rect>,
    /// Where the thumbnail goes.
    pub target: Rect,
    /// Band that cuts a partially scrolled thumbnail, so it slides under the
    /// widget and taskbar strips without stretching.
    pub clip: Option<Rect>,
    pub visible: bool,
}

/// A pass over the thumbnails of one frame.
#[derive(Debug)]
pub struct ReelPass {
    /// Whether raw input over the reel is intercepted.
    pub input_enabled: bool,
    /// Whether the squared corners of all windows are to be restored.
    pub restore_corners: bool,
    /// The window whose corners are to be squared. The main window is flush to
    /// the work-area edges, so it sheds its rounded corners and outline; the
    /// demoted window stays square while parked in the reel.
    pub square: Option<WindowId>,
    /// The promoted window, while its thumbnail grows to the main rect.
    pub overlay: Option<(WindowId, Rect)>,
    pub plan: ReelPresentationPlan,
    /// The next step.
    pub at: usize,
}

/// The promoted window has no slot any more, but while its tween runs it needs
/// an overlay thumbnail so it can grow from its old slot to the main rect.
pub open spec fn overlay_of(plan: PlanView, transition: Option<ReelTransition>) -> Option<
    (WindowId, Rect),
> {
    match (plan.focus, transition) {
        (Some((id, main_rect)), Some(running)) if running.running() && running.origin(
            id,
            main_rect,
        ) is Some => Some((id, main_rect)),
        _ => None,
    }
}

/// Whether a plan calls for a thumbnail of a window.
pub open spec fn wants(plan: PlanView, overlay: Option<(WindowId, Rect)>, id: WindowId) -> bool {
    ||| exists|i: int| 0 <= i < plan.slots.len() && (#[trigger] plan.slots[i]).window_id == id
    ||| plan.hidden.contains(id)
    ||| overlay matches Some((focus, _)) && focus == id
}

/// How many steps an overlay takes.
pub open spec fn overlay_steps(overlay: Option<(WindowId, Rect)>) -> int {
    if overlay is Some {
        1
    } else {
        0
    }
}

/// How many steps a pass takes: the slots, the overlay, the hidden windows.
pub open spec fn step_count(plan: PlanView, overlay: Option<(WindowId, Rect)>) -> int {
    plan.slots.len() + overlay_steps(overlay) + plan.hidden.len()
}

/// The window of step `k`.
pub open spec fn step_window(plan: PlanView, overlay: Option<(WindowId, Rect)>, k: int) -> WindowId {
    let slots = plan.slots.len() as int;
    if k < slots {
        plan.slots[k].window_id
    } else if k < slots + overlay_steps(overlay) {
        (overlay->0).0
    } else {
        plan.hidden[k - slots - overlay_steps(overlay)]
    }
}

/// Whether step `k` shows its window, which then has to be registered.
pub open spec fn step_shows(plan: PlanView, overlay: Option<(WindowId, Rect)>, k: int) -> bool {
    k < plan.slots.len() + overlay_steps(overlay)
}

/// What step `k` does with the thumbnail of its window.
pub open spec fn step_update(
    plan: PlanView,
    overlay: Option<(WindowId, Rect)>,
    transition: Option<ReelTransition>,
    k: int,
) -> ThumbnailUpdate {
    let slots = plan.slots.len() as int;
    let id = step_window(plan, overlay, k);
    if k < slots {
        let slot = plan.slots[k];
        ThumbnailUpdate {
            window_id: id,
            from: tween_from(transition, id, slot.rect),
            target: slot.rect,
            clip: if slot.fully_visible {
                None
            } else {
                Some(slot.clip)
            },
            visible: true,
        }
    } else if k < slots + overlay_steps(overlay) {
        ThumbnailUpdate {
            window_id: id,
            from: tween_from(transition, id, (overlay->0).1),
            target: (overlay->0).1,
            clip: None,
            visible: true,
        }
    } else {
        ThumbnailUpdate {
            window_id: id,
            from: None,
            target: Rect { x: 0, y: 0, width: 0, height: 0 },
            clip: None,
            visible: false,
        }
    }
}

/// The registered thumbnails after step `k`, given whether registering its
/// window would succeed.
pub open spec fn registered_after(
    plan: PlanView,
    overlay: Option<(WindowId, Rect)>,
    thumbnails: Set<WindowId>,
    k: int,
    registers: bool,
) -> Set<WindowId> {
    if step_shows(plan, overlay, k) && registers {
        thumbnails.insert(step_window(plan, overlay, k))
    } else {
        thumbnails
    }
}

impl ReelPass {
    /// Whether every step of the pass was taken.
    pub open spec fn over(self) -> bool {
        self.at >= step_count(self.plan@, self.overlay)
    }

    /// The number of steps can be counted.
    pub open spec fn steps_fit(self) -> bool {
        step_count(self.plan@, self.overlay) <= usize::MAX
    }

    /// The region in which raw input is intercepted.
    pub fn region(&self) -> (r: Option<Rect>)
        ensures
            r == self.plan@.click_region,
    {
        self.plan.click_region
    }

    /// Whether every step of the pass was taken.
    pub fn is_over(&self) -> (r: bool)
        requires
            self.steps_fit(),
        ensures
            r == self.over(),
    {
        self.at >= self.plan.slots.len() + self.overlay_count() + self.plan.hidden.len()
    }

    fn overlay_count(&self) -> (r: usize)
        ensures
            r == overlay_steps(self.overlay),
    {
        if self.overlay.is_some() {
            1
        } else {
            0
        }
    }

    /// The window of the next step and whether the step shows it.
    fn subject(&self) -> (r: (WindowId, bool))
        requires
            self.steps_fit(),
            !self.over(),
        ensures
            r.0 == step_window(self.plan@, self.overlay, self.at as int),
            r.1 == step_shows(self.plan@, self.overlay, self.at as int),
    {
        let slots: usize = self.plan.slots.len();
        if self.at < slots {
            return (self.plan.slots[self.at].window_id, true);
        }
        if let Some((focus, _)) = self.overlay {
            if self.at == slots {
                return (focus, true);
            }
            return (self.plan.hidden[self.at - slots - 1], false);
        }
        (self.plan.hidden[self.at - slots], false)
    }
}

impl AppState {
    /// The pass that presents a frame, and the state it starts from.
    pub open spec fn starts_pass(
        self,
        active: bool,
        frames: Seq<ReelFrame>,
        pass: ReelPass,
        after: AppState,
    ) -> bool {
        let plan = if active {
            self.plan(frames)
        } else {
            blank_plan()
        };
        let focus = match plan.focus {
            Some((id, _)) => Some(id),
            None => None,
        };
        &&& pass.plan@ == plan
        &&& pass.at == 0
        &&& pass.input_enabled == (active && !self.paused)
        &&& pass.restore_corners == !active
        &&& pass.overlay == if active {
            overlay_of(plan, self.reel_transition)
        } else {
            None
        }
        &&& pass.square == if active && self.reel_last_squared_focus != focus {
            focus
        } else {
            None
        }
        &&& after.reel_thumbnails@ == self.reel_thumbnails@.filter(
            |id: WindowId| wants(plan, pass.overlay, id),
        )
        &&& after == AppState {
            reel_thumbnails: after.reel_thumbnails,
            reel_last_squared_focus: focus,
            ..self
        }
    }

    /// Begin to reconcile the thumbnails and the input region with the current
    /// reel layout.
    pub fn sync_reel_presentation(&mut self, frames: &Vec<ReelFrame>) -> (r: ReelPass)
        requires
            old(self).mode == LayoutModeConfig::Serval ==> old(self).frames_ready(frames@),
        ensures
            old(self).starts_pass(
                old(self).mode == LayoutModeConfig::Serval,
                frames@,
                r,
                *final(self),
            ),
    {
        let active = self.reel_mode_active();
        self.apply_reel_presentation(active, frames)
    }

    /// Begin a pass over the thumbnails. Thumbnails that the plan does not call
    /// for are dropped at once: focus windows become live again, removed
    /// windows leave the ring. Outside Focus + Reel mode nothing owns them any
    /// more and all are dropped.
    pub fn apply_reel_presentation(&mut self, active: bool, frames: &Vec<ReelFrame>) -> (r: ReelPass)
        requires
            active ==> old(self).frames_ready(frames@),
        ensures
            old(self).starts_pass(active, frames@, r, *final(self)),
    {
        broadcast use vstd::std_specs::hash::group_hash_axioms;

        let input_enabled = active && !self.paused;
        if !active {
            self.reel_thumbnails.clear();
            self.reel_last_squared_focus = None;
            proof {
                assert(self.reel_thumbnails@ =~= old(self).reel_thumbnails@.filter(
                    |id: WindowId| wants(blank_plan(), None, id),
                ));
            }
            return ReelPass {
                input_enabled,
                restore_corners: true,
                square: None,
                overlay: None,
                plan: ReelPresentationPlan::default(),
                at: 0,
            };
        }
        let plan = plan_reel_presentation(self, frames);
        let focus_id: Option<WindowId> = match plan.focus {
            Some((id, _)) => Some(id),
            None => None,
        };
        let mut square: Option<WindowId> = None;
        if self.reel_last_squared_focus != focus_id {
            square = focus_id;
            self.reel_last_squared_focus = focus_id;
        }
        let overlay = match (plan.focus, &self.reel_transition) {
            (Some((id, main_rect)), Some(transition)) => {
                if transition.elapsed_ms < transition.duration_ms && tween_origin(
                    &self.reel_transition,
                    id,
                    main_rect,
                ).is_some() {
                    Some((id, main_rect))
                } else {
                    None
                }
            },
            _ => None,
        };
        self.reel_thumbnails = wanted_thumbnails(&self.reel_thumbnails, &plan, overlay);
        ReelPass { input_enabled, restore_corners: false, square, overlay, plan, at: 0 }
    }

    /// The window that has to be registered before the next step, if any.
    pub fn next_thumbnail_registration(&self, pass: &ReelPass) -> (r: Option<WindowId>)
        requires
            pass.steps_fit(),
            !pass.over(),
        ensures
            r == ({
                let id = step_window(pass.plan@, pass.overlay, pass.at as int);
                if step_shows(pass.plan@, pass.overlay, pass.at as int)
                    && !self.reel_thumbnails@.contains(id) {
                    Some(id)
                } else {
                    None
                }
            }),
    {
        broadcast use vstd::std_specs::hash::group_hash_axioms;

        let (id, shows) = pass.subject();
        if shows && !self.reel_thumbnails.contains(&id) {
            Some(id)
        } else {
            None
        }
    }

    /// Take the next step. `registers` is whether its window, if it had to be
    /// registered, now is. Returns what to do with the thumbnail; a window
    /// without one is passed over.
    pub fn next_thumbnail_update(&mut self, pass: &mut ReelPass, registers: bool) -> (r: Option<
        ThumbnailUpdate,
    >)
        requires
            old(pass).steps_fit(),
            !old(pass).over(),
        ensures
            ({
                let plan = old(pass).plan@;
                let overlay = old(pass).overlay;
                let k = old(pass).at as int;
                &&& final(self).reel_thumbnails@ == registered_after(
                    plan,
                    overlay,
                    old(self).reel_thumbnails@,
                    k,
                    registers,
                )
                &&& *final(self) == AppState {
                    reel_thumbnails: final(self).reel_thumbnails,
                    ..*old(self)
                }
                &&& *final(pass) == ReelPass { at: (k + 1) as usize, ..*old(pass) }
                &&& r == if final(self).reel_thumbnails@.contains(step_window(plan, overlay, k)) {
                    Some(step_update(plan, overlay, old(self).reel_transition, k))
                } else {
                    None
                }
            }),
    {
        broadcast use vstd::std_specs::hash::group_hash_axioms;

        let (id, shows) = pass.subject();
        let k: usize = pass.at;
        pass.at = k + 1;
        if shows && registers {
            self.reel_thumbnails.insert(id);
        }
        if !self.reel_thumbnails.contains(&id) {
            return None;
        }
        if !shows {
            return Some(
                ThumbnailUpdate {
                    window_id: id,
                    from: None,
                    target: Rect::new(0, 0, 0, 0),
                    clip: None,
                    visible: false,
                },
            );
        }
        if k < pass.plan.slots.len() {
            let slot = pass.plan.slots[k];
            let clip = if slot.fully_visible {
                None
            } else {
                Some(slot.clip)
            };
            return Some(
                ThumbnailUpdate {
                    window_id: id,
                    from: tween_origin(&self.reel_transition, id, slot.rect),
                    target: slot.rect,
                    clip,
                    visible: true,
                },
            );
        }
        match pass.overlay {
            Some((_, main_rect)) => Some(
                ThumbnailUpdate {
                    window_id: id,
                    from: tween_origin(&self.reel_transition, id, main_rect),
                    target: main_rect,
                    clip: None,
                    visible: true,
                },
            ),
            None => None,
        }
    }
}

/// The thumbnails that a plan calls for.
fn wanted_thumbnails(
    thumbnails: &HashSet<WindowId>,
    plan: &ReelPresentationPlan,
    overlay: Option<(WindowId, Rect)>,
) -> (r: HashSet<WindowId>)
    ensures
        r@ == thumbnails@.filter(|id: WindowId| wants(plan@, overlay, id)),
{
    broadcast use vstd::std_specs::hash::group_hash_axioms;

    let mut kept: HashSet<WindowId> = HashSet::new();
    let mut i: usize = 0;
    while i < plan.slots.len()
        invariant
            0 <= i <= plan.slots@.len(),
            forall|id: WindowId| #[trigger]
                kept@.contains(id) <==> thumbnails@.contains(id) && exists|j: int|
                    0 <= j < i && (#[trigger] plan.slots@[j]).window_id == id,
        decreases plan.slots@.len() - i,
    {
        broadcast use vstd::std_specs::hash::group_hash_axioms;

        let slot = plan.slots[i];
        let ghost before = kept@;
        if thumbnails.contains(&slot.window_id) {
            kept.insert(slot.window_id);
        }
        assert forall|id: WindowId| #[trigger] kept@.contains(id) <==> thumbnails@.contains(id)
            && exists|j: int| 0 <= j < i + 1 && (#[trigger] plan.slots@[j]).window_id == id by {
            if before.contains(id) {
                let j = choose|j: int|
                    0 <= j < i && (#[trigger] plan.slots@[j]).window_id == id;
                assert(plan.slots@[j].window_id == id);
            }
            if slot.window_id == id {
                assert(plan.slots@[i as int].window_id == id);
            }
        }
        i = i + 1;
    }
    let ghost shown = kept@;
    let mut h: usize = 0;
    while h < plan.hidden.len()
        invariant
            0 <= h <= plan.hidden@.len(),
            forall|id: WindowId| #[trigger]
                kept@.contains(id) <==> shown.contains(id) || (thumbnails@.contains(id)
                    && exists|j: int| 0 <= j < h && #[trigger] plan.hidden@[j] == id),
        decreases plan.hidden@.len() - h,
    {
        broadcast use vstd::std_specs::hash::group_hash_axioms;

        let hidden: WindowId = plan.hidden[h];
        let ghost before = kept@;
        if thumbnails.contains(&hidden) {
            kept.insert(hidden);
        }
        assert forall|id: WindowId| #[trigger] kept@.contains(id) <==> shown.contains(id) || (
        thumbnails@.contains(id) && exists|j: int|
            0 <= j < h + 1 && #[trigger] plan.hidden@[j] == id) by {
            if before.contains(id) && !shown.contains(id) {
                let j = choose|j: int| 0 <= j < h && #[trigger] plan.hidden@[j] == id;
                assert(plan.hidden@[j] == id);
            }
            if hidden == id {
                assert(plan.hidden@[h as int] == id);
            }
        }
        h = h + 1;
    }
    let ghost listed = kept@;
    if let Some((focus, _)) = overlay {
        if thumbnails.contains(&focus) {
            kept.insert(focus);
        }
    }
    assert forall|id: WindowId| kept@.contains(id) <==> thumbnails@.contains(id) && wants(
        plan@,
        overlay,
        id,
    ) by {
        assert(shown.contains(id) <==> thumbnails@.contains(id) && exists|j: int|
            0 <= j < plan.slots@.len() && (#[trigger] plan.slots@[j]).window_id == id);
        assert(listed.contains(id) <==> shown.contains(id) || (thumbnails@.contains(id)
            && exists|j: int| 0 <= j < plan.hidden@.len() && #[trigger] plan.hidden@[j] == id));
        if plan@.hidden.contains(id) {
            let j = choose|j: int| 0 <= j < plan@.hidden.len() && plan@.hidden[j] == id;
            assert(plan.hidden@[j] == id);
        }
        if exists|j: int| 0 <= j < plan.hidden@.len() && #[trigger] plan.hidden@[j] == id {
            let j = choose|j: int| 0 <= j < plan.hidden@.len() && #[trigger] plan.hidden@[j] == id;
            assert(plan@.hidden[j] == id);
        }
    }
    assert(kept@ =~= thumbnails@.filter(|id: WindowId| wants(plan@, overlay, id)));
    kept
}

/// A pass keeps no thumbnail that its plan does not call for: neither at its
/// start nor after any of its steps.
pub proof fn law_pass_keeps_only_wanted_thumbnails(
    plan: PlanView,
    overlay: Option<(WindowId, Rect)>,
    thumbnails: Set<WindowId>,
    k: int,
    registers: bool,
)
    requires
        0 <= k < step_count(plan, overlay),
        forall|id: WindowId| #[trigger] thumbnails.contains(id) ==> wants(plan, overlay, id),
    ensures
        forall|id: WindowId| #[trigger]
            registered_after(plan, overlay, thumbnails, k, registers).contains(id) ==> wants(
                plan,
                overlay,
                id,
            ),
{
    let id = step_window(plan, overlay, k);
    if k < plan.slots.len() {
        assert(plan.slots[k].window_id == id);
    } else if k >= plan.slots.len() + overlay_steps(overlay) {
        assert(plan.hidden.contains(id));
    }
    assert(wants(plan, overlay, id));
}

/// Every thumbnail that a plan calls for has its step in the pass.
pub proof fn law_pass_reaches_every_wanted_thumbnail(
    plan: PlanView,
    overlay: Option<(WindowId, Rect)>,
    id: WindowId,
) -> (k: int)
    requires
        wants(plan, overlay, id),
    ensures
        0 <= k < step_count(plan, overlay),
        step_window(plan, overlay, k) == id,
{
    let slots = plan.slots.len() as int;
    if exists|i: int| 0 <= i < plan.slots.len() && (#[trigger] plan.slots[i]).window_id == id {
        choose|i: int| 0 <= i < plan.slots.len() && (#[trigger] plan.slots[i]).window_id == id
    } else if overlay is Some && (overlay->0).0 == id {
        slots
    } else {
        let h = choose|h: int| 0 <= h < plan.hidden.len() && plan.hidden[h] == id;
        slots + overlay_steps(overlay) + h
    }
}

/// Outside Focus + Reel mode a pass drops every thumbnail, restores the corners
/// and intercepts no input.
pub proof fn law_inactive_pass_clears_everything(
    before: AppState,
    frames: Seq<ReelFrame>,
    pass: ReelPass,
    after: AppState,
)
    requires
        before.starts_pass(false, frames, pass, after),
    ensures
        after.reel_thumbnails@ == Set::<WindowId>::empty(),
        after.reel_last_squared_focus is None,
        pass.restore_corners,
        !pass.input_enabled,
        pass.plan@.click_region is None,
        pass.over(),
{
    assert(after.reel_thumbnails@ =~= Set::empty());
}

} // verus!
