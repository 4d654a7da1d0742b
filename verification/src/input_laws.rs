//! What input and passes change of the state, what they leave alone, and which
//! frames can be laid out.

use vstd::prelude::*;

use crate::app_state::{workspace_monitors, AppState, LayoutModeConfig, MonitorWorkspaces};
use crate::focus_reel::ReelView;
use crate::id_list::lemma_find_id_is;
use crate::ownership_laws::law_first_entry_of_an_identity_counts;
use crate::physical_state::{PhysicalView, PresentationView};
use crate::plan_laws::presents;
use crate::presentation::{monitor_under, PlanView, ReelTransition};
use crate::reel_layout::ReelFrame;
use crate::reel_pass::{registered_after, step_count, step_update, ReelPass, ThumbnailUpdate};
use crate::reel_place_laws::{law_sanitizing_is_value_by_value, sensible};
use crate::types::{fits_i32, MonitorId, PlacementLanding, Rect, WindowId};
use crate::workspace::Workspace;

verus! {

/// Changing the active workspace of a monitor changes that one workspace: every
/// other, and which of them are active, stays.
pub proof fn law_only_the_active_workspace_changes(
    state: AppState,
    id: MonitorId,
    changed: Workspace,
    after: Seq<MonitorWorkspaces>,
    at: int,
    a: int,
    j: int,
)
    requires
        state.replaces_active(id, changed, after),
        0 <= at < state.workspaces@.len(),
        state.workspaces@[at].monitor_id == id,
        forall|k: int| 0 <= k < at ==> (#[trigger] state.workspaces@[k]).monitor_id != id,
        0 <= a < state.workspaces@.len(),
        0 <= j < state.workspaces@[a].list@.len(),
    ensures
        after.len() == state.workspaces@.len(),
        after[a].monitor_id == state.workspaces@[a].monitor_id,
        after[a].active == state.workspaces@[a].active,
        after[a].list@.len() == state.workspaces@[a].list@.len(),
        a == at && j == state.workspaces@[at].active ==> after[a].list@[j] == changed,
        a != at || j != state.workspaces@[at].active ==> after[a].list@[j]
            == state.workspaces@[a].list@[j],
{
    law_first_entry_of_an_identity_counts(state, id, 0, at);
    let lists = workspace_monitors(state.workspaces@);
    assert(lists[at] == id);
    assert forall|k: int| 0 <= k < at implies lists[k] != id by {
        assert(state.workspaces@[k].monitor_id != id);
    }
    lemma_find_id_is(lists, id, at);
}

/// Where no monitor is under a point, the monitor there presents no reel, or the
/// layout is not Focus + Reel, there is no slot and the wheel scrolls nothing.
pub proof fn law_input_elsewhere_reaches_no_reel(
    state: AppState,
    frames: Seq<ReelFrame>,
    x: i32,
    y: i32,
)
    requires
        ({
            ||| state.mode != LayoutModeConfig::Serval
            ||| monitor_under(state.monitors@, x, y) is None
            ||| monitor_under(state.monitors@, x, y) matches Some(i) && forall|reel: ReelView|
                !presents(state, i, reel)
        }),
    ensures
        state.reel_slot_under(x, y, frames) is None,
        !state.wheel_scrolls(x, y, frames),
{
    if let Some(i) = monitor_under(state.monitors@, x, y) {
        if let Some(workspace) = state.reel_workspace(i) {
            if let Some(reel) = workspace.reel() {
                assert(state.mode != LayoutModeConfig::Serval || presents(state, i, reel));
            }
        }
    }
}

/// Without anything that was shown, or without motion, no tween starts.
pub proof fn law_no_tween_without_motion(
    state: AppState,
    from: Map<WindowId, Rect>,
    focus_window: Option<WindowId>,
    started: Option<ReelTransition>,
)
    requires
        state.starts_transition(from, focus_window, started),
        state.reduce_motion || state.layout_duration_ms == 0 || forall|id: WindowId|
            !(#[trigger] from.contains_key(id)),
    ensures
        started is None,
{
    if forall|id: WindowId| !(#[trigger] from.contains_key(id)) {
        assert(from.dom() =~= Set::empty());
    }
}

/// A pass outside Focus + Reel mode shows nothing, drops every thumbnail,
/// intercepts no input, and gives the corners back.
pub proof fn law_inactive_pass_gives_everything_back(
    before: AppState,
    frames: Seq<ReelFrame>,
    pass: ReelPass,
    after: AppState,
    id: WindowId,
)
    requires
        before.starts_pass(false, frames, pass, after),
    ensures
        pass.plan@.slots.len() == 0,
        pass.plan@.hidden.len() == 0,
        pass.plan@.focus is None,
        pass.plan@.click_region is None,
        pass.overlay is None,
        pass.square is None,
        pass.restore_corners,
        !pass.input_enabled,
        pass.at == 0,
        !after.reel_thumbnails@.contains(id),
        after.reel_last_squared_focus is None,
        after.reel_transition == before.reel_transition,
        after.workspaces == before.workspaces,
        after.monitors == before.monitors,
{
}

/// A pass in Focus + Reel mode overlays the window that the running tween
/// promotes.
pub proof fn law_active_pass_overlays_the_promoted_window(
    before: AppState,
    frames: Seq<ReelFrame>,
    pass: ReelPass,
    after: AppState,
    id: WindowId,
    main: Rect,
)
    requires
        before.starts_pass(true, frames, pass, after),
    ensures
        pass.overlay == Some((id, main)) <==> pass.plan@.focus == Some((id, main)) && (
        before.reel_transition matches Some(tween) && tween.elapsed_ms < tween.duration_ms
            && tween.from_rects@.contains_key(id) && tween.from_rects@[id] != main),
{
}

/// A step that hides a window puts its thumbnail nowhere and registers nothing;
/// the step of the overlay registers the promoted window.
pub proof fn law_hiding_step_registers_nothing(
    plan: PlanView,
    overlay: Option<(WindowId, Rect)>,
    transition: Option<ReelTransition>,
    thumbnails: Set<WindowId>,
    k: int,
    registers: bool,
)
    requires
        0 <= k < step_count(plan, overlay),
    ensures
        ({
            let slots = plan.slots.len() as int;
            let extra = if overlay is Some { 1int } else { 0 };
            let update = step_update(plan, overlay, transition, k);
            let after = registered_after(plan, overlay, thumbnails, k, registers);
            &&& k >= slots + extra ==> {
                &&& update == ThumbnailUpdate {
                    window_id: plan.hidden[k - slots - extra],
                    from: None,
                    target: Rect { x: 0, y: 0, width: 0, height: 0 },
                    clip: None,
                    visible: false,
                }
                &&& after == thumbnails
            }
            &&& k == slots && registers && overlay is Some ==> after.contains((overlay->0).0)
        }),
{
}

/// A pass is over once it took a step for each slot, for the overlay if there is
/// one, and for each hidden window.
pub proof fn law_pass_ends_after_its_last_step(pass: ReelPass)
    ensures
        pass.over() <==> pass.at >= pass.plan@.slots.len() + pass.plan@.hidden.len() + if pass.overlay
            is Some {
            1int
        } else {
            0
        },
{
}

/// Recording what a window did teaches its size, if it was read in full, and
/// then makes earlier requests stale. It touches nothing else.
pub proof fn law_recording_teaches_what_was_read(
    before: PhysicalView,
    p: PresentationView,
    landing: PlacementLanding,
    id: WindowId,
)
    ensures
        ({
            let after = before.taught_by(p, landing);
            let seen = after.observations[p.window_id];
            let cut_width = p.axes.left || p.axes.right;
            let cut_height = p.axes.top || p.axes.bottom;
            &&& after.last == before.last && after.pending == before.pending
            &&& after.origins == before.origins && after.inflight == before.inflight
            &&& landing.actual_visible_rect is None || landing.actual_outer_rect is None ==> after
                == before
            &&& landing.actual_visible_rect is Some && landing.actual_outer_rect is Some ==> {
                let visible = landing.actual_visible_rect->0;
                let outer = landing.actual_outer_rect->0;
                let grew = (cut_width && visible.height > p.physical.rect.height) || (cut_height
                    && visible.width > p.physical.rect.width);
                &&& before.invalidation < u64::MAX ==> after.invalidation == before.invalidation + 1
                &&& before.invalidation == u64::MAX ==> after.invalidation == 0
                &&& after.observations.contains_key(p.window_id)
                &&& id != p.window_id ==> after.observations.contains_key(id)
                    == before.observations.contains_key(id) && after.observations[id]
                    == before.observations[id]
                &&& seen.context == p.context
                &&& seen.required_width == if visible.width >= 1 { visible.width } else { 1 }
                &&& seen.required_height == if visible.height >= 1 { visible.height } else { 1 }
                &&& seen.retained_outer_width == if outer.width >= 1 { outer.width } else { 1 }
                &&& seen.retained_outer_height == if outer.height >= 1 { outer.height } else { 1 }
                &&& seen.coupled == grew
                &&& seen.width_affected == (cut_width || grew)
                &&& seen.height_affected == (cut_height || grew)
            }
        }),
{
}

/// Whether a number is of the size that screens have.
pub open spec fn moderate(value: int) -> bool {
    -0x10_0000 <= value <= 0x10_0000
}

/// Every reel of moderate geometry can be laid out on a screen of moderate size,
/// for a frame that has its rows at moderate distances.
pub proof fn law_moderate_frames_can_be_laid_out(reel: ReelView, viewport: Rect, frame: ReelFrame)
    requires
        sensible(reel.geometry),
        moderate(reel.geometry.main_width as int),
        moderate(reel.geometry.main_height as int),
        moderate(reel.geometry.slot_width as int),
        moderate(reel.geometry.slot_height as int),
        moderate(reel.geometry.top_inset as int),
        moderate(reel.geometry.bottom_inset as int),
        moderate(reel.geometry.visible_slots as int),
        moderate(viewport.x as int),
        moderate(viewport.y as int),
        moderate(viewport.width as int),
        moderate(viewport.height as int),
        moderate(frame.base as int),
        frame.drops@.len() == reel.geometry.visible_slots + 3,
        forall|k: int| 0 <= k < frame.drops@.len() ==> moderate(#[trigger] frame.drops@[k] as int),
    ensures
        reel.frame_fits(viewport, frame),
        reel.column_fits(viewport),
{
    let g = reel.geometry.clean();
    law_sanitizing_is_value_by_value(reel.geometry);
    assert(g == reel.geometry);
    assert(g.clean() == g);
    assert(moderate(g.gap as int));
    assert(0 <= g.slot_extent() <= 0x10_0000);
    assert(-0x30_0000 <= g.main_room(viewport) <= 0x30_0000);
    assert(0 <= g.focus_extent(viewport) <= 0x30_0000);
    assert(0 <= g.cluster_extent(viewport) <= 0x50_0000);
    assert(-0x10_0000 <= g.cluster_start(viewport) <= 0x50_0000);
    let divisor = g.slot_divisor() as int;
    assert(divisor == g.visible_slots);
    assert(0 <= g.span(viewport) <= 0x10_0000);
    let share = g.span(viewport) / divisor;
    assert(0 <= share <= g.span(viewport)) by (nonlinear_arith)
        requires
            share == g.span(viewport) / divisor,
            divisor >= 1,
            g.span(viewport) >= 0,
    ;
    assert(0 <= g.slot_rise(viewport) <= 0x10_0000);
    assert(1 <= reel.content_rise(viewport) <= 0x10_0000);
    assert forall|k: int| 0 <= k < reel.row_count() implies fits_i32(
        #[trigger] reel.row_top(viewport, frame, k),
    ) && fits_i32(
        reel.row_top(viewport, frame, k) + reel.content_rise(viewport),
    ) by {
        assert(moderate(frame.drops@[k] as int));
    }
}

} // verus!
