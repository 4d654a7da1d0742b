//! What holds of the reel's presentation and input.

use vstd::prelude::*;

use crate::app_state::{workspace_monitors, AppState, LayoutModeConfig};
use crate::id_list::lemma_find_id;
use crate::layout_laws::law_hit_window_is_the_one_promoted;
use crate::presentation::{blank_plan, monitor_under, slot_rects, PlanView, ReelSlotPlan, ReelTransition};
use crate::reel_layout::ReelFrame;
use crate::types::{MonitorId, MonitorInfo, Rect, WindowId, WindowPlacement};
use crate::workspace::Workspace;

verus! {

proof fn lemma_monitor_under_range(monitors: Seq<MonitorInfo>, x: i32, y: i32)
    ensures
        monitor_under(monitors, x, y) matches Some(at) ==> 0 <= at < monitors.len(),
    decreases monitors.len(),
{
    if monitors.len() > 0 {
        lemma_monitor_under_range(monitors.drop_last(), x, y);
    }
}

/// A click on a reel slot makes the window shown in that slot the focus window,
/// and that window is a member of the ring it was clicked in.
pub proof fn law_click_promotes_the_window_under_the_cursor(
    state: AppState,
    x: i32,
    y: i32,
    frames: Seq<ReelFrame>,
)
    requires
        state.frames_ready(frames),
        state.reel_slot_under(x, y, frames) is Some,
    ensures
        ({
            let (i, slot, id) = state.reel_slot_under(x, y, frames)->0;
            let reel = state.reel_workspace(i)->0.reel()->0;
            &&& reel.ring.contains(id)
            &&& reel.promoted(slot as int).focus == Some(id)
        }),
{
    lemma_monitor_under_range(state.monitors@, x, y);
    let (i, slot, id) = state.reel_slot_under(x, y, frames)->0;
    let reel = state.reel_workspace(i)->0.reel()->0;
    assert(state.frame_ready(i, frames[i]));
    law_hit_window_is_the_one_promoted(reel, state.monitors@[i].viewport, frames[i], x, y);
}

/// With one monitor, the window that was clicked is the focus window of the
/// next frame's plan.
pub proof fn law_clicked_window_is_the_next_planned_focus(
    before: AppState,
    after: AppState,
    x: i32,
    y: i32,
    frames: Seq<ReelFrame>,
    later: Seq<ReelFrame>,
)
    requires
        before.frames_ready(frames),
        before.monitors@.len() == 1,
        after.monitors@ == before.monitors@,
        before.reel_slot_under(x, y, frames) is Some,
        ({
            let (i, slot, _) = before.reel_slot_under(x, y, frames)->0;
            let id = before.monitors@[i].id;
            let workspace = before.active(id)->0;
            &&& after.active(id) is Some
            &&& workspace.with_reel_mirrored(
                workspace.reel()->0.promoted(slot as int),
                after.active(id)->0,
            )
        }),
    ensures
        ({
            let (_, _, clicked) = before.reel_slot_under(x, y, frames)->0;
            after.plan(later).focus matches Some((id, _)) && id == clicked
        }),
{
    law_click_promotes_the_window_under_the_cursor(before, x, y, frames);
    lemma_monitor_under_range(before.monitors@, x, y);
    assert(after.planned(later, 0) == blank_plan());
    assert(after.plan(later) == after.planned(later, 1));
}

/// Identities stay distinct: replacing the active workspace of a monitor, which
/// is all that any operation does to monitors and workspaces, doubles none.
pub proof fn law_identities_stay_distinct(
    before: AppState,
    after: AppState,
    id: MonitorId,
    changed: Workspace,
)
    requires
        before.identities_distinct(),
        after.monitors == before.monitors,
        after.workspaces == before.workspaces || before.replaces_active(
            id,
            changed,
            after.workspaces@,
        ),
    ensures
        after.identities_distinct(),
        forall|other: MonitorId| other != id ==> #[trigger] after.active(other) == before.active(
            other,
        ),
{
    let owners = workspace_monitors(before.workspaces@);
    if after.workspaces != before.workspaces {
        lemma_find_id(owners, id);
        assert(workspace_monitors(after.workspaces@) =~= owners);
        assert forall|other: MonitorId| other != id implies #[trigger] after.active(other)
            == before.active(other) by {
            lemma_find_id(owners, other);
        }
    }
}

/// Outside Focus + Reel mode neither wheel nor click does anything.
pub proof fn law_other_modes_leave_input_alone(
    state: AppState,
    x: i32,
    y: i32,
    frames: Seq<ReelFrame>,
)
    requires
        state.mode != LayoutModeConfig::Serval,
    ensures
        state.reel_slot_under(x, y, frames) is None,
        !state.wheel_scrolls(x, y, frames),
{
}

/// A monitor covered by a fullscreen window presents no reel: its frame changes
/// nothing in the plan.
pub proof fn law_covered_monitor_presents_no_reel(
    state: AppState,
    frames: Seq<ReelFrame>,
    count: nat,
)
    requires
        0 < count <= state.monitors@.len(),
        state.active(state.monitors@[count - 1].id) matches Some(workspace)
            && workspace.fullscreen is Some,
    ensures
        state.planned(frames, count) == state.planned(frames, (count - 1) as nat),
{
}

/// Input is intercepted on the focused monitor only: without a reel there is no
/// click region.
pub proof fn law_click_region_belongs_to_the_focused_monitor(
    state: AppState,
    frames: Seq<ReelFrame>,
    count: nat,
)
    requires
        count <= state.monitors@.len(),
        forall|i: int|
            0 <= i < count && (#[trigger] state.monitors@[i]).id == state.focused_monitor ==> (
            state.reel_workspace(i) matches Some(workspace) ==> workspace.reel() is None),
    ensures
        state.planned(frames, count).click_region is None,
    decreases count,
{
    if count > 0 {
        law_click_region_belongs_to_the_focused_monitor(state, frames, (count - 1) as nat);
        let last = state.monitors@[count - 1];
    }
}

/// While a promotion tween runs the promoted window gets no placement, and the
/// other placements keep their order.
pub proof fn law_promoted_window_is_held_back(
    state: AppState,
    placements: Seq<WindowPlacement>,
    id: WindowId,
    i: int,
)
    requires
        state.held_back() == Some(id),
        0 <= i < placements.filter(|p: WindowPlacement| p.window_id != id).len(),
    ensures
        placements.filter(|p: WindowPlacement| p.window_id != id)[i].window_id != id,
{
    placements.lemma_filter_pred(|p: WindowPlacement| p.window_id != id, i);
}

/// A tween comes to its end: a tick that leaves it running brings the end
/// nearer, and one that covers what is left ends it.
pub proof fn law_tween_ends(transition: ReelTransition, delta_ms: u64)
    requires
        delta_ms > 0,
    ensures
        transition.after(delta_ms).running() ==> transition.running() && transition.after(
            delta_ms,
        ).elapsed_ms > transition.elapsed_ms,
        transition.elapsed_ms + delta_ms >= transition.duration_ms ==> !transition.after(
            delta_ms,
        ).running(),
{
}

/// A plan's snapshot holds a rectangle for each slot it shows.
pub proof fn law_snapshot_covers_every_slot(plan: PlanView, i: int)
    requires
        0 <= i < plan.slots.len(),
    ensures
        plan.rects().contains_key(plan.slots[i].window_id),
{
    let start = match plan.focus {
        Some((id, rect)) => Map::empty().insert(id, rect),
        None => Map::empty(),
    };
    lemma_slot_rects(plan.slots, start, i);
}

proof fn lemma_slot_rects(slots: Seq<ReelSlotPlan>, start: Map<WindowId, Rect>, i: int)
    requires
        0 <= i < slots.len(),
    ensures
        slot_rects(slots, start).contains_key(slots[i].window_id),
    decreases slots.len(),
{
    if i < slots.len() - 1 {
        lemma_slot_rects(slots.drop_last(), start, i);
    }
}

} // verus!
