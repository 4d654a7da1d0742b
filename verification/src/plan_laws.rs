//! What a presentation plan shows of each monitor, and what a pass over the
//! thumbnails makes of it.

use vstd::prelude::*;

use crate::app_state::{AppState, LayoutModeConfig};
use crate::focus_reel::ReelView;
use crate::layout_laws::law_every_ring_member_is_shown_once_or_hidden;
use crate::presentation::{
    monitor_under, slot_plan, slot_rects, tween_from, PlanView, ReelSlotPlan, ReelTransition,
};
use crate::reel_layout::{shown_ids, LayoutView, ReelFrame, ReelSlotView};
use crate::reel_pass::{
    overlay_of, registered_after, step_count, step_shows, step_update, step_window, ReelPass,
};
use crate::types::{MonitorInfo, Rect, WindowId};

verus! {

/// Whether monitor `i` presents a reel: its active workspace has one, and no
/// window covers the monitor.
pub open spec fn presents(state: AppState, i: int, reel: ReelView) -> bool {
    &&& state.active(state.monitors@[i].id) matches Some(workspace)
    &&& workspace.fullscreen is None
    &&& workspace.focus_reel matches Some(held)
    &&& held@ == reel
}

/// The layout of a reel on monitor `i`.
pub open spec fn layout_on(
    state: AppState,
    frames: Seq<ReelFrame>,
    i: int,
    reel: ReelView,
) -> LayoutView {
    reel.arranged(state.monitors@[i].viewport, frames[i])
}

/// The plan of a slot shows the same window at the same place, cut to the column
/// it stands in.
pub open spec fn same_slot(shown: ReelSlotPlan, slot: ReelSlotView, layout: LayoutView) -> bool {
    &&& shown.window_id == slot.window_id
    &&& shown.rect == slot.rect
    &&& shown.clip == layout.column_rect
    &&& shown.fully_visible == slot.fully_visible
}

/// Whether a plan shows a slot of a layout.
pub open spec fn shows_slot(plan: PlanView, slot: ReelSlotView, layout: LayoutView) -> bool {
    exists|k: int| 0 <= k < plan.slots.len() && same_slot(#[trigger] plan.slots[k], slot, layout)
}

/// A plan shows the reels of all monitors: each slot of each presented reel is
/// in the plan, at its place, and so is each hidden window.
pub proof fn law_plan_shows_every_monitor(
    state: AppState,
    frames: Seq<ReelFrame>,
    i: int,
    reel: ReelView,
)
    requires
        0 <= i < state.monitors@.len(),
        presents(state, i, reel),
    ensures
        forall|j: int|
            0 <= j < layout_on(state, frames, i, reel).slots.len() ==> shows_slot(
                state.plan(frames),
                #[trigger] layout_on(state, frames, i, reel).slots[j],
                layout_on(state, frames, i, reel),
            ),
        forall|j: int|
            0 <= j < layout_on(state, frames, i, reel).hidden.len() ==> state.plan(
                frames,
            ).hidden.contains(#[trigger] layout_on(state, frames, i, reel).hidden[j]),
{
    let layout = layout_on(state, frames, i, reel);
    let count = state.monitors@.len() as int;
    assert forall|j: int| 0 <= j < layout.slots.len() implies shows_slot(
        state.plan(frames),
        #[trigger] layout.slots[j],
        layout,
    ) by {
        lemma_planned_slot(state, frames, count, i, reel, j);
    }
    assert forall|j: int| 0 <= j < layout.hidden.len() implies state.plan(frames).hidden.contains(
        #[trigger] layout.hidden[j],
    ) by {
        lemma_planned_hidden(state, frames, count, i, reel, j);
    }
}

/// The plan of the first monitors shows each slot of each of them.
proof fn lemma_planned_slot(
    state: AppState,
    frames: Seq<ReelFrame>,
    count: int,
    i: int,
    reel: ReelView,
    j: int,
)
    requires
        0 <= i < count <= state.monitors@.len(),
        presents(state, i, reel),
        0 <= j < layout_on(state, frames, i, reel).slots.len(),
    ensures
        shows_slot(
            state.planned(frames, count as nat),
            layout_on(state, frames, i, reel).slots[j],
            layout_on(state, frames, i, reel),
        ),
    decreases count,
{
    let layout = layout_on(state, frames, i, reel);
    let before = state.planned(frames, (count - 1) as nat);
    let after = state.planned(frames, count as nat);
    if i < count - 1 {
        lemma_planned_slot(state, frames, count - 1, i, reel, j);
        let k = choose|k: int|
            0 <= k < before.slots.len() && same_slot(
                #[trigger] before.slots[k],
                layout.slots[j],
                layout,
            );
        assert(after.slots[k] == before.slots[k]);
    } else {
        let k = before.slots.len() + j;
        assert(after.slots[k] == slot_plan(layout.slots[j], layout.column_rect));
        assert(same_slot(after.slots[k], layout.slots[j], layout));
    }
}

/// The plan of the first monitors names each hidden window of each of them.
proof fn lemma_planned_hidden(
    state: AppState,
    frames: Seq<ReelFrame>,
    count: int,
    i: int,
    reel: ReelView,
    j: int,
)
    requires
        0 <= i < count <= state.monitors@.len(),
        presents(state, i, reel),
        0 <= j < layout_on(state, frames, i, reel).hidden.len(),
    ensures
        state.planned(frames, count as nat).hidden.contains(
            layout_on(state, frames, i, reel).hidden[j],
        ),
    decreases count,
{
    let layout = layout_on(state, frames, i, reel);
    let before = state.planned(frames, (count - 1) as nat);
    let after = state.planned(frames, count as nat);
    if i < count - 1 {
        lemma_planned_hidden(state, frames, count - 1, i, reel, j);
        let k = choose|k: int|
            0 <= k < before.hidden.len() && before.hidden[k] == layout.hidden[j];
        assert(after.hidden[k] == before.hidden[k]);
    } else {
        assert(after.hidden[before.hidden.len() + j] == layout.hidden[j]);
    }
}

/// Every ring member of every presented reel is in the plan, as a slot or as a
/// hidden window.
pub proof fn law_plan_holds_every_ring_member(
    state: AppState,
    frames: Seq<ReelFrame>,
    i: int,
    reel: ReelView,
    id: WindowId,
)
    requires
        0 <= i < state.monitors@.len(),
        presents(state, i, reel),
        reel.wf(),
        reel.frame_fits(state.monitors@[i].viewport, frames[i]),
        reel.ring.contains(id),
    ensures
        state.plan(frames).hidden.contains(id) || exists|k: int|
            0 <= k < state.plan(frames).slots.len() && (#[trigger] state.plan(
                frames,
            ).slots[k]).window_id == id,
{
    law_plan_shows_every_monitor(state, frames, i, reel);
    let layout = layout_on(state, frames, i, reel);
    law_every_ring_member_is_shown_once_or_hidden(reel, state.monitors@[i].viewport, frames[i]);
    if layout.hidden.contains(id) {
        let j = choose|j: int| 0 <= j < layout.hidden.len() && layout.hidden[j] == id;
        assert(state.plan(frames).hidden.contains(layout.hidden[j]));
    } else {
        assert(shown_ids(layout.slots).contains(id));
        let j = choose|j: int| 0 <= j < shown_ids(layout.slots).len() && shown_ids(layout.slots)[j]
            == id;
        assert(layout.slots[j].window_id == id);
        assert(shows_slot(state.plan(frames), layout.slots[j], layout));
        let k = choose|k: int|
            0 <= k < state.plan(frames).slots.len() && same_slot(
                #[trigger] state.plan(frames).slots[k],
                layout.slots[j],
                layout,
            );
        assert(state.plan(frames).slots[k].window_id == id);
    }
}

/// A plan is built monitor by monitor: one that presents a reel adds its slots,
/// in the order of its column, and its hidden windows; any other adds nothing.
pub proof fn law_plan_grows_monitor_by_monitor(
    state: AppState,
    frames: Seq<ReelFrame>,
    i: int,
    reel: ReelView,
    j: int,
)
    requires
        0 <= i < state.monitors@.len(),
    ensures
        ({
            let before = state.planned(frames, i as nat);
            let after = state.planned(frames, (i + 1) as nat);
            let layout = layout_on(state, frames, i, reel);
            let slots = before.slots.len();
            let hidden = before.hidden.len();
            &&& state.planned(frames, 0).slots.len() == 0
            &&& state.planned(frames, 0).hidden.len() == 0
            &&& presents(state, i, reel) ==> {
                &&& after.slots.len() == slots + layout.slots.len()
                &&& after.hidden.len() == hidden + layout.hidden.len()
                &&& 0 <= j < slots ==> after.slots[j] == before.slots[j]
                &&& 0 <= j < hidden ==> after.hidden[j] == before.hidden[j]
                &&& 0 <= j < layout.slots.len() ==> same_slot(
                    after.slots[slots + j],
                    layout.slots[j],
                    layout,
                )
                &&& 0 <= j < layout.hidden.len() ==> after.hidden[hidden + j] == layout.hidden[j]
            }
            &&& (forall|other: ReelView| !presents(state, i, other)) ==> after == before
        }),
{
    let before = state.planned(frames, i as nat);
    let after = state.planned(frames, (i + 1) as nat);
    if state.reel_workspace(i) is Some && state.reel_workspace(i)->0.reel() is Some {
        let shown = state.reel_workspace(i)->0.reel()->0;
        assert(presents(state, i, shown));
        let layout = layout_on(state, frames, i, shown);
        if 0 <= j < layout.slots.len() {
            assert(after.slots[before.slots.len() + j] == slot_plan(
                layout.slots[j],
                layout.column_rect,
            ));
        }
    }
}

/// Where no two monitors present a window in common, no window is both a slot of
/// the plan and hidden.
pub proof fn law_planned_window_is_not_shown_and_hidden(
    state: AppState,
    frames: Seq<ReelFrame>,
    k: int,
    h: int,
)
    requires
        0 <= k < state.plan(frames).slots.len(),
        0 <= h < state.plan(frames).hidden.len(),
        forall|i: int, reel: ReelView|
            0 <= i < state.monitors@.len() && #[trigger] presents(state, i, reel) ==> reel.wf()
                && reel.frame_fits(state.monitors@[i].viewport, frames[i]),
        forall|i: int, a: ReelView, j: int, b: ReelView, id: WindowId|
            0 <= i < j < state.monitors@.len() && #[trigger] presents(state, i, a)
                && #[trigger] presents(state, j, b) && #[trigger] a.ring.contains(id)
                ==> !b.ring.contains(id),
    ensures
        state.plan(frames).slots[k].window_id != state.plan(frames).hidden[h],
{
    let id = state.plan(frames).hidden[h];
    if state.plan(frames).slots[k].window_id == id {
        law_planned_slot_comes_from_a_monitor(state, frames, k, h);
        let (i, j, a) = choose|i: int, j: int, a: ReelView|
            0 <= i < state.monitors@.len() && #[trigger] presents(state, i, a) && 0 <= j
                < layout_on(state, frames, i, a).slots.len() && same_slot(
                state.plan(frames).slots[k],
                #[trigger] layout_on(state, frames, i, a).slots[j],
                layout_on(state, frames, i, a),
            );
        let (m, b) = choose|m: int, b: ReelView|
            0 <= m < state.monitors@.len() && #[trigger] presents(state, m, b) && layout_on(
                state,
                frames,
                m,
                b,
            ).hidden.contains(id);
        law_every_ring_member_is_shown_once_or_hidden(a, state.monitors@[i].viewport, frames[i]);
        law_every_ring_member_is_shown_once_or_hidden(b, state.monitors@[m].viewport, frames[m]);
        let shown = shown_ids(layout_on(state, frames, i, a).slots);
        assert(shown[j] == id);
        assert(shown.contains(id));
        assert(a.ring.contains(id));
        assert(b.ring.contains(id));
    }
}

/// A plan shows nothing of its own: each of its slots and hidden windows is one
/// of a reel that some monitor presents.
pub proof fn law_planned_slot_comes_from_a_monitor(
    state: AppState,
    frames: Seq<ReelFrame>,
    k: int,
    h: int,
)
    ensures
        0 <= k < state.plan(frames).slots.len() ==> exists|i: int, j: int, reel: ReelView|
            0 <= i < state.monitors@.len() && #[trigger] presents(state, i, reel) && 0 <= j
                < layout_on(state, frames, i, reel).slots.len() && same_slot(
                state.plan(frames).slots[k],
                #[trigger] layout_on(state, frames, i, reel).slots[j],
                layout_on(state, frames, i, reel),
            ),
        0 <= h < state.plan(frames).hidden.len() ==> exists|i: int, reel: ReelView|
            0 <= i < state.monitors@.len() && #[trigger] presents(state, i, reel) && layout_on(
                state,
                frames,
                i,
                reel,
            ).hidden.contains(state.plan(frames).hidden[h]),
{
    lemma_planned_from(state, frames, state.monitors@.len() as int, k, h);
}

proof fn lemma_planned_from(state: AppState, frames: Seq<ReelFrame>, count: int, k: int, h: int)
    requires
        0 <= count <= state.monitors@.len(),
    ensures
        0 <= k < state.planned(frames, count as nat).slots.len() ==> exists|
            i: int,
            j: int,
            reel: ReelView,
        |
            0 <= i < count && #[trigger] presents(state, i, reel) && 0 <= j < layout_on(
                state,
                frames,
                i,
                reel,
            ).slots.len() && same_slot(
                state.planned(frames, count as nat).slots[k],
                #[trigger] layout_on(state, frames, i, reel).slots[j],
                layout_on(state, frames, i, reel),
            ),
        0 <= h < state.planned(frames, count as nat).hidden.len() ==> exists|
            i: int,
            reel: ReelView,
        |
            0 <= i < count && #[trigger] presents(state, i, reel) && layout_on(
                state,
                frames,
                i,
                reel,
            ).hidden.contains(state.planned(frames, count as nat).hidden[h]),
    decreases count,
{
    if count > 0 {
        lemma_planned_from(state, frames, count - 1, k, h);
        let before = state.planned(frames, (count - 1) as nat);
        let after = state.planned(frames, count as nat);
        let i = count - 1;
        if after != before {
            let reel = state.reel_workspace(i)->0.reel()->0;
            assert(presents(state, i, reel));
            let layout = layout_on(state, frames, i, reel);
            if before.slots.len() <= k < after.slots.len() {
                let j = k - before.slots.len();
                assert(after.slots[k] == slot_plan(layout.slots[j], layout.column_rect));
                assert(same_slot(after.slots[k], layout_on(state, frames, i, reel).slots[j], layout));
            } else if 0 <= k < before.slots.len() {
                assert(after.slots[k] == before.slots[k]);
            }
            if before.hidden.len() <= h < after.hidden.len() {
                let j = h - before.hidden.len();
                assert(after.hidden[h] == layout.hidden[j]);
                assert(layout.hidden.contains(layout.hidden[j]));
            } else if 0 <= h < before.hidden.len() {
                assert(after.hidden[h] == before.hidden[h]);
            }
        }
    }
}

/// The planned focus is that of the last monitor that presents a reel with a
/// focus window, in its main rectangle; there is none if no monitor does.
pub proof fn law_planned_focus_is_that_of_the_last_monitor(
    state: AppState,
    frames: Seq<ReelFrame>,
    i: int,
    reel: ReelView,
    id: WindowId,
)
    requires
        0 <= i < state.monitors@.len(),
        presents(state, i, reel),
        reel.focus == Some(id),
        forall|j: int, other: ReelView|
            i < j < state.monitors@.len() && #[trigger] presents(state, j, other) ==> other.focus
                is None,
    ensures
        state.plan(frames).focus == Some((id, layout_on(state, frames, i, reel).main_rect)),
{
    lemma_planned_focus(state, frames, state.monitors@.len() as int, i, reel, id);
}

proof fn lemma_planned_focus(
    state: AppState,
    frames: Seq<ReelFrame>,
    count: int,
    i: int,
    reel: ReelView,
    id: WindowId,
)
    requires
        0 <= i < count <= state.monitors@.len(),
        presents(state, i, reel),
        reel.focus == Some(id),
        forall|j: int, other: ReelView|
            i < j < state.monitors@.len() && #[trigger] presents(state, j, other) ==> other.focus
                is None,
    ensures
        state.planned(frames, count as nat).focus == Some(
            (id, layout_on(state, frames, i, reel).main_rect),
        ),
    decreases count,
{
    if i < count - 1 {
        lemma_planned_focus(state, frames, count - 1, i, reel, id);
        let j = count - 1;
        if state.reel_workspace(j) is Some && state.reel_workspace(j)->0.reel() is Some {
            assert(presents(state, j, state.reel_workspace(j)->0.reel()->0));
        }
    }
}

/// Without a reel with a focus window on any monitor there is no planned focus.
pub proof fn law_no_focus_is_planned_without_one(
    state: AppState,
    frames: Seq<ReelFrame>,
    count: nat,
)
    requires
        count <= state.monitors@.len(),
        forall|j: int, other: ReelView|
            0 <= j < state.monitors@.len() && #[trigger] presents(state, j, other) ==> other.focus
                is None,
    ensures
        state.planned(frames, count).focus is None,
    decreases count,
{
    if count > 0 {
        law_no_focus_is_planned_without_one(state, frames, (count - 1) as nat);
        let j = count - 1;
        if state.reel_workspace(j) is Some && state.reel_workspace(j)->0.reel() is Some {
            assert(presents(state, j, state.reel_workspace(j)->0.reel()->0));
        }
    }
}

/// Input is intercepted in the rendered region of the focused monitor's reel.
pub proof fn law_click_region_is_the_focused_monitors(
    state: AppState,
    frames: Seq<ReelFrame>,
    i: int,
    reel: ReelView,
)
    requires
        0 <= i < state.monitors@.len(),
        state.monitors@[i].id == state.focused_monitor,
        forall|j: int|
            0 <= j < state.monitors@.len() && j != i ==> (#[trigger] state.monitors@[j]).id
                != state.focused_monitor,
        presents(state, i, reel),
    ensures
        state.plan(frames).click_region == layout_on(state, frames, i, reel).region(),
{
    lemma_click_region(state, frames, state.monitors@.len() as int, i, reel);
}

proof fn lemma_click_region(
    state: AppState,
    frames: Seq<ReelFrame>,
    count: int,
    i: int,
    reel: ReelView,
)
    requires
        0 <= i < count <= state.monitors@.len(),
        state.monitors@[i].id == state.focused_monitor,
        forall|j: int|
            0 <= j < state.monitors@.len() && j != i ==> (#[trigger] state.monitors@[j]).id
                != state.focused_monitor,
        presents(state, i, reel),
    ensures
        state.planned(frames, count as nat).click_region == layout_on(
            state,
            frames,
            i,
            reel,
        ).region(),
    decreases count,
{
    if i < count - 1 {
        lemma_click_region(state, frames, count - 1, i, reel);
        assert(state.monitors@[count - 1].id != state.focused_monitor);
    }
}

/// The snapshot of a plan has a rectangle for the focus window and for each
/// slot, and for no other window: that of the last slot of the window, else that
/// of the focus.
pub proof fn law_snapshot_is_what_the_plan_shows(plan: PlanView, id: WindowId)
    ensures
        plan.rects().contains_key(id) <==> {
            ||| plan.focus matches Some((focus, _)) && focus == id
            ||| exists|i: int|
                0 <= i < plan.slots.len() && (#[trigger] plan.slots[i]).window_id == id
        },
        forall|i: int|
            0 <= i < plan.slots.len() && (#[trigger] plan.slots[i]).window_id == id && (forall|
                j: int,
            |
                i < j < plan.slots.len() ==> (#[trigger] plan.slots[j]).window_id != id)
                ==> plan.rects()[id] == plan.slots[i].rect,
        (forall|i: int|
            0 <= i < plan.slots.len() ==> (#[trigger] plan.slots[i]).window_id != id) ==> (
        plan.focus matches Some((focus, rect)) ==> focus == id ==> plan.rects()[id] == rect),
{
    let start = match plan.focus {
        Some((focus, rect)) => Map::empty().insert(focus, rect),
        None => Map::empty(),
    };
    lemma_rects_named(plan.slots, start, id);
    assert forall|i: int|
        0 <= i < plan.slots.len() && (#[trigger] plan.slots[i]).window_id == id && (forall|j: int|
            i < j < plan.slots.len() ==> (#[trigger] plan.slots[j]).window_id
                != id) implies plan.rects()[id] == plan.slots[i].rect by {
        lemma_rect_of_last(plan.slots, start, id, i);
    }
    if forall|i: int| 0 <= i < plan.slots.len() ==> (#[trigger] plan.slots[i]).window_id != id {
        lemma_rect_unchanged(plan.slots, start, id);
    }
}

/// The windows that have a rectangle.
proof fn lemma_rects_named(slots: Seq<ReelSlotPlan>, start: Map<WindowId, Rect>, id: WindowId)
    ensures
        slot_rects(slots, start).contains_key(id) <==> start.contains_key(id) || exists|i: int|
            0 <= i < slots.len() && (#[trigger] slots[i]).window_id == id,
    decreases slots.len(),
{
    if slots.len() > 0 {
        let front = slots.drop_last();
        lemma_rects_named(front, start, id);
        if exists|i: int| 0 <= i < front.len() && (#[trigger] front[i]).window_id == id {
            let i = choose|i: int| 0 <= i < front.len() && (#[trigger] front[i]).window_id == id;
            assert(slots[i].window_id == id);
        }
        if slots.last().window_id == id {
            assert(slots[slots.len() - 1].window_id == id);
        }
        if exists|i: int| 0 <= i < slots.len() && (#[trigger] slots[i]).window_id == id {
            let i = choose|i: int| 0 <= i < slots.len() && (#[trigger] slots[i]).window_id == id;
            if i < front.len() {
                assert(front[i].window_id == id);
            }
        }
    }
}

/// The last slot of a window gives its rectangle.
proof fn lemma_rect_of_last(
    slots: Seq<ReelSlotPlan>,
    start: Map<WindowId, Rect>,
    id: WindowId,
    i: int,
)
    requires
        0 <= i < slots.len(),
        slots[i].window_id == id,
        forall|j: int| i < j < slots.len() ==> (#[trigger] slots[j]).window_id != id,
    ensures
        slot_rects(slots, start)[id] == slots[i].rect,
    decreases slots.len(),
{
    if i < slots.len() - 1 {
        let front = slots.drop_last();
        assert(slots[slots.len() - 1].window_id != id);
        assert forall|j: int| i < j < front.len() implies (#[trigger] front[j]).window_id != id by {
            assert(slots[j].window_id != id);
        }
        lemma_rect_of_last(front, start, id, i);
    }
}

/// A window without a slot keeps the rectangle it has.
proof fn lemma_rect_unchanged(slots: Seq<ReelSlotPlan>, start: Map<WindowId, Rect>, id: WindowId)
    requires
        forall|j: int| 0 <= j < slots.len() ==> (#[trigger] slots[j]).window_id != id,
    ensures
        slot_rects(slots, start)[id] == start[id],
    decreases slots.len(),
{
    if slots.len() > 0 {
        let front = slots.drop_last();
        assert(slots[slots.len() - 1].window_id != id);
        assert forall|j: int| 0 <= j < front.len() implies (#[trigger] front[j]).window_id != id by {
            assert(slots[j].window_id != id);
        }
        lemma_rect_unchanged(front, start, id);
    }
}

/// The monitor at a point is the first that has the pixel; there is none exactly
/// if no monitor has it.
pub proof fn law_monitor_at_a_point_has_the_pixel(monitors: Seq<MonitorInfo>, x: i32, y: i32)
    ensures
        match monitor_under(monitors, x, y) {
            Some(at) => {
                &&& 0 <= at < monitors.len()
                &&& monitors[at].rect.x <= x && x < monitors[at].rect.x + monitors[at].rect.width
                &&& monitors[at].rect.y <= y && y < monitors[at].rect.y + monitors[at].rect.height
                &&& forall|j: int|
                    0 <= j < at ==> !((#[trigger] monitors[j]).rect.x <= x && x < monitors[j].rect.x
                        + monitors[j].rect.width && monitors[j].rect.y <= y && y
                        < monitors[j].rect.y + monitors[j].rect.height)
            },
            None => forall|j: int|
                0 <= j < monitors.len() ==> !((#[trigger] monitors[j]).rect.x <= x && x
                    < monitors[j].rect.x + monitors[j].rect.width && monitors[j].rect.y <= y && y
                    < monitors[j].rect.y + monitors[j].rect.height),
        },
    decreases monitors.len(),
{
    if monitors.len() > 0 {
        let front = monitors.drop_last();
        law_monitor_at_a_point_has_the_pixel(front, x, y);
        assert forall|j: int| 0 <= j < front.len() implies front[j] == #[trigger] monitors[j] by {}
    }
}

/// A point finds a reel slot exactly if, in Focus + Reel mode, the monitor there
/// presents a reel that is hit there: nothing else about the state matters.
pub proof fn law_input_reaches_the_reel_under_the_pointer(
    state: AppState,
    frames: Seq<ReelFrame>,
    x: i32,
    y: i32,
    i: int,
    reel: ReelView,
    slot: i64,
    id: WindowId,
)
    requires
        monitor_under(state.monitors@, x, y) == Some(i),
        presents(state, i, reel),
    ensures
        state.reel_slot_under(x, y, frames) == Some((i, slot, id)) <==> state.mode
            == LayoutModeConfig::Serval && reel.hit(state.monitors@[i].viewport, frames[i], x, y)
            == Some((slot, id)),
        state.wheel_scrolls(x, y, frames) <==> state.mode == LayoutModeConfig::Serval && reel.hit(
            state.monitors@[i].viewport,
            frames[i],
            x,
            y,
        ) is Some && reel.ring.len() > reel.geometry.visible_slots,
{
}

/// A promotion tween starts only if motion is allowed and something was shown;
/// it then starts at its beginning, lasts the layout duration and comes from the
/// rectangles that were shown.
pub proof fn law_tween_starts_from_what_was_shown(
    state: AppState,
    from: Map<WindowId, Rect>,
    focus_window: Option<WindowId>,
    started: Option<ReelTransition>,
    id: WindowId,
)
    requires
        state.starts_transition(from, focus_window, started),
        from.contains_key(id),
    ensures
        started is Some <==> !state.reduce_motion && state.layout_duration_ms > 0,
        started matches Some(tween) ==> {
            &&& tween.elapsed_ms == 0
            &&& tween.duration_ms == state.layout_duration_ms
            &&& tween.easing == state.easing
            &&& tween.focus_window == focus_window
            &&& tween.from_rects@ == from
        },
{
    assert(from.dom().contains(id));
}

/// Where a thumbnail comes from: its rectangle from before, while there is a
/// tween that knows one other than the target.
pub proof fn law_thumbnail_comes_from_its_old_place(
    transition: Option<ReelTransition>,
    id: WindowId,
    target: Rect,
)
    ensures
        tween_from(transition, id, target) matches Some(from) ==> from != target,
        transition is None ==> tween_from(transition, id, target) is None,
        transition matches Some(tween) ==> {
            &&& !tween.from_rects@.contains_key(id) ==> tween_from(transition, id, target) is None
            &&& tween.from_rects@.contains_key(id) && tween.from_rects@[id] != target
                ==> tween_from(transition, id, target) == Some(tween.from_rects@[id])
        },
{
}

/// Time adds up in a tween and stops at the largest count; the tween runs as
/// long as it has not lasted its duration.
pub proof fn law_tween_time_adds_up(tween: ReelTransition, delta_ms: u64)
    ensures
        tween.elapsed_ms + delta_ms <= 0xffff_ffff_ffff_ffff ==> tween.after(delta_ms).elapsed_ms
            == tween.elapsed_ms + delta_ms,
        tween.elapsed_ms + delta_ms > 0xffff_ffff_ffff_ffff ==> tween.after(delta_ms).elapsed_ms
            == 0xffff_ffff_ffff_ffff,
        tween.after(delta_ms).duration_ms == tween.duration_ms,
        tween.after(delta_ms).from_rects == tween.from_rects,
        tween.after(delta_ms).focus_window == tween.focus_window,
        tween.after(delta_ms).easing == tween.easing,
        tween.running() <==> tween.elapsed_ms < tween.duration_ms,
{
}

/// The promoted window has an overlay exactly while its tween runs and it has
/// another place to come from; the overlay goes to the main rectangle.
pub proof fn law_overlay_grows_into_the_main_rect(
    plan: PlanView,
    transition: Option<ReelTransition>,
    id: WindowId,
    main: Rect,
)
    ensures
        overlay_of(plan, transition) == Some((id, main)) <==> plan.focus == Some((id, main)) && (
        transition matches Some(tween) && tween.elapsed_ms < tween.duration_ms
            && tween.from_rects@.contains_key(id) && tween.from_rects@[id] != main),
{
}

/// A pass takes one step for each slot, one for the overlay if there is one, and
/// one for each hidden window, in this order. The steps of slots and overlay show
/// their window where the plan has it, the others hide theirs.
pub proof fn law_pass_steps_follow_the_plan(
    plan: PlanView,
    overlay: Option<(WindowId, Rect)>,
    transition: Option<ReelTransition>,
    k: int,
)
    requires
        0 <= k < step_count(plan, overlay),
    ensures
        ({
            let slots = plan.slots.len() as int;
            let extra = if overlay is Some { 1int } else { 0 };
            let update = step_update(plan, overlay, transition, k);
            &&& step_count(plan, overlay) == slots + extra + plan.hidden.len()
            &&& update.window_id == step_window(plan, overlay, k)
            &&& k < slots ==> {
                &&& update.window_id == plan.slots[k].window_id
                &&& update.visible && step_shows(plan, overlay, k)
                &&& update.target == plan.slots[k].rect
                &&& plan.slots[k].fully_visible ==> update.clip is None
                &&& !plan.slots[k].fully_visible ==> update.clip == Some(plan.slots[k].clip)
                &&& update.from == tween_from(
                    transition,
                    plan.slots[k].window_id,
                    plan.slots[k].rect,
                )
            }
            &&& k >= slots && k < slots + extra ==> (overlay matches Some((id, main))
                && update.window_id == id && update.target == main && update.visible && update.clip
                is None && step_shows(plan, overlay, k) && update.from == tween_from(
                transition,
                id,
                main,
            ))
            &&& k >= slots + extra ==> {
                &&& update.window_id == plan.hidden[k - slots - extra]
                &&& !update.visible && !step_shows(plan, overlay, k)
            }
        }),
{
}

/// A step registers the thumbnail of the window it shows, if that succeeds, and
/// touches no other.
pub proof fn law_step_registers_its_own_window(
    plan: PlanView,
    overlay: Option<(WindowId, Rect)>,
    thumbnails: Set<WindowId>,
    k: int,
    registers: bool,
    id: WindowId,
)
    requires
        0 <= k < step_count(plan, overlay),
    ensures
        id != step_window(plan, overlay, k) ==> registered_after(
            plan,
            overlay,
            thumbnails,
            k,
            registers,
        ).contains(id) == thumbnails.contains(id),
        thumbnails.contains(id) ==> registered_after(
            plan,
            overlay,
            thumbnails,
            k,
            registers,
        ).contains(id),
        k < plan.slots.len() && registers ==> registered_after(
            plan,
            overlay,
            thumbnails,
            k,
            registers,
        ).contains(plan.slots[k].window_id),
        !registers ==> registered_after(plan, overlay, thumbnails, k, registers) == thumbnails,
{
}

/// A pass in Focus + Reel mode keeps exactly the thumbnails of windows that are
/// shown, hidden or overlaid, intercepts input unless paused, and squares the
/// corners of a focus window that was not squared last.
pub proof fn law_active_pass_keeps_what_the_plan_names(
    before: AppState,
    frames: Seq<ReelFrame>,
    pass: ReelPass,
    after: AppState,
    id: WindowId,
)
    requires
        before.starts_pass(true, frames, pass, after),
    ensures
        pass.plan@ == before.plan(frames),
        pass.at == 0,
        pass.input_enabled == !before.paused,
        !pass.restore_corners,
        after.reel_thumbnails@.contains(id) <==> before.reel_thumbnails@.contains(id) && {
            ||| exists|i: int|
                0 <= i < pass.plan@.slots.len() && (#[trigger] pass.plan@.slots[i]).window_id == id
            ||| pass.plan@.hidden.contains(id)
            ||| pass.overlay matches Some((focus, _)) && focus == id
        },
        pass.plan@.focus matches Some((focus, _)) ==> {
            &&& after.reel_last_squared_focus == Some(focus)
            &&& before.reel_last_squared_focus == Some(focus) ==> pass.square is None
            &&& before.reel_last_squared_focus != Some(focus) ==> pass.square == Some(focus)
        },
        pass.plan@.focus is None ==> pass.square is None && after.reel_last_squared_focus is None,
        after.reel_transition == before.reel_transition,
        after.workspaces == before.workspaces,
        after.monitors == before.monitors,
{
}

/// While there is a tween, its promoted window is the one held back; without one
/// none is.
pub proof fn law_held_back_window_is_the_promoted_one(state: AppState)
    ensures
        state.reel_transition is None ==> state.held_back() is None,
        state.reel_transition matches Some(tween) ==> state.held_back() == tween.focus_window,
{
}

} // verus!
