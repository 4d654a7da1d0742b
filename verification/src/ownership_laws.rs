//! Which workspace, monitor and column a window belongs to, and which windows
//! the layout leaves alone.

use vstd::prelude::*;

use crate::app_state::{
    holder_in, holds, home_in, monitor_ids, workspace_monitors, AppState, MonitorWorkspaces,
};
use crate::focus_reel::ReelView;
use crate::id_list::{find_id, lemma_filter_members, lemma_find_id, lemma_find_id_is};
use crate::landing_laws::first_monitor;
use crate::reel_geometry::{ReelGeometry, ReelSide};
use crate::reel_place_laws::lemma_filter_order;
use crate::types::{MonitorId, Visibility, WindowId, WindowPlacement};
use crate::workspace::{column_windows, location_in, Column, Workspace};

verus! {

/// Whether a window stands at a position of a column.
pub open spec fn stands_at(columns: Seq<Column>, id: WindowId, column: int, window: int) -> bool {
    &&& 0 <= column < columns.len()
    &&& 0 <= window < columns[column].windows@.len()
    &&& columns[column].windows@[window] == id
}

/// Whether a place in the columns comes before another.
pub open spec fn before(column: int, window: int, other_column: int, other_window: int) -> bool {
    column < other_column || (column == other_column && window < other_window)
}

/// Whether a workspace has a window in a column or floating.
pub open spec fn has_window(workspace: Workspace, id: WindowId) -> bool {
    ||| exists|c: int, w: int| #[trigger] stands_at(workspace.columns@, id, c, w)
    ||| workspace.floating@.contains(id)
}

/// Whether a list of workspaces at a place has a window, and nothing before it.
pub open spec fn first_home(
    workspaces: Seq<MonitorWorkspaces>,
    id: WindowId,
    at: int,
    index: int,
) -> bool {
    &&& 0 <= at < workspaces.len()
    &&& 0 <= index < workspaces[at].list@.len()
    &&& has_window(workspaces[at].list@[index], id)
    &&& forall|j: int|
        0 <= j < index ==> !has_window(#[trigger] workspaces[at].list@[j], id)
    &&& forall|a: int, j: int|
        0 <= a < at && 0 <= j < workspaces[a].list@.len() ==> !has_window(
            #[trigger] workspaces[a].list@[j],
            id,
        )
}

/// Whether no workspace has a window.
pub open spec fn homeless(workspaces: Seq<MonitorWorkspaces>, id: WindowId) -> bool {
    forall|a: int, j: int|
        0 <= a < workspaces.len() && 0 <= j < workspaces[a].list@.len() ==> !has_window(
            #[trigger] workspaces[a].list@[j],
            id,
        )
}

/// A window is located at its first place in the columns, and nowhere if it is
/// in none.
pub proof fn law_location_is_the_first_place(
    columns: Seq<Column>,
    id: WindowId,
    column: int,
    window: int,
)
    ensures
        stands_at(columns, id, column, window) && (forall|c: int, w: int| #[trigger]
            stands_at(columns, id, c, w) ==> !before(c, w, column, window)) ==> location_in(
            columns,
            id,
        ) == Some((column, window)),
        location_in(columns, id) is None <==> forall|c: int, w: int|
            !(#[trigger] stands_at(columns, id, c, w)),
    decreases columns.len(),
{
    if columns.len() > 0 {
        let front = columns.drop_last();
        let last = columns.len() - 1;
        let windows = columns.last().windows@;
        law_location_is_the_first_place(front, id, column, window);
        lemma_find_id(windows, id);
        assert forall|c: int, w: int| c < last implies stands_at(front, id, c, w) == stands_at(
            columns,
            id,
            c,
            w,
        ) by {
            if 0 <= c < last {
                assert(front[c] == columns[c]);
            }
        }
        match location_in(front, id) {
            Some((c, w)) => {
                lemma_location_stands(front, id);
                assert(stands_at(front, id, c, w));
                assert(stands_at(columns, id, c, w));
            },
            None => {
                if let Some(at) = find_id(windows, id) {
                    assert(stands_at(columns, id, last, at));
                    if stands_at(columns, id, column, window) && (forall|c: int, w: int| #[trigger]
                        stands_at(columns, id, c, w) ==> !before(c, w, column, window)) {
                        if column < last {
                            assert(stands_at(front, id, column, window));
                        }
                        assert(!before(last, at, column, window));
                    }
                } else {
                    assert forall|c: int, w: int| !(#[trigger] stands_at(columns, id, c, w)) by {
                        if stands_at(columns, id, c, w) {
                            if c < last {
                                assert(stands_at(front, id, c, w));
                            } else {
                                assert(windows[w] == id);
                                assert(windows.contains(id));
                            }
                        }
                    }
                }
            },
        }
        if stands_at(columns, id, column, window) && column == last && location_in(front, id)
            is None {
            assert(windows[window] == id);
        }
    }
}

proof fn lemma_location_stands(columns: Seq<Column>, id: WindowId)
    ensures
        location_in(columns, id) matches Some((c, w)) ==> stands_at(columns, id, c, w),
    decreases columns.len(),
{
    if columns.len() > 0 {
        lemma_location_stands(columns.drop_last(), id);
        lemma_find_id(columns.last().windows@, id);
        if let Some((c, w)) = location_in(columns.drop_last(), id) {
            assert(columns.drop_last()[c] == columns[c]);
        }
    }
}

/// Where a place in the columns comes in column order.
proof fn lemma_place_in_order(columns: Seq<Column>, id: WindowId, column: int, window: int) -> (at:
    int)
    requires
        stands_at(columns, id, column, window),
    ensures
        at == column_windows(columns.take(column)).len() + window,
        0 <= at < column_windows(columns).len(),
        column_windows(columns)[at] == id,
    decreases columns.len(),
{
    let front = columns.drop_last();
    if column < front.len() {
        assert(front[column] == columns[column]);
        assert(front.take(column) =~= columns.take(column));
        lemma_place_in_order(front, id, column, window)
    } else {
        assert(columns.take(column) =~= front);
        column_windows(front).len() as int + window
    }
}

/// How many windows the first columns hold.
proof fn lemma_places_grow(columns: Seq<Column>, few: int, many: int)
    requires
        0 <= few < many <= columns.len(),
    ensures
        column_windows(columns.take(few)).len() + columns[few].windows@.len() <= column_windows(
            columns.take(many),
        ).len(),
    decreases many,
{
    assert(columns.take(many).drop_last() =~= columns.take(many - 1));
    assert(columns.take(many).last() == columns[many - 1]);
    if few < many - 1 {
        lemma_places_grow(columns, few, many - 1);
    }
}

/// A window is tiled exactly if it stands in a column and is neither floating
/// nor minimized.
pub proof fn law_tiled_windows_stand_in_columns(workspace: Workspace, id: WindowId)
    ensures
        workspace.tiled().contains(id) <==> {
            &&& exists|c: int, w: int| #[trigger] stands_at(workspace.columns@, id, c, w)
            &&& !workspace.floating@.contains(id)
            &&& !workspace.minimized_windows@.contains(id)
        },
{
    let all = column_windows(workspace.columns@);
    let keep = |x: WindowId| !workspace.aside(x);
    lemma_filter_members(all, keep);
    assert(workspace.tiled() == all.filter(keep));
    if all.contains(id) {
        lemma_in_columns(workspace.columns@, id);
    }
    if exists|c: int, w: int| #[trigger] stands_at(workspace.columns@, id, c, w) {
        let (c, w) = choose|c: int, w: int| #[trigger] stands_at(workspace.columns@, id, c, w);
        let at = lemma_place_in_order(workspace.columns@, id, c, w);
        assert(all[at] == id);
    }
}

proof fn lemma_in_columns(columns: Seq<Column>, id: WindowId)
    requires
        column_windows(columns).contains(id),
    ensures
        exists|c: int, w: int| #[trigger] stands_at(columns, id, c, w),
    decreases columns.len(),
{
    let front = columns.drop_last();
    let all = column_windows(columns);
    let i = choose|i: int| 0 <= i < all.len() && all[i] == id;
    if i < column_windows(front).len() {
        assert(column_windows(front)[i] == id);
        lemma_in_columns(front, id);
        let (c, w) = choose|c: int, w: int| #[trigger] stands_at(front, id, c, w);
        assert(front[c] == columns[c]);
        assert(stands_at(columns, id, c, w));
    } else {
        let w = i - column_windows(front).len();
        assert(columns.last().windows@[w] == id);
        assert(stands_at(columns, id, columns.len() - 1, w));
    }
}

/// Tiled windows are listed column by column, and within a column in its order.
pub proof fn law_tiled_windows_keep_column_order(
    workspace: Workspace,
    a: WindowId,
    column: int,
    window: int,
    b: WindowId,
    other_column: int,
    other_window: int,
)
    requires
        stands_at(workspace.columns@, a, column, window),
        stands_at(workspace.columns@, b, other_column, other_window),
        before(column, window, other_column, other_window),
        !workspace.aside(a),
        !workspace.aside(b),
    ensures
        exists|i: int, j: int|
            0 <= i < j < workspace.tiled().len() && #[trigger] workspace.tiled()[i] == a
                && #[trigger] workspace.tiled()[j] == b,
{
    let columns = workspace.columns@;
    let keep = |x: WindowId| !workspace.aside(x);
    let i = lemma_place_in_order(columns, a, column, window);
    let j = lemma_place_in_order(columns, b, other_column, other_window);
    if column < other_column {
        lemma_places_grow(columns, column, other_column);
    }
    assert(i < j);
    lemma_filter_order(column_windows(columns), keep, i, j);
    assert(workspace.tiled() == column_windows(columns).filter(keep));
}

/// The column focus is the window at the focused place, if there is one.
pub proof fn law_column_focus_is_at_the_focused_place(workspace: Workspace, id: WindowId)
    ensures
        workspace.column_focus() == Some(id) <==> stands_at(
            workspace.columns@,
            id,
            workspace.focused_column as int,
            workspace.focused_window_in_column as int,
        ),
{
}

/// Mirroring a reel moves the column focus to the first place of its focus
/// window and asks the tabs to follow. Without such a place it stays. Nothing
/// else of the workspace changes.
pub proof fn law_mirroring_moves_the_column_focus(
    before_it: Workspace,
    reel: ReelView,
    after: Workspace,
    column: int,
    window: int,
)
    requires
        before_it.with_reel_mirrored(reel, after),
    ensures
        after.reel() == Some(reel),
        after.columns == before_it.columns,
        after.floating == before_it.floating,
        after.minimized_windows == before_it.minimized_windows,
        after.fullscreen == before_it.fullscreen,
        after.reduce_motion == before_it.reduce_motion,
        after.scroll_duration_ms == before_it.scroll_duration_ms,
        after.scroll_easing == before_it.scroll_easing,
        reel.focus matches Some(id) ==> stands_at(before_it.columns@, id, column, window) && (
        forall|c: int, w: int| #[trigger]
            stands_at(before_it.columns@, id, c, w) ==> !before(c, w, column, window))
            ==> after.focused_column == column && after.focused_window_in_column == window
            && after.tab_sync_pending,
        (reel.focus matches Some(id) ==> forall|c: int, w: int|
            !(#[trigger] stands_at(before_it.columns@, id, c, w))) ==> after.focused_column
            == before_it.focused_column && after.focused_window_in_column
            == before_it.focused_window_in_column && after.tab_sync_pending
            == before_it.tab_sync_pending,
{
    if let Some(id) = reel.focus {
        law_location_is_the_first_place(before_it.columns@, id, column, window);
        if stands_at(before_it.columns@, id, column, window) {
            let windows = before_it.columns@[column].windows;
            assert(before_it.columns.len() == before_it.columns@.len());
            assert(windows.len() == windows@.len());
        }
    }
}

/// Replacing the reel of a workspace changes nothing else of it.
pub proof fn law_replacing_the_reel_changes_nothing_else(
    workspace: Workspace,
    reel: Option<ReelView>,
    after: Workspace,
)
    requires
        workspace.with_reel(reel, after),
    ensures
        reel is None ==> after.focus_reel is None,
        reel matches Some(value) ==> (after.focus_reel matches Some(held) && held@ == value),
        after.columns == workspace.columns,
        after.floating == workspace.floating,
        after.minimized_windows == workspace.minimized_windows,
        after.fullscreen == workspace.fullscreen,
        after.focused_column == workspace.focused_column,
        after.focused_window_in_column == workspace.focused_window_in_column,
        after.tab_sync_pending == workspace.tab_sync_pending,
        after.reduce_motion == workspace.reduce_motion,
        after.scroll_duration_ms == workspace.scroll_duration_ms,
        after.scroll_easing == workspace.scroll_easing,
{
}

/// Enabling the model starts from an empty reel with the given geometry and the
/// motion settings of the workspace. It takes in the tiled windows and focuses
/// the column focus, if there is one.
pub proof fn law_enabling_starts_from_a_blank_reel(workspace: Workspace, geometry: ReelGeometry)
    ensures
        ({
            let blank = workspace.blank_reel(geometry);
            let filled = blank.synchronized(workspace.tiled(), None);
            &&& blank.ring.len() == 0 && blank.focus is None
            &&& blank.side == ReelSide::Right
            &&& blank.geometry == geometry.clean()
            &&& blank.offset.bits == 0 && blank.animation is None
            &&& !blank.pending_settle && blank.ms_since_scroll == 0
            &&& blank.reduce_motion == workspace.reduce_motion
            &&& blank.duration_ms == workspace.scroll_duration_ms
            &&& blank.easing == workspace.scroll_easing
            &&& workspace.column_focus() matches Some(id) ==> workspace.seeded_reel(geometry)
                == filled.focused_on(id)
            &&& workspace.column_focus() is None ==> workspace.seeded_reel(geometry) == filled
        }),
{
}

proof fn lemma_holds(workspace: Workspace, id: WindowId)
    ensures
        holds(workspace, id) == has_window(workspace, id),
{
    law_location_is_the_first_place(workspace.columns@, id, 0, 0);
}

proof fn lemma_holder(list: Seq<Workspace>, id: WindowId, index: int)
    ensures
        0 <= index < list.len() && has_window(list[index], id) && (forall|j: int|
            0 <= j < index ==> !has_window(#[trigger] list[j], id)) ==> holder_in(list, id)
            == Some(index),
        (forall|j: int| 0 <= j < list.len() ==> !has_window(#[trigger] list[j], id))
            ==> holder_in(list, id) is None,
    decreases list.len(),
{
    if list.len() > 0 {
        let front = list.drop_last();
        lemma_holder(front, id, index);
        lemma_holds(list.last(), id);
        assert(list.last() == list[list.len() - 1]);
        if 0 <= index < front.len() {
            assert(front[index] == list[index]);
        }
        assert forall|j: int| 0 <= j < front.len() implies front[j] == list[j] by {}
        if index == front.len() && (forall|j: int|
            0 <= j < index ==> !has_window(#[trigger] list[j], id)) {
            assert forall|j: int| 0 <= j < front.len() implies !has_window(
                #[trigger] front[j],
                id,
            ) by {
                assert(!has_window(list[j], id));
            }
        }
        if forall|j: int| 0 <= j < list.len() ==> !has_window(#[trigger] list[j], id) {
            assert forall|j: int| 0 <= j < front.len() implies !has_window(
                #[trigger] front[j],
                id,
            ) by {
                assert(!has_window(list[j], id));
            }
        }
        if 0 <= index < front.len() && (forall|j: int|
            0 <= j < index ==> !has_window(#[trigger] list[j], id)) {
            assert forall|j: int| 0 <= j < index implies !has_window(#[trigger] front[j], id) by {
                assert(!has_window(list[j], id));
            }
        }
    }
}

proof fn lemma_home(workspaces: Seq<MonitorWorkspaces>, id: WindowId, at: int, index: int)
    ensures
        first_home(workspaces, id, at, index) ==> home_in(workspaces, id) == Some((at, index)),
        homeless(workspaces, id) ==> home_in(workspaces, id) is None,
    decreases workspaces.len(),
{
    if workspaces.len() > 0 {
        let front = workspaces.drop_last();
        let last = workspaces.len() - 1;
        let list = workspaces.last().list@;
        lemma_home(front, id, at, index);
        lemma_holder(list, id, index);
        if first_home(workspaces, id, at, index) {
            assert forall|a: int, j: int|
                0 <= a < at && a < front.len() && 0 <= j < front[a].list@.len() implies !has_window(
                #[trigger] front[a].list@[j],
                id,
            ) by {
                assert(!has_window(workspaces[a].list@[j], id));
            }
            if at < last {
                assert(front[at] == workspaces[at]);
                assert forall|j: int| 0 <= j < index implies !has_window(
                    #[trigger] front[at].list@[j],
                    id,
                ) by {
                    assert(!has_window(workspaces[at].list@[j], id));
                }
                assert(first_home(front, id, at, index));
            } else {
                assert(homeless(front, id));
                assert forall|j: int| 0 <= j < index implies !has_window(#[trigger] list[j], id) by {
                    assert(!has_window(workspaces[at].list@[j], id));
                }
            }
        }
        if homeless(workspaces, id) {
            assert forall|a: int, j: int|
                0 <= a < front.len() && 0 <= j < front[a].list@.len() implies !has_window(
                #[trigger] front[a].list@[j],
                id,
            ) by {
                assert(!has_window(workspaces[a].list@[j], id));
            }
            assert forall|j: int| 0 <= j < list.len() implies !has_window(#[trigger] list[j], id) by {
                assert(!has_window(workspaces[last].list@[j], id));
            }
        }
    }
}

/// Where a window that is leaving the layout came from, if that was noted.
pub open spec fn noted_owner(state: AppState, id: WindowId) -> Option<MonitorId> {
    match state.layout_transition {
        Some(transition) => if transition.exit_provenance@.contains_key(id) {
            Some(transition.exit_provenance@[id].owner)
        } else {
            None
        },
        None => None,
    }
}

/// A window belongs to the first workspace that has it and to that workspace's
/// monitor. Without a workspace it belongs to the monitor it is leaving, if that
/// was noted, else to none.
pub proof fn law_window_belongs_to_its_first_workspace(
    state: AppState,
    id: WindowId,
    at: int,
    index: int,
)
    ensures
        first_home(state.workspaces@, id, at, index) ==> {
            &&& state.owner(id) == Some(state.workspaces@[at].monitor_id)
            &&& state.home(id) == Some(state.workspaces@[at].list@[index])
        },
        homeless(state.workspaces@, id) ==> {
            &&& state.owner(id) == noted_owner(state, id)
            &&& state.home(id) is None
        },
{
    lemma_home(state.workspaces@, id, at, index);
}

/// An identity names the first monitor that carries it, and none if no monitor
/// does; the active workspace of a monitor is the one its first list points at.
pub proof fn law_first_entry_of_an_identity_counts(
    state: AppState,
    id: MonitorId,
    m: int,
    at: int,
)
    ensures
        first_monitor(state.monitors@, id, m) ==> state.monitor(id) == Some(state.monitors@[m]),
        state.monitor(id) is None <==> forall|j: int|
            0 <= j < state.monitors@.len() ==> (#[trigger] state.monitors@[j]).id != id,
        0 <= at < state.workspaces@.len() && state.workspaces@[at].monitor_id == id && (forall|
            j: int,
        |
            0 <= j < at ==> (#[trigger] state.workspaces@[j]).monitor_id != id) ==> {
            let list = state.workspaces@[at].list@;
            let active = state.workspaces@[at].active;
            &&& active < list.len() ==> state.active(id) == Some(list[active as int])
            &&& active >= list.len() ==> state.active(id) is None
        },
        (forall|j: int|
            0 <= j < state.workspaces@.len() ==> (#[trigger] state.workspaces@[j]).monitor_id != id)
            ==> state.active(id) is None,
{
    let monitors = monitor_ids(state.monitors@);
    let lists = workspace_monitors(state.workspaces@);
    lemma_find_id(monitors, id);
    lemma_find_id(lists, id);
    if first_monitor(state.monitors@, id, m) {
        assert(monitors[m] == id);
        assert forall|j: int| 0 <= j < m implies monitors[j] != id by {
            assert(state.monitors@[j].id != id);
        }
        lemma_find_id_is(monitors, id, m);
    }
    match find_id(monitors, id) {
        Some(j) => {
            assert(monitors[j] == state.monitors@[j].id);
        },
        None => {
            assert forall|j: int| 0 <= j < state.monitors@.len() implies (
            #[trigger] state.monitors@[j]).id != id by {
                assert(monitors[j] == state.monitors@[j].id);
                assert(monitors[j] != id);
            }
        },
    }
    if 0 <= at < state.workspaces@.len() && state.workspaces@[at].monitor_id == id && (forall|
        j: int,
    |
        0 <= j < at ==> (#[trigger] state.workspaces@[j]).monitor_id != id) {
        assert(lists[at] == id);
        assert forall|j: int| 0 <= j < at implies lists[j] != id by {
            assert(state.workspaces@[j].monitor_id != id);
        }
        lemma_find_id_is(lists, id, at);
    }
    if let Some(j) = find_id(lists, id) {
        assert(lists[j] == state.workspaces@[j].monitor_id);
    }
}

/// Whether the window system or the user sizes a window: its application covers
/// a monitor, it was read as maximized, or it is a tiled window being dragged.
pub open spec fn not_ours_to_size(state: AppState, id: WindowId) -> bool {
    ||| state.application_fullscreen@.contains(id)
    ||| state.natives@.contains_key(id) && state.natives@[id].maximized
    ||| state.drag_state is Some && state.drag_state->0.is_tiled && state.drag_state->0.hwnd == id
}

/// Which placements are passed on as they are: those of hidden windows and of
/// windows outside the columns, of windows that others size, of windows that
/// were noted as leaving from outside the layout, and of windows that float or
/// are fullscreen on their workspace.
pub proof fn law_exemption_case_by_case(
    state: AppState,
    placement: WindowPlacement,
    at: int,
    index: int,
)
    ensures
        ({
            let id = placement.window_id;
            let home = state.workspaces@[at].list@[index];
            let leaving = state.layout_transition is Some
                && state.layout_transition->0.exit_provenance@.contains_key(id);
            &&& placement.visibility != Visibility::Visible ==> state.exempt(placement)
            &&& placement.column_index == usize::MAX ==> state.exempt(placement)
            &&& not_ours_to_size(state, id) ==> state.exempt(placement)
            &&& placement.visibility == Visibility::Visible && placement.column_index != usize::MAX
                && !not_ours_to_size(state, id) ==> {
                &&& leaving ==> state.exempt(placement)
                    == !state.layout_transition->0.exit_provenance@[id].eligible
                &&& !leaving && first_home(state.workspaces@, id, at, index) ==> state.exempt(
                    placement,
                ) == (home.floating@.contains(id) || home.fullscreen == Some(id))
                &&& !leaving && homeless(state.workspaces@, id) ==> !state.exempt(placement)
            }
        }),
{
    law_window_belongs_to_its_first_workspace(state, placement.window_id, at, index);
}

/// A window that leaves the layout is subject to projection on its way out
/// exactly if nobody else sizes it and its workspace tiles it.
pub proof fn law_eligibility_case_by_case(state: AppState, id: WindowId, at: int, index: int)
    ensures
        not_ours_to_size(state, id) ==> !state.eligible(id),
        homeless(state.workspaces@, id) ==> !state.eligible(id),
        first_home(state.workspaces@, id, at, index) && !not_ours_to_size(state, id) ==> {
            let home = state.workspaces@[at].list@[index];
            state.eligible(id) == (!home.floating@.contains(id) && home.fullscreen != Some(id))
        },
{
    law_window_belongs_to_its_first_workspace(state, id, at, index);
}

} // verus!
