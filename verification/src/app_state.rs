//! The window manager's state: monitors, the workspaces on them and what the
//! window system reported.

use vstd::prelude::*;
use std::collections::{HashMap, HashSet};

use crate::id_list::{find_id, lemma_find_id, lemma_find_id_is};
use crate::physical_state::PhysicalState;
use crate::presentation::ReelTransition;
use crate::scroll::Easing;
use crate::types::{
    native_of, native_window, MonitorId, MonitorInfo, NativeWindow, Rect, Visibility, WindowId,
    WindowPlacement,
};
use crate::workspace::Workspace;

verus! {

/// The configured layout model.
#[derive(Debug, Clone, Copy, PartialEq, Eq, Structural)]
pub enum LayoutModeConfig {
    /// Scrolling columns.
    Scroll,
    /// Focus + Reel.
    Serval,
}

/// The workspaces of one monitor.
#[derive(Debug)]
pub struct MonitorWorkspaces {
    pub monitor_id: MonitorId,
    /// Index of the active workspace.
    pub active: usize,
    pub list: Vec<Workspace>,
}

/// A window being dragged.
#[derive(Debug, Clone, Copy, PartialEq, Eq, Structural)]
pub struct DragState {
    pub is_tiled: bool,
    pub hwnd: WindowId,
}

/// Where a window that is leaving the layout came from.
#[derive(Debug, Clone, Copy, PartialEq, Eq, Structural)]
pub struct ExitProvenance {
    /// Monitor that owned the window.
    pub owner: MonitorId,
    /// Whether the window was subject to physical projection.
    pub eligible: bool,
}

/// A running layout transition.
#[derive(Debug)]
pub struct LayoutTransition {
    /// Windows that leave the layout with this transition.
    pub exit_provenance: HashMap<WindowId, ExitProvenance>,
}

/// The window manager's state.
#[derive(Debug)]
pub struct AppState {
    /// The monitors, each identity once.
    pub monitors: Vec<MonitorInfo>,
    /// The workspaces of the monitors, each monitor once.
    pub workspaces: Vec<MonitorWorkspaces>,
    pub focused_monitor: MonitorId,
    pub mode: LayoutModeConfig,
    pub layout_duration_ms: u64,
    pub easing: Easing,
    pub reduce_motion: bool,
    pub paused: bool,
    /// The thumbnail tween of the last promotion, while it runs.
    pub reel_transition: Option<ReelTransition>,
    /// Windows that have a registered thumbnail.
    pub reel_thumbnails: HashSet<WindowId>,
    /// The focus window whose corners were squared last.
    pub reel_last_squared_focus: Option<WindowId>,
    /// What was read of the native windows.
    pub natives: HashMap<WindowId, NativeWindow>,
    /// Windows whose application covers a whole monitor.
    pub application_fullscreen: HashSet<WindowId>,
    pub drag_state: Option<DragState>,
    pub layout_transition: Option<LayoutTransition>,
    /// Far off-screen coordinate at which windows are parked.
    pub park_sentinel: i32,
    /// Bookkeeping of physical placements.
    pub physical: PhysicalState,
}

/// The identities of the monitors.
pub open spec fn monitor_ids(monitors: Seq<MonitorInfo>) -> Seq<MonitorId> {
    Seq::new(monitors.len(), |i: int| monitors[i].id)
}

/// The monitors whose workspaces are listed.
pub open spec fn workspace_monitors(workspaces: Seq<MonitorWorkspaces>) -> Seq<MonitorId> {
    Seq::new(workspaces.len(), |i: int| workspaces[i].monitor_id)
}

/// Whether a workspace holds a window, tiled or floating.
pub open spec fn holds(workspace: Workspace, id: WindowId) -> bool {
    workspace.location(id) is Some || workspace.floating@.contains(id)
}

/// The first workspace of a list that holds a window.
pub open spec fn holder_in(list: Seq<Workspace>, id: WindowId) -> Option<int>
    decreases list.len(),
{
    if list.len() == 0 {
        None
    } else {
        match holder_in(list.drop_last(), id) {
            Some(at) => Some(at),
            None => if holds(list.last(), id) {
                Some(list.len() - 1)
            } else {
                None
            },
        }
    }
}

/// The first workspace that holds a window: which monitor's and which of them.
pub open spec fn home_in(workspaces: Seq<MonitorWorkspaces>, id: WindowId) -> Option<(int, int)>
    decreases workspaces.len(),
{
    if workspaces.len() == 0 {
        None
    } else {
        match home_in(workspaces.drop_last(), id) {
            Some(home) => Some(home),
            None => match holder_in(workspaces.last().list@, id) {
                Some(at) => Some((workspaces.len() - 1, at)),
                None => None,
            },
        }
    }
}

impl AppState {
    /// Each monitor stands once, and so does each monitor's list of workspaces.
    pub open spec fn identities_distinct(self) -> bool {
        &&& monitor_ids(self.monitors@).no_duplicates()
        &&& workspace_monitors(self.workspaces@).no_duplicates()
    }

    /// The monitor with an identity.
    pub open spec fn monitor(self, id: MonitorId) -> Option<MonitorInfo> {
        match find_id(monitor_ids(self.monitors@), id) {
            Some(at) => Some(self.monitors@[at]),
            None => None,
        }
    }

    /// The active workspace of a monitor: whose list and which of it.
    pub open spec fn active_place(self, id: MonitorId) -> Option<(int, int)> {
        match find_id(workspace_monitors(self.workspaces@), id) {
            Some(at) if self.workspaces@[at].active < self.workspaces@[at].list@.len() => Some(
                (at, self.workspaces@[at].active as int),
            ),
            _ => None,
        }
    }

    /// The active workspace of a monitor.
    pub open spec fn active(self, id: MonitorId) -> Option<Workspace> {
        match self.active_place(id) {
            Some((at, index)) => Some(self.workspaces@[at].list@[index]),
            None => None,
        }
    }

    /// The workspace that holds a window.
    pub open spec fn home(self, id: WindowId) -> Option<Workspace> {
        match home_in(self.workspaces@, id) {
            Some((at, index)) => Some(self.workspaces@[at].list@[index]),
            None => None,
        }
    }

    /// Where a window that is leaving the layout came from.
    pub open spec fn provenance(self, id: WindowId) -> Option<ExitProvenance> {
        match self.layout_transition {
            Some(transition) if transition.exit_provenance@.contains_key(id) => Some(
                transition.exit_provenance@[id],
            ),
            _ => None,
        }
    }

    /// The monitor that owns a window: that of its workspace, or the one it is
    /// leaving.
    pub open spec fn owner(self, id: WindowId) -> Option<MonitorId> {
        match home_in(self.workspaces@, id) {
            Some((at, _)) => Some(self.workspaces@[at].monitor_id),
            None => match self.provenance(id) {
                Some(provenance) => Some(provenance.owner),
                None => None,
            },
        }
    }

    /// Whether the window system or the user, not the layout, sizes a window.
    pub open spec fn sized_elsewhere(self, id: WindowId) -> bool {
        ||| self.application_fullscreen@.contains(id)
        ||| native_of(self.natives@, id).maximized
        ||| self.drag_state matches Some(drag) && drag.is_tiled && drag.hwnd == id
    }

    /// Whether a workspace lets a window stand outside its layout.
    pub open spec fn outside_layout(workspace: Workspace, id: WindowId) -> bool {
        workspace.floating@.contains(id) || workspace.fullscreen == Some(id)
    }

    /// Whether a window that leaves the layout now is subject to projection on
    /// its way out.
    pub open spec fn eligible(self, id: WindowId) -> bool {
        &&& !self.sized_elsewhere(id)
        &&& self.home(id) matches Some(workspace) && !AppState::outside_layout(workspace, id)
    }

    /// Whether a placement is not subject to projection.
    pub open spec fn exempt(self, placement: WindowPlacement) -> bool {
        if placement.visibility != Visibility::Visible || placement.column_index == usize::MAX {
            true
        } else if self.sized_elsewhere(placement.window_id) {
            true
        } else {
            match self.provenance(placement.window_id) {
                Some(provenance) => !provenance.eligible,
                None => self.home(placement.window_id) matches Some(workspace)
                    && AppState::outside_layout(workspace, placement.window_id),
            }
        }
    }

    /// Whether the configured layout model is Serval (Focus + Reel).
    pub fn reel_mode_active(&self) -> (r: bool)
        ensures
            r == (self.mode == LayoutModeConfig::Serval),
    {
        self.mode == LayoutModeConfig::Serval
    }

    /// Position of a monitor.
    pub fn monitor_index(&self, id: MonitorId) -> (r: Option<usize>)
        ensures
            match r {
                Some(at) => find_id(monitor_ids(self.monitors@), id) == Some(at as int) && at
                    < self.monitors@.len(),
                None => find_id(monitor_ids(self.monitors@), id) is None,
            },
    {
        let ghost ids = monitor_ids(self.monitors@);
        let mut i: usize = 0;
        while i < self.monitors.len()
            invariant
                0 <= i <= self.monitors@.len(),
                ids == monitor_ids(self.monitors@),
                forall|j: int| 0 <= j < i ==> ids[j] != id,
            decreases self.monitors@.len() - i,
        {
            if self.monitors[i].id == id {
                proof {
                    lemma_find_id_is(ids, id, i as int);
                }
                return Some(i);
            }
            i = i + 1;
        }
        proof {
            lemma_find_id(ids, id);
        }
        None
    }

    /// The full rectangle of a monitor.
    pub fn monitor_rect(&self, id: MonitorId) -> (r: Option<Rect>)
        ensures
            r == match self.monitor(id) {
                Some(monitor) => Some(monitor.rect),
                None => None,
            },
    {
        match self.monitor_index(id) {
            Some(at) => Some(self.monitors[at].rect),
            None => None,
        }
    }

    /// Which list holds the active workspace of a monitor, and where.
    pub fn active_workspace(&self, id: MonitorId) -> (r: Option<(usize, usize)>)
        ensures
            match r {
                Some((at, index)) => {
                    &&& self.active_place(id) == Some((at as int, index as int))
                    &&& at < self.workspaces@.len()
                    &&& index < self.workspaces@[at as int].list@.len()
                },
                None => self.active_place(id) is None,
            },
    {
        let ghost ids = workspace_monitors(self.workspaces@);
        let mut i: usize = 0;
        while i < self.workspaces.len()
            invariant
                0 <= i <= self.workspaces@.len(),
                ids == workspace_monitors(self.workspaces@),
                forall|j: int| 0 <= j < i ==> ids[j] != id,
            decreases self.workspaces@.len() - i,
        {
            if self.workspaces[i].monitor_id == id {
                proof {
                    lemma_find_id_is(ids, id, i as int);
                }
                let active: usize = self.workspaces[i].active;
                if active < self.workspaces[i].list.len() {
                    return Some((i, active));
                }
                return None;
            }
            i = i + 1;
        }
        proof {
            lemma_find_id(ids, id);
        }
        None
    }

    /// Which list holds the workspace of a window, and where.
    fn home_of(&self, id: WindowId) -> (r: Option<(usize, usize)>)
        ensures
            match r {
                Some((at, index)) => {
                    &&& home_in(self.workspaces@, id) == Some((at as int, index as int))
                    &&& at < self.workspaces@.len()
                    &&& index < self.workspaces@[at as int].list@.len()
                },
                None => home_in(self.workspaces@, id) is None,
            },
    {
        let mut i: usize = 0;
        assert(self.workspaces@.take(0) =~= Seq::empty());
        while i < self.workspaces.len()
            invariant
                0 <= i <= self.workspaces@.len(),
                home_in(self.workspaces@.take(i as int), id) is None,
            decreases self.workspaces@.len() - i,
        {
            let ghost seen = self.workspaces@.take(i + 1);
            assert(seen.drop_last() =~= self.workspaces@.take(i as int));
            assert(seen.last() == self.workspaces@[i as int]);
            if let Some(index) = holder_of(&self.workspaces[i].list, id) {
                assert(home_in(seen, id) == Some((i as int, index as int)));
                proof {
                    lemma_home_extends(self.workspaces@, i + 1, id);
                }
                return Some((i, index));
            }
            i = i + 1;
        }
        assert(self.workspaces@.take(i as int) =~= self.workspaces@);
        None
    }

    /// The monitor and workspace index that hold a window.
    pub fn find_window_workspace(&self, window_id: WindowId) -> (r: Option<(MonitorId, usize)>)
        ensures
            match r {
                Some((monitor_id, index)) => home_in(self.workspaces@, window_id) matches Some(home)
                    && self.workspaces@[home.0].monitor_id == monitor_id && home.1 == index,
                None => home_in(self.workspaces@, window_id) is None,
            },
    {
        match self.home_of(window_id) {
            Some((at, index)) => Some((self.workspaces[at].monitor_id, index)),
            None => None,
        }
    }

    fn exit_provenance_of(&self, window_id: WindowId) -> (r: Option<ExitProvenance>)
        ensures
            r == self.provenance(window_id),
    {
        broadcast use vstd::std_specs::hash::group_hash_axioms;

        match &self.layout_transition {
            Some(transition) => match transition.exit_provenance.get(&window_id) {
                Some(provenance) => Some(*provenance),
                None => None,
            },
            None => None,
        }
    }

    /// The monitor that owns a window.
    pub fn owner_id_for_window(&self, window_id: WindowId) -> (r: Option<MonitorId>)
        ensures
            r == self.owner(window_id),
    {
        match self.home_of(window_id) {
            Some((at, _)) => Some(self.workspaces[at].monitor_id),
            None => match self.exit_provenance_of(window_id) {
                Some(provenance) => Some(provenance.owner),
                None => None,
            },
        }
    }

    /// Whether the application of a window covers a whole monitor.
    pub fn is_application_fullscreen(&self, window_id: WindowId) -> (r: bool)
        ensures
            r == self.application_fullscreen@.contains(window_id),
    {
        broadcast use vstd::std_specs::hash::group_hash_axioms;

        self.application_fullscreen.contains(&window_id)
    }

    /// Whether a window is maximized.
    pub fn native_window_is_maximized(&self, window_id: WindowId) -> (r: bool)
        ensures
            r == native_of(self.natives@, window_id).maximized,
    {
        native_window(&self.natives, window_id).maximized
    }

    fn is_sized_elsewhere(&self, window_id: WindowId) -> (r: bool)
        ensures
            r == self.sized_elsewhere(window_id),
    {
        let dragged = match self.drag_state {
            Some(drag) => drag.is_tiled && drag.hwnd == window_id,
            None => false,
        };
        self.is_application_fullscreen(window_id) || self.native_window_is_maximized(window_id)
            || dragged
    }

    /// Whether a window that leaves the layout now is subject to projection on
    /// its way out.
    pub fn exit_projection_eligible(&self, window_id: WindowId) -> (r: bool)
        ensures
            r == self.eligible(window_id),
    {
        if self.is_sized_elsewhere(window_id) {
            return false;
        }
        match self.home_of(window_id) {
            Some((at, index)) => {
                let workspace = &self.workspaces[at].list[index];
                !workspace.is_floating(window_id) && workspace.fullscreen_window_id() != Some(
                    window_id,
                )
            },
            None => false,
        }
    }

    /// Whether a placement is not subject to projection.
    pub fn is_projection_exempt(&self, placement: &WindowPlacement) -> (r: bool)
        ensures
            r == self.exempt(*placement),
    {
        if placement.visibility != Visibility::Visible || placement.column_index == usize::MAX {
            return true;
        }
        if self.is_sized_elsewhere(placement.window_id) {
            return true;
        }
        if let Some(provenance) = self.exit_provenance_of(placement.window_id) {
            return !provenance.eligible;
        }
        match self.home_of(placement.window_id) {
            Some((at, index)) => {
                let workspace = &self.workspaces[at].list[index];
                workspace.is_floating(placement.window_id) || workspace.fullscreen_window_id()
                    == Some(placement.window_id)
            },
            None => false,
        }
    }
}

/// The first workspace of a list that holds a window.
fn holder_of(list: &Vec<Workspace>, id: WindowId) -> (r: Option<usize>)
    ensures
        match r {
            Some(at) => holder_in(list@, id) == Some(at as int) && at < list@.len(),
            None => holder_in(list@, id) is None,
        },
{
    let mut i: usize = 0;
    assert(list@.take(0) =~= Seq::empty());
    while i < list.len()
        invariant
            0 <= i <= list@.len(),
            holder_in(list@.take(i as int), id) is None,
        decreases list@.len() - i,
    {
        let ghost seen = list@.take(i + 1);
        assert(seen.drop_last() =~= list@.take(i as int));
        assert(seen.last() == list@[i as int]);
        if list[i].find_window_location(id).is_some() || list[i].is_floating(id) {
            proof {
                lemma_holder_extends(list@, i + 1, id);
            }
            return Some(i);
        }
        i = i + 1;
    }
    assert(list@.take(i as int) =~= list@);
    None
}

/// With distinct identities the lists are maps from identity to entry: an entry
/// is found under its identity, wherever it stands in the list.
pub proof fn law_identity_names_its_entry(state: AppState, i: int, j: int)
    requires
        state.identities_distinct(),
        0 <= i < state.monitors@.len(),
        0 <= j < state.workspaces@.len(),
    ensures
        state.monitor(state.monitors@[i].id) == Some(state.monitors@[i]),
        state.workspaces@[j].active < state.workspaces@[j].list@.len() ==> state.active(
            state.workspaces@[j].monitor_id,
        ) == Some(state.workspaces@[j].list@[state.workspaces@[j].active as int]),
{
    let monitors = monitor_ids(state.monitors@);
    let owners = workspace_monitors(state.workspaces@);
    assert(monitors[i] == state.monitors@[i].id);
    assert(owners[j] == state.workspaces@[j].monitor_id);
    lemma_find_id_is(monitors, monitors[i], i);
    lemma_find_id_is(owners, owners[j], j);
}

proof fn lemma_holder_extends(list: Seq<Workspace>, count: int, id: WindowId)
    requires
        0 <= count <= list.len(),
        holder_in(list.take(count), id) is Some,
    ensures
        holder_in(list, id) == holder_in(list.take(count), id),
    decreases list.len() - count,
{
    if count == list.len() {
        assert(list.take(count) =~= list);
    } else {
        assert(list.take(count + 1).drop_last() =~= list.take(count));
        lemma_holder_extends(list, count + 1, id);
    }
}

proof fn lemma_home_extends(workspaces: Seq<MonitorWorkspaces>, count: int, id: WindowId)
    requires
        0 <= count <= workspaces.len(),
        home_in(workspaces.take(count), id) is Some,
    ensures
        home_in(workspaces, id) == home_in(workspaces.take(count), id),
    decreases workspaces.len() - count,
{
    if count == workspaces.len() {
        assert(workspaces.take(count) =~= workspaces);
    } else {
        assert(workspaces.take(count + 1).drop_last() =~= workspaces.take(count));
        lemma_home_extends(workspaces, count + 1, id);
    }
}

} // verus!
