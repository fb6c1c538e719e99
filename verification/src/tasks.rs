//! Workspaces for GitHub work items: finding one, opening its panels, and
//! keeping their state fresh.
use vstd::prelude::*;

use crate::text::{chars_of, concat3, copy_opt, opt_text, same_text, texts};

verus! {

pub const TASK_STATUS_REFRESH_INTERVAL_MS: u64 = 15_000;

/// What was done in the overlay that asks for a work item.
pub enum OverlayAction {
    Idle,
    Cancelled,
    Submit(String),
}

/// The overlay, and the search that it started.
pub struct WorkItemOverlay {
    pub open: bool,
    pub error: Option<String>,
    /// The overlay shows that a search runs.
    pub resolving: bool,
    /// A search was started and has not been heard of.
    pub pending: bool,
}

pub struct OverlayView {
    pub open: bool,
    pub error: Option<Seq<char>>,
    pub resolving: bool,
    pub pending: bool,
}

impl View for WorkItemOverlay {
    type V = OverlayView;

    open spec fn view(&self) -> OverlayView {
        OverlayView {
            open: self.open,
            error: opt_text(self.error),
            resolving: self.resolving,
            pending: self.pending,
        }
    }
}

pub enum ResolutionPoll {
    Waiting,
    Found,
    Failed(String),
    Disconnected,
}

impl OverlayView {
    pub open spec fn dismissed(self) -> OverlayView {
        OverlayView { open: false, error: None, resolving: false, pending: false }
    }

    /// A reference is looked up in a repository; without either the overlay
    /// says what is missing. Says whether a search starts.
    pub open spec fn acted(self, action: OverlayAction, has_repo: bool) -> (OverlayView, bool) {
        if !self.open {
            (self, false)
        } else {
            match action {
                OverlayAction::Idle => (self, false),
                OverlayAction::Cancelled => (self.dismissed(), false),
                OverlayAction::Submit(query) => if !has_repo {
                    (
                        OverlayView {
                            error: Some(
                                "No active local GitHub repo found in the current workspace."@,
                            ),
                            ..self
                        },
                        false,
                    )
                } else if query@.len() == 0 {
                    (
                        OverlayView { error: Some("Enter a GitHub reference first."@), ..self },
                        false,
                    )
                } else {
                    (OverlayView { resolving: true, pending: true, ..self }, true)
                },
            }
        }
    }

    pub open spec fn with_error(self, error: Seq<char>) -> OverlayView {
        if self.open {
            OverlayView { error: Some(error), ..self }
        } else {
            self
        }
    }

    /// What became of the search. Says whether the work item's workspace is to
    /// be made.
    pub open spec fn heard(self, poll: ResolutionPoll) -> (OverlayView, bool) {
        if !self.pending {
            (self, false)
        } else {
            let over = OverlayView { pending: false, resolving: false, ..self };
            match poll {
                ResolutionPoll::Waiting => (self, false),
                ResolutionPoll::Found => (self.dismissed(), true),
                ResolutionPoll::Failed(error) => (over.with_error(error@), false),
                ResolutionPoll::Disconnected => (
                    over.with_error("GitHub resolution worker disconnected."@),
                    false,
                ),
            }
        }
    }
}

impl WorkItemOverlay {
    pub fn closed() -> (overlay: Self)
        ensures
            overlay@ == (OverlayView { open: false, error: None, resolving: false, pending: false }),
    {
        WorkItemOverlay { open: false, error: None, resolving: false, pending: false }
    }

    /// A new overlay takes the place of one that was open; a search that runs
    /// goes on.
    pub fn open_overlay(&mut self)
        ensures
            final(self)@ == (OverlayView { open: true, error: None, ..old(self)@ }),
    {
        self.open = true;
        self.error = None;
    }

    pub fn dismiss(&mut self)
        ensures
            final(self)@ == old(self)@.dismissed(),
    {
        self.open = false;
        self.error = None;
        self.resolving = false;
        self.pending = false;
    }

    pub fn act(&mut self, action: OverlayAction, has_repo: bool) -> (start: Option<String>)
        ensures
            (final(self)@, start is Some) == old(self)@.acted(action, has_repo),
            start matches Some(query) ==> (action matches OverlayAction::Submit(asked) && query@
                == asked@),
    {
        if !self.open {
            return None;
        }
        match action {
            OverlayAction::Idle => None,
            OverlayAction::Cancelled => {
                self.dismiss();
                None
            },
            OverlayAction::Submit(query) => {
                if !has_repo {
                    self.error = Some(
                        "No active local GitHub repo found in the current workspace.".to_string(),
                    );
                    return None;
                }
                let chars = chars_of(query.as_str());
                if chars.len() == 0 {
                    self.error = Some("Enter a GitHub reference first.".to_string());
                    return None;
                }
                self.resolving = true;
                self.pending = true;
                Some(query)
            },
        }
    }

    pub fn poll(&mut self, poll: ResolutionPoll) -> (found: bool)
        ensures
            (final(self)@, found) == old(self)@.heard(poll),
    {
        if !self.pending {
            return false;
        }
        match poll {
            ResolutionPoll::Waiting => false,
            ResolutionPoll::Found => {
                self.dismiss();
                true
            },
            ResolutionPoll::Failed(error) => {
                self.pending = false;
                self.resolving = false;
                if self.open {
                    self.error = Some(error);
                }
                false
            },
            ResolutionPoll::Disconnected => {
                self.pending = false;
                self.resolving = false;
                if self.open {
                    self.error = Some("GitHub resolution worker disconnected.".to_string());
                }
                false
            },
        }
    }
}

/// A search ends in one way only: what is heard once is heard, and another poll
/// changes nothing.
pub proof fn law_searches_are_heard_once(overlay: OverlayView, first: ResolutionPoll, then: ResolutionPoll)
    requires
        !(first is Waiting),
    ensures
        overlay.heard(first).0.heard(then) == (overlay.heard(first).0, false),
{
}

pub open spec fn opt_one(value: Option<Seq<char>>) -> Seq<Seq<char>> {
    match value {
        Some(v) => seq![v],
        None => Seq::empty(),
    }
}

fn push_opt(list: &mut Vec<String>, value: &Option<String>)
    ensures
        texts(final(list)@) == texts(old(list)@) + opt_one(opt_text(*value)),
{
    let ghost before = texts(list@);
    if let Some(v) = value {
        list.push(v.clone());
        assert(texts(list@) =~= before.push(v@));
    }
    assert(texts(list@) =~= before + opt_one(opt_text(*value)));
}

/// Where a repository is looked for, in this order: where the focused panel was
/// started, where its terminal is, the workspace's directory, the program's.
pub fn repo_candidates(
    launch: &Option<String>,
    terminal: &Option<String>,
    workspace: &Option<String>,
    current: &Option<String>,
) -> (candidates: Vec<String>)
    ensures
        texts(candidates@) == opt_one(opt_text(*launch)) + opt_one(opt_text(*terminal)) + opt_one(
            opt_text(*workspace),
        ) + opt_one(opt_text(*current)),
{
    let mut candidates: Vec<String> = Vec::new();
    assert(texts(candidates@) =~= Seq::<Seq<char>>::empty());
    push_opt(&mut candidates, launch);
    push_opt(&mut candidates, terminal);
    push_opt(&mut candidates, workspace);
    push_opt(&mut candidates, current);
    assert(texts(candidates@) =~= opt_one(opt_text(*launch)) + opt_one(opt_text(*terminal))
        + opt_one(opt_text(*workspace)) + opt_one(opt_text(*current)));
    candidates
}

#[derive(Clone, Copy, Debug, PartialEq, Eq, Structural)]
pub enum TaskRole {
    Research,
    Implement,
    Review,
}

#[derive(Clone, Copy, Debug, PartialEq, Eq, Structural)]
pub enum AgentKind {
    Claude,
    Codex,
}

/// The agent that a role's panel prefers.
pub fn preferred_kind(role: TaskRole) -> (kind: AgentKind)
    ensures
        kind == match role {
            TaskRole::Research | TaskRole::Review => AgentKind::Claude,
            TaskRole::Implement => AgentKind::Codex,
        },
{
    match role {
        TaskRole::Research | TaskRole::Review => AgentKind::Claude,
        TaskRole::Implement => AgentKind::Codex,
    }
}

/// The panels of a task, in the order in which they are made.
pub fn task_roles() -> (roles: Vec<TaskRole>)
    ensures
        roles@ == seq![TaskRole::Research, TaskRole::Implement, TaskRole::Review],
{
    let mut roles: Vec<TaskRole> = Vec::new();
    roles.push(TaskRole::Research);
    roles.push(TaskRole::Implement);
    roles.push(TaskRole::Review);
    assert(roles@ =~= seq![TaskRole::Research, TaskRole::Implement, TaskRole::Review]);
    roles
}

pub open spec fn first_of_kind(presets: Seq<AgentKind>, kind: AgentKind, from: int) -> Option<int>
    decreases presets.len() - from,
{
    if from < 0 || from >= presets.len() {
        None
    } else if presets[from] == kind {
        Some(from)
    } else {
        first_of_kind(presets, kind, from + 1)
    }
}

/// The preset that a panel is made from: the first of its kind. There may be
/// none.
pub fn find_preset(presets: &Vec<AgentKind>, kind: AgentKind) -> (found: Option<usize>)
    ensures
        match found {
            Some(i) => first_of_kind(presets@, kind, 0) == Some(i as int),
            None => first_of_kind(presets@, kind, 0) is None,
        },
{
    let mut i: usize = 0;
    while i < presets.len()
        invariant
            i <= presets@.len(),
            first_of_kind(presets@, kind, 0) == first_of_kind(presets@, kind, i as int),
        decreases presets@.len() - i,
    {
        if presets[i] == kind {
            return Some(i);
        }
        i = i + 1;
    }
    None
}

pub fn task_panel_name(role_label: &str, item_label: &str) -> (name: String)
    ensures
        name@ == role_label@ + " · "@ + item_label@,
{
    concat3(role_label, " · ", item_label)
}

/// What a task's workspace ends up as: with a panel for every role and the last
/// of them focused, or closed again at the first that could not be made.
#[derive(Clone, Copy, Debug, PartialEq, Eq, Structural)]
pub enum TaskWorkspace {
    Ready { focus: u64 },
    /// No role was asked for.
    Bare,
    Closed,
}

pub open spec fn assembled(made: Seq<Option<u64>>) -> TaskWorkspace {
    if exists|i: int| 0 <= i < made.len() && (#[trigger] made[i]) is None {
        TaskWorkspace::Closed
    } else if made.len() == 0 {
        TaskWorkspace::Bare
    } else {
        TaskWorkspace::Ready { focus: made.last()->0 }
    }
}

/// `made` holds the panels as far as making them went; none where it failed.
pub fn assemble(made: &Vec<Option<u64>>) -> (workspace: TaskWorkspace)
    ensures
        workspace == assembled(made@),
{
    let mut last: Option<u64> = None;
    let mut i: usize = 0;
    while i < made.len()
        invariant
            i <= made@.len(),
            forall|j: int| 0 <= j < i ==> (#[trigger] made@[j]) is Some,
            last == if i == 0 {
                None
            } else {
                made@[i - 1]
            },
        decreases made@.len() - i,
    {
        if made[i].is_none() {
            assert(made@[i as int] is None);
            return TaskWorkspace::Closed;
        }
        last = made[i];
        i = i + 1;
    }
    match last {
        Some(focus) => TaskWorkspace::Ready { focus },
        None => TaskWorkspace::Bare,
    }
}

/// A panel as far as tasks go. Its state of the pull request is a text that the
/// panel shows.
pub struct TaskPanel {
    pub role: Option<TaskRole>,
    pub branch: Option<String>,
    pub pr_state: Option<String>,
}

pub struct TaskPanelView {
    pub role: Option<TaskRole>,
    pub branch: Option<Seq<char>>,
    pub pr_state: Option<Seq<char>>,
}

impl View for TaskPanel {
    type V = TaskPanelView;

    open spec fn view(&self) -> TaskPanelView {
        TaskPanelView {
            role: self.role,
            branch: opt_text(self.branch),
            pr_state: opt_text(self.pr_state),
        }
    }
}

pub open spec fn panel_views(panels: Seq<TaskPanel>) -> Seq<TaskPanelView> {
    panels.map_values(|p: TaskPanel| p@)
}

/// A panel of a task gets the new state; others have none.
pub open spec fn refreshed(panel: TaskPanelView, pr_state: Option<Seq<char>>) -> TaskPanelView {
    if panel.role is Some {
        TaskPanelView { pr_state, ..panel }
    } else {
        panel
    }
}

pub open spec fn rebranched(panel: TaskPanelView, branch: Option<Seq<char>>) -> TaskPanelView {
    if panel.role is Some {
        TaskPanelView { branch, ..panel }
    } else {
        panel
    }
}

fn same_opt(a: &Option<String>, b: &Option<String>) -> (same: bool)
    ensures
        same == (opt_text(*a) == opt_text(*b)),
{
    match (a, b) {
        (Some(a), Some(b)) => same_text(a.as_str(), b.as_str()),
        (None, None) => true,
        _ => false,
    }
}

/// Brings a workspace's panels up to date. Says whether that changed any.
pub fn apply_task_status_refresh(panels: &mut Vec<TaskPanel>, pr_state: &Option<String>) -> (changed:
    bool)
    ensures
        panel_views(final(panels)@) == panel_views(old(panels)@).map_values(
            |p: TaskPanelView| refreshed(p, opt_text(*pr_state)),
        ),
        changed == (panel_views(final(panels)@) != panel_views(old(panels)@)),
{
    let ghost from = panel_views(panels@);
    let ghost goal = from.map_values(|p: TaskPanelView| refreshed(p, opt_text(*pr_state)));
    let mut changed = false;
    let mut i: usize = 0;
    while i < panels.len()
        invariant
            i <= panels@.len(),
            panels@.len() == from.len(),
            goal == from.map_values(|p: TaskPanelView| refreshed(p, opt_text(*pr_state))),
            forall|j: int| 0 <= j < i ==> (#[trigger] panels@[j])@ == goal[j],
            forall|j: int| i <= j < panels@.len() ==> (#[trigger] panels@[j])@ == from[j],
            changed == exists|j: int| 0 <= j < i && #[trigger] goal[j] != from[j],
        decreases panels@.len() - i,
    {
        assert(panels@[i as int]@ == from[i as int]);
        let stale = panels[i].role.is_some() && !same_opt(&panels[i].pr_state, pr_state);
        assert(stale == (goal[i as int] != from[i as int]));
        if stale {
            let role = panels[i].role;
            let branch = copy_opt(&panels[i].branch);
            let fresh = TaskPanel { role, branch, pr_state: copy_opt(pr_state) };
            assert(fresh@ == goal[i as int]);
            panels.set(i, fresh);
            changed = true;
        }
        i = i + 1;
    }
    assert(panel_views(panels@) =~= goal);
    proof {
        if changed {
            let j = choose|j: int| 0 <= j < i && #[trigger] goal[j] != from[j];
            assert(goal[j] != from[j]);
        } else {
            assert(goal =~= from);
        }
    }
    changed
}

/// The panels of a task are told their branch.
pub fn update_task_workspace_branch(panels: &mut Vec<TaskPanel>, branch: &Option<String>)
    ensures
        panel_views(final(panels)@) == panel_views(old(panels)@).map_values(
            |p: TaskPanelView| rebranched(p, opt_text(*branch)),
        ),
{
    let ghost from = panel_views(panels@);
    let ghost goal = from.map_values(|p: TaskPanelView| rebranched(p, opt_text(*branch)));
    let mut i: usize = 0;
    while i < panels.len()
        invariant
            i <= panels@.len(),
            panels@.len() == from.len(),
            goal == from.map_values(|p: TaskPanelView| rebranched(p, opt_text(*branch))),
            forall|j: int| 0 <= j < i ==> (#[trigger] panels@[j])@ == goal[j],
            forall|j: int| i <= j < panels@.len() ==> (#[trigger] panels@[j])@ == from[j],
        decreases panels@.len() - i,
    {
        assert(panels@[i as int]@ == from[i as int]);
        if panels[i].role.is_some() {
            let role = panels[i].role;
            let pr_state = copy_opt(&panels[i].pr_state);
            let fresh = TaskPanel { role, branch: copy_opt(branch), pr_state };
            assert(fresh@ == goal[i as int]);
            panels.set(i, fresh);
        }
        i = i + 1;
    }
    assert(panel_views(panels@) =~= goal);
}

/// The branch that a task's panels know: that of the first that has one.
pub open spec fn known_branch(panels: Seq<TaskPanelView>, from: int) -> Option<Seq<char>>
    decreases panels.len() - from,
{
    if from < 0 || from >= panels.len() {
        None
    } else if panels[from].role is Some && panels[from].branch is Some {
        panels[from].branch
    } else {
        known_branch(panels, from + 1)
    }
}

pub fn task_branch(panels: &Vec<TaskPanel>) -> (branch: Option<String>)
    ensures
        opt_text(branch) == known_branch(panel_views(panels@), 0),
{
    let ghost views = panel_views(panels@);
    let mut i: usize = 0;
    while i < panels.len()
        invariant
            i <= panels@.len(),
            views == panel_views(panels@),
            known_branch(views, 0) == known_branch(views, i as int),
        decreases panels@.len() - i,
    {
        assert(views[i as int] == panels@[i as int]@);
        if panels[i].role.is_some() && panels[i].branch.is_some() {
            return copy_opt(&panels[i].branch);
        }
        i = i + 1;
    }
    None
}

/// When the state of pull requests was asked for.
#[derive(Clone, Copy, Debug, PartialEq, Eq, Structural)]
pub struct StatusRefresh {
    pub in_flight: bool,
    pub last_ms: Option<u64>,
}

impl StatusRefresh {
    pub open spec fn due(self, now_ms: u64) -> bool {
        !self.in_flight && (self.last_ms matches Some(last) ==> now_ms - last
            >= TASK_STATUS_REFRESH_INTERVAL_MS)
    }

    /// Says whether a refresh starts: one is due, and there is something to ask
    /// for.
    pub fn maybe_start_task_status_refresh(&mut self, now_ms: u64, has_queries: bool) -> (start: bool)
        ensures
            start == (old(self).due(now_ms) && has_queries),
            *final(self) == (StatusRefresh { in_flight: old(self).in_flight || start, ..*old(self) }),
    {
        if self.in_flight {
            return false;
        }
        if let Some(last) = self.last_ms {
            if now_ms < last || now_ms - last < TASK_STATUS_REFRESH_INTERVAL_MS {
                return false;
            }
        }
        if !has_queries {
            return false;
        }
        self.in_flight = true;
        true
    }

    pub open spec fn is_over(self, now_ms: u64) -> bool {
        self == (StatusRefresh { in_flight: false, last_ms: Some(now_ms) })
    }

    /// A refresh that came back, or never will, is over.
    pub fn over(&mut self, now_ms: u64)
        ensures
            final(self).is_over(now_ms),
    {
        self.in_flight = false;
        self.last_ms = Some(now_ms);
    }

    /// A new task is asked for at once.
    pub fn forget(&mut self)
        ensures
            *final(self) == (StatusRefresh { last_ms: None, ..*old(self) }),
    {
        self.last_ms = None;
    }
}

/// A workspace as far as tasks go.
pub struct TaskSpace {
    pub id: u64,
    /// It was made for a work item.
    pub bound: bool,
    pub panels: Vec<TaskPanel>,
}

#[verifier::ext_equal]
pub struct TaskSpaceView {
    pub id: u64,
    pub bound: bool,
    pub panels: Seq<TaskPanelView>,
}

impl View for TaskSpace {
    type V = TaskSpaceView;

    open spec fn view(&self) -> TaskSpaceView {
        TaskSpaceView { id: self.id, bound: self.bound, panels: panel_views(self.panels@) }
    }
}

pub open spec fn space_views(spaces: Seq<TaskSpace>) -> Seq<TaskSpaceView> {
    spaces.map_values(|s: TaskSpace| s@)
}

/// What is to be asked about a workspace: the state of its work item on the
/// branch that its panels know.
pub struct TaskQuery {
    pub workspace_id: u64,
    pub branch: Option<String>,
}

pub open spec fn query_views(queries: Seq<TaskQuery>) -> Seq<(u64, Option<Seq<char>>)> {
    queries.map_values(|q: TaskQuery| (q.workspace_id, opt_text(q.branch)))
}

/// One question for each workspace that was made for a work item.
pub open spec fn queries_for(spaces: Seq<TaskSpaceView>) -> Seq<(u64, Option<Seq<char>>)>
    decreases spaces.len(),
{
    if spaces.len() == 0 {
        Seq::empty()
    } else if spaces.last().bound {
        queries_for(spaces.drop_last()).push(
            (spaces.last().id, known_branch(spaces.last().panels, 0)),
        )
    } else {
        queries_for(spaces.drop_last())
    }
}

pub fn collect_task_status_queries(spaces: &Vec<TaskSpace>) -> (queries: Vec<TaskQuery>)
    ensures
        query_views(queries@) == queries_for(space_views(spaces@)),
{
    let ghost views = space_views(spaces@);
    let mut queries: Vec<TaskQuery> = Vec::new();
    let mut i: usize = 0;
    assert(query_views(queries@) =~= queries_for(views.take(0)));
    while i < spaces.len()
        invariant
            i <= spaces@.len(),
            views == space_views(spaces@),
            query_views(queries@) == queries_for(views.take(i as int)),
        decreases spaces@.len() - i,
    {
        let ghost next = views.take(i + 1);
        assert(next.drop_last() =~= views.take(i as int));
        assert(next.last() == spaces@[i as int]@);
        if spaces[i].bound {
            let ghost before = queries@;
            let query = TaskQuery {
                workspace_id: spaces[i].id,
                branch: task_branch(&spaces[i].panels),
            };
            queries.push(query);
            assert(query_views(queries@) =~= query_views(before).push(
                (query.workspace_id, opt_text(query.branch)),
            ));
        }
        i = i + 1;
    }
    assert(views.take(i as int) =~= views);
    queries
}

/// What was found out about a workspace.
pub struct TaskStatusRefresh {
    pub workspace_id: u64,
    pub pr_state: Option<String>,
}

pub open spec fn refresh_views(refreshes: Seq<TaskStatusRefresh>) -> Seq<(u64, Option<Seq<char>>)> {
    refreshes.map_values(|r: TaskStatusRefresh| (r.workspace_id, opt_text(r.pr_state)))
}

/// The first workspace with an id; past the end where there is none.
pub open spec fn space_at(spaces: Seq<TaskSpaceView>, id: u64, from: int) -> int
    decreases spaces.len() - from,
{
    if from < 0 || from >= spaces.len() {
        spaces.len() as int
    } else if spaces[from].id == id {
        from
    } else {
        space_at(spaces, id, from + 1)
    }
}

/// The workspace that a report is about has its panels brought up to date.
pub open spec fn told(spaces: Seq<TaskSpaceView>, report: (u64, Option<Seq<char>>)) -> Seq<
    TaskSpaceView,
> {
    let at = space_at(spaces, report.0, 0);
    if at < spaces.len() {
        spaces.update(
            at,
            TaskSpaceView {
                panels: spaces[at].panels.map_values(
                    |p: TaskPanelView| refreshed(p, report.1),
                ),
                ..spaces[at]
            },
        )
    } else {
        spaces
    }
}

/// Reports are taken one after the other; the flag says whether any changed
/// something.
pub open spec fn told_all(
    spaces: Seq<TaskSpaceView>,
    reports: Seq<(u64, Option<Seq<char>>)>,
) -> (Seq<TaskSpaceView>, bool)
    decreases reports.len(),
{
    if reports.len() == 0 {
        (spaces, false)
    } else {
        let (before, changed) = told_all(spaces, reports.drop_last());
        let after = told(before, reports.last());
        (after, changed || after != before)
    }
}

fn find_space(spaces: &Vec<TaskSpace>, id: u64) -> (at: usize)
    ensures
        at == space_at(space_views(spaces@), id, 0),
        at <= spaces@.len(),
{
    let ghost views = space_views(spaces@);
    let mut i: usize = 0;
    while i < spaces.len()
        invariant
            i <= spaces@.len(),
            views == space_views(spaces@),
            space_at(views, id, 0) == space_at(views, id, i as int),
        decreases spaces@.len() - i,
    {
        assert(views[i as int] == spaces@[i as int]@);
        if spaces[i].id == id {
            return i;
        }
        i = i + 1;
    }
    i
}

fn tell(spaces: &mut Vec<TaskSpace>, report: &TaskStatusRefresh) -> (changed: bool)
    ensures
        space_views(final(spaces)@) == told(
            space_views(old(spaces)@),
            (report.workspace_id, opt_text(report.pr_state)),
        ),
        changed == (space_views(final(spaces)@) != space_views(old(spaces)@)),
{
    let ghost before = space_views(spaces@);
    let at = find_space(spaces, report.workspace_id);
    if at >= spaces.len() {
        return false;
    }
    let ghost from = spaces@[at as int]@;
    let mut space = spaces.remove(at);
    let changed = apply_task_status_refresh(&mut space.panels, &report.pr_state);
    let ghost to = space@;
    spaces.insert(at, space);
    assert(space_views(spaces@) =~= before.update(at as int, to));
    proof {
        if changed {
            assert(before.update(at as int, to)[at as int] != before[at as int]);
        } else {
            assert(to =~= from);
            assert(before.update(at as int, to) =~= before);
        }
    }
    changed
}

/// What a refresh that is in flight has to say.
pub enum RefreshPoll {
    Waiting,
    Done(Vec<TaskStatusRefresh>),
    Disconnected,
}

impl StatusRefresh {
    /// Takes what a refresh found out. Says whether that changed any panel.
    pub fn poll_task_status_refresh_result(
        &mut self,
        poll: &RefreshPoll,
        spaces: &mut Vec<TaskSpace>,
        now_ms: u64,
    ) -> (changed: bool)
        ensures
            match poll {
                RefreshPoll::Waiting => *final(self) == *old(self) && space_views(final(spaces)@)
                    == space_views(old(spaces)@) && !changed,
                RefreshPoll::Disconnected => final(self).is_over(now_ms) && space_views(
                    final(spaces)@,
                ) == space_views(old(spaces)@) && !changed,
                RefreshPoll::Done(reports) => final(self).is_over(now_ms) && (
                    space_views(final(spaces)@),
                    changed,
                ) == told_all(space_views(old(spaces)@), refresh_views(reports@)),
            },
    {
        match poll {
            RefreshPoll::Waiting => false,
            RefreshPoll::Disconnected => {
                self.over(now_ms);
                false
            },
            RefreshPoll::Done(reports) => {
                self.over(now_ms);
                let ghost from = space_views(spaces@);
                let ghost views = refresh_views(reports@);
                let mut changed = false;
                let mut i: usize = 0;
                assert(views.take(0) =~= Seq::empty());
                while i < reports.len()
                    invariant
                        i <= reports@.len(),
                        views == refresh_views(reports@),
                        (space_views(spaces@), changed) == told_all(from, views.take(i as int)),
                    decreases reports@.len() - i,
                {
                    let ghost next = views.take(i + 1);
                    assert(next.drop_last() =~= views.take(i as int));
                    assert(next.last() == views[i as int]);
                    if tell(spaces, &reports[i]) {
                        changed = true;
                    }
                    i = i + 1;
                }
                assert(views.take(i as int) =~= views);
                changed
            },
        }
    }

    /// A frame of keeping task panels current: takes what came back, then asks
    /// anew where it is time and there is something to ask.
    pub fn poll_task_status_refresh(
        &mut self,
        poll: &RefreshPoll,
        spaces: &mut Vec<TaskSpace>,
        now_ms: u64,
    ) -> (out: (bool, Option<Vec<TaskQuery>>))
        ensures
            ({
                let (views, changed) = match poll {
                    RefreshPoll::Done(reports) => told_all(
                        space_views(old(spaces)@),
                        refresh_views(reports@),
                    ),
                    _ => (space_views(old(spaces)@), false),
                };
                let polled = if poll is Waiting {
                    *old(self)
                } else {
                    StatusRefresh { in_flight: false, last_ms: Some(now_ms) }
                };
                let queries = queries_for(views);
                let starts = polled.due(now_ms) && queries.len() > 0;
                &&& space_views(final(spaces)@) == views
                &&& out.0 == changed
                &&& (out.1 is Some) == starts
                &&& out.1 matches Some(list) ==> query_views(list@) == queries
                &&& *final(self) == (StatusRefresh {
                    in_flight: polled.in_flight || starts,
                    ..polled
                })
            }),
    {
        let changed = self.poll_task_status_refresh_result(poll, spaces, now_ms);
        let queries = collect_task_status_queries(spaces);
        if self.maybe_start_task_status_refresh(now_ms, queries.len() > 0) {
            (changed, Some(queries))
        } else {
            (changed, None)
        }
    }
}

/// The panels of a task show the last report if it is about their workspace, and
/// a workspace that no report is about stays as it was. Roles and branches stay
/// in any case.
pub proof fn law_the_last_report_stands(
    spaces: Seq<TaskSpaceView>,
    reports: Seq<(u64, Option<Seq<char>>)>,
    at: int,
    i: int,
)
    requires
        reports.len() > 0,
        0 <= at < spaces.len(),
        0 <= i < spaces[at].panels.len(),
    ensures
        ({
            let after = told_all(spaces, reports).0;
            let report = reports.last();
            &&& after.len() == spaces.len()
            &&& after[at].panels.len() == spaces[at].panels.len()
            &&& after[at].panels[i].role == spaces[at].panels[i].role
            &&& after[at].panels[i].branch == spaces[at].panels[i].branch
            &&& space_at(spaces, report.0, 0) == at && spaces[at].panels[i].role is Some
                ==> after[at].panels[i].pr_state == report.1
            &&& (forall|k: int|
                0 <= k < reports.len() ==> space_at(spaces, (#[trigger] reports[k]).0, 0) != at)
                ==> after[at] == spaces[at]
        }),
{
    let rest = reports.drop_last();
    let before = told_all(spaces, rest).0;
    lemma_told_keeps_shape(spaces, rest, at, i);
    lemma_same_ids(spaces, before, reports.last().0, 0);
    lemma_space_at(before, reports.last().0, 0);
    assert(told_all(spaces, reports).0 == told(before, reports.last()));
    if forall|k: int| 0 <= k < reports.len() ==> space_at(spaces, (#[trigger] reports[k]).0, 0) != at {
        assert(reports.last() == reports[reports.len() - 1]);
        assert forall|k: int| 0 <= k < rest.len() implies space_at(
            spaces,
            (#[trigger] rest[k]).0,
            0,
        ) != at by {
            assert(rest[k] == reports[k]);
        }
    }
}

/// Reports change nothing but the state that panels show.
proof fn lemma_told_keeps_shape(
    spaces: Seq<TaskSpaceView>,
    reports: Seq<(u64, Option<Seq<char>>)>,
    at: int,
    i: int,
)
    requires
        0 <= at < spaces.len(),
        0 <= i < spaces[at].panels.len(),
    ensures
        ({
            let after = told_all(spaces, reports).0;
            &&& after.len() == spaces.len()
            &&& forall|j: int| 0 <= j < spaces.len() ==> (#[trigger] after[j]).id == spaces[j].id
            &&& after[at].panels.len() == spaces[at].panels.len()
            &&& after[at].panels[i].role == spaces[at].panels[i].role
            &&& after[at].panels[i].branch == spaces[at].panels[i].branch
            &&& (forall|k: int|
                0 <= k < reports.len() ==> space_at(spaces, (#[trigger] reports[k]).0, 0) != at)
                ==> after[at] == spaces[at]
        }),
    decreases reports.len(),
{
    if reports.len() > 0 {
        let rest = reports.drop_last();
        lemma_told_keeps_shape(spaces, rest, at, i);
        let before = told_all(spaces, rest).0;
        lemma_same_ids(spaces, before, reports.last().0, 0);
        lemma_space_at(before, reports.last().0, 0);
        assert(told_all(spaces, reports).0 == told(before, reports.last()));
        if forall|k: int| 0 <= k < reports.len() ==> space_at(spaces, (#[trigger] reports[k]).0, 0) != at {
            assert(reports.last() == reports[reports.len() - 1]);
            assert forall|k: int| 0 <= k < rest.len() implies space_at(
                spaces,
                (#[trigger] rest[k]).0,
                0,
            ) != at by {
                assert(rest[k] == reports[k]);
            }
        }
    }
}

proof fn lemma_space_at(spaces: Seq<TaskSpaceView>, id: u64, from: int)
    requires
        0 <= from <= spaces.len(),
    ensures
        from <= space_at(spaces, id, from) <= spaces.len(),
    decreases spaces.len() - from,
{
    if from < spaces.len() {
        lemma_space_at(spaces, id, from + 1);
    }
}

proof fn lemma_same_ids(a: Seq<TaskSpaceView>, b: Seq<TaskSpaceView>, id: u64, from: int)
    requires
        a.len() == b.len(),
        forall|j: int| 0 <= j < a.len() ==> (#[trigger] b[j]).id == a[j].id,
    ensures
        space_at(a, id, from) == space_at(b, id, from),
    decreases a.len() - from,
{
    if 0 <= from < a.len() {
        assert(b[from].id == a[from].id);
        lemma_same_ids(a, b, id, from + 1);
    }
}

/// A reference is looked up in a repository; where either is missing the overlay
/// says so, and while it is closed it does nothing.
pub proof fn law_references_are_looked_up(
    overlay: OverlayView,
    query: String,
    has_repo: bool,
)
    ensures
        ({
            let (after, starts) = overlay.acted(OverlayAction::Submit(query), has_repo);
            &&& !overlay.open ==> after == overlay && !starts
            &&& starts <==> overlay.open && has_repo && query@.len() > 0
            &&& starts ==> after.resolving && after.pending && after.open && after.error
                == overlay.error
            &&& overlay.open && !has_repo ==> after.error == Some(
                "No active local GitHub repo found in the current workspace."@,
            ) && after.pending == overlay.pending
            &&& overlay.open && has_repo && query@.len() == 0 ==> after.error == Some(
                "Enter a GitHub reference first."@,
            ) && after.pending == overlay.pending
            &&& overlay.acted(OverlayAction::Idle, has_repo) == (overlay, false)
            &&& overlay.open ==> overlay.acted(OverlayAction::Cancelled, has_repo).0 == (OverlayView {
                open: false,
                error: None,
                resolving: false,
                pending: false,
            })
        }),
{
}

/// A search that found the work item closes the overlay; one that failed says why
/// on an overlay that is open.
pub proof fn law_searches_end_with_their_reason(overlay: OverlayView, error: String)
    requires
        overlay.pending,
    ensures
        ({
            let (found, made) = overlay.heard(ResolutionPoll::Found);
            let (failed, none) = overlay.heard(ResolutionPoll::Failed(error));
            let (gone, nothing) = overlay.heard(ResolutionPoll::Disconnected);
            &&& made && !found.open && !found.pending && !found.resolving && found.error is None
            &&& !none && !failed.pending && !failed.resolving && failed.open == overlay.open
            &&& overlay.open ==> failed.error == Some(error@) && gone.error == Some(
                "GitHub resolution worker disconnected."@,
            )
            &&& !overlay.open ==> failed.error == overlay.error && gone.error == overlay.error
            &&& !nothing && !gone.pending && !gone.resolving
            &&& overlay.heard(ResolutionPoll::Waiting) == (overlay, false)
        }),
{
}

proof fn lemma_first_of_kind(presets: Seq<AgentKind>, kind: AgentKind, from: int)
    requires
        0 <= from <= presets.len(),
    ensures
        match first_of_kind(presets, kind, from) {
            Some(i) => from <= i < presets.len() && presets[i] == kind && forall|k: int|
                from <= k < i ==> #[trigger] presets[k] != kind,
            None => forall|k: int| from <= k < presets.len() ==> #[trigger] presets[k] != kind,
        },
    decreases presets.len() - from,
{
    if from < presets.len() {
        lemma_first_of_kind(presets, kind, from + 1);
    }
}

/// A panel is made from the first preset of its kind, where there is one.
pub proof fn law_panels_are_made_from_the_first_of_their_kind(
    presets: Seq<AgentKind>,
    kind: AgentKind,
    k: int,
)
    requires
        0 <= k < presets.len(),
        presets[k] == kind,
    ensures
        first_of_kind(presets, kind, 0) matches Some(i) && 0 <= i <= k && presets[i] == kind,
{
    lemma_first_of_kind(presets, kind, 0);
}

/// A workspace with every panel has the last one focused; one that lacks a panel
/// is closed.
pub proof fn law_tasks_focus_their_last_panel(made: Seq<Option<u64>>, k: int)
    ensures
        0 <= k < made.len() && made[k] is None ==> assembled(made) is Closed,
        made.len() == 0 ==> assembled(made) is Bare,
        made.len() > 0 && (forall|j: int| 0 <= j < made.len() ==> (#[trigger] made[j]) is Some)
            ==> assembled(made) == (TaskWorkspace::Ready { focus: made[made.len() - 1]->0 }),
{
}

/// Only the panels of a task show the state of its pull request and its branch.
pub proof fn law_only_task_panels_are_told(panel: TaskPanelView, told: Option<Seq<char>>)
    ensures
        panel.role is None ==> refreshed(panel, told) == panel && rebranched(panel, told) == panel,
        panel.role is Some ==> refreshed(panel, told).pr_state == told && refreshed(
            panel,
            told,
        ).branch == panel.branch && rebranched(panel, told).branch == told && rebranched(
            panel,
            told,
        ).pr_state == panel.pr_state && refreshed(panel, told).role == panel.role,
{
}

proof fn lemma_known_branch(panels: Seq<TaskPanelView>, from: int, k: int)
    requires
        0 <= from <= k < panels.len(),
        panels[k].role is Some && panels[k].branch is Some,
        forall|j: int|
            from <= j < k ==> !((#[trigger] panels[j]).role is Some && panels[j].branch is Some),
    ensures
        known_branch(panels, from) == panels[k].branch,
    decreases k - from,
{
    if from < k {
        lemma_known_branch(panels, from + 1, k);
    }
}

proof fn lemma_no_branch(panels: Seq<TaskPanelView>, from: int)
    requires
        0 <= from <= panels.len(),
        forall|j: int|
            from <= j < panels.len() ==> !((#[trigger] panels[j]).role is Some && panels[j].branch
                is Some),
    ensures
        known_branch(panels, from) is None,
    decreases panels.len() - from,
{
    if from < panels.len() {
        lemma_no_branch(panels, from + 1);
    }
}

/// The branch of a task is that of its first panel that has one.
pub proof fn law_the_first_known_branch_counts(panels: Seq<TaskPanelView>, k: int)
    ensures
        0 <= k < panels.len() && panels[k].role is Some && panels[k].branch is Some && (forall|
            j: int,
        |
            0 <= j < k ==> !((#[trigger] panels[j]).role is Some && panels[j].branch is Some))
            ==> known_branch(panels, 0) == panels[k].branch,
        (forall|j: int|
            0 <= j < panels.len() ==> !((#[trigger] panels[j]).role is Some && panels[j].branch
                is Some)) ==> known_branch(panels, 0) is None,
{
    if 0 <= k < panels.len() && panels[k].role is Some && panels[k].branch is Some && (forall|
        j: int,
    |
        0 <= j < k ==> !((#[trigger] panels[j]).role is Some && panels[j].branch is Some)) {
        lemma_known_branch(panels, 0, k);
    }
    if forall|j: int|
        0 <= j < panels.len() ==> !((#[trigger] panels[j]).role is Some && panels[j].branch is Some) {
        lemma_no_branch(panels, 0);
    }
}

/// The state is asked for anew after fifteen seconds, and never twice at a time.
pub proof fn law_states_are_asked_for_every_fifteen_seconds(refresh: StatusRefresh, now_ms: u64)
    ensures
        refresh.in_flight ==> !refresh.due(now_ms),
        !refresh.in_flight && refresh.last_ms is None ==> refresh.due(now_ms),
        !refresh.in_flight && refresh.last_ms is Some ==> (refresh.due(now_ms) <==> now_ms
            >= refresh.last_ms->0 + 15_000),
{
}

/// Every workspace that was made for a work item is asked about, in its order,
/// with the branch that its panels know; no other is.
pub proof fn law_bound_workspaces_are_asked_about(
    spaces: Seq<TaskSpaceView>,
    space: TaskSpaceView,
)
    ensures
        queries_for(Seq::empty()).len() == 0,
        space.bound ==> queries_for(spaces.push(space)) == queries_for(spaces).push(
            (space.id, known_branch(space.panels, 0)),
        ),
        !space.bound ==> queries_for(spaces.push(space)) == queries_for(spaces),
{
    assert(spaces.push(space).drop_last() =~= spaces);
}

/// What is said of the overlay is said of what it holds.
pub proof fn law_work_item_overlay_is_seen_as_it_is(value: WorkItemOverlay)
    ensures
        value@.open == value.open,
        value@.error == opt_text(value.error),
        value@.resolving == value.resolving,
        value@.pending == value.pending,
{
}

/// What is said of a panel is said of what it holds.
pub proof fn law_task_panel_is_seen_as_it_is(value: TaskPanel)
    ensures
        value@.role == value.role,
        value@.branch == opt_text(value.branch),
        value@.pr_state == opt_text(value.pr_state),
{
}

/// What is said of a workspace is said of what it holds.
pub proof fn law_task_space_is_seen_as_it_is(value: TaskSpace)
    ensures
        value@.id == value.id,
        value@.bound == value.bound,
        value@.panels == panel_views(value.panels@),
{
}

/// Panels are seen one by one, in their order.
pub proof fn law_panels_are_seen_in_order(list: Seq<TaskPanel>, k: int)
    requires
        0 <= k < list.len(),
    ensures
        panel_views(list).len() == list.len(),
        panel_views(list)[k] == list[k]@,
{
}

/// Workspaces are seen one by one, in their order.
pub proof fn law_workspaces_are_seen_in_order(list: Seq<TaskSpace>, k: int)
    requires
        0 <= k < list.len(),
    ensures
        space_views(list).len() == list.len(),
        space_views(list)[k] == list[k]@,
{
}

/// Questions are seen by workspace and branch, in their order.
pub proof fn law_queries_are_seen_in_order(list: Seq<TaskQuery>, k: int)
    requires
        0 <= k < list.len(),
    ensures
        query_views(list).len() == list.len(),
        query_views(list)[k] == (list[k].workspace_id, opt_text(list[k].branch)),
{
}

/// Reports are seen by workspace and state, in their order.
pub proof fn law_reports_are_seen_in_order(list: Seq<TaskStatusRefresh>, k: int)
    requires
        0 <= k < list.len(),
    ensures
        refresh_views(list).len() == list.len(),
        refresh_views(list)[k] == (list[k].workspace_id, opt_text(list[k].pr_state)),
{
}

/// A refresh that is over is no longer in flight, and the next one counts from
/// now.
pub proof fn law_refreshes_end_now(refresh: StatusRefresh, now_ms: u64)
    requires
        refresh.is_over(now_ms),
    ensures
        !refresh.in_flight,
        refresh.last_ms == Some(now_ms),
        !refresh.due(now_ms),
{
}

/// A candidate that is known stands in the list, and one that is not does not.
pub proof fn law_known_candidates_are_listed(value: Seq<char>)
    ensures
        opt_one(Some(value)) =~= seq![value],
        opt_one(None).len() == 0,
{
}

} // verus!
