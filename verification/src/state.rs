//! The state of the launcher, and where things stand in it.

use crate::layout::Rect;
use crate::model::{
    distinct_ids, lemma_distinct_place, lemma_place_of, place_of, Agent, AgentId, LastSession,
    LastWorktree, Lookup, OpenPrs, Project, ProjectId, QuickLaunch, QuickReturn, QuickTarget,
    SessionRef, TerminalId, TerminalTab, TextInput, Tree, Worktree, WorktreeId,
};
use crate::pane::{
    fitted_side, parts, side_that_fits, split_at, PaneSide, GRID_MIN_H, GRID_MIN_W, PANE_MIN_H,
    PANE_MIN_W,
};
use crate::picker::ProjectPicker;
use crate::views::{opt, views};
use vstd::prelude::*;

verus! {

/// Which part of the screen has the keys.
#[derive(Debug, Clone, Copy, PartialEq, Eq, Structural)]
pub enum Focus {
    Projects,
    Worktrees,
    Sessions,
    Terminal,
}

/// What a click means, by where it lands.
#[derive(Debug, PartialEq, Eq)]
pub enum HitTarget {
    LauncherTab(ProjectId),
    LauncherTabClose(ProjectId),
    LauncherTabAdd,
    LauncherRow(usize),
    PanelBg(Focus),
    LauncherWelcomePrompt,
    LauncherPaneSession,
    LauncherPaneTerminal(usize),
    LauncherPaneCloseTerminal(usize),
    LauncherPaneClose,
    LauncherPaneSplitter,
    LauncherCrumb,
    LauncherPullRequests,
    LauncherIssues,
}

/// A [`HitTarget`], its ids by their text.
pub enum HitView {
    LauncherTab(Seq<char>),
    LauncherTabClose(Seq<char>),
    LauncherTabAdd,
    LauncherRow(usize),
    PanelBg(Focus),
    LauncherWelcomePrompt,
    LauncherPaneSession,
    LauncherPaneTerminal(usize),
    LauncherPaneCloseTerminal(usize),
    LauncherPaneClose,
    LauncherPaneSplitter,
    LauncherCrumb,
    LauncherPullRequests,
    LauncherIssues,
}

impl View for HitTarget {
    type V = HitView;

    open spec fn view(&self) -> HitView {
        match self {
            HitTarget::LauncherTab(id) => HitView::LauncherTab(id@),
            HitTarget::LauncherTabClose(id) => HitView::LauncherTabClose(id@),
            HitTarget::LauncherTabAdd => HitView::LauncherTabAdd,
            HitTarget::LauncherRow(i) => HitView::LauncherRow(*i),
            HitTarget::PanelBg(f) => HitView::PanelBg(*f),
            HitTarget::LauncherWelcomePrompt => HitView::LauncherWelcomePrompt,
            HitTarget::LauncherPaneSession => HitView::LauncherPaneSession,
            HitTarget::LauncherPaneTerminal(i) => HitView::LauncherPaneTerminal(*i),
            HitTarget::LauncherPaneCloseTerminal(i) => HitView::LauncherPaneCloseTerminal(*i),
            HitTarget::LauncherPaneClose => HitView::LauncherPaneClose,
            HitTarget::LauncherPaneSplitter => HitView::LauncherPaneSplitter,
            HitTarget::LauncherCrumb => HitView::LauncherCrumb,
            HitTarget::LauncherPullRequests => HitView::LauncherPullRequests,
            HitTarget::LauncherIssues => HitView::LauncherIssues,
        }
    }
}

impl Clone for HitTarget {
    fn clone(&self) -> (r: Self)
        ensures
            r == *self,
    {
        match self {
            HitTarget::LauncherTab(id) => HitTarget::LauncherTab(id.clone()),
            HitTarget::LauncherTabClose(id) => HitTarget::LauncherTabClose(id.clone()),
            HitTarget::LauncherTabAdd => HitTarget::LauncherTabAdd,
            HitTarget::LauncherRow(i) => HitTarget::LauncherRow(*i),
            HitTarget::PanelBg(f) => HitTarget::PanelBg(*f),
            HitTarget::LauncherWelcomePrompt => HitTarget::LauncherWelcomePrompt,
            HitTarget::LauncherPaneSession => HitTarget::LauncherPaneSession,
            HitTarget::LauncherPaneTerminal(i) => HitTarget::LauncherPaneTerminal(*i),
            HitTarget::LauncherPaneCloseTerminal(i) => HitTarget::LauncherPaneCloseTerminal(*i),
            HitTarget::LauncherPaneClose => HitTarget::LauncherPaneClose,
            HitTarget::LauncherPaneSplitter => HitTarget::LauncherPaneSplitter,
            HitTarget::LauncherCrumb => HitTarget::LauncherCrumb,
            HitTarget::LauncherPullRequests => HitTarget::LauncherPullRequests,
            HitTarget::LauncherIssues => HitTarget::LauncherIssues,
        }
    }
}

impl HitTarget {
    /// The two mean the same.
    pub fn same(&self, other: &HitTarget) -> (r: bool)
        ensures
            r == (self@ == other@),
    {
        match (self, other) {
            (HitTarget::LauncherTab(a), HitTarget::LauncherTab(b)) => a.same(b),
            (HitTarget::LauncherTabClose(a), HitTarget::LauncherTabClose(b)) => a.same(b),
            (HitTarget::LauncherTabAdd, HitTarget::LauncherTabAdd) => true,
            (HitTarget::LauncherRow(a), HitTarget::LauncherRow(b)) => *a == *b,
            (HitTarget::PanelBg(a), HitTarget::PanelBg(b)) => *a == *b,
            (HitTarget::LauncherWelcomePrompt, HitTarget::LauncherWelcomePrompt) => true,
            (HitTarget::LauncherPaneSession, HitTarget::LauncherPaneSession) => true,
            (HitTarget::LauncherPaneTerminal(a), HitTarget::LauncherPaneTerminal(b)) => *a == *b,
            (HitTarget::LauncherPaneCloseTerminal(a), HitTarget::LauncherPaneCloseTerminal(b)) => {
                *a == *b
            },
            (HitTarget::LauncherPaneClose, HitTarget::LauncherPaneClose) => true,
            (HitTarget::LauncherPaneSplitter, HitTarget::LauncherPaneSplitter) => true,
            (HitTarget::LauncherCrumb, HitTarget::LauncherCrumb) => true,
            (HitTarget::LauncherPullRequests, HitTarget::LauncherPullRequests) => true,
            (HitTarget::LauncherIssues, HitTarget::LauncherIssues) => true,
            _ => false,
        }
    }
}

/// Whether what the pointer rests on is `what`.
pub fn hovers(hover: &Option<HitTarget>, what: &HitTarget) -> (r: bool)
    ensures
        r == (opt(*hover) == Some(what@)),
{
    match hover {
        Some(h) => h.same(what),
        None => false,
    }
}

/// A cell range of the screen and what a click on it means.
#[derive(Debug, PartialEq, Eq)]
pub struct Hit {
    pub rect: Rect,
    pub target: HitTarget,
}

// ---- overlays ----

/// What a row of a menu does.
#[derive(Debug, PartialEq, Eq)]
pub enum MenuAction {
    NewWorktree(ProjectId),
    ToggleRun(WorktreeId),
    OpenWorktree(WorktreeId),
    DeleteWorktree(WorktreeId),
    RenameProject(ProjectId),
    RemoveProject(ProjectId),
    OpenProject(ProjectId),
    AddProject,
    PickLaunchWorktree { target: QuickTarget, back: QuickReturn },
}

impl Clone for MenuAction {
    fn clone(&self) -> (r: Self)
        ensures
            r == *self,
    {
        match self {
            MenuAction::NewWorktree(id) => MenuAction::NewWorktree(id.clone()),
            MenuAction::ToggleRun(id) => MenuAction::ToggleRun(id.clone()),
            MenuAction::OpenWorktree(id) => MenuAction::OpenWorktree(id.clone()),
            MenuAction::DeleteWorktree(id) => MenuAction::DeleteWorktree(id.clone()),
            MenuAction::RenameProject(id) => MenuAction::RenameProject(id.clone()),
            MenuAction::RemoveProject(id) => MenuAction::RemoveProject(id.clone()),
            MenuAction::OpenProject(id) => MenuAction::OpenProject(id.clone()),
            MenuAction::AddProject => MenuAction::AddProject,
            MenuAction::PickLaunchWorktree { target, back } => MenuAction::PickLaunchWorktree {
                target: target.clone(),
                back: back.clone(),
            },
        }
    }
}

/// A [`MenuAction`], its ids by their text.
pub enum ActionView {
    NewWorktree(Seq<char>),
    ToggleRun(Seq<char>),
    OpenWorktree(Seq<char>),
    DeleteWorktree(Seq<char>),
    RenameProject(Seq<char>),
    RemoveProject(Seq<char>),
    OpenProject(Seq<char>),
    AddProject,
    PickLaunchWorktree { target: QuickTarget, back: QuickReturn },
}

impl View for MenuAction {
    type V = ActionView;

    open spec fn view(&self) -> ActionView {
        match self {
            MenuAction::NewWorktree(id) => ActionView::NewWorktree(id@),
            MenuAction::ToggleRun(id) => ActionView::ToggleRun(id@),
            MenuAction::OpenWorktree(id) => ActionView::OpenWorktree(id@),
            MenuAction::DeleteWorktree(id) => ActionView::DeleteWorktree(id@),
            MenuAction::RenameProject(id) => ActionView::RenameProject(id@),
            MenuAction::RemoveProject(id) => ActionView::RemoveProject(id@),
            MenuAction::OpenProject(id) => ActionView::OpenProject(id@),
            MenuAction::AddProject => ActionView::AddProject,
            MenuAction::PickLaunchWorktree { target, back } => ActionView::PickLaunchWorktree {
                target: *target,
                back: *back,
            },
        }
    }
}

/// One row of a menu.
#[derive(Debug, PartialEq, Eq)]
pub struct MenuItem {
    pub label: String,
    pub action: MenuAction,
    /// It throws something away, and is drawn as such.
    pub destructive: bool,
}

/// A [`MenuItem`], its texts by their characters.
pub struct ItemView {
    pub label: Seq<char>,
    pub action: ActionView,
    pub destructive: bool,
}

impl View for MenuItem {
    type V = ItemView;

    open spec fn view(&self) -> ItemView {
        ItemView { label: self.label@, action: self.action@, destructive: self.destructive }
    }
}

impl Clone for MenuItem {
    fn clone(&self) -> (r: Self)
        ensures
            r == *self,
    {
        MenuItem {
            label: self.label.clone(),
            action: self.action.clone(),
            destructive: self.destructive,
        }
    }
}

/// A menu on screen: the rows shown, the one the cursor is on, where it
/// hangs, and — where typing narrows it — all of its rows and what was typed.
#[derive(Debug, PartialEq, Eq)]
pub struct ContextMenu {
    pub title: Option<String>,
    pub items: Vec<MenuItem>,
    pub at: Option<(u16, u16)>,
    pub hover: usize,
    pub filter: Option<MenuFilter>,
}

/// Type-ahead over a menu.
#[derive(Debug, PartialEq, Eq)]
pub struct MenuFilter {
    pub query: String,
    pub all: Vec<MenuItem>,
}

/// What a prompt on screen asks for.
#[derive(Debug, PartialEq, Eq)]
pub enum PromptKind {
    QuickPrompt(QuickLaunch),
    Other,
}

/// A prompt on screen.
#[derive(Debug, PartialEq, Eq)]
pub struct PromptDialog {
    pub kind: PromptKind,
    pub input: TextInput,
}

/// What lies over the view.
#[derive(Debug)]
pub enum Overlay {
    Prompt(PromptDialog),
    ProjectPicker(ProjectPicker),
    Menu(ContextMenu),
    /// Asks before the terminal is closed.
    ConfirmClose { name: String, terminal: TerminalId },
    /// One the launcher knows nothing of.
    Other,
}

// ---- what is left to the program around the library ----

/// How a jump to a session ends: with the keys on the grid, or with the
/// session attached.
#[derive(Debug, Clone, Copy, PartialEq, Eq, Structural)]
pub enum Landing {
    FocusOnly,
    Attach,
}

/// What the view asks of the program around it, in order.
#[derive(Debug, PartialEq, Eq)]
pub enum Effect {
    /// Move the selection to a session.
    Jump { session: AgentId, landing: Landing },
    /// Bring a session or a terminal up in the pane at once.
    AttachNow(SessionRef),
    /// Bring what is selected up in the pane.
    PreviewSelected,
    /// Give the keys to the pane.
    EnterPane,
    /// Give the keys to the pane, if something is attached in it.
    EnterPaneIfAttached,
    /// Give the pane the whole screen.
    ZoomPane,
    /// Give the pane the whole screen, if something is attached in it.
    ZoomIfAttached,
    /// Hand the keys from the pane back to the card it reads.
    LeavePane,
    /// Put the project's own checkout and session back under the cursors.
    RestoreCursors(ProjectId),
    /// Say what a second press of the same key would do.
    ArmTap(String),
    /// Open a page in the browser.
    OpenLink(String),
    /// The follow-up box for a session.
    OpenFollowUp(AgentId),
    /// A prompt box aimed at a target, on the launch the defaults describe.
    OpenBoxFor(QuickTarget),
    /// A prompt box on a launch, with the draft the last one left.
    OpenBox(QuickLaunch),
    /// The list of harnesses, over the box it hands back.
    OpenLaunchPicker(QuickReturn),
    /// The list of models, over the box it hands back.
    OpenModels { worktree: WorktreeId, back: QuickReturn },
}

/// What the program around the library works out ahead of an event: what
/// hangs on the clock, on chance, on the configuration or on the keyboard.
#[derive(Debug)]
pub struct Facts {
    /// The clock, in milliseconds.
    pub now: i64,
    /// A branch name nobody has yet.
    pub fresh_branch: String,
    /// The branch name of the issue the box is for.
    pub issue_branch: String,
    /// The setting that starts every box on a fresh worktree.
    pub new_worktree: bool,
    /// The box's harness has a list of models.
    pub has_models: bool,
    /// What the box's harness is called.
    pub harness_label: String,
    /// The checkout the box's pickers act in.
    pub picker_context: Option<WorktreeId>,
    /// Why the selected row takes no follow-up.
    pub no_follow_up: Option<String>,
    /// This press is the second of a double tap.
    pub tapped: bool,
    /// The home directory.
    pub home: Option<String>,
    /// What a card that is archived says when it is stepped into.
    pub archived_word: String,
    /// Where a menu asked for by key hangs.
    pub menu_anchor: (u16, u16),
    /// The key that opens the prompt box, and the one that opens a terminal.
    pub prompt_key: String,
    pub terminal_key: String,
}

/// What is on screen: where things were drawn, how, and what the pointer rests
/// on.
#[derive(Debug)]
pub struct Screen {
    pub pane_side: PaneSide,
    /// The size the pane was last dragged to, under the cards and beside
    /// them.
    pub pane_rows: Option<u16>,
    pub pane_cols: Option<u16>,
    /// The part of the screen the cards were last drawn in.
    pub body_area: Rect,
    /// The part of the screen the cards and the pane share.
    pub launcher_body: Rect,
    /// What a click means, the first of those under it.
    pub hits: Vec<Hit>,
    pub hover_crumb: Option<HitTarget>,
    pub animations: bool,
    pub sweep_phase: usize,
    pub focus_tint: bool,
}

/// What is known beside the tree.
#[derive(Debug)]
pub struct Records {
    /// The projects in the order the projects panel lists them.
    pub project_rows: Vec<usize>,
    pub pull_requests: Vec<Lookup>,
    pub open_prs: Vec<OpenPrs>,
    pub last_worktree_for_project: Vec<LastWorktree>,
    pub last_session_for_worktree: Vec<LastSession>,
    /// The session this client just launched, until its first turn starts.
    pub just_launched: Option<AgentId>,
    /// The terminals of the checkout the pane is on.
    pub pane_terminals: Vec<TerminalTab>,
}

pub open spec fn lookup_ids(s: Seq<Lookup>) -> Seq<Seq<char>> {
    Seq::new(s.len(), |i: int| s[i].worktree@)
}

pub open spec fn listing_ids(s: Seq<OpenPrs>) -> Seq<Seq<char>> {
    Seq::new(s.len(), |i: int| s[i].project@)
}

pub open spec fn last_worktree_ids(s: Seq<LastWorktree>) -> Seq<Seq<char>> {
    Seq::new(s.len(), |i: int| s[i].project@)
}

pub open spec fn last_session_ids(s: Seq<LastSession>) -> Seq<Seq<char>> {
    Seq::new(s.len(), |i: int| s[i].worktree@)
}

impl Records {
    /// Each list holds at most one entry for a checkout or a project.
    pub open spec fn keyed(self) -> bool {
        &&& distinct_ids(lookup_ids(self.pull_requests@))
        &&& distinct_ids(listing_ids(self.open_prs@))
        &&& distinct_ids(last_worktree_ids(self.last_worktree_for_project@))
        &&& distinct_ids(last_session_ids(self.last_session_for_worktree@))
    }
}

/// The state of the launcher.
#[derive(Debug)]
pub struct App {
    pub tree: Tree,
    pub facts: Facts,
    pub records: Records,
    pub screen: Screen,
    pub sel_project: Option<ProjectId>,
    pub sel_worktree: Option<WorktreeId>,
    pub sel_session: Option<SessionRef>,
    /// The grid lists the archived sessions.
    pub show_archived: bool,
    /// The launcher is the view that is on.
    pub launcher_active: bool,
    /// The grid is on screen, no session over it.
    pub launcher_grid: bool,
    /// The projects that have a tab, from left to right.
    pub launcher_tabs: Vec<ProjectId>,
    /// The tab the header's own cursor is on, while it has the keys.
    pub launcher_tab_cursor: Option<ProjectId>,
    /// No card wears the cursor.
    pub launcher_unaimed: bool,
    /// The pane is folded away.
    pub launcher_pane_hidden: bool,
    /// The terminal the pane reads in place of the card.
    pub launcher_terminal: Option<TerminalId>,
    pub focus: Focus,
    pub term_locked: bool,
    /// What the pane has attached.
    pub attached: Option<SessionRef>,
    pub flash: Option<String>,
    pub dirty: bool,
    pub overlay: Option<Overlay>,
    /// The session an open follow-up box is aimed at.
    pub follow_up: Option<AgentId>,
    /// A session being created is still to be landed on.
    pub select_when_seen: bool,
}

// ---- looking things up ----

pub open spec fn project_ids(s: Seq<Project>) -> Seq<Seq<char>> {
    Seq::new(s.len(), |i: int| s[i].id@)
}

/// The first of `s` with the id, if there is one.
pub open spec fn the_project(s: Seq<Project>, id: Seq<char>) -> Option<Project> {
    match place_of(project_ids(s), id) {
        Some(i) => Some(s[i]),
        None => None,
    }
}

/// Where the first of `s` with the id stands.
pub fn find_project(s: &Vec<Project>, id: &ProjectId) -> (r: Option<usize>)
    ensures
        match r {
            Some(i) => i < s@.len() && place_of(project_ids(s@), id@) == Some(i as int),
            None => place_of(project_ids(s@), id@) is None,
        },
{
    let ghost ids = project_ids(s@);
    proof {
        lemma_place_of(ids, id@);
    }
    let mut i: usize = 0;
    while i < s.len()
        invariant
            i <= s@.len(),
            ids == project_ids(s@),
            forall|k: int| 0 <= k < i ==> #[trigger] ids[k] != id@,
        decreases s@.len() - i,
    {
        if s[i].id.same(id) {
            proof {
                lemma_place_of(ids, id@);
                assert(ids[i as int] == id@);
            }
            return Some(i);
        }
        i += 1;
    }
    None
}

pub open spec fn worktree_ids(s: Seq<Worktree>) -> Seq<Seq<char>> {
    Seq::new(s.len(), |i: int| s[i].id@)
}

/// The first of `s` with the id, if there is one.
pub open spec fn the_worktree(s: Seq<Worktree>, id: Seq<char>) -> Option<Worktree> {
    match place_of(worktree_ids(s), id) {
        Some(i) => Some(s[i]),
        None => None,
    }
}

/// Where the first of `s` with the id stands.
pub fn find_worktree(s: &Vec<Worktree>, id: &WorktreeId) -> (r: Option<usize>)
    ensures
        match r {
            Some(i) => i < s@.len() && place_of(worktree_ids(s@), id@) == Some(i as int),
            None => place_of(worktree_ids(s@), id@) is None,
        },
{
    let ghost ids = worktree_ids(s@);
    proof {
        lemma_place_of(ids, id@);
    }
    let mut i: usize = 0;
    while i < s.len()
        invariant
            i <= s@.len(),
            ids == worktree_ids(s@),
            forall|k: int| 0 <= k < i ==> #[trigger] ids[k] != id@,
        decreases s@.len() - i,
    {
        if s[i].id.same(id) {
            proof {
                lemma_place_of(ids, id@);
                assert(ids[i as int] == id@);
            }
            return Some(i);
        }
        i += 1;
    }
    None
}

pub open spec fn agent_ids(s: Seq<Agent>) -> Seq<Seq<char>> {
    Seq::new(s.len(), |i: int| s[i].id@)
}

/// The first of `s` with the id, if there is one.
pub open spec fn the_agent(s: Seq<Agent>, id: Seq<char>) -> Option<Agent> {
    match place_of(agent_ids(s), id) {
        Some(i) => Some(s[i]),
        None => None,
    }
}

/// Where the first of `s` with the id stands.
pub fn find_agent(s: &Vec<Agent>, id: &AgentId) -> (r: Option<usize>)
    ensures
        match r {
            Some(i) => i < s@.len() && place_of(agent_ids(s@), id@) == Some(i as int),
            None => place_of(agent_ids(s@), id@) is None,
        },
{
    let ghost ids = agent_ids(s@);
    proof {
        lemma_place_of(ids, id@);
    }
    let mut i: usize = 0;
    while i < s.len()
        invariant
            i <= s@.len(),
            ids == agent_ids(s@),
            forall|k: int| 0 <= k < i ==> #[trigger] ids[k] != id@,
        decreases s@.len() - i,
    {
        if s[i].id.same(id) {
            proof {
                lemma_place_of(ids, id@);
                assert(ids[i as int] == id@);
            }
            return Some(i);
        }
        i += 1;
    }
    None
}

pub open spec fn terminal_ids(s: Seq<TerminalTab>) -> Seq<Seq<char>> {
    Seq::new(s.len(), |i: int| s[i].id@)
}

/// Where the first of `s` with the id stands.
pub fn find_terminal(s: &Vec<TerminalTab>, id: &TerminalId) -> (r: Option<usize>)
    ensures
        match r {
            Some(i) => i < s@.len() && place_of(terminal_ids(s@), id@) == Some(i as int),
            None => place_of(terminal_ids(s@), id@) is None,
        },
{
    let ghost ids = terminal_ids(s@);
    proof {
        lemma_place_of(ids, id@);
    }
    let mut i: usize = 0;
    while i < s.len()
        invariant
            i <= s@.len(),
            ids == terminal_ids(s@),
            forall|k: int| 0 <= k < i ==> #[trigger] ids[k] != id@,
        decreases s@.len() - i,
    {
        if s[i].id.same(id) {
            proof {
                lemma_place_of(ids, id@);
                assert(ids[i as int] == id@);
            }
            return Some(i);
        }
        i += 1;
    }
    None
}

/// The place of `id` in a list of project ids.
pub fn find_project_id(s: &Vec<ProjectId>, id: &ProjectId) -> (r: Option<usize>)
    ensures
        match r {
            Some(i) => i < s@.len() && place_of(views(s@), id@) == Some(i as int),
            None => place_of(views(s@), id@) is None,
        },
{
    let ghost ids = views(s@);
    proof {
        lemma_place_of(ids, id@);
    }
    let mut i: usize = 0;
    while i < s.len()
        invariant
            i <= s@.len(),
            ids == views(s@),
            forall|k: int| 0 <= k < i ==> #[trigger] ids[k] != id@,
        decreases s@.len() - i,
    {
        if s[i].same(id) {
            proof {
                lemma_place_of(ids, id@);
                assert(ids[i as int] == id@);
            }
            return Some(i);
        }
        i += 1;
    }
    None
}

impl App {
    /// Nothing known yet: an empty tree, nothing selected, the launcher up on
    /// its grid with the keys on the cards.
    pub fn new() -> (r: App)
        ensures
            r.tree.projects@.len() == 0,
            r.tree.worktrees@.len() == 0,
            r.tree.agents@.len() == 0,
            r.records.pull_requests@.len() == 0,
            r.records.open_prs@.len() == 0,
            r.records.pane_terminals@.len() == 0,
            r.records.keyed(),
            r.records.just_launched is None,
            r.sel_project is None,
            r.sel_worktree is None,
            r.sel_session is None,
            !r.show_archived,
            r.launcher_active,
            r.launcher_grid,
            r.launcher_tabs@.len() == 0,
            r.launcher_tab_cursor is None,
            !r.launcher_unaimed,
            !r.launcher_pane_hidden,
            r.launcher_terminal is None,
            r.focus == Focus::Sessions,
            r.flash is None,
            r.overlay is None,
            r.screen.hits@.len() == 0,
            r.screen.body_area == (Rect { x: 0, y: 0, width: 0, height: 0 }),
            r.screen.launcher_body == (Rect { x: 0, y: 0, width: 0, height: 0 }),
    {
        App {
            tree: Tree { projects: Vec::new(), worktrees: Vec::new(), agents: Vec::new() },
            facts: Facts {
                now: 0,
                fresh_branch: String::new(),
                issue_branch: String::new(),
                new_worktree: false,
                has_models: true,
                harness_label: String::new(),
                picker_context: None,
                no_follow_up: None,
                tapped: false,
                home: None,
                archived_word: String::new(),
                menu_anchor: (0, 0),
                prompt_key: String::new(),
                terminal_key: String::new(),
            },
            records: Records {
                project_rows: Vec::new(),
                pull_requests: Vec::new(),
                open_prs: Vec::new(),
                last_worktree_for_project: Vec::new(),
                last_session_for_worktree: Vec::new(),
                just_launched: None,
                pane_terminals: Vec::new(),
            },
            screen: Screen {
                pane_side: PaneSide::Bottom,
                pane_rows: None,
                pane_cols: None,
                body_area: Rect::default(),
                launcher_body: Rect::default(),
                hits: Vec::new(),
                hover_crumb: None,
                animations: false,
                sweep_phase: 0,
                focus_tint: true,
            },
            sel_project: None,
            sel_worktree: None,
            sel_session: None,
            show_archived: false,
            launcher_active: true,
            launcher_grid: true,
            launcher_tabs: Vec::new(),
            launcher_tab_cursor: None,
            launcher_unaimed: false,
            launcher_pane_hidden: false,
            launcher_terminal: None,
            focus: Focus::Sessions,
            term_locked: false,
            attached: None,
            flash: None,
            dirty: false,
            overlay: None,
            follow_up: None,
            select_when_seen: false,
        }
    }

    /// The selected project.
    pub open spec fn project_on(self) -> Option<Project> {
        match self.sel_project {
            Some(id) => the_project(self.tree.projects@, id@),
            None => None,
        }
    }

    /// The selected checkout.
    pub open spec fn worktree_on(self) -> Option<Worktree> {
        match self.sel_worktree {
            Some(id) => the_worktree(self.tree.worktrees@, id@),
            None => None,
        }
    }

    /// The selected session.
    pub open spec fn session_on(self) -> Option<Agent> {
        match self.sel_session {
            Some(SessionRef::Agent(id)) => the_agent(self.tree.agents@, id@),
            _ => None,
        }
    }

    /// The selected project, while the tree has it.
    pub fn selected_project(&self) -> (r: Option<&Project>)
        ensures
            r is Some <==> self.project_on() is Some,
            r is Some ==> *r->0 == self.project_on()->0,
            r is Some ==> self.sel_project is Some && r->0.id@ == self.sel_project->0@,
    {
        match &self.sel_project {
            Some(id) => {
                proof {
                    lemma_place_of(project_ids(self.tree.projects@), id@);
                }
                match find_project(&self.tree.projects, id) {
                    Some(i) => Some(&self.tree.projects[i]),
                    None => None,
                }
            },
            None => None,
        }
    }

    /// The selected checkout, while the tree has it.
    pub fn selected_worktree(&self) -> (r: Option<&Worktree>)
        ensures
            r is Some <==> self.worktree_on() is Some,
            r is Some ==> *r->0 == self.worktree_on()->0,
    {
        match &self.sel_worktree {
            Some(id) => match find_worktree(&self.tree.worktrees, id) {
                Some(i) => Some(&self.tree.worktrees[i]),
                None => None,
            },
            None => None,
        }
    }

    /// The selected session, while the tree has it.
    pub fn selected_session(&self) -> (r: Option<&Agent>)
        ensures
            r is Some <==> self.session_on() is Some,
            r is Some ==> *r->0 == self.session_on()->0,
    {
        match &self.sel_session {
            Some(SessionRef::Agent(id)) => match find_agent(&self.tree.agents, id) {
                Some(i) => Some(&self.tree.agents[i]),
                None => None,
            },
            _ => None,
        }
    }

    /// The size the pane was last dragged to along the axis its side splits.
    pub open spec fn wanted(self, side: PaneSide) -> Option<u16> {
        if side == PaneSide::Bottom {
            self.screen.pane_rows
        } else {
            self.screen.pane_cols
        }
    }

    /// How the body is cut: whole while the pane is folded away or no card
    /// wears the cursor, else as the side that fits cuts it.
    pub open spec fn body_parts(self, body: Rect) -> (Rect, Option<Rect>) {
        if self.launcher_pane_hidden || self.launcher_unaimed {
            (body, None)
        } else {
            let side = side_that_fits(body, self.screen.pane_side);
            parts(body, side, self.wanted(side))
        }
    }

    /// The body in two: the cards' part, and the pane's while it is drawn.
    pub fn launcher_split(&self, body: Rect) -> (r: (Rect, Option<Rect>))
        requires
            body.in_range(),
        ensures
            r == self.body_parts(body),
    {
        if self.launcher_pane_hidden || self.launcher_unaimed {
            return (body, None);
        }
        let side = fitted_side(body, self.screen.pane_side);
        let want = if side == PaneSide::Bottom {
            self.screen.pane_rows
        } else {
            self.screen.pane_cols
        };
        proof {
            crate::pane::law_parts_cover_the_body(body, side, want);
        }
        split_at(body, side, want)
    }
}

// ---- what holds of it ----

/// What is selected is what the tree has under the id selected, and nothing
/// where it has none: the project, the checkout and the session alike. A
/// selected terminal is no session of the tree.
pub proof fn law_selection_is_read_off_the_tree(app: App, k: int)
    requires
        distinct_ids(project_ids(app.tree.projects@)),
        distinct_ids(worktree_ids(app.tree.worktrees@)),
        distinct_ids(agent_ids(app.tree.agents@)),
    ensures
        ({
            let (ps, ws, ags) = (app.tree.projects@, app.tree.worktrees@, app.tree.agents@);
            &&& 0 <= k < ps.len() && app.sel_project is Some && app.sel_project->0@ == ps[k].id@
                ==> app.project_on() == Some(ps[k])
            &&& app.project_on() is Some ==> app.sel_project is Some && app.project_on()->0.id@
                == app.sel_project->0@ && ps.contains(app.project_on()->0)
            &&& 0 <= k < ws.len() && app.sel_worktree is Some && app.sel_worktree->0@ == ws[k].id@
                ==> app.worktree_on() == Some(ws[k])
            &&& app.worktree_on() is Some ==> app.sel_worktree is Some && app.worktree_on()->0.id@
                == app.sel_worktree->0@ && ws.contains(app.worktree_on()->0)
            &&& 0 <= k < ags.len() && app.sel_session is Some && app.sel_session->0 is Agent
                && app.sel_session->0->Agent_0@ == ags[k].id@ ==> app.session_on() == Some(ags[k])
            &&& app.session_on() is Some ==> app.sel_session is Some && app.sel_session->0 is Agent
                && app.session_on()->0.id@ == app.sel_session->0->Agent_0@ && ags.contains(
                app.session_on()->0,
            )
        }),
{
    let pids = project_ids(app.tree.projects@);
    let wids = worktree_ids(app.tree.worktrees@);
    let aids = agent_ids(app.tree.agents@);
    if 0 <= k < pids.len() {
        lemma_distinct_place(pids, k);
    }
    if 0 <= k < wids.len() {
        lemma_distinct_place(wids, k);
    }
    if 0 <= k < aids.len() {
        lemma_distinct_place(aids, k);
    }
    if let Some(id) = app.sel_project {
        lemma_place_of(pids, id@);
    }
    if let Some(id) = app.sel_worktree {
        lemma_place_of(wids, id@);
    }
    if let Some(SessionRef::Agent(id)) = app.sel_session {
        lemma_place_of(aids, id@);
    }
}

/// The pane is drawn only with a card to read and the pane not folded away; it
/// stands on the side asked for, where the body has room for it there, and else
/// below the cards, with the rows it was dragged to below them and the columns
/// beside them.
pub proof fn law_pane_is_drawn_for_a_card(app: App, body: Rect)
    requires
        body.in_range(),
    ensures
        ({
            let (view, pane) = app.body_parts(body);
            let room = body.width >= GRID_MIN_W + PANE_MIN_W && body.height >= PANE_MIN_H;
            let side = if room {
                app.screen.pane_side
            } else {
                PaneSide::Bottom
            };
            let beside = side != PaneSide::Bottom;
            let (rows, cols) = (app.screen.pane_rows, app.screen.pane_cols);
            &&& app.launcher_pane_hidden || app.launcher_unaimed ==> view == body && pane is None
            &&& !app.launcher_pane_hidden && !app.launcher_unaimed ==> {
                &&& beside ==> pane is Some && pane->0.height == body.height
                &&& beside && cols is Some && PANE_MIN_W <= cols->0 <= body.width - GRID_MIN_W
                    ==> pane->0.width == cols->0
                &&& !beside ==> (pane is Some <==> body.height >= GRID_MIN_H + PANE_MIN_H)
                &&& !beside && pane is Some ==> pane->0.width == body.width
                &&& !beside && pane is Some && rows is Some && PANE_MIN_H <= rows->0 <= body.height
                    - GRID_MIN_H ==> pane->0.height == rows->0
                &&& side == PaneSide::Right ==> pane->0.x > view.x
                &&& side == PaneSide::Left ==> pane->0.x < view.x
            }
        }),
{
}

} // verus!
