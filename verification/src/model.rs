//! What the launcher reads and writes: the tree of projects, checkouts,
//! sessions and terminals, the launch a prompt box describes, the overlays,
//! and the state of the view itself.

use crate::order::Recency;
use crate::text::same_text;
use vstd::prelude::*;

verus! {

// ---- names ----

/// The id of a session.
#[derive(Debug, PartialEq, Eq)]
pub struct AgentId(pub String);

impl View for AgentId {
    type V = Seq<char>;

    open spec fn view(&self) -> Seq<char> {
        self.0@
    }
}

impl Clone for AgentId {
    fn clone(&self) -> (r: Self)
        ensures
            r == *self,
    {
        AgentId(self.0.clone())
    }
}

impl AgentId {
    /// The two ids name the same thing.
    pub fn same(&self, other: &AgentId) -> (r: bool)
        ensures
            r == (self@ == other@),
    {
        same_text(&self.0, &other.0)
    }
}

/// The id of a project.
#[derive(Debug, PartialEq, Eq)]
pub struct ProjectId(pub String);

impl View for ProjectId {
    type V = Seq<char>;

    open spec fn view(&self) -> Seq<char> {
        self.0@
    }
}

impl Clone for ProjectId {
    fn clone(&self) -> (r: Self)
        ensures
            r == *self,
    {
        ProjectId(self.0.clone())
    }
}

impl ProjectId {
    /// The two ids name the same thing.
    pub fn same(&self, other: &ProjectId) -> (r: bool)
        ensures
            r == (self@ == other@),
    {
        same_text(&self.0, &other.0)
    }
}

/// The id of a checkout.
#[derive(Debug, PartialEq, Eq)]
pub struct WorktreeId(pub String);

impl View for WorktreeId {
    type V = Seq<char>;

    open spec fn view(&self) -> Seq<char> {
        self.0@
    }
}

impl Clone for WorktreeId {
    fn clone(&self) -> (r: Self)
        ensures
            r == *self,
    {
        WorktreeId(self.0.clone())
    }
}

impl WorktreeId {
    /// The two ids name the same thing.
    pub fn same(&self, other: &WorktreeId) -> (r: bool)
        ensures
            r == (self@ == other@),
    {
        same_text(&self.0, &other.0)
    }
}

/// The id of a terminal.
#[derive(Debug, PartialEq, Eq)]
pub struct TerminalId(pub String);

impl View for TerminalId {
    type V = Seq<char>;

    open spec fn view(&self) -> Seq<char> {
        self.0@
    }
}

impl Clone for TerminalId {
    fn clone(&self) -> (r: Self)
        ensures
            r == *self,
    {
        TerminalId(self.0.clone())
    }
}

impl TerminalId {
    /// The two ids name the same thing.
    pub fn same(&self, other: &TerminalId) -> (r: bool)
        ensures
            r == (self@ == other@),
    {
        same_text(&self.0, &other.0)
    }
}

/// The place of `id` in `ids`: the first entry that is it.
pub open spec fn place_of(ids: Seq<Seq<char>>, id: Seq<char>) -> Option<int>
    decreases ids.len(),
{
    if ids.len() == 0 {
        None
    } else if ids[0] == id {
        Some(0)
    } else {
        match place_of(ids.drop_first(), id) {
            Some(i) => Some(i + 1),
            None => None,
        }
    }
}

/// [`place_of`] is the first place that holds the id, and nothing where none
/// does.
pub proof fn lemma_place_of(ids: Seq<Seq<char>>, id: Seq<char>)
    ensures
        match place_of(ids, id) {
            Some(i) => {
                &&& 0 <= i < ids.len()
                &&& ids[i] == id
                &&& forall|k: int| 0 <= k < i ==> ids[k] != id
            },
            None => forall|k: int| 0 <= k < ids.len() ==> ids[k] != id,
        },
    decreases ids.len(),
{
    if ids.len() > 0 && ids[0] != id {
        let rest = ids.drop_first();
        lemma_place_of(rest, id);
        match place_of(rest, id) {
            Some(i) => {
                assert forall|k: int| 0 <= k < i + 1 implies ids[k] != id by {
                    if k > 0 {
                        assert(rest[k - 1] == ids[k]);
                    }
                }
            },
            None => {
                assert forall|k: int| 0 <= k < ids.len() implies ids[k] != id by {
                    if k > 0 {
                        assert(rest[k - 1] == ids[k]);
                    }
                }
            },
        }
    }
}

/// No id occurs twice.
pub open spec fn distinct_ids(ids: Seq<Seq<char>>) -> bool {
    forall|i: int, j: int| 0 <= i < j < ids.len() ==> #[trigger] ids[i] != #[trigger] ids[j]
}

/// What stands at a place of a list of distinct ids is what its id finds.
pub proof fn lemma_distinct_place(ids: Seq<Seq<char>>, i: int)
    requires
        distinct_ids(ids),
        0 <= i < ids.len(),
    ensures
        place_of(ids, ids[i]) == Some(i),
{
    lemma_place_of(ids, ids[i]);
    let at = place_of(ids, ids[i])->0;
    if at < i {
        assert(ids[at] != ids[i]);
    } else if at > i {
        assert(ids[i] != ids[at]);
    }
}

// ---- the tree ----

/// What a session is doing.
#[derive(Debug, Clone, Copy, PartialEq, Eq, Structural)]
pub enum AgentStatus {
    /// Never prompted.
    Fresh,
    /// Mid-turn.
    Running,
    /// Waiting on a human.
    NeedsFeedback,
    /// Its turn is over.
    Finished,
    /// Its process is gone.
    Terminated,
}

impl AgentStatus {
    /// How loud a status is: waiting on a human, then mid-turn, then the rest.
    pub open spec fn loudness(self) -> u8 {
        match self {
            AgentStatus::NeedsFeedback => 2,
            AgentStatus::Running => 1,
            _ => 0,
        }
    }

    /// The rank a status is rolled up by.
    pub fn rank(self) -> (r: u8)
        ensures
            r == self.loudness(),
    {
        match self {
            AgentStatus::NeedsFeedback => 2,
            AgentStatus::Running => 1,
            _ => 0,
        }
    }
}

/// A session.
#[derive(Debug)]
pub struct Agent {
    pub id: AgentId,
    pub worktree_id: WorktreeId,
    pub name: String,
    /// What the harness it runs on is called.
    pub harness: String,
    pub model: Option<String>,
    pub effort: Option<String>,
    pub status: AgentStatus,
    /// Its last finish has not been looked at.
    pub unseen: bool,
    /// Its process is running.
    pub alive: bool,
    /// It runs in a cloud sandbox.
    pub cloud: bool,
    pub archived: bool,
    pub archived_at: i64,
    pub status_changed_at: i64,
    /// A stand-in for a session that is still being created.
    pub pending: bool,
    /// It finished a moment ago.
    pub fresh_done: bool,
    /// What it was asked to do, the newest last.
    pub recent_prompts: Vec<String>,
}

/// A project.
#[derive(Debug)]
pub struct Project {
    pub id: ProjectId,
    pub name: String,
    pub repo_path: String,
    /// Its root checkout is hidden.
    pub root_hidden: bool,
    /// When it was last worked in.
    pub recency: Recency,
}

/// The lines a checkout's uncommitted changes add and remove.
#[derive(Debug, Clone, Copy, PartialEq, Eq, Structural)]
pub struct LineChanges {
    pub added: u64,
    pub removed: u64,
}

/// A checkout.
#[derive(Debug)]
pub struct Worktree {
    pub id: WorktreeId,
    pub project_id: ProjectId,
    pub branch: String,
    /// It is the project's root checkout.
    pub is_main: bool,
    /// A stand-in git is still cutting.
    pub placeholder: bool,
    /// Its run command is running.
    pub running: bool,
    /// When it was last worked in.
    pub recency: Recency,
    /// How many files are changed in it, where that is known.
    pub changes: Option<usize>,
    pub lines: Option<LineChanges>,
    /// Its directory, where the branch does not say it.
    pub dir_label: Option<String>,
    /// The split guard found it mixing changes.
    pub split: bool,
}

/// A terminal open in the checkout the pane is on.
#[derive(Debug)]
pub struct TerminalTab {
    pub id: TerminalId,
    pub name: String,
    pub alive: bool,
    /// The command it was opened to run, where it is not a plain shell.
    pub run_command: Option<String>,
}

/// The projects on this machine, their checkouts and the sessions in them.
#[derive(Debug)]
pub struct Tree {
    pub projects: Vec<Project>,
    pub worktrees: Vec<Worktree>,
    pub agents: Vec<Agent>,
}

/// The state a pull request is in.
#[derive(Debug, Clone, Copy, PartialEq, Eq, Structural)]
pub enum Standing {
    Ready,
    Draft,
    Merged,
    Closed,
}

/// What keeps a pull request from going in.
#[derive(Debug, Clone, Copy, PartialEq, Eq, Structural)]
pub enum Trouble {
    Conflicts,
    Failing,
}

/// A pull request as GitHub lists it.
#[derive(Debug)]
pub struct PullRequest {
    pub number: u64,
    pub title: String,
    pub url: String,
    /// The branch it would merge.
    pub head: String,
    pub standing: Standing,
    pub trouble: Option<Trouble>,
}

/// What the lookup of a checkout's own pull request said.
#[derive(Debug)]
pub struct Lookup {
    pub worktree: WorktreeId,
    /// None where the branch has no pull request.
    pub found: Option<PullRequest>,
}

/// The open pull requests of a project.
#[derive(Debug)]
pub struct OpenPrs {
    pub project: ProjectId,
    pub list: Vec<PullRequest>,
}

/// A session or a terminal.
#[derive(Debug, PartialEq, Eq)]
pub enum SessionRef {
    Agent(AgentId),
    Terminal(TerminalId),
}

impl Clone for SessionRef {
    fn clone(&self) -> (r: Self)
        ensures
            r == *self,
    {
        match self {
            SessionRef::Agent(id) => SessionRef::Agent(id.clone()),
            SessionRef::Terminal(id) => SessionRef::Terminal(id.clone()),
        }
    }
}

/// The checkout a project was last left on.
#[derive(Debug)]
pub struct LastWorktree {
    pub project: ProjectId,
    pub worktree: WorktreeId,
}

/// The session a checkout was last left on.
#[derive(Debug)]
pub struct LastSession {
    pub worktree: WorktreeId,
    pub session: SessionRef,
}

// ---- launches ----

/// Where a launch lands.
#[derive(Debug, PartialEq, Eq)]
pub enum QuickTarget {
    /// A checkout there is.
    Worktree(WorktreeId),
    /// A fresh one, cut on a branch of its own.
    NewWorktree { project: ProjectId, branch: String },
}

impl Clone for QuickTarget {
    fn clone(&self) -> (r: Self)
        ensures
            r == *self,
    {
        match self {
            QuickTarget::Worktree(id) => QuickTarget::Worktree(id.clone()),
            QuickTarget::NewWorktree { project, branch } => QuickTarget::NewWorktree {
                project: project.clone(),
                branch: branch.clone(),
            },
        }
    }
}

/// The issue a launch is for.
#[derive(Debug, PartialEq, Eq)]
pub struct IssueRef {
    pub number: u64,
    pub title: String,
}

impl Clone for IssueRef {
    fn clone(&self) -> (r: Self)
        ensures
            r == *self,
    {
        IssueRef { number: self.number, title: self.title.clone() }
    }
}

/// The pull request a launch is for.
#[derive(Debug, PartialEq, Eq)]
pub struct PrRef {
    pub number: u64,
    pub head: String,
}

impl Clone for PrRef {
    fn clone(&self) -> (r: Self)
        ensures
            r == *self,
    {
        PrRef { number: self.number, head: self.head.clone() }
    }
}

/// What a prompt box would launch.
#[derive(Debug, PartialEq, Eq)]
pub struct QuickLaunch {
    pub target: QuickTarget,
    /// What the harness is called.
    pub kind: String,
    /// The name of a custom harness.
    pub custom: Option<String>,
    pub model: Option<String>,
    pub effort: Option<String>,
    /// In a cloud sandbox.
    pub cloud: bool,
    pub issue: Option<IssueRef>,
    pub pr: Option<PrRef>,
    /// The name of the preset it came from.
    pub preset: Option<String>,
}

impl Clone for QuickLaunch {
    fn clone(&self) -> (r: Self)
        ensures
            r == *self,
    {
        QuickLaunch {
            target: self.target.clone(),
            kind: self.kind.clone(),
            custom: self.custom.clone(),
            model: self.model.clone(),
            effort: self.effort.clone(),
            cloud: self.cloud,
            issue: self.issue.clone(),
            pr: self.pr.clone(),
            preset: self.preset.clone(),
        }
    }
}

impl QuickLaunch {
    /// Enter cuts a fresh worktree first.
    pub open spec fn fresh(self) -> bool {
        self.target is NewWorktree
    }

    /// Whether Enter cuts a fresh worktree first.
    pub fn is_new_worktree(&self) -> (r: bool)
        ensures
            r == self.fresh(),
    {
        match &self.target {
            QuickTarget::NewWorktree { project: _, branch: _ } => true,
            QuickTarget::Worktree(_) => false,
        }
    }
}

/// The box a picker hands back: its launch, its text, and whether there was a
/// box at all.
#[derive(Debug, PartialEq, Eq)]
pub struct QuickReturn {
    pub launch: QuickLaunch,
    pub text: String,
    pub from_box: bool,
}

impl Clone for QuickReturn {
    fn clone(&self) -> (r: Self)
        ensures
            r == *self,
    {
        QuickReturn {
            launch: self.launch.clone(),
            text: self.text.clone(),
            from_box: self.from_box,
        }
    }
}

/// A line of typed text, and where its caret stands.
#[derive(Debug, PartialEq, Eq)]
pub struct TextInput {
    pub text: String,
    pub caret: usize,
}

impl Clone for TextInput {
    fn clone(&self) -> (r: Self)
        ensures
            r == *self,
    {
        TextInput { text: self.text.clone(), caret: self.caret }
    }
}

} // verus!
