//! The LAUNCHER VIEW's model: the rows of its grid, the projects behind its
//! tabs and its dropdown, and where a launch from its box lands.
//!
//! Nothing here is a second copy of the tree: the grid's cursor is the
//! panels' selection, so every verb that reads the selection works on the card
//! under the cursor.

use crate::folders::{folder, folder_text};
use crate::model::{
    distinct_ids, lemma_distinct_place, lemma_place_of, place_of, Agent, AgentId, AgentStatus,
    Project, ProjectId, PullRequest, QuickTarget, Standing, Trouble, Worktree, WorktreeId,
};
use crate::order::{
    in_order_given, is_order, lemma_order_distinct, order_of, ordered, places, Key, Recency,
};
use crate::state::{
    agent_ids, find_agent, find_project, find_worktree, last_worktree_ids, listing_ids, lookup_ids,
    project_ids, the_project, the_worktree, worktree_ids, App,
};
use crate::text::same_text;
use crate::views::opt;
use vstd::prelude::*;

verus! {

// ---- the rows ----

/// What a row says about its pull request: the number and title, and the
/// standing and trouble that color it.
#[derive(Debug, PartialEq, Eq)]
pub struct RowPr {
    pub number: u64,
    pub title: String,
    pub url: String,
    pub standing: Standing,
    pub trouble: Option<Trouble>,
}

impl Clone for RowPr {
    fn clone(&self) -> (r: Self)
        ensures
            r == *self,
    {
        RowPr {
            number: self.number,
            title: self.title.clone(),
            url: self.url.clone(),
            standing: self.standing,
            trouble: self.trouble,
        }
    }
}

impl RowPr {
    /// The word for what the pull request is held up by, else for its state.
    pub open spec fn word(self) -> Seq<char> {
        match self.trouble {
            Some(Trouble::Conflicts) => "conflicts"@,
            Some(Trouble::Failing) => "failing"@,
            None => match self.standing {
                Standing::Ready => "ready"@,
                Standing::Draft => "draft"@,
                Standing::Merged => "merged"@,
                Standing::Closed => "closed"@,
            },
        }
    }

    /// The word the row's badge slot takes: the trouble while there is one
    /// (`conflicts`, `failing`), else the state (`ready`, `draft`,
    /// `merged`, `closed`).
    pub fn badge(&self) -> (r: &'static str)
        ensures
            r@ == self.word(),
    {
        match self.trouble {
            Some(Trouble::Conflicts) => "conflicts",
            Some(Trouble::Failing) => "failing",
            None => match self.standing {
                Standing::Ready => "ready",
                Standing::Draft => "draft",
                Standing::Merged => "merged",
                Standing::Closed => "closed",
            },
        }
    }
}

/// One session in the launcher's list.
#[derive(Debug, Clone)]
pub struct LauncherRow<'a> {
    pub agent: &'a Agent,
    /// The PROJECT's display name.
    pub project: String,
    /// The checkout's branch — what the panels call the worktree.
    pub branch: String,
    /// The checkout is the project's ROOT WORKTREE.
    pub is_main: bool,
    /// The pull request on that branch, when one is known.
    pub pr: Option<RowPr>,
}

pub open spec fn heads(s: Seq<PullRequest>) -> Seq<Seq<char>> {
    Seq::new(s.len(), |i: int| s[i].head@)
}

/// What a row says of a pull request.
pub open spec fn pr_line(pr: PullRequest) -> RowPr {
    RowPr {
        number: pr.number,
        title: pr.title,
        url: pr.url,
        standing: pr.standing,
        trouble: pr.trouble,
    }
}

/// The pull request of the project's open ones on the branch.
pub open spec fn listed_pr(app: App, project: Seq<char>, branch: Seq<char>) -> Option<RowPr> {
    match place_of(listing_ids(app.records.open_prs@), project) {
        None => None,
        Some(j) => {
            let list = app.records.open_prs@[j].list@;
            match place_of(heads(list), branch) {
                None => None,
                Some(k) => Some(pr_line(list[k])),
            }
        },
    }
}

/// The pull request a checkout is on: the one its own lookup found, else the
/// one of the project's open pull requests with the same head branch.
pub open spec fn pr_of(
    app: App,
    worktree: Seq<char>,
    project: Seq<char>,
    branch: Seq<char>,
) -> Option<RowPr> {
    match place_of(lookup_ids(app.records.pull_requests@), worktree) {
        Some(i) => match app.records.pull_requests@[i].found {
            Some(pr) => Some(pr_line(pr)),
            None => listed_pr(app, project, branch),
        },
        None => listed_pr(app, project, branch),
    }
}

/// The row of `agent`, unless the list leaves it out: on the wrong side of
/// `archived`, in no checkout or project the tree has, outside `scope`, or in
/// a root its project hides.
pub open spec fn row_for<'a>(
    app: &'a App,
    agent: &'a Agent,
    scope: Option<Seq<char>>,
    archived: Option<bool>,
) -> Option<LauncherRow<'a>> {
    if archived is Some && agent.archived != archived->0 {
        None
    } else {
        match the_worktree(app.tree.worktrees@, agent.worktree_id@) {
            None => None,
            Some(w) => match the_project(app.tree.projects@, w.project_id@) {
                None => None,
                Some(p) => if scope is Some && scope->0 != p.id@ {
                    None
                } else if w.is_main && p.root_hidden {
                    None
                } else {
                    Some(
                        LauncherRow {
                            agent,
                            project: p.name,
                            branch: w.branch,
                            is_main: w.is_main,
                            pr: pr_of(*app, w.id@, p.id@, w.branch@),
                        },
                    )
                },
            },
        }
    }
}

/// The pull request on the branch of a checkout, its own lookup first.
fn row_pr(app: &App, worktree: &WorktreeId, project: &ProjectId, branch: &str) -> (r: Option<RowPr>)
    ensures
        r == pr_of(*app, worktree@, project@, branch@),
{
    let ghost lids = lookup_ids(app.records.pull_requests@);
    proof {
        lemma_place_of(lids, worktree@);
    }
    let mut i: usize = 0;
    let mut own: bool = true;
    while own && i < app.records.pull_requests.len()
        invariant
            i <= app.records.pull_requests@.len(),
            lids == lookup_ids(app.records.pull_requests@),
            own ==> forall|k: int| 0 <= k < i ==> #[trigger] lids[k] != worktree@,
            !own ==> place_of(lids, worktree@) == Some(i as int) && app.records.pull_requests@[i as int].found
                is None,
        decreases app.records.pull_requests@.len() - i + (if own {
            1int
        } else {
            0int
        }),
    {
        if app.records.pull_requests[i].worktree.same(worktree) {
            proof {
                lemma_place_of(lids, worktree@);
                assert(lids[i as int] == worktree@);
            }
            match &app.records.pull_requests[i].found {
                Some(pr) => {
                    return Some(row_pr_of(pr));
                },
                None => {
                    own = false;
                },
            }
        } else {
            i += 1;
        }
    }
    let ghost oids = listing_ids(app.records.open_prs@);
    proof {
        lemma_place_of(lids, worktree@);
        lemma_place_of(oids, project@);
    }
    let mut j: usize = 0;
    while j < app.records.open_prs.len()
        invariant
            j <= app.records.open_prs@.len(),
            oids == listing_ids(app.records.open_prs@),
            forall|k: int| 0 <= k < j ==> #[trigger] oids[k] != project@,
            pr_of(*app, worktree@, project@, branch@) == listed_pr(*app, project@, branch@),
        decreases app.records.open_prs@.len() - j,
    {
        if app.records.open_prs[j].project.same(project) {
            proof {
                lemma_place_of(oids, project@);
                assert(oids[j as int] == project@);
            }
            return pr_on_branch(&app.records.open_prs[j].list, branch);
        }
        j += 1;
    }
    None
}

fn row_pr_of(pr: &PullRequest) -> (r: RowPr)
    ensures
        r == pr_line(*pr),
{
    RowPr {
        number: pr.number,
        title: pr.title.clone(),
        url: pr.url.clone(),
        standing: pr.standing,
        trouble: pr.trouble,
    }
}

fn pr_on_branch(list: &Vec<PullRequest>, branch: &str) -> (r: Option<RowPr>)
    ensures
        r == match place_of(heads(list@), branch@) {
            None => None::<RowPr>,
            Some(k) => Some(pr_line(list@[k])),
        },
{
    let ghost hs = heads(list@);
    proof {
        lemma_place_of(hs, branch@);
    }
    let mut k: usize = 0;
    while k < list.len()
        invariant
            k <= list@.len(),
            hs == heads(list@),
            forall|m: int| 0 <= m < k ==> #[trigger] hs[m] != branch@,
        decreases list@.len() - k,
    {
        if same_text(&list[k].head, branch) {
            proof {
                lemma_place_of(hs, branch@);
                assert(hs[k as int] == branch@);
            }
            return Some(row_pr_of(&list[k]));
        }
        k += 1;
    }
    None
}

/// `agent`'s row: its project and checkout looked up, or None for one the
/// list leaves out — on the wrong side of `archived`, outside `scope`, in a
/// hidden root. `scope` is the project the grid is showing; None reads the
/// row whatever project it is in. `archived` is which of the two grids is on;
/// None reads the row whether or not it has been archived.
fn row_of<'a>(
    app: &'a App,
    agent: &'a Agent,
    scope: Option<&ProjectId>,
    archived: Option<bool>,
) -> (r: Option<LauncherRow<'a>>)
    ensures
        r == row_for(
            app,
            agent,
            match scope {
                Some(id) => Some(id@),
                None => None,
            },
            archived,
        ),
{
    if let Some(want) = archived {
        if agent.archived != want {
            return None;
        }
    }
    let w: &Worktree = match find_worktree(&app.tree.worktrees, &agent.worktree_id) {
        Some(i) => &app.tree.worktrees[i],
        None => return None,
    };
    let p: &Project = match find_project(&app.tree.projects, &w.project_id) {
        Some(i) => &app.tree.projects[i],
        None => return None,
    };
    if let Some(id) = scope {
        if !id.same(&p.id) {
            return None;
        }
    }
    if w.is_main && p.root_hidden {
        return None;
    }
    Some(
        LauncherRow {
            agent,
            project: p.name.clone(),
            branch: w.branch.clone(),
            is_main: w.is_main,
            pr: row_pr(app, &w.id, &p.id, &w.branch),
        },
    )
}

/// When a session counts as interacted with: now while it is working or
/// blocked, else when its status last changed. The stamp itself breaks ties.
pub open spec fn recency_of(a: Agent, now: i64) -> Recency {
    Recency {
        interacted: match a.status {
            AgentStatus::Running | AgentStatus::NeedsFeedback => now,
            _ => a.status_changed_at,
        },
        stamped: a.status_changed_at,
    }
}

fn agent_recency(a: &Agent, now: i64) -> (r: Recency)
    ensures
        r == recency_of(*a, now),
{
    Recency {
        interacted: match a.status {
            AgentStatus::Running | AgentStatus::NeedsFeedback => now,
            _ => a.status_changed_at,
        },
        stamped: a.status_changed_at,
    }
}

/// The project the grid is on, by its id.
pub open spec fn scope_of(app: App) -> Option<Seq<char>> {
    match app.project_on() {
        Some(p) => Some(p.id@),
        None => None,
    }
}

/// The rows of the first `n` sessions of the tree that the grid lists, in the
/// tree's order.
pub open spec fn listed_rows<'a>(app: &'a App, n: int) -> Seq<LauncherRow<'a>>
    decreases n,
{
    if n <= 0 {
        Seq::empty()
    } else {
        let before = listed_rows(app, n - 1);
        match row_for(app, &app.tree.agents@[n - 1], scope_of(*app), Some(app.show_archived)) {
            Some(row) => before.push(row),
            None => before,
        }
    }
}

/// What a row is ordered by: a session just launched leads, then the most
/// recently touched, then the newest by id.
pub open spec fn row_key(app: App, a: Agent) -> Key {
    Key {
        rank: if app.records.just_launched is Some && app.records.just_launched->0@ == a.id@ {
            1
        } else {
            0
        },
        recency: recency_of(a, app.facts.now),
        id: a.id.0,
    }
}

pub open spec fn row_keys(app: App, rows: Seq<LauncherRow>) -> Seq<Key> {
    Seq::new(rows.len(), |i: int| row_key(app, *rows[i].agent))
}

/// The grid's list: the sessions it lists, in order.
pub open spec fn rows_of<'a>(app: &'a App) -> Seq<LauncherRow<'a>> {
    let all = listed_rows(app, app.tree.agents@.len() as int);
    let order = order_of(row_keys(*app, all));
    Seq::new(order.len(), |i: int| all[order[i]])
}

/// Every session the list shows, most recently touched first: the
/// unarchived AGENTS of the project on screen — or, with the archived view
/// on, its archived ones. Working and blocked sessions count as interacting
/// *now*, so they hold the first row however long the turn has taken. Among
/// those, and among never-run sessions, which all stamp 0, the newest by id
/// comes first, so ties never shuffle between frames. The session this client
/// just launched leads the list outright until its own first turn starts. A
/// session in a ROOT WORKTREE its project hides is left out.
pub fn rows<'a>(app: &'a App) -> (r: Vec<LauncherRow<'a>>)
    ensures
        r@ == rows_of(app),
{
    let scope: Option<&ProjectId> = match app.selected_project() {
        Some(p) => Some(&p.id),
        None => None,
    };
    let mut all: Vec<LauncherRow<'a>> = Vec::new();
    let mut keys: Vec<Key> = Vec::new();
    let mut i: usize = 0;
    while i < app.tree.agents.len()
        invariant
            i <= app.tree.agents@.len(),
            scope_of(*app) == (match scope {
                Some(id) => Some(id@),
                None => None,
            }),
            all@ == listed_rows(app, i as int),
            keys@ == row_keys(*app, all@),
        decreases app.tree.agents@.len() - i,
    {
        let agent: &'a Agent = &app.tree.agents[i];
        let ghost before = all@;
        match row_of(app, agent, scope, Some(app.show_archived)) {
            Some(row) => {
                let lead: bool = match &app.records.just_launched {
                    Some(id) => id.same(&agent.id),
                    None => false,
                };
                let rank: u8 = if lead {
                    1
                } else {
                    0
                };
                keys.push(
                    Key {
                        rank,
                        recency: agent_recency(agent, app.facts.now),
                        id: agent.id.0.clone(),
                    },
                );
                all.push(row);
                assert(keys@ =~= row_keys(*app, all@));
            },
            None => {},
        }
        i += 1;
    }
    let order = ordered(&keys);
    proof {
        lemma_order_distinct(keys@, order@);
        assert(Seq::new(order@.len(), |a: int| all@[order@[a] as int]) =~= rows_of(app));
    }
    in_order_given(all, &order)
}

/// The list's row for session `id`, when it has one — what the pane's header
/// reads for the session it shows, without building the list. Whatever
/// project the session is in, archived or not.
pub fn row<'a>(app: &'a App, id: &AgentId) -> (r: Option<LauncherRow<'a>>)
    ensures
        r == row_named(app, id@),
{
    match find_agent(&app.tree.agents, id) {
        Some(i) => row_of(app, &app.tree.agents[i], None, None),
        None => None,
    }
}

/// The row of the session with the id, whatever list it is on.
pub open spec fn row_named<'a>(app: &'a App, id: Seq<char>) -> Option<LauncherRow<'a>> {
    match place_of(agent_ids(app.tree.agents@), id) {
        Some(i) => row_for(app, &app.tree.agents@[i], None, None),
        None => None,
    }
}

pub open spec fn row_ids(rows: Seq<LauncherRow>) -> Seq<Seq<char>> {
    Seq::new(rows.len(), |i: int| rows[i].agent.id@)
}

/// The row the selected session has in the list.
pub open spec fn cursor_of(app: App, rows: Seq<LauncherRow>) -> Option<int> {
    match app.session_on() {
        Some(a) => place_of(row_ids(rows), a.id@),
        None => None,
    }
}

/// The row of the list with the session's id.
pub fn find_row(rows: &Vec<LauncherRow>, id: &AgentId) -> (r: Option<usize>)
    ensures
        match r {
            Some(i) => i < rows@.len() && place_of(row_ids(rows@), id@) == Some(i as int),
            None => place_of(row_ids(rows@), id@) is None,
        },
{
    let ghost ids = row_ids(rows@);
    proof {
        lemma_place_of(ids, id@);
    }
    let mut i: usize = 0;
    while i < rows.len()
        invariant
            i <= rows@.len(),
            ids == row_ids(rows@),
            forall|k: int| 0 <= k < i ==> #[trigger] ids[k] != id@,
        decreases rows@.len() - i,
    {
        if rows[i].agent.id.same(id) {
            proof {
                lemma_place_of(ids, id@);
                assert(ids[i as int] == id@);
            }
            return Some(i);
        }
        i += 1;
    }
    None
}

/// The row the cursor is on: the selected session, when it is one of the
/// list's. None while the selection rests on a terminal, on a session the
/// list leaves out, or on nothing.
pub fn cursor(app: &App, rows: &Vec<LauncherRow>) -> (r: Option<usize>)
    ensures
        match r {
            Some(i) => i < rows@.len() && cursor_of(*app, rows@) == Some(i as int),
            None => cursor_of(*app, rows@) is None,
        },
{
    match app.selected_session() {
        Some(a) => find_row(rows, &a.id),
        None => None,
    }
}

/// The rows waiting on a human.
pub open spec fn waiting(rows: Seq<LauncherRow>) -> nat {
    rows.filter(|row: LauncherRow| row.agent.status == AgentStatus::NeedsFeedback).len()
}

/// How many of `rows` are waiting on a human — the count the grid's header
/// puts in red.
pub fn needs_you(rows: &Vec<LauncherRow>) -> (r: usize)
    ensures
        r == waiting(rows@),
        r == rows@.filter(
            |row: LauncherRow| row.agent.status == AgentStatus::NeedsFeedback,
        ).len(),
{
    let ghost keep = |row: LauncherRow| row.agent.status == AgentStatus::NeedsFeedback;
    let mut n: usize = 0;
    let mut i: usize = 0;
    assert(rows@.take(0).filter(keep).len() == 0) by {
        reveal(Seq::filter);
    }
    while i < rows.len()
        invariant
            i <= rows@.len(),
            n <= i,
            keep == (|row: LauncherRow| row.agent.status == AgentStatus::NeedsFeedback),
            n == rows@.take(i as int).filter(keep).len(),
        decreases rows@.len() - i,
    {
        proof {
            assert(rows@.take(i + 1) =~= rows@.take(i as int).push(rows@[i as int]));
            rows@.take(i as int).lemma_filter_push(rows@[i as int], keep);
        }
        if rows[i].agent.status == AgentStatus::NeedsFeedback {
            n += 1;
        }
        i += 1;
    }
    assert(rows@.take(i as int) =~= rows@);
    n
}

/// The last thing this session was asked to do — the newest of its recent
/// prompts. None for a session that has none, or whose newest is empty.
pub fn last_prompt(agent: &Agent) -> (r: Option<&str>)
    ensures
        match r {
            Some(t) => t@ == asked(*agent) && t@.len() > 0,
            None => asked(*agent).len() == 0,
        },
        r is Some <==> agent.recent_prompts@.len() > 0 && agent.recent_prompts@.last()@.len() > 0,
        r is Some ==> r->0@ == agent.recent_prompts@.last()@,
{
    let n: usize = agent.recent_prompts.len();
    if n == 0 {
        return None;
    }
    let text: &str = agent.recent_prompts[n - 1].as_str();
    if text.is_empty() {
        None
    } else {
        Some(text)
    }
}

/// The newest prompt of a session; empty where it has none.
pub open spec fn asked(agent: Agent) -> Seq<char> {
    if agent.recent_prompts@.len() == 0 {
        Seq::empty()
    } else {
        agent.recent_prompts@.last()@
    }
}

/// The id of the session on row `index`, if the list has one there.
pub fn agent_at(app: &App, index: usize) -> (r: Option<AgentId>)
    ensures
        r is Some <==> index < rows_of(app).len(),
        r is Some ==> r->0 == rows_of(app)[index as int].agent.id,
{
    let list = rows(app);
    if index < list.len() {
        Some(list[index].agent.id.clone())
    } else {
        None
    }
}

// ---- the projects' sessions ----

/// The checkout is one of the project's, and not a root the project hides.
pub open spec fn shown_checkout(app: App, project: Seq<char>, w: Worktree) -> bool {
    w.project_id@ == project && !(hides_root(app, project) && w.is_main)
}

/// The project hides its root.
pub open spec fn hides_root(app: App, project: Seq<char>) -> bool {
    match the_project(app.tree.projects@, project) {
        Some(p) => p.root_hidden,
        None => false,
    }
}

/// The session is one the project's tab counts: unarchived, in a checkout of
/// the project that is shown.
pub open spec fn counted(app: App, project: Seq<char>, a: Agent) -> bool {
    &&& !a.archived
    &&& exists|j: int|
        0 <= j < app.tree.worktrees@.len() && #[trigger] app.tree.worktrees@[j].id@
            == a.worktree_id@ && shown_checkout(app, project, app.tree.worktrees@[j])
}

/// Those of the first `n` sessions of the tree that the project's tab counts,
/// in the tree's order.
pub open spec fn counted_agents<'a>(app: &'a App, project: Seq<char>, n: int) -> Seq<&'a Agent>
    decreases n,
{
    if n <= 0 {
        Seq::empty()
    } else {
        let before = counted_agents(app, project, n - 1);
        if counted(*app, project, app.tree.agents@[n - 1]) {
            before.push(&app.tree.agents@[n - 1])
        } else {
            before
        }
    }
}

/// What a project's sessions are ordered by: the loudest first, then as the
/// grid orders them.
pub open spec fn session_key(app: App, a: Agent) -> Key {
    Key { rank: a.status.loudness(), recency: recency_of(a, app.facts.now), id: a.id.0 }
}

pub open spec fn session_keys(app: App, s: Seq<&Agent>) -> Seq<Key> {
    Seq::new(s.len(), |i: int| session_key(app, *s[i]))
}

/// The sessions a project's tab and its dropdown row count, in order.
pub open spec fn sessions_of<'a>(app: &'a App, project: Seq<char>) -> Seq<&'a Agent> {
    let all = counted_agents(app, project, app.tree.agents@.len() as int);
    let order = order_of(session_keys(*app, all));
    Seq::new(order.len(), |i: int| all[order[i]])
}

fn in_shown_checkout(app: &App, project: &ProjectId, hide_root: bool, a: &Agent) -> (r: bool)
    requires
        hide_root == hides_root(*app, project@),
    ensures
        r == exists|j: int|
            0 <= j < app.tree.worktrees@.len() && #[trigger] app.tree.worktrees@[j].id@
                == a.worktree_id@ && shown_checkout(*app, project@, app.tree.worktrees@[j]),
{
    let mut j: usize = 0;
    while j < app.tree.worktrees.len()
        invariant
            j <= app.tree.worktrees@.len(),
            hide_root == hides_root(*app, project@),
            forall|k: int|
                0 <= k < j ==> !(#[trigger] app.tree.worktrees@[k].id@ == a.worktree_id@
                    && shown_checkout(*app, project@, app.tree.worktrees@[k])),
        decreases app.tree.worktrees@.len() - j,
    {
        let w = &app.tree.worktrees[j];
        if w.id.same(&a.worktree_id) && w.project_id.same(project) && !(hide_root && w.is_main) {
            return true;
        }
        j += 1;
    }
    false
}

/// A project's sessions as its tab and its dropdown row count them: the
/// unarchived ones in its checkouts, the ones wanting a human first, then the
/// ones most recently interacted with, so the first is the session the grid
/// opens on. A session in a hidden ROOT WORKTREE is left out, as the grid
/// leaves it out.
pub fn project_sessions<'a>(app: &'a App, project: &ProjectId) -> (r: Vec<&'a Agent>)
    ensures
        r@ == sessions_of(app, project@),
{
    let hide_root: bool = match find_project(&app.tree.projects, project) {
        Some(i) => app.tree.projects[i].root_hidden,
        None => false,
    };
    let mut all: Vec<&'a Agent> = Vec::new();
    let mut keys: Vec<Key> = Vec::new();
    let mut i: usize = 0;
    while i < app.tree.agents.len()
        invariant
            i <= app.tree.agents@.len(),
            hide_root == hides_root(*app, project@),
            all@ == counted_agents(app, project@, i as int),
            keys@ == session_keys(*app, all@),
        decreases app.tree.agents@.len() - i,
    {
        let a: &'a Agent = &app.tree.agents[i];
        if !a.archived && in_shown_checkout(app, project, hide_root, a) {
            keys.push(
                Key {
                    rank: attention(Some(a.status)),
                    recency: agent_recency(a, app.facts.now),
                    id: a.id.0.clone(),
                },
            );
            all.push(a);
            assert(keys@ =~= session_keys(*app, all@));
        }
        i += 1;
    }
    let order = ordered(&keys);
    proof {
        lemma_order_distinct(keys@, order@);
        assert(Seq::new(order@.len(), |a: int| all@[order@[a] as int]) =~= sessions_of(
            app,
            project@,
        ));
    }
    in_order_given(all, &order)
}

// ---- the PROJECT DROPDOWN's list ----

/// One project as the PROJECT DROPDOWN lists it.
#[derive(Debug, Clone)]
pub struct ProjectCard<'a> {
    pub id: ProjectId,
    pub name: String,
    /// Its unarchived sessions, the ones wanting a human first — what the
    /// row's count reads.
    pub sessions: Vec<&'a Agent>,
    /// The loudest status under it; None for a project with no session.
    pub status: Option<AgentStatus>,
    /// When it was last worked in: the order two projects with the same
    /// standing come in.
    pub recency: Recency,
}

/// How far up a card its status lifts it.
pub open spec fn lift(status: Option<AgentStatus>) -> u8 {
    match status {
        Some(s) => s.loudness(),
        None => 0,
    }
}

/// How far up a card its status lifts it: the rollup's own priority, and
/// nothing at all for a card with no session under it.
pub fn attention(status: Option<AgentStatus>) -> (r: u8)
    ensures
        r == lift(status),
{
    match status {
        Some(s) => s.rank(),
        None => 0,
    }
}

/// The loudest status of a list whose loudest comes first.
pub open spec fn rolled_up(sessions: Seq<&Agent>) -> Option<AgentStatus> {
    if sessions.len() == 0 {
        None
    } else {
        Some(sessions[0].status)
    }
}

/// `card` is what the dropdown lists of `p`.
pub open spec fn card_of(app: &App, p: Project, card: ProjectCard) -> bool {
    &&& card.id == p.id
    &&& card.name == p.name
    &&& card.sessions@ == sessions_of(app, p.id@)
    &&& card.status == rolled_up(sessions_of(app, p.id@))
    &&& card.recency == p.recency
}

/// What the dropdown's rows are ordered by: the standing, then when the
/// project was last worked in.
pub open spec fn card_keys(app: &App) -> Seq<Key> {
    Seq::new(
        app.tree.projects@.len(),
        |i: int|
            Key {
                rank: lift(rolled_up(sessions_of(app, app.tree.projects@[i].id@))),
                recency: app.tree.projects@[i].recency,
                id: no_id(),
            },
    )
}

/// An empty id, which tells no two entries apart.
pub open spec fn no_id() -> String {
    choose|s: String| s@ == Seq::<char>::empty()
}

/// Every project on this machine — what the PROJECT DROPDOWN lists: the ones
/// with a session waiting on a human first, then the ones with one running,
/// then the rest most recently worked in first.
pub fn project_cards<'a>(app: &'a App) -> (r: Vec<ProjectCard<'a>>)
    ensures
        r@.len() == app.tree.projects@.len(),
        forall|a: int|
            0 <= a < r@.len() ==> card_of(
                app,
                app.tree.projects@[order_of(card_keys(app))[a]],
                #[trigger] r@[a],
            ),
        is_order(card_keys(app), order_of(card_keys(app))),
        forall|i: int, j: int|
            0 <= i < j < r@.len() ==> louder_then_later(#[trigger] r@[i], #[trigger] r@[j]),
{
    let mut all: Vec<ProjectCard<'a>> = Vec::new();
    let mut keys: Vec<Key> = Vec::new();
    let mut i: usize = 0;
    while i < app.tree.projects.len()
        invariant
            i <= app.tree.projects@.len(),
            all@.len() == i,
            keys@.len() == i,
            forall|k: int| 0 <= k < i ==> card_of(app, app.tree.projects@[k], #[trigger] all@[k]),
            forall|k: int|
                0 <= k < i ==> {
                    let key = #[trigger] keys@[k];
                    &&& key.rank == card_keys(app)[k].rank
                    &&& key.recency == card_keys(app)[k].recency
                    &&& key.id@ == Seq::<char>::empty()
                },
        decreases app.tree.projects@.len() - i,
    {
        let p: &'a Project = &app.tree.projects[i];
        let sessions = project_sessions(app, &p.id);
        let status: Option<AgentStatus> = if sessions.len() == 0 {
            None
        } else {
            Some(sessions[0].status)
        };
        keys.push(Key { rank: attention(status), recency: p.recency, id: String::new() });
        all.push(
            ProjectCard {
                id: p.id.clone(),
                name: p.name.clone(),
                sessions,
                status,
                recency: p.recency,
            },
        );
        i += 1;
    }
    let order = ordered(&keys);
    proof {
        lemma_order_distinct(keys@, order@);
        if keys@.len() > 0 {
            assert(keys@[0].id@ == Seq::<char>::empty());
        }
        lemma_same_order(keys@, card_keys(app), places(order@));
    }
    let r = in_order_given(all, &order);
    proof {
        assert forall|i: int, j: int| 0 <= i < j < r@.len() implies louder_then_later(
            #[trigger] r@[i],
            #[trigger] r@[j],
        ) by {
            let o = order_of(card_keys(app));
            assert(card_of(app, app.tree.projects@[o[i]], r@[i]));
            assert(card_of(app, app.tree.projects@[o[j]], r@[j]));
            assert(crate::order::comes_before(card_keys(app), o[i], o[j]));
        }
    }
    r
}

/// Card `a` may stand before card `b`: a session waiting on a human over one
/// that is running over the rest, and with the same standing the project last
/// worked in first.
pub open spec fn louder_then_later(a: ProjectCard, b: ProjectCard) -> bool {
    let waits = |c: ProjectCard| c.status == Some(AgentStatus::NeedsFeedback);
    let runs = |c: ProjectCard| c.status == Some(AgentStatus::Running);
    &&& waits(b) ==> waits(a)
    &&& runs(b) ==> waits(a) || runs(a)
    &&& (waits(a) == waits(b) && runs(a) == runs(b)) ==> {
        ||| a.recency.interacted > b.recency.interacted
        ||| (a.recency.interacted == b.recency.interacted && a.recency.stamped
            >= b.recency.stamped)
    }
}

/// Two lists whose keys agree come in the same order.
pub(crate) proof fn lemma_same_order(a: Seq<Key>, b: Seq<Key>, order: Seq<int>)
    requires
        a.len() == b.len(),
        is_order(a, order),
        forall|k: int|
            0 <= k < a.len() ==> (#[trigger] a[k]).rank == b[k].rank && a[k].recency == b[k].recency
                && a[k].id@ == b[k].id@,
    ensures
        is_order(b, order),
        order_of(b) == order,
{
    assert forall|x: int, y: int| 0 <= x < y < order.len() implies crate::order::comes_before(
        b,
        #[trigger] order[x],
        #[trigger] order[y],
    ) by {
        assert(crate::order::comes_before(a, order[x], order[y]));
        let (i, j) = (order[x], order[y]);
        assert(a[i].rank == b[i].rank && a[j].rank == b[j].rank);
    }
    crate::order::lemma_order_is(b, order);
}

// ---- the header's PROJECT TABS ----

/// What a PROJECT TAB counts in dots beside its name: that project's
/// sessions, each under its own status. A session at rest counts nowhere.
#[derive(Debug, Clone, Copy, PartialEq, Eq, Structural)]
pub struct Tally {
    /// Waiting on a human: the red dot.
    pub needs_you: usize,
    /// Finished, and the finish still unread: the blue dot.
    pub done: usize,
    /// Mid-turn: the yellow dot.
    pub running: usize,
}

impl Default for Tally {
    fn default() -> (r: Self)
        ensures
            r == (Tally { needs_you: 0, done: 0, running: 0 }),
    {
        Tally { needs_you: 0, done: 0, running: 0 }
    }
}

/// The tally of a list of sessions.
pub open spec fn tally_of(s: Seq<&Agent>) -> Tally {
    Tally {
        needs_you: s.filter(|a: &Agent| a.status == AgentStatus::NeedsFeedback).len() as usize,
        done: s.filter(|a: &Agent| a.status == AgentStatus::Finished && a.unseen).len() as usize,
        running: s.filter(|a: &Agent| a.status == AgentStatus::Running).len() as usize,
    }
}

/// `project`'s tally, over the sessions its grid lists — the unarchived ones,
/// less any in a ROOT WORKTREE it hides — so a tab never counts a session its
/// own grid would not show.
pub fn project_tally(app: &App, project: &ProjectId) -> (r: Tally)
    ensures
        r == tally_of(sessions_of(app, project@)),
        r.needs_you == sessions_of(app, project@).filter(
            |a: &Agent| a.status == AgentStatus::NeedsFeedback,
        ).len(),
        r.done == sessions_of(app, project@).filter(
            |a: &Agent| a.status == AgentStatus::Finished && a.unseen,
        ).len(),
        r.running == sessions_of(app, project@).filter(
            |a: &Agent| a.status == AgentStatus::Running,
        ).len(),
{
    let sessions = project_sessions(app, project);
    let ghost s = sessions@;
    let ghost waits = |a: &Agent| a.status == AgentStatus::NeedsFeedback;
    let ghost unread = |a: &Agent| a.status == AgentStatus::Finished && a.unseen;
    let ghost works = |a: &Agent| a.status == AgentStatus::Running;
    let mut tally = Tally::default();
    let mut i: usize = 0;
    assert(s.take(0).filter(waits).len() == 0 && s.take(0).filter(unread).len() == 0 && s.take(
        0,
    ).filter(works).len() == 0) by {
        reveal(Seq::filter);
    }
    while i < sessions.len()
        invariant
            i <= s.len(),
            s == sessions@,
            waits == (|a: &Agent| a.status == AgentStatus::NeedsFeedback),
            unread == (|a: &Agent| a.status == AgentStatus::Finished && a.unseen),
            works == (|a: &Agent| a.status == AgentStatus::Running),
            tally.needs_you <= i,
            tally.done <= i,
            tally.running <= i,
            tally.needs_you == s.take(i as int).filter(waits).len(),
            tally.done == s.take(i as int).filter(unread).len(),
            tally.running == s.take(i as int).filter(works).len(),
        decreases s.len() - i,
    {
        let a = sessions[i];
        proof {
            assert(s.take(i + 1) =~= s.take(i as int).push(s[i as int]));
            s.take(i as int).lemma_filter_push(s[i as int], waits);
            s.take(i as int).lemma_filter_push(s[i as int], unread);
            s.take(i as int).lemma_filter_push(s[i as int], works);
        }
        match a.status {
            AgentStatus::NeedsFeedback => {
                tally.needs_you = tally.needs_you + 1;
            },
            AgentStatus::Running => {
                tally.running = tally.running + 1;
            },
            AgentStatus::Finished => {
                if a.unseen {
                    tally.done = tally.done + 1;
                }
            },
            _ => {},
        }
        i += 1;
    }
    assert(s.take(i as int) =~= s);
    tally
}

/// One tab in the header's PROJECT TABS.
#[derive(Debug, Clone, PartialEq, Eq)]
pub struct ProjectTab {
    pub id: ProjectId,
    pub name: String,
    pub tally: Tally,
    /// The project the grid is on — the selected one.
    pub active: bool,
    /// The header's own cursor is on it.
    pub focused: bool,
}

/// The project stands in the folder of the project the grid is on.
pub open spec fn in_folder(app: App, p: Project) -> bool {
    app.project_on() is Some ==> folder(p.repo_path@) == folder(app.project_on()->0.repo_path@)
}

/// The tab of project `p`, under the id it was opened by.
pub open spec fn tab_of(app: &App, id: ProjectId, p: Project) -> ProjectTab {
    ProjectTab {
        id,
        name: p.name,
        tally: tally_of(sessions_of(app, id@)),
        active: scope_of(*app) == Some(id@),
        focused: opt(app.launcher_tab_cursor) == Some(id@),
    }
}

/// The tabs of the first `n` projects opened, those the tree still has and
/// the folder holds.
pub open spec fn tabs_of_first(app: &App, n: int) -> Seq<ProjectTab>
    decreases n,
{
    if n <= 0 {
        Seq::empty()
    } else {
        let before = tabs_of_first(app, n - 1);
        let id = app.launcher_tabs@[n - 1];
        match the_project(app.tree.projects@, id@) {
            Some(p) => if in_folder(*app, p) {
                before.push(tab_of(app, id, p))
            } else {
                before
            },
            None => before,
        }
    }
}

/// The tabs across the header.
pub open spec fn tabs_of(app: &App) -> Seq<ProjectTab> {
    tabs_of_first(app, app.launcher_tabs@.len() as int)
}

/// The PROJECT TABS across the header: every project opened since it was last
/// closed, the most recently opened at the far left, of the FOLDER the grid's
/// project sits in. A project gone from the tree drops out here.
pub fn project_tabs(app: &App) -> (r: Vec<ProjectTab>)
    ensures
        r@ == tabs_of(app),
{
    let mut out: Vec<ProjectTab> = Vec::new();
    let mut i: usize = 0;
    while i < app.launcher_tabs.len()
        invariant
            i <= app.launcher_tabs@.len(),
            out@ == tabs_of_first(app, i as int),
        decreases app.launcher_tabs@.len() - i,
    {
        let id = &app.launcher_tabs[i];
        match find_project(&app.tree.projects, id) {
            Some(k) => {
                let p = &app.tree.projects[k];
                let (here, active) = match app.selected_project() {
                    Some(on) => (
                        same_text(&folder_text(&p.repo_path), &folder_text(&on.repo_path)),
                        on.id.same(id),
                    ),
                    None => (true, false),
                };
                let focused: bool = match &app.launcher_tab_cursor {
                    Some(c) => c.same(id),
                    None => false,
                };
                if here {
                    out.push(
                        ProjectTab {
                            id: id.clone(),
                            name: p.name.clone(),
                            tally: project_tally(app, id),
                            active,
                            focused,
                        },
                    );
                }
            },
            None => {},
        }
        i += 1;
    }
    out
}

// ---- where launches land ----

/// The checkout is the project's, not a hidden root and not a stand-in.
pub open spec fn usable(app: App, project: Seq<char>, id: Seq<char>) -> bool {
    &&& exists|j: int|
        0 <= j < app.tree.worktrees@.len() && #[trigger] app.tree.worktrees@[j].id@ == id
            && shown_checkout(app, project, app.tree.worktrees@[j])
    &&& !stand_in(app, id)
}

/// Git is still cutting the checkout.
pub open spec fn stand_in(app: App, id: Seq<char>) -> bool {
    match the_worktree(app.tree.worktrees@, id) {
        Some(w) => w.placeholder,
        None => false,
    }
}

/// The first usable checkout of the project from place `from` on that is, or
/// is not, its root.
pub open spec fn first_usable(app: App, project: Seq<char>, main: bool, from: int) -> Option<
    Seq<char>,
>
    decreases app.tree.worktrees@.len() - from,
{
    if from < 0 || from >= app.tree.worktrees@.len() {
        None
    } else {
        let w = app.tree.worktrees@[from];
        if w.project_id@ == project && w.is_main == main && usable(app, project, w.id@) {
            Some(w.id@)
        } else {
            first_usable(app, project, main, from + 1)
        }
    }
}

/// The checkout the project was last left on.
pub open spec fn remembered(app: App, project: Seq<char>) -> Option<WorktreeId> {
    match place_of(last_worktree_ids(app.records.last_worktree_for_project@), project) {
        Some(i) => Some(app.records.last_worktree_for_project@[i].worktree),
        None => None,
    }
}

/// The checkout a project's menu acts on: the selected one while the cursor is
/// in the project, else the one it was last left on, else its root, else any —
/// the first of them that is usable.
pub open spec fn checkout_of(app: App, project: Seq<char>) -> Option<Seq<char>> {
    if the_project(app.tree.projects@, project) is None {
        None
    } else if scope_of(app) == Some(project) && app.worktree_on() is Some && usable(
        app,
        project,
        app.worktree_on()->0.id@,
    ) {
        Some(app.worktree_on()->0.id@)
    } else if remembered(app, project) is Some && usable(
        app,
        project,
        remembered(app, project)->0@,
    ) {
        Some(remembered(app, project)->0@)
    } else {
        match first_usable(app, project, true, 0) {
            Some(id) => Some(id),
            None => first_usable(app, project, false, 0),
        }
    }
}

fn is_usable(app: &App, project: &ProjectId, hide_root: bool, id: &WorktreeId) -> (r: bool)
    requires
        hide_root == hides_root(*app, project@),
    ensures
        r == usable(*app, project@, id@),
{
    let standing: bool = match find_worktree(&app.tree.worktrees, id) {
        Some(i) => app.tree.worktrees[i].placeholder,
        None => false,
    };
    if standing {
        return false;
    }
    let mut j: usize = 0;
    while j < app.tree.worktrees.len()
        invariant
            j <= app.tree.worktrees@.len(),
            hide_root == hides_root(*app, project@),
            !stand_in(*app, id@),
            forall|k: int|
                0 <= k < j ==> !(#[trigger] app.tree.worktrees@[k].id@ == id@ && shown_checkout(
                    *app,
                    project@,
                    app.tree.worktrees@[k],
                )),
        decreases app.tree.worktrees@.len() - j,
    {
        let w = &app.tree.worktrees[j];
        if w.id.same(id) && w.project_id.same(project) && !(hide_root && w.is_main) {
            return true;
        }
        j += 1;
    }
    false
}

fn first_usable_from(app: &App, project: &ProjectId, hide_root: bool, main: bool) -> (r: Option<
    WorktreeId,
>)
    requires
        hide_root == hides_root(*app, project@),
    ensures
        opt(r) == first_usable(*app, project@, main, 0),
{
    let mut j: usize = 0;
    while j < app.tree.worktrees.len()
        invariant
            j <= app.tree.worktrees@.len(),
            hide_root == hides_root(*app, project@),
            first_usable(*app, project@, main, 0) == first_usable(*app, project@, main, j as int),
        decreases app.tree.worktrees@.len() - j,
    {
        let w = &app.tree.worktrees[j];
        if w.project_id.same(project) && w.is_main == main && is_usable(
            app,
            project,
            hide_root,
            &w.id,
        ) {
            return Some(w.id.clone());
        }
        j += 1;
    }
    None
}

pub(crate) fn remembered_worktree(app: &App, project: &ProjectId) -> (r: Option<WorktreeId>)
    ensures
        r == remembered(*app, project@),
{
    let ghost ids = last_worktree_ids(app.records.last_worktree_for_project@);
    proof {
        lemma_place_of(ids, project@);
    }
    let mut i: usize = 0;
    while i < app.records.last_worktree_for_project.len()
        invariant
            i <= app.records.last_worktree_for_project@.len(),
            ids == last_worktree_ids(app.records.last_worktree_for_project@),
            forall|k: int| 0 <= k < i ==> #[trigger] ids[k] != project@,
        decreases app.records.last_worktree_for_project@.len() - i,
    {
        if app.records.last_worktree_for_project[i].project.same(project) {
            proof {
                lemma_place_of(ids, project@);
                assert(ids[i as int] == project@);
            }
            return Some(app.records.last_worktree_for_project[i].worktree.clone());
        }
        i += 1;
    }
    None
}

/// The checkout `project`'s own menu runs and opens — the one the panels
/// would restore for it (the selected worktree when the cursor is in that
/// project, else the one it was last left on), else its ROOT WORKTREE, else
/// any checkout it has. Never a stand-in git is still cutting, nor a root the
/// project hides. None for a project with no usable checkout.
pub fn checkout_for(app: &App, project: &ProjectId) -> (r: Option<WorktreeId>)
    ensures
        opt(r) == checkout_of(*app, project@),
{
    let hide_root: bool = match find_project(&app.tree.projects, project) {
        Some(i) => app.tree.projects[i].root_hidden,
        None => return None,
    };
    let here: bool = match app.selected_project() {
        Some(p) => p.id.same(project),
        None => false,
    };
    if here {
        if let Some(w) = app.selected_worktree() {
            if is_usable(app, project, hide_root, &w.id) {
                return Some(w.id.clone());
            }
        }
    }
    if let Some(id) = remembered_worktree(app, project) {
        if is_usable(app, project, hide_root, &id) {
            return Some(id);
        }
    }
    match first_usable_from(app, project, hide_root, true) {
        Some(id) => Some(id),
        None => first_usable_from(app, project, hide_root, false),
    }
}

/// The project's root checkout that a launch can land in, from place `from`
/// on.
pub open spec fn root_from(app: App, project: Seq<char>, from: int) -> Option<WorktreeId>
    decreases app.tree.worktrees@.len() - from,
{
    if from < 0 || from >= app.tree.worktrees@.len() {
        None
    } else {
        let w = app.tree.worktrees@[from];
        if w.project_id@ == project && w.is_main && !stand_in(app, w.id@) {
            Some(w.id)
        } else {
            root_from(app, project, from + 1)
        }
    }
}

/// The checkout the project's root branch lives in, unless the project is
/// gone or hides it.
pub open spec fn root_of(app: App, project: Seq<char>) -> Option<WorktreeId> {
    if the_project(app.tree.projects@, project) is None || hides_root(app, project) {
        None
    } else {
        root_from(app, project, 0)
    }
}

/// `project`'s ROOT WORKTREE — the checkout its ROOT BRANCH lives in, which is
/// where a launch from the box lands unless it cuts a fresh worktree
/// ([`target_for`]). None for a project that hides its root, whose root git is
/// still cutting, or that has no root checkout of its own.
pub fn root_checkout(app: &App, project: &ProjectId) -> (r: Option<WorktreeId>)
    ensures
        r == root_of(*app, project@),
{
    match find_project(&app.tree.projects, project) {
        Some(i) => {
            if app.tree.projects[i].root_hidden {
                return None;
            }
        },
        None => return None,
    }
    let mut j: usize = 0;
    while j < app.tree.worktrees.len()
        invariant
            j <= app.tree.worktrees@.len(),
            root_of(*app, project@) == root_from(*app, project@, j as int),
        decreases app.tree.worktrees@.len() - j,
    {
        let w = &app.tree.worktrees[j];
        let standing: bool = match find_worktree(&app.tree.worktrees, &w.id) {
            Some(i) => app.tree.worktrees[i].placeholder,
            None => false,
        };
        if w.project_id.same(project) && w.is_main && !standing {
            return Some(w.id.clone());
        }
        j += 1;
    }
    None
}

/// Where a launch for the project lands.
pub open spec fn target_of(app: App, project: ProjectId, new_worktree: bool) -> QuickTarget {
    if !new_worktree && root_of(app, project@) is Some {
        QuickTarget::Worktree(root_of(app, project@)->0)
    } else {
        QuickTarget::NewWorktree { project, branch: app.facts.fresh_branch }
    }
}

/// Where a launch from the box lands for `project`: a fresh worktree off the
/// project's default base (`new_worktree`), or the project's ROOT BRANCH
/// ([`root_checkout`]). Never the checkout of the card under the cursor. A
/// project with no usable root — hidden, or still being cut — gets a fresh
/// worktree either way.
pub fn target_for(app: &App, project: &ProjectId, new_worktree: bool) -> (r: QuickTarget)
    ensures
        r == target_of(*app, *project, new_worktree),
{
    if !new_worktree {
        if let Some(worktree) = root_checkout(app, project) {
            return QuickTarget::Worktree(worktree);
        }
    }
    QuickTarget::NewWorktree {
        project: project.clone(),
        branch: app.facts.fresh_branch.clone(),
    }
}

/// The project a launch target is in.
pub open spec fn aimed_project(app: App, target: QuickTarget) -> Option<ProjectId> {
    match target {
        QuickTarget::NewWorktree { project, branch: _ } => Some(project),
        QuickTarget::Worktree(id) => match the_worktree(app.tree.worktrees@, id@) {
            Some(w) => Some(w.project_id),
            None => None,
        },
    }
}

/// The PROJECT a launch target is in.
pub fn project_of(app: &App, target: &QuickTarget) -> (r: Option<ProjectId>)
    ensures
        r == aimed_project(*app, *target),
        target is NewWorktree ==> r == Some(target->project),
        target is Worktree ==> {
            let w = the_worktree(app.tree.worktrees@, target->Worktree_0@);
            &&& r is Some <==> w is Some
            &&& r is Some ==> r->0 == w->0.project_id
        },
{
    match target {
        QuickTarget::NewWorktree { project, branch: _ } => Some(project.clone()),
        QuickTarget::Worktree(id) => match find_worktree(&app.tree.worktrees, id) {
            Some(i) => Some(app.tree.worktrees[i].project_id.clone()),
            None => None,
        },
    }
}

/// The screen shows another project than this one.
pub open spec fn elsewhere(app: App, project: Seq<char>) -> bool {
    app.launcher_active && app.project_on() is Some && app.project_on()->0.id@ != project
}

/// Is a launch into `project` a BACKGROUND LAUNCH — one that lands outside
/// what the screen is showing? Such a launch moves nothing here — not the
/// cursor, not the tabs, not the pane.
pub fn is_background(app: &App, project: &ProjectId) -> (r: bool)
    ensures
        r == elsewhere(*app, project@),
        r <==> app.launcher_active && app.project_on() is Some && app.project_on()->0.id@
            != project@,
{
    app.launcher_active && match app.selected_project() {
        Some(p) => !p.id.same(project),
        None => false,
    }
}

/// The PROJECT's display name, for the box's target row.
pub fn project_name(app: &App, project: &ProjectId) -> (r: Option<String>)
    ensures
        r == name_of(*app, project@),
        r is Some <==> the_project(app.tree.projects@, project@) is Some,
        r is Some ==> r->0@ == the_project(app.tree.projects@, project@)->0.name@,
{
    match find_project(&app.tree.projects, project) {
        Some(i) => Some(app.tree.projects[i].name.clone()),
        None => None,
    }
}

pub open spec fn name_of(app: App, project: Seq<char>) -> Option<String> {
    match the_project(app.tree.projects@, project) {
        Some(p) => Some(p.name),
        None => None,
    }
}

/// One of the four details on the view's box: where the session runs — the
/// project and the checkout in it — what runs there, on which model. Each is
/// a button — a click on one opens the very picker its chord does.
#[derive(Debug, Clone, Copy, PartialEq, Eq, Structural)]
pub enum BoxField {
    /// The PROJECT the launch is aimed at.
    Project,
    /// The checkout in it the launch runs in, which only a click opens.
    Worktree,
    /// The harness that runs there.
    Agent,
    /// That harness's MODEL, and its effort.
    Model,
}

// ---- what holds of it ----

/// The grid's list hangs on the tree, the clock, what is known of pull
/// requests and launches, the project on screen and which of the two lists is
/// asked for; on nothing else of the state.
pub open spec fn same_list(a: App, b: App) -> bool {
    &&& a.tree == b.tree
    &&& a.facts.now == b.facts.now
    &&& a.records == b.records
    &&& a.sel_project == b.sel_project
    &&& a.show_archived == b.show_archived
}

proof fn lemma_listed_same(a: App, b: App, n: int)
    requires
        same_list(a, b),
        0 <= n <= a.tree.agents@.len(),
    ensures
        listed_rows(&a, n) == listed_rows(&b, n),
    decreases n,
{
    if n > 0 {
        lemma_listed_same(a, b, n - 1);
    }
}

/// Moving the cursor, aiming, folding the pane or walking the header leaves the
/// list as it is.
pub proof fn law_list_ignores_the_cursor(a: App, b: App)
    requires
        same_list(a, b),
    ensures
        rows_of(&a) == rows_of(&b),
{
    let n = a.tree.agents@.len() as int;
    lemma_listed_same(a, b, n);
    let all = listed_rows(&a, n);
    assert(row_keys(a, all) =~= row_keys(b, all));
}

proof fn lemma_listed_from(app: App, n: int, i: int)
    requires
        0 <= n <= app.tree.agents@.len(),
        0 <= i < listed_rows(&app, n).len(),
    ensures
        exists|k: int|
            0 <= k < n && row_for(
                &app,
                #[trigger] &app.tree.agents@[k],
                scope_of(app),
                Some(app.show_archived),
            ) == Some(listed_rows(&app, n)[i]),
    decreases n,
{
    let before = listed_rows(&app, n - 1);
    if i < before.len() {
        lemma_listed_from(app, n - 1, i);
        assert(listed_rows(&app, n)[i] == before[i]);
    } else {
        let k = n - 1;
        assert(row_for(&app, &app.tree.agents@[k], scope_of(app), Some(app.show_archived)) == Some(
            listed_rows(&app, n)[i],
        ));
    }
}

proof fn lemma_listed_has(app: App, n: int, k: int)
    requires
        0 <= k < n <= app.tree.agents@.len(),
        row_for(&app, &app.tree.agents@[k], scope_of(app), Some(app.show_archived)) is Some,
    ensures
        listed_rows(&app, n).contains(
            row_for(&app, &app.tree.agents@[k], scope_of(app), Some(app.show_archived))->0,
        ),
    decreases n,
{
    let row = row_for(&app, &app.tree.agents@[k], scope_of(app), Some(app.show_archived))->0;
    if k < n - 1 {
        lemma_listed_has(app, n - 1, k);
        let before = listed_rows(&app, n - 1);
        let i = choose|i: int| 0 <= i < before.len() && before[i] == row;
        assert(listed_rows(&app, n)[i] == row);
    } else {
        assert(listed_rows(&app, n).last() == row);
    }
}

/// Every card of the grid is a session of the project on screen, on the side of
/// the archive the grid shows, and in no root its project hides.
pub proof fn law_cards_are_the_projects_sessions(app: App, i: int)
    requires
        0 <= i < rows_of(&app).len(),
    ensures
        ({
            let a = *rows_of(&app)[i].agent;
            &&& a.archived == app.show_archived
            &&& exists|k: int|
                0 <= k < app.tree.agents@.len() && a == #[trigger] app.tree.agents@[k]
            &&& ({
                let w = the_worktree(app.tree.worktrees@, a.worktree_id@);
                &&& w is Some
                &&& ({
                    let p = the_project(app.tree.projects@, w->0.project_id@);
                    &&& p is Some
                    &&& scope_of(app) is Some ==> p->0.id@ == scope_of(app)->0
                    &&& !(w->0.is_main && p->0.root_hidden)
                })
            })
        }),
{
    let n = app.tree.agents@.len() as int;
    let all = listed_rows(&app, n);
    let keys = row_keys(app, all);
    crate::order::law_order_sorts(keys);
    let at = order_of(keys)[i];
    lemma_listed_from(app, n, at);
    let k = choose|k: int|
        0 <= k < n && row_for(
            &app,
            #[trigger] &app.tree.agents@[k],
            scope_of(app),
            Some(app.show_archived),
        ) == Some(all[at]);
    assert(*rows_of(&app)[i].agent == app.tree.agents@[k]);
}

/// Every session the grid is owed is one of its cards.
pub proof fn law_no_session_goes_missing(app: App, k: int)
    requires
        0 <= k < app.tree.agents@.len(),
        row_for(&app, &app.tree.agents@[k], scope_of(app), Some(app.show_archived)) is Some,
    ensures
        exists|i: int|
            0 <= i < rows_of(&app).len() && *(#[trigger] rows_of(&app)[i]).agent
                == app.tree.agents@[k],
{
    let n = app.tree.agents@.len() as int;
    let all = listed_rows(&app, n);
    let keys = row_keys(app, all);
    lemma_listed_has(app, n, k);
    let row = row_for(&app, &app.tree.agents@[k], scope_of(app), Some(app.show_archived))->0;
    let j = choose|j: int| 0 <= j < all.len() && all[j] == row;
    crate::order::law_order_sorts(keys);
    let order = order_of(keys);
    assert(order.contains(j));
    let i = choose|i: int| 0 <= i < order.len() && order[i] == j;
    assert(*rows_of(&app)[i].agent == app.tree.agents@[k]);
}

/// The grid holds as many cards as it is owed.
pub proof fn law_grid_has_a_card_each(app: App)
    ensures
        rows_of(&app).len() == listed_rows(&app, app.tree.agents@.len() as int).len(),
{
    let all = listed_rows(&app, app.tree.agents@.len() as int);
    crate::order::law_order_sorts(row_keys(app, all));
}

/// A session just launched leads the grid: no card of another session stands
/// before its own.
pub proof fn law_just_launched_leads(app: App, i: int, j: int)
    requires
        app.records.just_launched is Some,
        0 <= i < rows_of(&app).len(),
        0 <= j < rows_of(&app).len(),
        rows_of(&app)[j].agent.id@ == app.records.just_launched->0@,
        rows_of(&app)[i].agent.id@ != app.records.just_launched->0@,
    ensures
        j < i,
{
    let all = listed_rows(&app, app.tree.agents@.len() as int);
    let keys = row_keys(app, all);
    crate::order::law_order_sorts(keys);
    let order = order_of(keys);
    if i < j {
        assert(crate::order::comes_before(keys, order[i], order[j]));
    }
}

/// Among the sessions that were not just launched, one that is working or
/// blocked stands before every one at rest that last moved before now.
pub proof fn law_working_sessions_come_first(app: App, i: int, j: int)
    requires
        app.records.just_launched is None,
        0 <= i < rows_of(&app).len(),
        0 <= j < rows_of(&app).len(),
        rows_of(&app)[j].agent.status == AgentStatus::Running || rows_of(&app)[j].agent.status
            == AgentStatus::NeedsFeedback,
        rows_of(&app)[i].agent.status != AgentStatus::Running,
        rows_of(&app)[i].agent.status != AgentStatus::NeedsFeedback,
        rows_of(&app)[i].agent.status_changed_at < app.facts.now,
    ensures
        j < i,
{
    let all = listed_rows(&app, app.tree.agents@.len() as int);
    let keys = row_keys(app, all);
    crate::order::law_order_sorts(keys);
    let order = order_of(keys);
    if i < j {
        assert(crate::order::comes_before(keys, order[i], order[j]));
    }
}

/// A tab counts exactly the sessions its own grid would show: a session is
/// counted for the project on screen when, and only when, the live grid has a
/// row for it.
pub proof fn law_tab_counts_what_the_grid_shows(app: App, a: Agent)
    requires
        distinct_ids(worktree_ids(app.tree.worktrees@)),
        app.project_on() is Some,
    ensures
        counted(app, app.project_on()->0.id@, a) <==> row_for(
            &app,
            &a,
            scope_of(app),
            Some(false),
        ) is Some,
{
    let project = app.project_on()->0;
    let pids = project_ids(app.tree.projects@);
    let wids = worktree_ids(app.tree.worktrees@);
    lemma_place_of(pids, app.sel_project->0@);
    lemma_place_of(pids, project.id@);
    let pi = place_of(pids, app.sel_project->0@)->0;
    assert(pids[pi] == project.id@);
    assert(the_project(app.tree.projects@, project.id@) == Some(project));
    lemma_place_of(wids, a.worktree_id@);
    if counted(app, project.id@, a) {
        let j = choose|j: int|
            0 <= j < app.tree.worktrees@.len() && #[trigger] app.tree.worktrees@[j].id@
                == a.worktree_id@ && shown_checkout(app, project.id@, app.tree.worktrees@[j]);
        assert(wids[j] == a.worktree_id@);
        lemma_distinct_place(wids, j);
    }
    if row_for(&app, &a, scope_of(app), Some(false)) is Some {
        let w = the_worktree(app.tree.worktrees@, a.worktree_id@)->0;
        let j = place_of(wids, a.worktree_id@)->0;
        lemma_place_of(pids, w.project_id@);
        let p = the_project(app.tree.projects@, w.project_id@)->0;
        let k = place_of(pids, w.project_id@)->0;
        assert(pids[k] == w.project_id@ && p.id@ == w.project_id@);
        assert(app.tree.worktrees@[j].id@ == a.worktree_id@);
        assert(shown_checkout(app, project.id@, app.tree.worktrees@[j]));
    }
}

proof fn lemma_first_usable(app: App, project: Seq<char>, main: bool, from: int)
    ensures
        first_usable(app, project, main, from) is Some ==> usable(
            app,
            project,
            first_usable(app, project, main, from)->0,
        ),
    decreases app.tree.worktrees@.len() - from,
{
    if 0 <= from < app.tree.worktrees@.len() {
        lemma_first_usable(app, project, main, from + 1);
    }
}

/// The checkout a project's menu acts on is the project's own, never a stand-in
/// git is still cutting, and never a root the project hides.
pub proof fn law_menu_checkout_is_usable(app: App, project: Seq<char>)
    ensures
        checkout_of(app, project) is Some ==> usable(app, project, checkout_of(app, project)->0),
{
    lemma_first_usable(app, project, true, 0);
    lemma_first_usable(app, project, false, 0);
}

proof fn lemma_root_from(app: App, project: Seq<char>, from: int)
    ensures
        root_from(app, project, from) is Some ==> exists|j: int|
            0 <= j < app.tree.worktrees@.len() && (#[trigger] app.tree.worktrees@[j]).id
                == root_from(app, project, from)->0 && app.tree.worktrees@[j].project_id@
                == project && app.tree.worktrees@[j].is_main && !stand_in(
                app,
                app.tree.worktrees@[j].id@,
            ),
    decreases app.tree.worktrees@.len() - from,
{
    if 0 <= from < app.tree.worktrees@.len() {
        lemma_root_from(app, project, from + 1);
        let w = app.tree.worktrees@[from];
        if w.project_id@ == project && w.is_main && !stand_in(app, w.id@) {
            assert(app.tree.worktrees@[from].id == root_from(app, project, from)->0);
        }
    }
}

/// A launch lands in the project it is aimed at — on a fresh worktree, or on
/// its root where that is shown and not still being cut.
pub proof fn law_launch_lands_in_its_project(app: App, project: ProjectId, new_worktree: bool)
    requires
        distinct_ids(worktree_ids(app.tree.worktrees@)),
    ensures
        ({
            let target = target_of(app, project, new_worktree);
            &&& aimed_project(app, target) is Some
            &&& aimed_project(app, target)->0@ == project@
            &&& new_worktree ==> target is NewWorktree
            &&& hides_root(app, project@) ==> target is NewWorktree
            &&& target is Worktree ==> !stand_in(app, target->Worktree_0@)
        }),
{
    let target = target_of(app, project, new_worktree);
    if target is Worktree {
        lemma_root_from(app, project@, 0);
        let id = target->Worktree_0;
        let j = choose|j: int|
            0 <= j < app.tree.worktrees@.len() && (#[trigger] app.tree.worktrees@[j]).id == id
                && app.tree.worktrees@[j].project_id@ == project@
                && app.tree.worktrees@[j].is_main && !stand_in(app, app.tree.worktrees@[j].id@);
        let wids = worktree_ids(app.tree.worktrees@);
        assert(wids[j] == id@);
        lemma_distinct_place(wids, j);
    }
}

/// Where a launch lands does not hang on the card under the cursor: two states
/// that differ in their selection alone launch to the same place.
pub proof fn law_launch_ignores_the_card(a: App, b: App, project: ProjectId, new_worktree: bool)
    requires
        a.tree == b.tree,
        a.facts == b.facts,
    ensures
        target_of(a, project, new_worktree) == target_of(b, project, new_worktree),
{
    lemma_root_same(a, b, project@, 0);
}

proof fn lemma_root_same(a: App, b: App, project: Seq<char>, from: int)
    requires
        a.tree == b.tree,
    ensures
        root_from(a, project, from) == root_from(b, project, from),
    decreases a.tree.worktrees@.len() - from,
{
    if 0 <= from < a.tree.worktrees@.len() {
        lemma_root_same(a, b, project, from + 1);
    }
}

/// In the dropdown a project with a session waiting on a human stands before
/// every project with none, and one with a session running before every project
/// with neither.
pub proof fn law_dropdown_puts_the_loudest_first(app: App, i: int, j: int)
    requires
        0 <= i < app.tree.projects@.len(),
        0 <= j < app.tree.projects@.len(),
        ({
            let order = order_of(card_keys(&app));
            card_keys(&app)[order[j]].rank > card_keys(&app)[order[i]].rank
        }),
    ensures
        j < i,
{
    let keys = card_keys(&app);
    crate::order::law_order_sorts(keys);
    let order = order_of(keys);
    if i < j {
        assert(crate::order::comes_before(keys, order[i], order[j]));
    }
}

proof fn lemma_counted_from(app: App, project: Seq<char>, n: int)
    requires
        0 <= n <= app.tree.agents@.len(),
    ensures
        forall|i: int|
            0 <= i < counted_agents(&app, project, n).len() ==> counted(
                app,
                project,
                *#[trigger] counted_agents(&app, project, n)[i],
            ),
    decreases n,
{
    if n > 0 {
        lemma_counted_from(app, project, n - 1);
        let before = counted_agents(&app, project, n - 1);
        assert forall|i: int| 0 <= i < counted_agents(&app, project, n).len() implies counted(
            app,
            project,
            *#[trigger] counted_agents(&app, project, n)[i],
        ) by {
            if i < before.len() {
                assert(counted_agents(&app, project, n)[i] == before[i]);
            }
        }
    }
}

/// A project's status is its loudest session's: none under it is louder than
/// the first, which is the one its row shows.
pub proof fn law_status_is_the_loudest(app: App, project: Seq<char>, i: int)
    requires
        0 <= i < sessions_of(&app, project).len(),
    ensures
        lift(rolled_up(sessions_of(&app, project))) >= sessions_of(
            &app,
            project,
        )[i].status.loudness(),
        counted(app, project, *sessions_of(&app, project)[i]),
{
    let n = app.tree.agents@.len() as int;
    let all = counted_agents(&app, project, n);
    let keys = session_keys(app, all);
    crate::order::law_order_sorts(keys);
    lemma_counted_from(app, project, n);
    let order = order_of(keys);
    assert(0 <= order[i] < keys.len() && 0 <= order[0] < keys.len());
    if i > 0 {
        assert(crate::order::comes_before(keys, order[0], order[i]));
    }
}

// ---- the grid's order ----

/// The order the cards stand in. A session just launched leads; then the one
/// interacted with last, which is now for one that is working or blocked and
/// when its status last changed for any other; then the later stamp; then the
/// later id.
pub proof fn law_cards_come_in_order(app: App, i: int, j: int)
    requires
        0 <= i < j < rows_of(&app).len(),
    ensures
        ({
            let a = *rows_of(&app)[i].agent;
            let b = *rows_of(&app)[j].agent;
            let leads = |x: Agent|
                app.records.just_launched is Some && app.records.just_launched->0@ == x.id@;
            let moment = |x: Agent|
                if x.status == AgentStatus::Running || x.status == AgentStatus::NeedsFeedback {
                    app.facts.now
                } else {
                    x.status_changed_at
                };
            &&& leads(b) ==> leads(a)
            &&& leads(a) == leads(b) ==> moment(a) >= moment(b)
            &&& leads(a) == leads(b) && moment(a) == moment(b) ==> a.status_changed_at
                >= b.status_changed_at
            &&& leads(a) == leads(b) && moment(a) == moment(b) && a.status_changed_at
                == b.status_changed_at ==> !crate::text::text_lt(a.id@, b.id@)
        }),
{
    let all = listed_rows(&app, app.tree.agents@.len() as int);
    let keys = row_keys(app, all);
    crate::order::law_order_sorts(keys);
    let order = order_of(keys);
    assert(crate::order::comes_before(keys, order[i], order[j]));
    let (a, b) = (keys[order[i]], keys[order[j]]);
    if crate::text::text_lt(a.id@, b.id@) && crate::text::text_lt(b.id@, a.id@) {
        crate::text::lemma_text_lt_transitive(a.id@, b.id@, a.id@);
        crate::text::lemma_text_lt_irreflexive(a.id@);
    }
}

/// Of two sessions at rest, neither just launched, the one whose status changed
/// last stands first, whatever the two statuses are.
pub proof fn law_last_touched_comes_first(app: App, i: int, j: int)
    requires
        0 <= i < rows_of(&app).len(),
        0 <= j < rows_of(&app).len(),
        app.records.just_launched is Some ==> {
            &&& rows_of(&app)[i].agent.id@ != app.records.just_launched->0@
            &&& rows_of(&app)[j].agent.id@ != app.records.just_launched->0@
        },
        rows_of(&app)[i].agent.status != AgentStatus::Running,
        rows_of(&app)[i].agent.status != AgentStatus::NeedsFeedback,
        rows_of(&app)[j].agent.status != AgentStatus::Running,
        rows_of(&app)[j].agent.status != AgentStatus::NeedsFeedback,
        rows_of(&app)[i].agent.status_changed_at > rows_of(&app)[j].agent.status_changed_at,
    ensures
        i < j,
{
    if j < i {
        law_cards_come_in_order(app, j, i);
    }
}

/// A session is one of the grid's cards exactly when the project on screen is
/// the one its checkout is in, it is on the side of the archive the grid shows,
/// and its checkout is no root its project hides.
pub proof fn law_grid_lists_what_it_is_owed(app: App, k: int)
    requires
        0 <= k < app.tree.agents@.len(),
        distinct_ids(agent_ids(app.tree.agents@)),
    ensures
        ({
            let a = app.tree.agents@[k];
            let w = the_worktree(app.tree.worktrees@, a.worktree_id@);
            let p = the_project(app.tree.projects@, w->0.project_id@);
            let owed = a.archived == app.show_archived && w is Some && p is Some && (
            app.project_on() is Some ==> p->0.id@ == app.project_on()->0.id@) && !(w->0.is_main
                && p->0.root_hidden);
            owed <==> exists|i: int|
                0 <= i < rows_of(&app).len() && (#[trigger] rows_of(&app)[i]).agent.id@ == a.id@
        }),
{
    let a = app.tree.agents@[k];
    if row_for(&app, &app.tree.agents@[k], scope_of(app), Some(app.show_archived)) is Some {
        law_no_session_goes_missing(app, k);
        let i = choose|i: int|
            0 <= i < rows_of(&app).len() && *(#[trigger] rows_of(&app)[i]).agent
                == app.tree.agents@[k];
        assert(rows_of(&app)[i].agent.id@ == a.id@);
    }
    if exists|i: int|
        0 <= i < rows_of(&app).len() && (#[trigger] rows_of(&app)[i]).agent.id@ == a.id@ {
        let i = choose|i: int|
            0 <= i < rows_of(&app).len() && (#[trigger] rows_of(&app)[i]).agent.id@ == a.id@;
        law_cards_are_the_projects_sessions(app, i);
        let m = choose|m: int|
            0 <= m < app.tree.agents@.len() && *rows_of(&app)[i].agent
                == #[trigger] app.tree.agents@[m];
        let ids = agent_ids(app.tree.agents@);
        assert(ids[m] == a.id@ && ids[k] == a.id@);
        lemma_distinct_place(ids, m);
        lemma_distinct_place(ids, k);
    }
}

proof fn lemma_listed_once(app: App, n: int)
    requires
        0 <= n <= app.tree.agents@.len(),
        distinct_ids(agent_ids(app.tree.agents@)),
    ensures
        forall|i: int, j: int|
            0 <= i < j < listed_rows(&app, n).len() ==> (#[trigger] listed_rows(
                &app,
                n,
            )[i]).agent.id@ != (#[trigger] listed_rows(&app, n)[j]).agent.id@,
    decreases n,
{
    if n > 0 {
        lemma_listed_once(app, n - 1);
        let before = listed_rows(&app, n - 1);
        let now = listed_rows(&app, n);
        let ids = agent_ids(app.tree.agents@);
        assert forall|i: int, j: int| 0 <= i < j < now.len() implies (
        #[trigger] now[i]).agent.id@ != (#[trigger] now[j]).agent.id@ by {
            assert(now[i] == before[i]);
            if j < before.len() {
                assert(now[j] == before[j]);
            } else {
                lemma_listed_from(app, n - 1, i);
                let k = choose|k: int|
                    0 <= k < n - 1 && row_for(
                        &app,
                        #[trigger] &app.tree.agents@[k],
                        scope_of(app),
                        Some(app.show_archived),
                    ) == Some(before[i]);
                assert(now[i].agent.id@ == ids[k]);
                assert(now[j].agent.id@ == ids[n - 1]);
                assert(ids[k] != ids[n - 1]);
            }
        }
    }
}

/// No session has two cards.
pub proof fn law_no_session_has_two_cards(app: App, i: int, j: int)
    requires
        distinct_ids(agent_ids(app.tree.agents@)),
        0 <= i < j < rows_of(&app).len(),
    ensures
        rows_of(&app)[i].agent.id@ != rows_of(&app)[j].agent.id@,
{
    let all = listed_rows(&app, app.tree.agents@.len() as int);
    let keys = row_keys(app, all);
    crate::order::law_order_sorts(keys);
    lemma_listed_once(app, app.tree.agents@.len() as int);
    let order = order_of(keys);
    assert(crate::order::comes_before(keys, order[i], order[j]));
    assert(0 <= order[i] < keys.len() && 0 <= order[j] < keys.len());
    if order[i] == order[j] {
        crate::text::lemma_text_lt_irreflexive(keys[order[i]].id@);
    }
    if order[i] < order[j] {
        assert(all[order[i]].agent.id@ != all[order[j]].agent.id@);
    } else {
        assert(all[order[j]].agent.id@ != all[order[i]].agent.id@);
    }
}

/// A card names the project and the branch of the checkout its session runs in,
/// whether that is the project's root, and the pull request of that checkout.
pub proof fn law_card_says_where_it_runs(app: App, i: int)
    requires
        0 <= i < rows_of(&app).len(),
    ensures
        ({
            let row = rows_of(&app)[i];
            let w = the_worktree(app.tree.worktrees@, row.agent.worktree_id@);
            let p = the_project(app.tree.projects@, w->0.project_id@);
            &&& w is Some && p is Some
            &&& row.branch@ == w->0.branch@
            &&& row.is_main == w->0.is_main
            &&& row.project@ == p->0.name@
            &&& row.pr == pr_of(app, w->0.id@, p->0.id@, w->0.branch@)
        }),
{
    let n = app.tree.agents@.len() as int;
    let all = listed_rows(&app, n);
    let keys = row_keys(app, all);
    crate::order::law_order_sorts(keys);
    lemma_listed_from(app, n, order_of(keys)[i]);
}

/// What a row says of `pr`.
pub open spec fn says_of(row: RowPr, pr: PullRequest) -> bool {
    &&& row.number == pr.number
    &&& row.title@ == pr.title@
    &&& row.url@ == pr.url@
    &&& row.standing == pr.standing
    &&& row.trouble == pr.trouble
}

/// The pull request a card names is the one its own checkout's lookup found;
/// where that found none, or there was no lookup, the first of the project's
/// open ones with the checkout's branch for its head; and none where there is
/// no such.
pub proof fn law_card_names_its_pull_request(
    app: App,
    worktree: Seq<char>,
    project: Seq<char>,
    branch: Seq<char>,
)
    requires
        app.records.keyed(),
    ensures
        ({
            let own = app.records.pull_requests@;
            let open = app.records.open_prs@;
            let pr = pr_of(app, worktree, project, branch);
            let found = exists|k: int|
                0 <= k < own.len() && (#[trigger] own[k]).worktree@ == worktree && own[k].found
                    is Some;
            &&& forall|k: int|
                0 <= k < own.len() && (#[trigger] own[k]).worktree@ == worktree && own[k].found
                    is Some ==> pr is Some && says_of(pr->0, own[k].found->0)
            &&& forall|k: int, m: int|
                #![trigger open[k], open[k].list@[m]]
                !found && 0 <= k < open.len() && open[k].project@ == project && 0 <= m
                    < open[k].list@.len() && open[k].list@[m].head@ == branch && (forall|x: int|
                    0 <= x < m ==> (#[trigger] open[k].list@[x]).head@ != branch) ==> pr is Some
                    && says_of(pr->0, open[k].list@[m])
            &&& !found && (forall|k: int, m: int|
                #![trigger open[k], open[k].list@[m]]
                0 <= k < open.len() && open[k].project@ == project && 0 <= m < open[k].list@.len()
                    ==> open[k].list@[m].head@ != branch) ==> pr is None
        }),
{
    let own = app.records.pull_requests@;
    let open = app.records.open_prs@;
    let lids = lookup_ids(own);
    let oids = listing_ids(open);
    let pr = pr_of(app, worktree, project, branch);
    lemma_place_of(lids, worktree);
    lemma_place_of(oids, project);
    assert forall|k: int|
        0 <= k < own.len() && (#[trigger] own[k]).worktree@ == worktree && own[k].found
            is Some implies pr is Some && says_of(pr->0, own[k].found->0) by {
        assert(lids[k] == worktree);
        lemma_distinct_place(lids, k);
    }
    let found = exists|k: int|
        0 <= k < own.len() && (#[trigger] own[k]).worktree@ == worktree && own[k].found is Some;
    if !found {
        if let Some(i) = place_of(lids, worktree) {
            assert(lids[i] == worktree);
            assert(own[i].worktree@ == worktree);
        }
        assert(pr == listed_pr(app, project, branch));
    }
    assert forall|k: int, m: int|
        #![trigger open[k], open[k].list@[m]]
        !found && 0 <= k < open.len() && open[k].project@ == project && 0 <= m
            < open[k].list@.len() && open[k].list@[m].head@ == branch && (forall|x: int|
            0 <= x < m ==> (#[trigger] open[k].list@[x]).head@ != branch) implies pr is Some
        && says_of(pr->0, open[k].list@[m]) by {
        assert(oids[k] == project);
        lemma_distinct_place(oids, k);
        let hs = heads(open[k].list@);
        lemma_place_of(hs, branch);
        assert(hs[m] == branch);
        if let Some(at) = place_of(hs, branch) {
            if at < m {
                assert(open[k].list@[at].head@ != branch);
            }
        }
    }
    if !found && pr is Some {
        let k = place_of(oids, project)->0;
        assert(oids[k] == project);
        let hs = heads(open[k].list@);
        lemma_place_of(hs, branch);
        let m = place_of(hs, branch)->0;
        assert(hs[m] == branch);
        assert(open[k].list@[m].head@ == branch);
    }
}

// ---- a project's sessions, in order ----

/// The order a project's sessions come in: those waiting on a human, then those
/// running, then the rest; and within each as the grid orders them.
pub proof fn law_sessions_come_in_order(app: App, project: Seq<char>, i: int, j: int)
    requires
        0 <= i < j < sessions_of(&app, project).len(),
    ensures
        ({
            let a = *sessions_of(&app, project)[i];
            let b = *sessions_of(&app, project)[j];
            let waits = |x: Agent| x.status == AgentStatus::NeedsFeedback;
            let runs = |x: Agent| x.status == AgentStatus::Running;
            let alike = waits(a) == waits(b) && runs(a) == runs(b);
            &&& waits(b) ==> waits(a)
            &&& runs(b) ==> waits(a) || runs(a)
            &&& alike ==> a.status_changed_at >= b.status_changed_at
            &&& alike && a.status_changed_at == b.status_changed_at ==> !crate::text::text_lt(
                a.id@,
                b.id@,
            )
        }),
{
    let all = counted_agents(&app, project, app.tree.agents@.len() as int);
    let keys = session_keys(app, all);
    crate::order::law_order_sorts(keys);
    let order = order_of(keys);
    assert(0 <= order[i] < keys.len() && 0 <= order[j] < keys.len());
    assert(crate::order::comes_before(keys, order[i], order[j]));
    let (a, b) = (keys[order[i]], keys[order[j]]);
    if crate::text::text_lt(a.id@, b.id@) && crate::text::text_lt(b.id@, a.id@) {
        crate::text::lemma_text_lt_transitive(a.id@, b.id@, a.id@);
        crate::text::lemma_text_lt_irreflexive(a.id@);
    }
}

proof fn lemma_counted_has(app: App, project: Seq<char>, n: int, k: int)
    requires
        0 <= k < n <= app.tree.agents@.len(),
        counted(app, project, app.tree.agents@[k]),
    ensures
        exists|i: int|
            0 <= i < counted_agents(&app, project, n).len() && *(#[trigger] counted_agents(
                &app,
                project,
                n,
            )[i]) == app.tree.agents@[k],
    decreases n,
{
    if k < n - 1 {
        lemma_counted_has(app, project, n - 1, k);
        let before = counted_agents(&app, project, n - 1);
        let i = choose|i: int|
            0 <= i < before.len() && *(#[trigger] before[i]) == app.tree.agents@[k];
        assert(counted_agents(&app, project, n)[i] == before[i]);
    } else {
        assert(*counted_agents(&app, project, n).last() == app.tree.agents@[k]);
    }
}

/// A session is one of a project's exactly when it is not archived and runs in
/// a checkout of that project, less a root the project hides.
pub proof fn law_projects_sessions_are_its_own(app: App, project: Seq<char>, k: int)
    requires
        0 <= k < app.tree.agents@.len(),
    ensures
        ({
            let a = app.tree.agents@[k];
            let p = the_project(app.tree.projects@, project);
            let its = !a.archived && exists|j: int|
                0 <= j < app.tree.worktrees@.len() && #[trigger] app.tree.worktrees@[j].id@
                    == a.worktree_id@ && app.tree.worktrees@[j].project_id@ == project && !(p
                    is Some && p->0.root_hidden && app.tree.worktrees@[j].is_main);
            &&& its ==> exists|i: int|
                0 <= i < sessions_of(&app, project).len() && *(#[trigger] sessions_of(
                    &app,
                    project,
                )[i]) == a
            &&& (exists|i: int|
                0 <= i < sessions_of(&app, project).len() && *(#[trigger] sessions_of(
                    &app,
                    project,
                )[i]) == a) ==> its
        }),
{
    let a = app.tree.agents@[k];
    let n = app.tree.agents@.len() as int;
    let all = counted_agents(&app, project, n);
    let keys = session_keys(app, all);
    crate::order::law_order_sorts(keys);
    let order = order_of(keys);
    if exists|j: int|
        0 <= j < app.tree.worktrees@.len() && #[trigger] app.tree.worktrees@[j].id@
            == a.worktree_id@ && app.tree.worktrees@[j].project_id@ == project && !(the_project(
            app.tree.projects@,
            project,
        ) is Some && the_project(app.tree.projects@, project)->0.root_hidden
            && app.tree.worktrees@[j].is_main) {
        let j = choose|j: int|
            0 <= j < app.tree.worktrees@.len() && #[trigger] app.tree.worktrees@[j].id@
                == a.worktree_id@ && app.tree.worktrees@[j].project_id@ == project && !(
            the_project(app.tree.projects@, project) is Some && the_project(
                app.tree.projects@,
                project,
            )->0.root_hidden && app.tree.worktrees@[j].is_main);
        assert(shown_checkout(app, project, app.tree.worktrees@[j]));
        if !a.archived {
            assert(counted(app, project, a));
            lemma_counted_has(app, project, n, k);
            let m = choose|m: int| 0 <= m < all.len() && *(#[trigger] all[m]) == a;
            assert(order.contains(m));
            let i = choose|i: int| 0 <= i < order.len() && order[i] == m;
            assert(*sessions_of(&app, project)[i] == a);
        }
    }
    if exists|i: int|
        0 <= i < sessions_of(&app, project).len() && *(#[trigger] sessions_of(&app, project)[i])
            == a {
        let i = choose|i: int|
            0 <= i < sessions_of(&app, project).len() && *(#[trigger] sessions_of(
                &app,
                project,
            )[i]) == a;
        law_status_is_the_loudest(app, project, i);
        let j = choose|j: int|
            0 <= j < app.tree.worktrees@.len() && #[trigger] app.tree.worktrees@[j].id@
                == a.worktree_id@ && shown_checkout(app, project, app.tree.worktrees@[j]);
        assert(app.tree.worktrees@[j].project_id@ == project);
    }
}

/// A project's row shows a status one of its sessions has, and none where it
/// has no session: one waiting on a human where any is, else one running where
/// any is.
pub proof fn law_row_shows_the_loudest_status(app: App, project: Seq<char>)
    ensures
        ({
            let s = sessions_of(&app, project);
            let status = rolled_up(s);
            &&& status is None <==> s.len() == 0
            &&& status is Some ==> exists|i: int|
                0 <= i < s.len() && (#[trigger] s[i]).status == status->0
            &&& forall|i: int|
                0 <= i < s.len() && (#[trigger] s[i]).status == AgentStatus::NeedsFeedback
                    ==> status == Some(AgentStatus::NeedsFeedback)
            &&& forall|i: int|
                0 <= i < s.len() && (#[trigger] s[i]).status == AgentStatus::Running ==> status
                    == Some(AgentStatus::NeedsFeedback) || status == Some(AgentStatus::Running)
        }),
{
    let s = sessions_of(&app, project);
    if s.len() > 0 {
        assert(s[0].status == rolled_up(s)->0);
    }
    assert forall|i: int| 0 <= i < s.len() implies {
        &&& (#[trigger] s[i]).status == AgentStatus::NeedsFeedback ==> rolled_up(s) == Some(
            AgentStatus::NeedsFeedback,
        )
        &&& s[i].status == AgentStatus::Running ==> rolled_up(s) == Some(
            AgentStatus::NeedsFeedback,
        ) || rolled_up(s) == Some(AgentStatus::Running)
    } by {
        if i > 0 {
            law_sessions_come_in_order(app, project, 0, i);
        }
    }
}

/// Every project has one row in the dropdown.
pub proof fn law_dropdown_lists_each_project_once(app: App, k: int)
    requires
        0 <= k < app.tree.projects@.len(),
    ensures
        ({
            let order = order_of(card_keys(&app));
            &&& order.len() == app.tree.projects@.len()
            &&& exists|a: int| 0 <= a < order.len() && #[trigger] order[a] == k
            &&& forall|a: int, b: int|
                0 <= a < b < order.len() ==> #[trigger] order[a] != #[trigger] order[b]
        }),
{
    let keys = card_keys(&app);
    crate::order::law_order_sorts(keys);
    let order = order_of(keys);
    assert(order.contains(k));
    assert forall|a: int, b: int| 0 <= a < b < order.len() implies #[trigger] order[a]
        != #[trigger] order[b] by {
        assert(crate::order::comes_before(keys, order[a], order[b]));
        crate::text::lemma_text_lt_irreflexive(keys[order[a]].id@);
    }
}

// ---- the tabs ----

proof fn lemma_tabs_first(app: App, n: int)
    requires
        0 <= n <= app.launcher_tabs@.len(),
    ensures
        forall|t: int|
            0 <= t < tabs_of_first(&app, n).len() ==> exists|k: int|
                0 <= k < n && (#[trigger] tabs_of_first(&app, n)[t]).id
                    == #[trigger] app.launcher_tabs@[k],
        forall|k: int|
            0 <= k < n && the_project(app.tree.projects@, (#[trigger] app.launcher_tabs@[k])@)
                is Some && (app.project_on() is Some ==> folder(
                the_project(app.tree.projects@, app.launcher_tabs@[k]@)->0.repo_path@,
            ) == folder(app.project_on()->0.repo_path@)) ==> exists|t: int|
                0 <= t < tabs_of_first(&app, n).len() && (#[trigger] tabs_of_first(
                    &app,
                    n,
                )[t]).id == app.launcher_tabs@[k],
        forall|t: int|
            0 <= t < tabs_of_first(&app, n).len() ==> {
                let tab = #[trigger] tabs_of_first(&app, n)[t];
                let p = the_project(app.tree.projects@, tab.id@);
                &&& p is Some
                &&& tab.name@ == p->0.name@
                &&& app.project_on() is Some ==> folder(p->0.repo_path@) == folder(
                    app.project_on()->0.repo_path@,
                )
                &&& tab.active == (app.project_on() is Some && app.project_on()->0.id@ == tab.id@)
                &&& tab.focused == (app.launcher_tab_cursor is Some && app.launcher_tab_cursor->0@
                    == tab.id@)
            },
    decreases n,
{
    if n > 0 {
        lemma_tabs_first(app, n - 1);
        let before = tabs_of_first(&app, n - 1);
        let now = tabs_of_first(&app, n);
        assert forall|t: int| 0 <= t < now.len() implies exists|k: int|
            0 <= k < n && (#[trigger] now[t]).id == #[trigger] app.launcher_tabs@[k] by {
            if t < before.len() {
                assert(now[t] == before[t]);
                let k = choose|k: int|
                    0 <= k < n - 1 && before[t].id == #[trigger] app.launcher_tabs@[k];
                assert(now[t].id == app.launcher_tabs@[k]);
            } else {
                assert(now[t].id == app.launcher_tabs@[n - 1]);
            }
        }
        assert forall|k: int|
            0 <= k < n && the_project(app.tree.projects@, (#[trigger] app.launcher_tabs@[k])@)
                is Some && (app.project_on() is Some ==> folder(
                the_project(app.tree.projects@, app.launcher_tabs@[k]@)->0.repo_path@,
            ) == folder(app.project_on()->0.repo_path@)) implies exists|t: int|
            0 <= t < now.len() && (#[trigger] now[t]).id == app.launcher_tabs@[k] by {
            if k < n - 1 {
                let t = choose|t: int|
                    0 <= t < before.len() && (#[trigger] before[t]).id == app.launcher_tabs@[k];
                assert(now[t] == before[t]);
            } else {
                assert(now.last().id == app.launcher_tabs@[k]);
            }
        }
        assert forall|t: int| 0 <= t < now.len() implies {
            let tab = #[trigger] now[t];
            let p = the_project(app.tree.projects@, tab.id@);
            &&& p is Some
            &&& tab.name@ == p->0.name@
            &&& app.project_on() is Some ==> folder(p->0.repo_path@) == folder(
                app.project_on()->0.repo_path@,
            )
            &&& tab.active == (app.project_on() is Some && app.project_on()->0.id@ == tab.id@)
            &&& tab.focused == (app.launcher_tab_cursor is Some && app.launcher_tab_cursor->0@
                == tab.id@)
        } by {
            if t < before.len() {
                assert(now[t] == before[t]);
            }
        }
    }
}

/// The header's tabs are the projects opened that the tree still has and the
/// folder of the project on screen holds, each under its own name; the tab of
/// the project on screen is lit, and the one under the header's cursor marked.
pub proof fn law_tabs_are_the_open_projects(app: App, k: int, t: int)
    requires
        0 <= k < app.launcher_tabs@.len(),
    ensures
        ({
            let p = the_project(app.tree.projects@, app.launcher_tabs@[k]@);
            p is Some && (app.project_on() is Some ==> folder(p->0.repo_path@) == folder(
                app.project_on()->0.repo_path@,
            )) ==> exists|m: int|
                0 <= m < tabs_of(&app).len() && (#[trigger] tabs_of(&app)[m]).id
                    == app.launcher_tabs@[k]
        }),
        0 <= t < tabs_of(&app).len() ==> {
            let tab = tabs_of(&app)[t];
            let p = the_project(app.tree.projects@, tab.id@);
            &&& app.launcher_tabs@.contains(tab.id)
            &&& p is Some && tab.name@ == p->0.name@
            &&& app.project_on() is Some ==> folder(p->0.repo_path@) == folder(
                app.project_on()->0.repo_path@,
            )
            &&& tab.active <==> app.project_on() is Some && app.project_on()->0.id@ == tab.id@
            &&& tab.focused <==> app.launcher_tab_cursor is Some && app.launcher_tab_cursor->0@
                == tab.id@
        },
{
    lemma_tabs_first(app, app.launcher_tabs@.len() as int);
    if 0 <= t < tabs_of(&app).len() {
        let m = choose|m: int|
            0 <= m < app.launcher_tabs@.len() && tabs_of(&app)[t].id
                == #[trigger] app.launcher_tabs@[m];
        assert(app.launcher_tabs@.contains(tabs_of(&app)[t].id));
    }
}

/// Which of the projects opened the first `n` tabs are of, by their places.
spec fn tab_places(app: App, n: int) -> Seq<int>
    decreases n,
{
    if n <= 0 {
        Seq::empty()
    } else {
        let p = the_project(app.tree.projects@, app.launcher_tabs@[n - 1]@);
        if p is Some && (app.project_on() is Some ==> folder(p->0.repo_path@) == folder(
            app.project_on()->0.repo_path@,
        )) {
            tab_places(app, n - 1).push(n - 1)
        } else {
            tab_places(app, n - 1)
        }
    }
}

proof fn lemma_tab_places(app: App, n: int)
    requires
        0 <= n <= app.launcher_tabs@.len(),
    ensures
        tab_places(app, n).len() == tabs_of_first(&app, n).len(),
        forall|t: int|
            0 <= t < tab_places(app, n).len() ==> 0 <= #[trigger] tab_places(app, n)[t] < n
                && tabs_of_first(&app, n)[t].id == app.launcher_tabs@[tab_places(app, n)[t]],
        forall|t: int, u: int|
            0 <= t < u < tab_places(app, n).len() ==> #[trigger] tab_places(app, n)[t]
                < #[trigger] tab_places(app, n)[u],
    decreases n,
{
    if n > 0 {
        lemma_tab_places(app, n - 1);
    }
}

/// The tabs stand in the order their projects were opened in.
pub proof fn law_tabs_keep_their_order(app: App, t: int, u: int)
    requires
        0 <= t < u < tabs_of(&app).len(),
    ensures
        exists|i: int, j: int|
            0 <= i < j < app.launcher_tabs@.len() && #[trigger] app.launcher_tabs@[i]
                == tabs_of(&app)[t].id && #[trigger] app.launcher_tabs@[j] == tabs_of(&app)[u].id,
{
    let n = app.launcher_tabs@.len() as int;
    lemma_tab_places(app, n);
    let (i, j) = (tab_places(app, n)[t], tab_places(app, n)[u]);
    assert(app.launcher_tabs@[i] == tabs_of(&app)[t].id);
    assert(app.launcher_tabs@[j] == tabs_of(&app)[u].id);
}

/// A tab counts its project's sessions in three colors, and no session twice:
/// one more session adds one to the count of its own status — waiting on a
/// human, finished and unread, running — and nothing where it is at rest.
pub proof fn law_tally_counts_each_session_once(s: Seq<&Agent>, a: Agent)
    requires
        s.len() < usize::MAX,
    ensures
        ({
            let before = tally_of(s);
            let after = tally_of(s.push(&a));
            let one = |b: bool|
                if b {
                    1int
                } else {
                    0
                };
            &&& after.needs_you == before.needs_you + one(a.status == AgentStatus::NeedsFeedback)
            &&& after.done == before.done + one(a.status == AgentStatus::Finished && a.unseen)
            &&& after.running == before.running + one(a.status == AgentStatus::Running)
        }),
        tally_of(Seq::empty()) == (Tally { needs_you: 0, done: 0, running: 0 }),
{
    let waits = |x: &Agent| x.status == AgentStatus::NeedsFeedback;
    let unread = |x: &Agent| x.status == AgentStatus::Finished && x.unseen;
    let works = |x: &Agent| x.status == AgentStatus::Running;
    s.lemma_filter_push(&a, waits);
    s.lemma_filter_push(&a, unread);
    s.lemma_filter_push(&a, works);
    s.lemma_filter_len(waits);
    s.lemma_filter_len(unread);
    s.lemma_filter_len(works);
    reveal(Seq::filter);
}

// ---- where launches land ----

/// A launch that is not to cut a fresh worktree lands on the project's root,
/// where the project is there, shows it, and it is not still being cut; and
/// cuts a fresh worktree in every other case, on the branch nobody has yet.
pub proof fn law_launch_lands_on_the_root(app: App, project: ProjectId, new_worktree: bool, j: int)
    requires
        distinct_ids(worktree_ids(app.tree.worktrees@)),
    ensures
        ({
            let p = the_project(app.tree.projects@, project@);
            let target = target_of(app, project, new_worktree);
            let w = app.tree.worktrees@[j];
            &&& !new_worktree && p is Some && !p->0.root_hidden && 0 <= j
                < app.tree.worktrees@.len() && w.project_id@ == project@ && w.is_main
                && !w.placeholder ==> target is Worktree
            &&& new_worktree || p is None || p->0.root_hidden ==> target
                == (QuickTarget::NewWorktree { project, branch: app.facts.fresh_branch })
            &&& target is Worktree ==> exists|k: int|
                0 <= k < app.tree.worktrees@.len() && (#[trigger] app.tree.worktrees@[k]).id
                    == target->Worktree_0 && app.tree.worktrees@[k].project_id@ == project@
                    && app.tree.worktrees@[k].is_main && !app.tree.worktrees@[k].placeholder
            &&& target is NewWorktree ==> target == (QuickTarget::NewWorktree {
                project,
                branch: app.facts.fresh_branch,
            })
        }),
{
    let wids = worktree_ids(app.tree.worktrees@);
    lemma_root_from(app, project@, 0);
    if root_from(app, project@, 0) is Some {
        let k = choose|k: int|
            0 <= k < app.tree.worktrees@.len() && (#[trigger] app.tree.worktrees@[k]).id
                == root_from(app, project@, 0)->0 && app.tree.worktrees@[k].project_id@
                == project@ && app.tree.worktrees@[k].is_main && !stand_in(
                app,
                app.tree.worktrees@[k].id@,
            );
        assert(wids[k] == app.tree.worktrees@[k].id@);
        lemma_distinct_place(wids, k);
        assert(!app.tree.worktrees@[k].placeholder);
    }
    if 0 <= j < app.tree.worktrees@.len() {
        let w = app.tree.worktrees@[j];
        if w.project_id@ == project@ && w.is_main && !w.placeholder {
            assert(wids[j] == w.id@);
            lemma_distinct_place(wids, j);
            lemma_root_found(app, project@, 0, j);
        }
    }
}

proof fn lemma_root_found(app: App, project: Seq<char>, from: int, j: int)
    requires
        0 <= from <= j < app.tree.worktrees@.len(),
        app.tree.worktrees@[j].project_id@ == project,
        app.tree.worktrees@[j].is_main,
        !stand_in(app, app.tree.worktrees@[j].id@),
    ensures
        root_from(app, project, from) is Some,
    decreases j - from,
{
    if from < j {
        lemma_root_found(app, project, from + 1, j);
    }
}

proof fn lemma_usable_found(app: App, project: Seq<char>, main: bool, from: int, j: int)
    requires
        0 <= from <= j < app.tree.worktrees@.len(),
        app.tree.worktrees@[j].project_id@ == project,
        app.tree.worktrees@[j].is_main == main,
        usable(app, project, app.tree.worktrees@[j].id@),
    ensures
        first_usable(app, project, main, from) is Some,
    decreases j - from,
{
    if from < j {
        lemma_usable_found(app, project, main, from + 1, j);
    }
}

proof fn lemma_usable_is_one(app: App, project: Seq<char>, main: bool, from: int)
    ensures
        first_usable(app, project, main, from) is Some ==> exists|j: int|
            from <= j < app.tree.worktrees@.len() && (#[trigger] app.tree.worktrees@[j]).id@
                == first_usable(app, project, main, from)->0 && app.tree.worktrees@[j].is_main
                == main && app.tree.worktrees@[j].project_id@ == project,
    decreases app.tree.worktrees@.len() - from,
{
    if 0 <= from < app.tree.worktrees@.len() {
        lemma_usable_is_one(app, project, main, from + 1);
        let w = app.tree.worktrees@[from];
        if w.project_id@ == project && w.is_main == main && usable(app, project, w.id@) {
            assert(app.tree.worktrees@[from].id@ == first_usable(app, project, main, from)->0);
        }
    }
}

/// A checkout a menu may act on: the project's own, no root it hides, and none
/// git is still cutting.
pub open spec fn open_to_menus(app: App, project: Seq<char>, id: Seq<char>) -> bool {
    let p = the_project(app.tree.projects@, project);
    &&& exists|j: int|
        0 <= j < app.tree.worktrees@.len() && #[trigger] app.tree.worktrees@[j].id@ == id
            && app.tree.worktrees@[j].project_id@ == project && !(p is Some && p->0.root_hidden
            && app.tree.worktrees@[j].is_main)
    &&& !(the_worktree(app.tree.worktrees@, id) is Some && the_worktree(
        app.tree.worktrees@,
        id,
    )->0.placeholder)
}

/// Which checkout a project's menu acts on: the selected one, where the cursor
/// is in the project; else the one the project was last left on; else its root;
/// else another of its checkouts — the first of those it may act on.
pub proof fn law_menu_takes_the_nearest_checkout(app: App, project: Seq<char>, j: int)
    requires
        the_project(app.tree.projects@, project) is Some,
    ensures
        ({
            let at = checkout_of(app, project);
            let on = app.worktree_on();
            let here = app.project_on() is Some && app.project_on()->0.id@ == project && on is Some
                && open_to_menus(app, project, on->0.id@);
            let left = remembered(app, project);
            let back = left is Some && open_to_menus(app, project, left->0@);
            let w = app.tree.worktrees@[j];
            let offered = 0 <= j < app.tree.worktrees@.len() && w.project_id@ == project
                && open_to_menus(app, project, w.id@);
            &&& here ==> at == Some(on->0.id@)
            &&& !here && back ==> at == Some(left->0@)
            &&& !here && !back && offered && w.is_main ==> at is Some && exists|k: int|
                0 <= k < app.tree.worktrees@.len() && (#[trigger] app.tree.worktrees@[k]).id@
                    == at->0 && app.tree.worktrees@[k].is_main
                    && app.tree.worktrees@[k].project_id@ == project
            &&& offered ==> at is Some
            &&& at is Some ==> open_to_menus(app, project, at->0)
        }),
{
    let on = app.worktree_on();
    assert forall|id: Seq<char>| #[trigger] usable(app, project, id) <==> open_to_menus(
        app,
        project,
        id,
    ) by {
        if usable(app, project, id) {
            let k = choose|k: int|
                0 <= k < app.tree.worktrees@.len() && #[trigger] app.tree.worktrees@[k].id@ == id
                    && shown_checkout(app, project, app.tree.worktrees@[k]);
            assert(app.tree.worktrees@[k].id@ == id);
        }
        if open_to_menus(app, project, id) {
            let p = the_project(app.tree.projects@, project);
            let k = choose|k: int|
                0 <= k < app.tree.worktrees@.len() && #[trigger] app.tree.worktrees@[k].id@ == id
                    && app.tree.worktrees@[k].project_id@ == project && !(p is Some
                    && p->0.root_hidden && app.tree.worktrees@[k].is_main);
            assert(shown_checkout(app, project, app.tree.worktrees@[k]));
        }
    }
    law_menu_checkout_is_usable(app, project);
    lemma_usable_is_one(app, project, true, 0);
    if 0 <= j < app.tree.worktrees@.len() {
        let w = app.tree.worktrees@[j];
        if w.project_id@ == project && usable(app, project, w.id@) {
            lemma_usable_found(app, project, w.is_main, 0, j);
        }
    }
    if on is Some {
        assert(usable(app, project, on->0.id@) <==> open_to_menus(app, project, on->0.id@));
    }
    if remembered(app, project) is Some {
        let left = remembered(app, project)->0@;
        assert(usable(app, project, left) <==> open_to_menus(app, project, left));
    }
    if checkout_of(app, project) is Some {
        assert(usable(app, project, checkout_of(app, project)->0));
    }
}

/// A row of the dropdown is of its project: its id, its name, when it was last
/// worked in, and its own sessions, the first of which gives it its status.
pub proof fn law_dropdown_row_is_of_its_project(app: App, p: Project, card: ProjectCard)
    requires
        card_of(&app, p, card),
    ensures
        card.id@ == p.id@,
        card.name@ == p.name@,
        card.recency.interacted == p.recency.interacted,
        card.recency.stamped == p.recency.stamped,
        card.sessions@ == sessions_of(&app, p.id@),
        card.status is None <==> card.sessions@.len() == 0,
        card.sessions@.len() > 0 ==> card.status == Some(card.sessions@[0].status),
{
}

/// The order of the dropdown, read off its rows: a project with a session
/// waiting on a human over one with a session running over the rest; of two
/// with the same standing the one last worked in; and of two the same in that
/// as well, the one the tree lists first.
pub proof fn law_louder_projects_stand_first(app: App, cards: Seq<ProjectCard>, i: int, j: int)
    requires
        cards.len() == app.tree.projects@.len(),
        forall|a: int|
            0 <= a < cards.len() ==> card_of(
                &app,
                app.tree.projects@[order_of(card_keys(&app))[a]],
                #[trigger] cards[a],
            ),
        0 <= i < j < cards.len(),
    ensures
        ({
            let loud = |c: ProjectCard|
                match c.status {
                    Some(AgentStatus::NeedsFeedback) => 2int,
                    Some(AgentStatus::Running) => 1int,
                    _ => 0int,
                };
            let (a, b) = (cards[i], cards[j]);
            let order = order_of(card_keys(&app));
            &&& loud(a) >= loud(b)
            &&& loud(a) == loud(b) ==> a.recency.interacted >= b.recency.interacted
            &&& loud(a) == loud(b) && a.recency.interacted == b.recency.interacted
                ==> a.recency.stamped >= b.recency.stamped
            &&& loud(a) == loud(b) && a.recency == b.recency ==> order[i] < order[j]
        }),
{
    let keys = card_keys(&app);
    crate::order::law_order_sorts(keys);
    let order = order_of(keys);
    assert(card_of(&app, app.tree.projects@[order[i]], cards[i]));
    assert(card_of(&app, app.tree.projects@[order[j]], cards[j]));
    assert(0 <= order[i] < keys.len() && 0 <= order[j] < keys.len());
    assert(crate::order::comes_before(keys, order[i], order[j]));
    crate::text::lemma_text_lt_irreflexive(no_id()@);
}

/// No project has two tabs in the header, where none was opened twice.
pub proof fn law_no_project_has_two_tabs(app: App, t: int, u: int)
    requires
        distinct_ids(crate::views::views(app.launcher_tabs@)),
        0 <= t < u < tabs_of(&app).len(),
    ensures
        tabs_of(&app)[t].id@ != tabs_of(&app)[u].id@,
{
    law_tabs_keep_their_order(app, t, u);
    let ids = crate::views::views(app.launcher_tabs@);
    let (i, j) = choose|i: int, j: int|
        0 <= i < j < app.launcher_tabs@.len() && #[trigger] app.launcher_tabs@[i] == tabs_of(
            &app,
        )[t].id && #[trigger] app.launcher_tabs@[j] == tabs_of(&app)[u].id;
    assert(ids[i] == app.launcher_tabs@[i]@ && ids[j] == app.launcher_tabs@[j]@);
    assert(ids[i] != ids[j]);
}

/// The cursor is on the row of the selected session, and on no row where the
/// list has none of it.
pub proof fn law_cursor_is_on_the_selected_session(app: App, i: int)
    requires
        distinct_ids(agent_ids(app.tree.agents@)),
    ensures
        ({
            let rows = rows_of(&app);
            let at = cursor_of(app, rows);
            &&& 0 <= i < rows.len() && app.session_on() is Some && rows[i].agent.id@
                == app.session_on()->0.id@ ==> at == Some(i)
            &&& at is Some ==> app.session_on() is Some && 0 <= at->0 < rows.len()
                && rows[at->0].agent.id@ == app.session_on()->0.id@
            &&& app.session_on() is None ==> at is None
        }),
{
    let rows = rows_of(&app);
    let ids = row_ids(rows);
    if let Some(a) = app.session_on() {
        lemma_place_of(ids, a.id@);
        if let Some(at) = place_of(ids, a.id@) {
            assert(ids[at] == a.id@);
            if 0 <= i < rows.len() && rows[i].agent.id@ == a.id@ {
                assert(ids[i] == a.id@);
                if at < i {
                    law_no_session_has_two_cards(app, at, i);
                }
            }
        } else if 0 <= i < rows.len() {
            assert(ids[i] != a.id@);
        }
    }
}

/// The row of a session asked for by its id is of that session, with the
/// branch, the project and the pull request of its checkout, whether it is
/// archived or not and whichever project is on screen.
pub proof fn law_row_asked_for_is_its_own(app: App, k: int)
    requires
        0 <= k < app.tree.agents@.len(),
        distinct_ids(agent_ids(app.tree.agents@)),
    ensures
        ({
            let a = app.tree.agents@[k];
            let w = the_worktree(app.tree.worktrees@, a.worktree_id@);
            let p = the_project(app.tree.projects@, w->0.project_id@);
            let row = row_named(&app, a.id@);
            &&& row is Some <==> w is Some && p is Some && !(w->0.is_main && p->0.root_hidden)
            &&& row is Some ==> {
                &&& *row->0.agent == a
                &&& row->0.branch@ == w->0.branch@
                &&& row->0.project@ == p->0.name@
                &&& row->0.is_main == w->0.is_main
                &&& row->0.pr == pr_of(app, w->0.id@, p->0.id@, w->0.branch@)
            }
        }),
{
    let ids = agent_ids(app.tree.agents@);
    assert(ids[k] == app.tree.agents@[k].id@);
    lemma_distinct_place(ids, k);
}

/// The word on a pull request's badge: what holds it up wherever something
/// does, and where nothing does the state it is in.
pub proof fn law_badge_says_the_trouble_first(pr: RowPr)
    ensures
        pr.trouble == Some(Trouble::Conflicts) ==> pr.word() == "conflicts"@,
        pr.trouble == Some(Trouble::Failing) ==> pr.word() == "failing"@,
        pr.trouble is None && pr.standing == Standing::Ready ==> pr.word() == "ready"@,
        pr.trouble is None && pr.standing == Standing::Draft ==> pr.word() == "draft"@,
        pr.trouble is None && pr.standing == Standing::Merged ==> pr.word() == "merged"@,
        pr.trouble is None && pr.standing == Standing::Closed ==> pr.word() == "closed"@,
{
}

} // verus!
