//! Into a project: the tab it gets, the card it lands on, and the folder step.

use crate::keys::aim::{
    fold_empty_grid, let_go, nothing_word, on_session, only_says, say, select, take_aim,
};
use crate::launcher::{
    counted, counted_agents, heads, listed_pr, pr_line, pr_of, project_sessions, remembered,
    scope_of, session_keys, sessions_of, shown_checkout,
};
use crate::model::{
    distinct_ids, lemma_distinct_place, lemma_place_of, place_of, Agent, AgentId, ProjectId,
    SessionRef, WorktreeId,
};
use crate::order::{law_order_sorts, order_of};
use crate::state::{
    agent_ids, find_project, find_project_id, last_session_ids, last_worktree_ids, listing_ids,
    lookup_ids, project_ids, the_project, worktree_ids, App, Effect, Landing,
};
use crate::views::{group_views, views};
use vstd::prelude::*;

verus! {

/// What an id that no project has any more says.
pub const PROJECT_GONE: &'static str = "project no longer exists";

// ---- the tabs settle ----

/// Those of the first `n` tabs whose project the tree still has.
pub open spec fn kept_tabs(app: App, n: int) -> Seq<ProjectId>
    decreases n,
{
    if n <= 0 {
        Seq::empty()
    } else {
        let before = kept_tabs(app, n - 1);
        let id = app.launcher_tabs@[n - 1];
        if the_project(app.tree.projects@, id@) is Some {
            before.push(id)
        } else {
            before
        }
    }
}

/// The tabs once they settle: those of projects the tree still has, and at the
/// far left one for the project the grid is on, where it had none.
pub open spec fn settled_tabs(app: App) -> Seq<ProjectId> {
    let kept = kept_tabs(app, app.launcher_tabs@.len() as int);
    match app.project_on() {
        Some(p) => if place_of(views(kept), p.id@) is Some {
            kept
        } else {
            kept.insert(0, p.id)
        },
        None => kept,
    }
}

/// Only the tabs settled.
pub open spec fn settles(before: App, after: App) -> bool {
    &&& after == (App { launcher_tabs: after.launcher_tabs, ..before })
    &&& after.launcher_tabs@ == settled_tabs(before)
}

fn settled(app: &App) -> (r: Vec<ProjectId>)
    ensures
        r@ == settled_tabs(*app),
{
    let mut kept: Vec<ProjectId> = Vec::new();
    let mut i: usize = 0;
    while i < app.launcher_tabs.len()
        invariant
            i <= app.launcher_tabs@.len(),
            kept@ == kept_tabs(*app, i as int),
        decreases app.launcher_tabs@.len() - i,
    {
        let id = &app.launcher_tabs[i];
        if find_project(&app.tree.projects, id).is_some() {
            kept.push(id.clone());
        }
        i += 1;
    }
    if let Some(p) = app.selected_project() {
        if find_project_id(&kept, &p.id).is_none() {
            kept.insert(0, p.id.clone());
        }
    }
    kept
}

/// A project opened since its tab was last closed has a tab: the one the grid
/// is on gets one at the far left where it has none, and the tab of a project
/// that is gone goes.
pub fn settle_project_tabs(app: &mut App)
    ensures
        settles(*old(app), *final(app)),
{
    let tabs = settled(app);
    app.launcher_tabs = tabs;
}

// ---- into a project ----

/// The session a checkout was last left on.
pub open spec fn last_session(app: App, worktree: Seq<char>) -> Option<SessionRef> {
    match place_of(last_session_ids(app.records.last_session_for_worktree@), worktree) {
        Some(i) => Some(app.records.last_session_for_worktree@[i].session),
        None => None,
    }
}

pub open spec fn session_ids(s: Seq<&Agent>) -> Seq<Seq<char>> {
    Seq::new(s.len(), |i: int| s[i].id@)
}

/// The card a project was last left on, while it is still one of its cards.
pub open spec fn last_card(app: App, project: Seq<char>) -> Option<AgentId> {
    match remembered(app, project) {
        None => None,
        Some(wid) => match last_session(app, wid@) {
            Some(SessionRef::Agent(id)) => if place_of(
                session_ids(sessions_of(&app, project)),
                id@,
            ) is Some {
                Some(id)
            } else {
                None
            },
            _ => None,
        },
    }
}

/// The card a project is opened on: the one it was last left on, else its
/// first.
pub open spec fn landing_card(app: App, project: Seq<char>) -> Option<AgentId> {
    match last_card(app, project) {
        Some(id) => Some(id),
        None => if sessions_of(&app, project).len() > 0 {
            Some(sessions_of(&app, project)[0].id)
        } else {
            None
        },
    }
}

fn find_session(s: &Vec<&Agent>, id: &AgentId) -> (r: bool)
    ensures
        r == (place_of(session_ids(s@), id@) is Some),
{
    let ghost ids = session_ids(s@);
    proof {
        lemma_place_of(ids, id@);
    }
    let mut i: usize = 0;
    while i < s.len()
        invariant
            i <= s@.len(),
            ids == session_ids(s@),
            forall|k: int| 0 <= k < i ==> #[trigger] ids[k] != id@,
        decreases s@.len() - i,
    {
        if s[i].id.same(id) {
            proof {
                lemma_place_of(ids, id@);
                assert(ids[i as int] == id@);
            }
            return true;
        }
        i += 1;
    }
    false
}

fn find_last_session<'a>(app: &'a App, worktree: &WorktreeId) -> (r: Option<&'a SessionRef>)
    ensures
        match r {
            Some(s) => last_session(*app, worktree@) == Some(*s),
            None => last_session(*app, worktree@) is None,
        },
{
    let list = &app.records.last_session_for_worktree;
    let ghost ids = last_session_ids(list@);
    proof {
        lemma_place_of(ids, worktree@);
    }
    let mut i: usize = 0;
    while i < list.len()
        invariant
            i <= list@.len(),
            list@ == app.records.last_session_for_worktree@,
            ids == last_session_ids(list@),
            forall|k: int| 0 <= k < i ==> #[trigger] ids[k] != worktree@,
        decreases list@.len() - i,
    {
        if list[i].worktree.same(worktree) {
            proof {
                lemma_place_of(ids, worktree@);
                assert(ids[i as int] == worktree@);
            }
            return Some(&list[i].session);
        }
        i += 1;
    }
    None
}

/// The card `project` was last left on: the session under the cursor when the
/// grid last moved off the project, while it is still one of the project's
/// cards.
pub fn last_focused(app: &App, project: &ProjectId, sessions: &Vec<&Agent>) -> (r: Option<AgentId>)
    requires
        sessions@ == sessions_of(app, project@),
    ensures
        r == last_card(*app, project@),
{
    match crate::launcher::remembered_worktree(app, project) {
        None => None,
        Some(wid) => match find_last_session(app, &wid) {
            Some(SessionRef::Agent(id)) => if find_session(sessions, id) {
                Some(id.clone())
            } else {
                None
            },
            _ => None,
        },
    }
}

fn find_landing(app: &App, project: &ProjectId) -> (r: Option<AgentId>)
    ensures
        r == landing_card(*app, project@),
{
    let sessions = project_sessions(app, project);
    match last_focused(app, project, &sessions) {
        Some(id) => Some(id),
        None => if sessions.len() > 0 {
            Some(sessions[0].id.clone())
        } else {
            None
        },
    }
}

/// The state with the grid on project `id`, before the cursor lands: its
/// checkout is the one it was last left on.
pub open spec fn on_project(app: App, id: ProjectId) -> App {
    App {
        launcher_unaimed: false,
        dirty: true,
        sel_project: Some(id),
        sel_worktree: remembered(app, id@),
        sel_session: None,
        ..app
    }
}

/// Put the cursor on project `id` — the grid's scope, and the lit tab. Nothing
/// is attached here: a card is landed on next.
fn select_project(app: &mut App, id: &ProjectId, out: &mut Vec<Effect>)
    ensures
        *final(app) == on_project(*old(app), *id),
        final(out)@ == old(out)@.push(Effect::RestoreCursors(*id)),
{
    let worktree = crate::launcher::remembered_worktree(app, id);
    take_aim(app);
    app.sel_project = Some(id.clone());
    app.sel_worktree = worktree;
    app.sel_session = None;
    app.dirty = true;
    out.push(Effect::RestoreCursors(id.clone()));
}

/// Into project `id`: the grid on it, the cursor on the card it was last left
/// on, else on its first; on the empty grid, with the word for it, where it has
/// none. A project that is gone is only said to be.
pub open spec fn opens_project(
    before: App,
    id: ProjectId,
    after: App,
    sent: Seq<Effect>,
    out: Seq<Effect>,
) -> bool {
    if the_project(before.tree.projects@, id@) is None {
        only_says(before, after, PROJECT_GONE@) && out == sent
    } else {
        let there = on_project(before, id);
        match landing_card(before, id@) {
            Some(card) => {
                &&& after == on_session(there, card)
                &&& out == sent.push(Effect::RestoreCursors(id)).push(
                    Effect::Jump { session: card, landing: Landing::FocusOnly },
                )
            },
            None => {
                &&& let_go(there, after, nothing_word(before))
                &&& out == sent.push(Effect::RestoreCursors(id))
            },
        }
    }
}

/// Into project `id` — the one move, so a tab, a digit and a pick from the
/// PROJECT DROPDOWN end in the same state. The cursor lands on the card the
/// project was last left on; on a first visit, or with that session gone or
/// archived since, on the project's FIRST card. A project with nothing in it
/// yet lands on the empty grid, and no box opens: switching to a project is not
/// asking to start a session in it.
pub fn open_project(app: &mut App, id: &ProjectId, out: &mut Vec<Effect>)
    ensures
        opens_project(*old(app), *id, *final(app), old(out)@, final(out)@),
{
    if find_project(&app.tree.projects, id).is_none() {
        say(app, PROJECT_GONE);
        return;
    }
    let land = find_landing(app, id);
    select_project(app, id, out);
    match land {
        Some(card) => select(app, card, out),
        None => fold_empty_grid(app),
    }
}

/// A tab opened: nothing where the grid is on it already.
pub open spec fn opens_tab(
    before: App,
    id: ProjectId,
    after: App,
    sent: Seq<Effect>,
    out: Seq<Effect>,
) -> bool {
    if scope_of(before) == Some(id@) {
        after == before && out == sent
    } else {
        opens_project(before, id, after, sent, out)
    }
}

/// A click on a PROJECT TAB, a key onto it, and the tab that slides into a
/// closed one's place: that project's sessions. The tab the grid is already on
/// is left alone: opening it again would throw the cursor off the card it was
/// walked to.
pub fn open_tab(app: &mut App, id: &ProjectId, out: &mut Vec<Effect>)
    ensures
        opens_tab(*old(app), *id, *final(app), old(out)@, final(out)@),
{
    let here: bool = match app.selected_project() {
        Some(p) => p.id.same(id),
        None => false,
    };
    if here {
        return;
    }
    open_project(app, id, out);
}

// ---- what holds of it ----

/// Once the tabs have settled the project the grid is on has one.
pub proof fn law_open_project_has_a_tab(before: App, after: App)
    requires
        settles(before, after),
        before.project_on() is Some,
    ensures
        place_of(views(after.launcher_tabs@), before.project_on()->0.id@) is Some,
{
    broadcast use group_views;

    let kept = kept_tabs(before, before.launcher_tabs@.len() as int);
    let p = before.project_on()->0;
    if place_of(views(kept), p.id@) is None {
        assert(views(kept.insert(0, p.id))[0] == p.id@);
        lemma_place_of(views(kept.insert(0, p.id)), p.id@);
    }
}

/// Tabs that have settled stay where they are: settling again moves none of
/// them.
pub proof fn law_settled_tabs_stay(before: App, after: App)
    requires
        settles(before, after),
    ensures
        settled_tabs(after) == after.launcher_tabs@,
{
    lemma_settled_all_kept(before, before.launcher_tabs@.len() as int);
    let tabs = after.launcher_tabs@;
    if let Some(p) = before.project_on() {
        law_open_project_has_a_tab(before, after);
        if let Some(id) = before.sel_project {
            lemma_place_of(project_ids(before.tree.projects@), id@);
            lemma_place_of(project_ids(before.tree.projects@), p.id@);
        }
    }
    assert forall|i: int| 0 <= i < tabs.len() implies the_project(
        after.tree.projects@,
        (#[trigger] tabs[i])@,
    ) is Some by {
        let kept = kept_tabs(before, before.launcher_tabs@.len() as int);
        if tabs != kept && i > 0 {
            assert(tabs[i] == kept[i - 1]);
        }
    }
    lemma_all_kept(after, tabs.len() as int);
    assert(tabs.take(tabs.len() as int) =~= tabs);
}

proof fn lemma_settled_all_kept(app: App, n: int)
    requires
        0 <= n <= app.launcher_tabs@.len(),
    ensures
        forall|i: int|
            0 <= i < kept_tabs(app, n).len() ==> the_project(
                app.tree.projects@,
                (#[trigger] kept_tabs(app, n)[i])@,
            ) is Some,
    decreases n,
{
    if n > 0 {
        lemma_settled_all_kept(app, n - 1);
        let before = kept_tabs(app, n - 1);
        assert forall|i: int| 0 <= i < kept_tabs(app, n).len() implies the_project(
            app.tree.projects@,
            (#[trigger] kept_tabs(app, n)[i])@,
        ) is Some by {
            if i < before.len() {
                assert(kept_tabs(app, n)[i] == before[i]);
            }
        }
    }
}

proof fn lemma_all_kept(app: App, n: int)
    requires
        0 <= n <= app.launcher_tabs@.len(),
        forall|i: int|
            0 <= i < n ==> the_project(
                app.tree.projects@,
                (#[trigger] app.launcher_tabs@[i])@,
            ) is Some,
    ensures
        kept_tabs(app, n) == app.launcher_tabs@.take(n),
    decreases n,
{
    if n > 0 {
        lemma_all_kept(app, n - 1);
        assert(app.launcher_tabs@.take(n) =~= app.launcher_tabs@.take(n - 1).push(
            app.launcher_tabs@[n - 1],
        ));
    } else {
        assert(app.launcher_tabs@.take(0) =~= Seq::empty());
    }
}

/// Opening a project never opens a box, and never touches another project's
/// tab.
pub proof fn law_opening_a_project_only_looks(
    before: App,
    id: ProjectId,
    after: App,
    sent: Seq<Effect>,
    out: Seq<Effect>,
)
    requires
        opens_project(before, id, after, sent, out),
    ensures
        after.overlay == before.overlay,
        after.launcher_tabs == before.launcher_tabs,
        after.tree == before.tree,
        after.launcher_pane_hidden == before.launcher_pane_hidden,
{
}

/// A project is come back to on the card it was left on: where its checkout
/// and that checkout's session are remembered and still listed, that session is
/// the one selected.
pub proof fn law_tab_comes_back_on_its_card(
    before: App,
    id: ProjectId,
    card: AgentId,
    after: App,
    sent: Seq<Effect>,
    out: Seq<Effect>,
)
    requires
        the_project(before.tree.projects@, id@) is Some,
        last_card(before, id@) == Some(card),
        opens_project(before, id, after, sent, out),
    ensures
        after.sel_session == Some(SessionRef::Agent(card)),
        !after.launcher_unaimed,
{
}

proof fn lemma_counted_agents(app: App, project: Seq<char>, n: int)
    requires
        0 <= n <= app.tree.agents@.len(),
    ensures
        forall|i: int|
            0 <= i < counted_agents(&app, project, n).len() ==> {
                &&& counted(app, project, *(#[trigger] counted_agents(&app, project, n)[i]))
                &&& app.tree.agents@.contains(*counted_agents(&app, project, n)[i])
            },
    decreases n,
{
    if n > 0 {
        lemma_counted_agents(app, project, n - 1);
        let before = counted_agents(&app, project, n - 1);
        assert(app.tree.agents@.contains(app.tree.agents@[n - 1]));
        assert forall|i: int| 0 <= i < counted_agents(&app, project, n).len() implies {
            &&& counted(app, project, *(#[trigger] counted_agents(&app, project, n)[i]))
            &&& app.tree.agents@.contains(*counted_agents(&app, project, n)[i])
        } by {
            if i < before.len() {
                assert(counted_agents(&app, project, n)[i] == before[i]);
            }
        }
    }
}

proof fn lemma_sessions_are_counted(app: App, project: Seq<char>, i: int)
    requires
        0 <= i < sessions_of(&app, project).len(),
    ensures
        counted(app, project, *sessions_of(&app, project)[i]),
        app.tree.agents@.contains(*sessions_of(&app, project)[i]),
{
    let all = counted_agents(&app, project, app.tree.agents@.len() as int);
    let keys = session_keys(app, all);
    lemma_counted_agents(app, project, app.tree.agents@.len() as int);
    law_order_sorts(keys);
    assert(0 <= order_of(keys)[i] < keys.len());
}

/// A project that was opened is the one the grid is on.
pub proof fn law_opened_project_is_on_the_grid(
    before: App,
    id: ProjectId,
    after: App,
    sent: Seq<Effect>,
    out: Seq<Effect>,
)
    requires
        distinct_ids(agent_ids(before.tree.agents@)),
        distinct_ids(worktree_ids(before.tree.worktrees@)),
        the_project(before.tree.projects@, id@) is Some,
        opens_project(before, id, after, sent, out),
    ensures
        scope_of(after) == Some(id@),
{
    let pids = project_ids(before.tree.projects@);
    lemma_place_of(pids, id@);
    assert(pids[place_of(pids, id@)->0] == id@);
    if let Some(card) = landing_card(before, id@) {
        let sessions = sessions_of(&before, id@);
        lemma_place_of(session_ids(sessions), card@);
        let i = match last_card(before, id@) {
            Some(_) => place_of(session_ids(sessions), card@)->0,
            None => 0,
        };
        assert(session_ids(sessions)[i] == card@);
        lemma_sessions_are_counted(before, id@, i);
        let agents = before.tree.agents@;
        let k = choose|k: int| 0 <= k < agents.len() && agents[k] == *sessions[i];
        assert(agent_ids(agents)[k] == card@);
        lemma_distinct_place(agent_ids(agents), k);
        let worktrees = before.tree.worktrees@;
        let j = choose|j: int|
            0 <= j < worktrees.len() && #[trigger] worktrees[j].id@ == agents[k].worktree_id@
                && shown_checkout(before, id@, worktrees[j]);
        assert(worktree_ids(worktrees)[j] == agents[k].worktree_id@);
        lemma_distinct_place(worktree_ids(worktrees), j);
    }
}

/// With one entry for each checkout and each project, every record there is is
/// the one that is read.
pub proof fn law_every_record_is_read(app: App, i: int, project: Seq<char>, branch: Seq<char>)
    requires
        app.records.keyed(),
    ensures
        ({
            let list = app.records.last_worktree_for_project@;
            0 <= i < list.len() ==> remembered(app, list[i].project@) == Some(list[i].worktree)
        }),
        ({
            let list = app.records.last_session_for_worktree@;
            0 <= i < list.len() ==> last_session(app, list[i].worktree@) == Some(list[i].session)
        }),
        ({
            let list = app.records.pull_requests@;
            0 <= i < list.len() && list[i].found is Some ==> pr_of(
                app,
                list[i].worktree@,
                project,
                branch,
            ) == Some(pr_line(list[i].found->0))
        }),
        ({
            let list = app.records.open_prs@;
            0 <= i < list.len() ==> listed_pr(app, list[i].project@, branch) == match place_of(
                heads(list[i].list@),
                branch,
            ) {
                Some(k) => Some(pr_line(list[i].list@[k])),
                None => None,
            }
        }),
{
    let worktrees = last_worktree_ids(app.records.last_worktree_for_project@);
    let sessions = last_session_ids(app.records.last_session_for_worktree@);
    let lookups = lookup_ids(app.records.pull_requests@);
    if 0 <= i < worktrees.len() {
        lemma_distinct_place(worktrees, i);
    }
    if 0 <= i < sessions.len() {
        lemma_distinct_place(sessions, i);
    }
    if 0 <= i < lookups.len() {
        lemma_distinct_place(lookups, i);
    }
    let listings = listing_ids(app.records.open_prs@);
    if 0 <= i < listings.len() {
        lemma_distinct_place(listings, i);
    }
}

proof fn lemma_kept_tabs(app: App, n: int)
    requires
        0 <= n <= app.launcher_tabs@.len(),
    ensures
        kept_tabs(app, n) == app.launcher_tabs@.take(n).filter(
            |t: ProjectId| the_project(app.tree.projects@, t@) is Some,
        ),
    decreases n,
{
    let there = |t: ProjectId| the_project(app.tree.projects@, t@) is Some;
    if n > 0 {
        lemma_kept_tabs(app, n - 1);
        let tabs = app.launcher_tabs@;
        assert(tabs.take(n) =~= tabs.take(n - 1).push(tabs[n - 1]));
        tabs.take(n - 1).lemma_filter_push(tabs[n - 1], there);
    } else {
        reveal(Seq::filter);
        assert(app.launcher_tabs@.take(0).filter(there) =~= Seq::empty());
    }
}

/// What settling leaves of the tabs: every tab of a project that is still
/// there, in the order they were in, and nothing of one that is gone; before
/// them all a tab for the project on screen, where none of them is its.
pub proof fn law_settling_keeps_the_tabs_in_order(before: App, after: App)
    requires
        settles(before, after),
    ensures
        ({
            let kept = before.launcher_tabs@.filter(
                |t: ProjectId| the_project(before.tree.projects@, t@) is Some,
            );
            let on = before.project_on();
            let has_one = exists|i: int|
                0 <= i < kept.len() && (#[trigger] kept[i])@ == on->0.id@;
            &&& on is None || has_one ==> after.launcher_tabs@ == kept
            &&& on is Some && !has_one ==> after.launcher_tabs@ == seq![on->0.id] + kept
        }),
        after.sel_project == before.sel_project,
        after.sel_worktree == before.sel_worktree,
        after.sel_session == before.sel_session,
{
    broadcast use group_views;

    let n = before.launcher_tabs@.len() as int;
    lemma_kept_tabs(before, n);
    assert(before.launcher_tabs@.take(n) =~= before.launcher_tabs@);
    let kept = kept_tabs(before, n);
    if let Some(p) = before.project_on() {
        lemma_place_of(views(kept), p.id@);
        if place_of(views(kept), p.id@) is Some {
            let i = place_of(views(kept), p.id@)->0;
            assert(views(kept)[i] == p.id@);
            assert(kept[i]@ == p.id@);
        } else {
            assert forall|i: int| 0 <= i < kept.len() implies (#[trigger] kept[i])@ != p.id@ by {
                assert(views(kept)[i] != p.id@);
            }
        }
        assert(kept.insert(0, p.id) =~= seq![p.id] + kept);
    }
}

/// A project comes back on the session it was left on, while that is still one
/// of its own, and comes up on the first of its sessions where nothing says
/// which it was left on. With no session there is nothing to select.
pub proof fn law_where_the_cursor_lands(
    before: App,
    id: ProjectId,
    i: int,
    j: int,
    k: int,
    after: App,
    sent: Seq<Effect>,
    out: Seq<Effect>,
)
    requires
        before.records.keyed(),
        the_project(before.tree.projects@, id@) is Some,
        opens_project(before, id, after, sent, out),
    ensures
        ({
            let left = before.records.last_worktree_for_project@;
            let cards = before.records.last_session_for_worktree@;
            let sessions = sessions_of(&before, id@);
            &&& 0 <= i < left.len() && left[i].project@ == id@ && 0 <= j < cards.len()
                && cards[j].worktree@ == left[i].worktree@ && 0 <= k < sessions.len()
                && cards[j].session is Agent && cards[j].session->Agent_0@ == sessions[k].id@
                ==> after.sel_session == Some(cards[j].session)
            &&& (forall|m: int| 0 <= m < left.len() ==> (#[trigger] left[m]).project@ != id@)
                && sessions.len() > 0 ==> after.sel_session == Some(
                SessionRef::Agent(sessions[0].id),
            )
            &&& sessions.len() > 0 ==> after.sel_session is Some && exists|m: int|
                0 <= m < sessions.len() && after.sel_session->0 is Agent && (
                #[trigger] sessions[m]).id@ == after.sel_session->0->Agent_0@
            &&& sessions.len() == 0 ==> after.sel_session is None
            &&& after.sel_project is Some
        }),
{
    let left = before.records.last_worktree_for_project@;
    let cards = before.records.last_session_for_worktree@;
    let sessions = sessions_of(&before, id@);
    let lids = last_worktree_ids(left);
    let cids = last_session_ids(cards);
    let sids = session_ids(sessions);
    lemma_place_of(lids, id@);
    if 0 <= i < left.len() && left[i].project@ == id@ {
        assert(lids[i] == id@);
        lemma_distinct_place(lids, i);
        if 0 <= j < cards.len() && cards[j].worktree@ == left[i].worktree@ {
            assert(cids[j] == left[i].worktree@);
            lemma_distinct_place(cids, j);
            if 0 <= k < sessions.len() && cards[j].session is Agent && cards[j].session->Agent_0@
                == sessions[k].id@ {
                assert(sids[k] == sessions[k].id@);
                lemma_place_of(sids, sessions[k].id@);
            }
        }
    }
    if forall|m: int| 0 <= m < left.len() ==> (#[trigger] left[m]).project@ != id@ {
        if let Some(m) = place_of(lids, id@) {
            assert(left[m].project@ == id@);
        }
        assert(remembered(before, id@) is None);
    }
    if sessions.len() > 0 {
        let card = landing_card(before, id@)->0;
        lemma_place_of(sids, card@);
        if last_card(before, id@) is Some {
            let m = place_of(sids, card@)->0;
            assert(sids[m] == card@);
            assert(sessions[m].id@ == card@);
        } else {
            assert(sessions[0].id@ == card@);
        }
    }
}

/// The tab the grid is already on is left alone, and a project that is gone is
/// not opened: the selection stays as it is.
pub proof fn law_nothing_opens_twice_or_unseen(
    before: App,
    id: ProjectId,
    after: App,
    sent: Seq<Effect>,
    out: Seq<Effect>,
)
    requires
        opens_tab(before, id, after, sent, out),
    ensures
        before.project_on() is Some && before.project_on()->0.id@ == id@ ==> after == before && out
            == sent,
        !(before.project_on() is Some && before.project_on()->0.id@ == id@) && the_project(
            before.tree.projects@,
            id@,
        ) is None ==> after == (App { flash: after.flash, ..before }) && out == sent
            && after.flash is Some,
{
}

} // verus!
