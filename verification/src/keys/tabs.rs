//! The PROJECT TABS: walking them from the grid, the header's own cursor, and
//! closing one.

use crate::folders::{folder, project_in_folder_step, stepped_folder};
use crate::keys::aim::{only_says, say};
use crate::keys::projects::{
    law_opened_project_is_on_the_grid, open_tab, opens_tab, settle_project_tabs, settles,
};
use crate::launcher::{
    law_no_project_has_two_tabs, law_tabs_are_the_open_projects, project_tabs, scope_of, tabs_of,
    tabs_of_first,
};
use crate::layout::{less, Rect};
use crate::model::{distinct_ids, lemma_distinct_place, lemma_place_of, place_of, ProjectId};
use crate::picker::{clamp_selection, clamped_to};
use crate::state::{
    agent_ids, find_project_id, project_ids, the_project, worktree_ids, App, Effect, Hit, HitTarget,
    HitView,
};
use crate::text::{decimal, decimal_text, joined};
use crate::views::views;
use vstd::prelude::*;

verus! {

/// What the tab keys say over a full-screen session.
pub const NO_TABS_HERE: &'static str = "project tabs are on the grid's header — ^q back to it";
/// What the tab keys say with nothing to move between.
pub const NO_TABS: &'static str = "no projects open — + in the header opens one";
pub const ONE_TAB: &'static str = "one project open — + in the header opens another";
pub const ONE_FOLDER: &'static str = "every project is in one folder — { and } move between folders of repos";
/// What closing the only tab says.
pub const LAST_TAB: &'static str = "the only project open stays open — + opens another first";

// ---- where menus hang ----

/// The rectangle of the first hit that means `what`.
pub open spec fn hit_rect(hits: Seq<Hit>, what: HitView) -> Option<Rect>
    decreases hits.len(),
{
    if hits.len() == 0 {
        None
    } else if hits[0].target@ == what {
        Some(hits[0].rect)
    } else {
        hit_rect(hits.drop_first(), what)
    }
}

fn find_hit(hits: &Vec<Hit>, what: &HitTarget) -> (r: Option<Rect>)
    ensures
        r == hit_rect(hits@, what@),
{
    let mut i: usize = 0;
    assert(hits@.skip(0) =~= hits@);
    while i < hits.len()
        invariant
            i <= hits@.len(),
            hit_rect(hits@, what@) == hit_rect(hits@.skip(i as int), what@),
        decreases hits@.len() - i,
    {
        assert(hits@.skip(i as int)[0] == hits@[i as int]);
        assert(hits@.skip(i as int).drop_first() =~= hits@.skip(i + 1));
        if hits[i].target.same(what) {
            return Some(hits[i].rect);
        }
        i += 1;
    }
    None
}

/// Where a menu hangs off a part of the header: the row under it, at its own
/// left edge; the keyboard's anchor where the header had no room to draw it.
pub open spec fn anchor(app: App, crumb: HitView) -> (u16, u16) {
    match hit_rect(app.screen.hits@, crumb) {
        Some(r) => (r.x, (r.y + 1) as u16),
        None => app.facts.menu_anchor,
    }
}

/// The row under a part of the header can be named, where it was drawn.
pub open spec fn anchor_in_range(app: App, crumb: HitView) -> bool {
    match hit_rect(app.screen.hits@, crumb) {
        Some(r) => r.y < u16::MAX,
        None => true,
    }
}

/// Where a dropdown hangs off the header — the PROJECT DROPDOWN under the `+`,
/// a project's menu under its tab — so the list reads as belonging to it.
pub fn crumb_anchor(app: &App, crumb: &HitTarget) -> (r: (u16, u16))
    requires
        anchor_in_range(*app, crumb@),
    ensures
        r == anchor(*app, crumb@),
{
    match find_hit(&app.screen.hits, crumb) {
        Some(rect) => (rect.x, rect.y + 1),
        None => app.facts.menu_anchor,
    }
}

// ---- walking the tabs ----

/// The projects of the tabs the header draws.
pub open spec fn open_ids(app: App) -> Seq<ProjectId> {
    Seq::new(tabs_of(&app).len(), |i: int| tabs_of(&app)[i].id)
}

/// The tabs the header draws, by project, which are the ones the keys walk and
/// the ones a closed tab's neighbour is found among.
pub fn open_tabs(app: &App) -> (r: Vec<ProjectId>)
    ensures
        r@ == open_ids(*app),
{
    let tabs = project_tabs(app);
    let mut out: Vec<ProjectId> = Vec::new();
    let mut i: usize = 0;
    while i < tabs.len()
        invariant
            i <= tabs@.len(),
            tabs@ == tabs_of(app),
            out@ == open_ids(*app).take(i as int),
        decreases tabs@.len() - i,
    {
        out.push(tabs[i].id.clone());
        i += 1;
        assert(out@ =~= open_ids(*app).take(i as int));
    }
    assert(open_ids(*app).take(i as int) =~= open_ids(*app));
    out
}

/// The state once the tabs have settled, those of `after`.
pub open spec fn settled_as(before: App, after: App) -> App {
    App { launcher_tabs: after.launcher_tabs, ..before }
}

/// The place of the tab the grid is on.
pub open spec fn tab_place(app: App) -> Option<int> {
    match scope_of(app) {
        Some(id) => place_of(views(open_ids(app)), id),
        None => None,
    }
}

fn find_tab_on(app: &App, tabs: &Vec<ProjectId>) -> (r: Option<usize>)
    requires
        tabs@ == open_ids(*app),
    ensures
        match r {
            Some(i) => i < tabs@.len() && tab_place(*app) == Some(i as int),
            None => tab_place(*app) is None,
        },
{
    match app.selected_project() {
        Some(p) => find_project_id(tabs, &p.id),
        None => None,
    }
}

/// The tab `slot` names, counting from one; the first for none.
pub open spec fn slot_place(slot: u8) -> int {
    less(slot as int, 1)
}

/// The digit opened its tab, the tabs once settled.
pub open spec fn opens_slot(
    s: App,
    slot: u8,
    after: App,
    sent: Seq<Effect>,
    out: Seq<Effect>,
) -> bool {
    if slot_place(slot) < open_ids(s).len() {
        opens_tab(s, open_ids(s)[slot_place(slot)], after, sent, out)
    } else {
        only_says(
            s,
            after,
            "no project tab "@ + decimal(slot as nat) + " — + in the header opens one"@,
        ) && out == sent
    }
}

/// A digit: the Nth PROJECT TAB from the left, as a click on it opens it.
pub fn open_tab_slot(app: &mut App, slot: u8, out: &mut Vec<Effect>)
    ensures
        settles(*old(app), settled_as(*old(app), *final(app))),
        opens_slot(
            settled_as(*old(app), *final(app)),
            slot,
            *final(app),
            old(out)@,
            final(out)@,
        ),
{
    settle_project_tabs(app);
    let tabs = open_tabs(app);
    let at: usize = (slot as usize).saturating_sub(1);
    if at < tabs.len() {
        open_tab(app, &tabs[at], out);
    } else {
        let text = joined(
            &joined("no project tab ", &decimal_text(slot as u64)),
            " — + in the header opens one",
        );
        say(app, &text);
    }
}

/// The tab a step lands on: `delta` along from the one the grid is on,
/// stopping at either end; from no tab at all, the first or the last.
pub open spec fn stepped_tab(s: App, delta: int) -> int {
    let n = open_ids(s).len() as int;
    match tab_place(s) {
        Some(at) => clamped_to(at + delta, n),
        None => if delta < 0 {
            n - 1
        } else {
            0
        },
    }
}

/// The grid stepped along the tabs, the tabs once settled.
pub open spec fn steps_tab(
    s: App,
    delta: int,
    after: App,
    sent: Seq<Effect>,
    out: Seq<Effect>,
) -> bool {
    let n = open_ids(s).len();
    if n == 0 {
        only_says(s, after, NO_TABS@) && out == sent
    } else if tab_place(s) == Some(stepped_tab(s, delta)) {
        &&& out == sent
        &&& if n == 1 {
            only_says(s, after, ONE_TAB@)
        } else {
            after == s
        }
    } else {
        opens_tab(s, open_ids(s)[stepped_tab(s, delta)], after, sent, out)
    }
}

/// The tab `delta` along from the one the grid is on, stopping at either end
/// rather than wrapping round — from no tab at all, the first or the last.
pub fn step_tab(app: &mut App, delta: i64, out: &mut Vec<Effect>)
    ensures
        settles(*old(app), settled_as(*old(app), *final(app))),
        steps_tab(
            settled_as(*old(app), *final(app)),
            delta as int,
            *final(app),
            old(out)@,
            final(out)@,
        ),
{
    settle_project_tabs(app);
    let tabs = open_tabs(app);
    if tabs.len() == 0 {
        say(app, NO_TABS);
        return;
    }
    let at = find_tab_on(app, &tabs);
    let next: usize = match at {
        Some(i) => clamp_selection(i, delta, tabs.len()),
        None => if delta < 0 {
            tabs.len() - 1
        } else {
            0
        },
    };
    let stays: bool = match at {
        Some(i) => i == next,
        None => false,
    };
    if stays {
        if tabs.len() == 1 {
            say(app, ONE_TAB);
        }
        return;
    }
    open_tab(app, &tabs[next], out);
}

/// The strip swung onto another folder, the tabs once settled.
pub open spec fn steps_folder(
    s: App,
    next: Option<ProjectId>,
    after: App,
    sent: Seq<Effect>,
    out: Seq<Effect>,
) -> bool {
    match next {
        Some(id) => opens_tab(s, id, after, sent, out),
        None => only_says(s, after, ONE_FOLDER@) && out == sent,
    }
}

/// Swing the whole strip onto another FOLDER — the next set of repos that live
/// beside each other on disk, or the one before — landing on its first
/// project. A machine whose projects all share one folder has nowhere to go,
/// and says so.
pub fn step_folder(app: &mut App, forward: bool, out: &mut Vec<Effect>)
    ensures
        settles(*old(app), settled_as(*old(app), *final(app))),
        steps_folder(
            settled_as(*old(app), *final(app)),
            stepped_folder(*old(app), forward),
            *final(app),
            old(out)@,
            final(out)@,
        ),
{
    let next = project_in_folder_step(app, forward);
    settle_project_tabs(app);
    match next {
        Some(id) => open_tab(app, &id, out),
        None => say(app, ONE_FOLDER),
    }
}

// ---- the header's own cursor ----

/// The keys up on the tabs, their cursor on the tab of the project on screen.
pub open spec fn focuses_tabs(s: App, after: App) -> bool {
    let tabs = open_ids(s);
    if tabs.len() == 0 {
        only_says(s, after, NO_TABS@)
    } else {
        after == (App {
            launcher_tab_cursor: Some(
                match tab_place(s) {
                    Some(_) => s.project_on()->0.id,
                    None => tabs[0],
                },
            ),
            dirty: true,
            ..s
        })
    }
}

/// The keys go up to the PROJECT TABS, their cursor on the tab of the project
/// on screen. The card under the grid's cursor stays under it, and the pane
/// keeps reading it.
pub fn focus_tabs(app: &mut App)
    ensures
        settles(*old(app), settled_as(*old(app), *final(app))),
        focuses_tabs(settled_as(*old(app), *final(app)), *final(app)),
{
    settle_project_tabs(app);
    let tabs = open_tabs(app);
    if tabs.len() == 0 {
        say(app, NO_TABS);
        return;
    }
    let on: ProjectId = match find_tab_on(app, &tabs) {
        Some(_) => match app.selected_project() {
            Some(p) => p.id.clone(),
            None => tabs[0].clone(),
        },
        None => tabs[0].clone(),
    };
    app.launcher_tab_cursor = Some(on);
    app.dirty = true;
}

/// The state with the keys back on the cards.
pub open spec fn down_from_tabs(app: App) -> App {
    App { launcher_tab_cursor: None, dirty: app.dirty || app.launcher_tab_cursor is Some, ..app }
}

/// The keys back to the cards, on whichever project the header's cursor walked
/// the grid to.
pub fn leave_tabs(app: &mut App)
    ensures
        *final(app) == down_from_tabs(*old(app)),
{
    if app.launcher_tab_cursor.is_some() {
        app.launcher_tab_cursor = None;
        app.dirty = true;
    }
}

/// The place of the tab the header's cursor is on.
pub open spec fn cursor_tab_place(app: App) -> Option<int> {
    match app.launcher_tab_cursor {
        Some(id) => place_of(views(open_ids(app)), id@),
        None => None,
    }
}

/// The header's cursor walked, and the grid with it, the tabs once settled.
pub open spec fn walks_cursor(
    s: App,
    delta: int,
    after: App,
    sent: Seq<Effect>,
    out: Seq<Effect>,
) -> bool {
    let tabs = open_ids(s);
    match cursor_tab_place(s) {
        None => after == s && out == sent,
        Some(at) => if tabs.len() == 1 {
            only_says(s, after, ONE_TAB@) && out == sent
        } else {
            let next = clamped_to(at + delta, tabs.len() as int);
            if next == at {
                after == s && out == sent
            } else {
                opens_tab(
                    App { launcher_tab_cursor: Some(tabs[next]), dirty: true, ..s },
                    tabs[next],
                    after,
                    sent,
                    out,
                )
            }
        },
    }
}

/// The header's cursor `delta` tabs along, stopping at either end — and the
/// grid under it switches to that project at once, on the card it was last
/// left on. No Enter is needed to see a project, and the keys stay up here
/// until they go back down.
pub fn walk_tab_cursor(app: &mut App, delta: i64, out: &mut Vec<Effect>)
    ensures
        settles(*old(app), settled_as(*old(app), *final(app))),
        walks_cursor(
            settled_as(*old(app), *final(app)),
            delta as int,
            *final(app),
            old(out)@,
            final(out)@,
        ),
{
    settle_project_tabs(app);
    let tabs = open_tabs(app);
    let found: Option<usize> = match &app.launcher_tab_cursor {
        Some(on) => find_project_id(&tabs, on),
        None => None,
    };
    let at: usize = match found {
        Some(i) => i,
        None => return,
    };
    if tabs.len() == 1 {
        say(app, ONE_TAB);
        return;
    }
    let next: usize = clamp_selection(at, delta, tabs.len());
    if next == at {
        return;
    }
    app.launcher_tab_cursor = Some(tabs[next].clone());
    app.dirty = true;
    open_tab(app, &tabs[next], out);
}

/// Enter on the header's cursor, and a click on a tab while the header has the
/// keys: the keys go back to the cards of project `id`.
pub fn choose_tab(app: &mut App, id: &ProjectId, out: &mut Vec<Effect>)
    ensures
        opens_tab(down_from_tabs(*old(app)), *id, *final(app), old(out)@, final(out)@),
{
    leave_tabs(app);
    open_tab(app, id, out);
}

/// A left click on a PROJECT TAB. With the keys on the cards it is the tab
/// key's twin; with the header holding them it is Enter on that tab — so the
/// pointer never means something else than the key would in the same state.
pub fn click_tab(app: &mut App, id: &ProjectId, out: &mut Vec<Effect>)
    ensures
        opens_tab(down_from_tabs(*old(app)), *id, *final(app), old(out)@, final(out)@),
{
    if app.launcher_tab_cursor.is_some() {
        choose_tab(app, id, out);
    } else {
        open_tab(app, id, out);
    }
}

// ---- closing a tab ----

/// The tabs without those of project `id`.
pub open spec fn without_tab(tabs: Seq<ProjectId>, id: Seq<char>) -> Seq<ProjectId>
    decreases tabs.len(),
{
    if tabs.len() == 0 {
        Seq::empty()
    } else {
        let before = without_tab(tabs.drop_last(), id);
        if tabs.last()@ == id {
            before
        } else {
            before.push(tabs.last())
        }
    }
}

fn retain_other(tabs: &Vec<ProjectId>, id: &ProjectId) -> (r: Vec<ProjectId>)
    ensures
        r@ == without_tab(tabs@, id@),
{
    let mut out: Vec<ProjectId> = Vec::new();
    let mut i: usize = 0;
    assert(tabs@.take(0) =~= Seq::empty());
    while i < tabs.len()
        invariant
            i <= tabs@.len(),
            out@ == without_tab(tabs@.take(i as int), id@),
        decreases tabs@.len() - i,
    {
        assert(tabs@.take(i + 1).drop_last() =~= tabs@.take(i as int));
        if !tabs[i].same(id) {
            out.push(tabs[i].clone());
        }
        i += 1;
    }
    assert(tabs@.take(i as int) =~= tabs@);
    out
}

/// The tab that slides into a closed one's place: the one to its right, else
/// the one to its left.
pub open spec fn neighbour(tabs: Seq<ProjectId>, at: int) -> ProjectId {
    if at + 1 < tabs.len() {
        tabs[at + 1]
    } else {
        tabs[at - 1]
    }
}

/// A tab closed: refused where it is the only one; where the grid is on it, the
/// grid moves to the tab that slides into its place.
pub open spec fn closes_tab(
    before: App,
    id: Seq<char>,
    after: App,
    sent: Seq<Effect>,
    out: Seq<Effect>,
) -> bool {
    let tabs = open_ids(before);
    match place_of(views(tabs), id) {
        None => after == before && out == sent,
        Some(at) => if tabs.len() == 1 {
            only_says(before, after, LAST_TAB@) && out == sent
        } else {
            let s = App { launcher_tabs: after.launcher_tabs, dirty: true, ..before };
            &&& after.launcher_tabs@ == without_tab(before.launcher_tabs@, id)
            &&& if scope_of(before) == Some(id) {
                opens_tab(s, neighbour(tabs, at), after, sent, out)
            } else {
                after == s && out == sent
            }
        },
    }
}

/// Drop project `id`'s tab from the header. Nothing about the project changes:
/// its sessions run on. Closing the tab the grid is on moves the grid to the
/// tab that slides into its place; closing any other tab moves nothing. The
/// only tab left is refused: there is no tab to hand the grid to.
pub fn close_tab(app: &mut App, id: &ProjectId, out: &mut Vec<Effect>)
    ensures
        closes_tab(*old(app), id@, *final(app), old(out)@, final(out)@),
{
    let tabs = open_tabs(app);
    proof {
        lemma_place_of(views(tabs@), id@);
    }
    let at: usize = match find_project_id(&tabs, id) {
        Some(i) => i,
        None => return,
    };
    if tabs.len() == 1 {
        say(app, LAST_TAB);
        return;
    }
    let showing: bool = match app.selected_project() {
        Some(p) => p.id.same(id),
        None => false,
    };
    let left = retain_other(&app.launcher_tabs, id);
    app.launcher_tabs = left;
    app.dirty = true;
    if !showing {
        return;
    }
    let next: usize = if at + 1 < tabs.len() {
        at + 1
    } else {
        at - 1
    };
    open_tab(app, &tabs[next], out);
}

/// The grid's own tab closed, the tabs once settled.
pub open spec fn closes_active(s: App, after: App, sent: Seq<Effect>, out: Seq<Effect>) -> bool {
    match tab_place(s) {
        Some(_) => closes_tab(s, scope_of(s)->0, after, sent, out),
        None => only_says(s, after, NO_TABS@) && out == sent,
    }
}

/// Close the tab the grid is on — the selected project's.
pub fn close_active_tab(app: &mut App, out: &mut Vec<Effect>)
    ensures
        exists|s: App| #[trigger]
            settles(*old(app), s) && closes_active(s, *final(app), old(out)@, final(out)@),
{
    settle_project_tabs(app);
    let ghost s = *app;
    let tabs = open_tabs(app);
    proof {
        if scope_of(s) is Some {
            lemma_place_of(views(tabs@), scope_of(s)->0);
        }
    }
    let active: Option<ProjectId> = match find_tab_on(app, &tabs) {
        Some(i) => Some(tabs[i].clone()),
        None => None,
    };
    match active {
        Some(id) => {
            close_tab(app, &id, out);
            assert(closes_active(s, *app, old(out)@, out@));
        },
        None => {
            say(app, NO_TABS);
            assert(closes_active(s, *app, old(out)@, out@));
        },
    }
    assert(settles(*old(app), s));
}

/// Where the header's cursor goes when the tab under it, in place `at`, closed
/// and `tabs` are left.
pub open spec fn cursor_after(at: Option<int>, tabs: Seq<ProjectId>) -> Option<ProjectId> {
    match at {
        Some(at) => if tabs.len() == 0 {
            None
        } else if at < tabs.len() {
            Some(tabs[at])
        } else {
            Some(tabs[tabs.len() - 1])
        },
        None => None,
    }
}

/// The tab under the header's cursor closed, by way of `mid`: the cursor on
/// the tab that slid into its place, or where it was if the tab stayed.
pub open spec fn closes_under_cursor(before: App, on: Seq<char>, mid: App, after: App) -> bool {
    if place_of(views(open_ids(mid)), on) is Some {
        after == mid
    } else {
        after == (App {
            launcher_tab_cursor: cursor_after(
                place_of(views(open_ids(before)), on),
                open_ids(mid),
            ),
            dirty: true,
            ..mid
        })
    }
}

/// Close the tab the header's cursor is on, and put the cursor on the tab that
/// slid into its place. The last tab is refused, and the cursor stays on it.
pub fn close_cursor_tab(app: &mut App, on: &ProjectId, out: &mut Vec<Effect>)
    ensures
        exists|mid: App| #[trigger]
            closes_tab(*old(app), on@, mid, old(out)@, final(out)@) && closes_under_cursor(
                *old(app),
                on@,
                mid,
                *final(app),
            ),
{
    let before = open_tabs(app);
    let at = find_project_id(&before, on);
    close_tab(app, on, out);
    let ghost mid = *app;
    let tabs = open_tabs(app);
    if find_project_id(&tabs, on).is_some() {
        assert(closes_under_cursor(*old(app), on@, mid, *app));
        return;
    }
    let next: Option<ProjectId> = match at {
        Some(i) => if tabs.len() == 0 {
            None
        } else if i < tabs.len() {
            Some(tabs[i].clone())
        } else {
            Some(tabs[tabs.len() - 1].clone())
        },
        None => None,
    };
    app.launcher_tab_cursor = next;
    app.dirty = true;
    assert(closes_under_cursor(*old(app), on@, mid, *app));
}

// ---- what holds of it ----

proof fn lemma_without_tab(tabs: Seq<ProjectId>, id: Seq<char>)
    ensures
        forall|i: int|
            0 <= i < without_tab(tabs, id).len() ==> (#[trigger] without_tab(tabs, id)[i])@ != id,
    decreases tabs.len(),
{
    if tabs.len() > 0 {
        let before = without_tab(tabs.drop_last(), id);
        lemma_without_tab(tabs.drop_last(), id);
        assert forall|i: int| 0 <= i < without_tab(tabs, id).len() implies (
        #[trigger] without_tab(tabs, id)[i])@ != id by {
            if i < before.len() {
                assert(without_tab(tabs, id)[i] == before[i]);
            }
        }
    }
}

/// The only project open stays open.
pub proof fn law_only_tab_stays(
    before: App,
    id: Seq<char>,
    after: App,
    sent: Seq<Effect>,
    out: Seq<Effect>,
)
    requires
        open_ids(before).len() == 1,
        closes_tab(before, id, after, sent, out),
    ensures
        after.launcher_tabs == before.launcher_tabs,
        after.sel_project == before.sel_project,
        out == sent,
{
}

/// Closing a tab the grid is not on moves nothing but the tab.
pub proof fn law_closing_another_tab_moves_nothing(
    before: App,
    id: Seq<char>,
    after: App,
    sent: Seq<Effect>,
    out: Seq<Effect>,
)
    requires
        scope_of(before) != Some(id),
        closes_tab(before, id, after, sent, out),
    ensures
        after.sel_project == before.sel_project,
        after.sel_worktree == before.sel_worktree,
        after.sel_session == before.sel_session,
        after.focus == before.focus,
        after.launcher_unaimed == before.launcher_unaimed,
        out == sent,
{
}

proof fn lemma_tabs_name_projects(app: App, n: int)
    requires
        0 <= n <= app.launcher_tabs@.len(),
    ensures
        forall|i: int|
            0 <= i < tabs_of_first(&app, n).len() ==> the_project(
                app.tree.projects@,
                (#[trigger] tabs_of_first(&app, n)[i]).id@,
            ) is Some,
    decreases n,
{
    if n > 0 {
        lemma_tabs_name_projects(app, n - 1);
    }
}

/// A tab that closed is gone from the header, and the grid is on the tab that
/// slid into its place.
pub proof fn law_closed_tab_hands_the_grid_on(
    before: App,
    id: Seq<char>,
    after: App,
    sent: Seq<Effect>,
    out: Seq<Effect>,
)
    requires
        distinct_ids(agent_ids(before.tree.agents@)),
        distinct_ids(worktree_ids(before.tree.worktrees@)),
        open_ids(before).len() > 1,
        place_of(views(open_ids(before)), id) is Some,
        scope_of(before) == Some(id),
        closes_tab(before, id, after, sent, out),
    ensures
        place_of(views(after.launcher_tabs@), id) is None,
        ({
            let s = App { launcher_tabs: after.launcher_tabs, dirty: true, ..before };
            let next = neighbour(
                open_ids(before),
                place_of(views(open_ids(before)), id)->0,
            );
            &&& opens_tab(s, next, after, sent, out)
            &&& scope_of(after) == Some(next@)
        }),
{
    lemma_without_tab(before.launcher_tabs@, id);
    lemma_place_of(views(after.launcher_tabs@), id);
    if let Some(i) = place_of(views(after.launcher_tabs@), id) {
        assert(after.launcher_tabs@[i]@ == id);
        assert(without_tab(before.launcher_tabs@, id)[i]@ != id);
    }
    let tabs = open_ids(before);
    lemma_place_of(views(tabs), id);
    let at = place_of(views(tabs), id)->0;
    let s = App { launcher_tabs: after.launcher_tabs, dirty: true, ..before };
    let next = neighbour(tabs, at);
    let k = if at + 1 < tabs.len() {
        at + 1
    } else {
        at - 1
    };
    lemma_tabs_name_projects(before, before.launcher_tabs@.len() as int);
    assert(tabs_of(&before)[k].id == next);
    if scope_of(s) != Some(next@) {
        law_opened_project_is_on_the_grid(s, next, after, sent, out);
    }
}

/// Walking past either end of the tabs goes nowhere.
pub proof fn law_tab_steps_stop_at_the_ends(s: App, delta: int)
    requires
        open_ids(s).len() > 0,
    ensures
        0 <= stepped_tab(s, delta) < open_ids(s).len(),
        tab_place(s) == Some(0int) && delta < 0 ==> stepped_tab(s, delta) == 0,
        tab_place(s) == Some(open_ids(s).len() - 1) && delta > 0 ==> stepped_tab(s, delta)
            == open_ids(s).len() - 1,
{
    if let Some(id) = scope_of(s) {
        lemma_place_of(views(open_ids(s)), id);
    }
}

/// The keys up on the tabs and back down end where they began: on the same
/// card, nothing opened.
pub proof fn law_up_and_down_again(s: App, up: App)
    requires
        focuses_tabs(s, up),
        open_ids(s).len() > 0,
        s.launcher_tab_cursor is None,
    ensures
        up.launcher_tab_cursor is Some,
        down_from_tabs(up) == (App { dirty: true, ..s }),
{
}

/// The tabs drawn each name a project that is there, of the folder on screen.
proof fn lemma_open_tab(s: App, i: int)
    requires
        0 <= i < open_ids(s).len(),
    ensures
        the_project(s.tree.projects@, open_ids(s)[i]@) is Some,
        s.launcher_tabs@.contains(open_ids(s)[i]),
        s.project_on() is Some ==> folder(
            the_project(s.tree.projects@, open_ids(s)[i]@)->0.repo_path@,
        ) == folder(s.project_on()->0.repo_path@),
{
    assert(s.launcher_tabs@.len() > 0) by {
        if s.launcher_tabs@.len() == 0 {
            assert(tabs_of_first(&s, 0).len() == 0);
        }
    }
    law_tabs_are_the_open_projects(s, 0, i);
    assert(tabs_of(&s)[i].id == open_ids(s)[i]);
}

/// Moving the grid within the folder changes none of the tabs drawn.
proof fn lemma_same_tabs(s: App, after: App, n: int)
    requires
        0 <= n <= s.launcher_tabs@.len(),
        after.tree == s.tree,
        after.launcher_tabs == s.launcher_tabs,
        s.project_on() is Some,
        after.project_on() is Some,
        folder(after.project_on()->0.repo_path@) == folder(s.project_on()->0.repo_path@),
    ensures
        tabs_of_first(&after, n).len() == tabs_of_first(&s, n).len(),
        forall|i: int|
            0 <= i < tabs_of_first(&s, n).len() ==> (#[trigger] tabs_of_first(&after, n)[i]).id
                == tabs_of_first(&s, n)[i].id,
    decreases n,
{
    if n > 0 {
        lemma_same_tabs(s, after, n - 1);
        let (a, b) = (tabs_of_first(&s, n - 1), tabs_of_first(&after, n - 1));
        assert forall|i: int| 0 <= i < tabs_of_first(&s, n).len() implies (
        #[trigger] tabs_of_first(&after, n)[i]).id == tabs_of_first(&s, n)[i].id by {
            if i < a.len() {
                assert(tabs_of_first(&s, n)[i] == a[i]);
                assert(tabs_of_first(&after, n)[i] == b[i]);
            }
        }
    }
}

proof fn lemma_drawn_once(s: App)
    requires
        distinct_ids(views(s.launcher_tabs@)),
    ensures
        distinct_ids(views(open_ids(s))),
{
    assert forall|i: int, j: int|
        0 <= i < views(open_ids(s)).len() && 0 <= j < views(open_ids(s)).len() && i != j implies
        #[trigger] views(open_ids(s))[i] != #[trigger] views(open_ids(s))[j] by {
        if i < j {
            law_no_project_has_two_tabs(s, i, j);
        } else {
            law_no_project_has_two_tabs(s, j, i);
        }
    }
}

/// A tab that was opened is the one the grid is on, and the tabs stay as they
/// are.
proof fn lemma_onto_tab(
    s: App,
    i: int,
    after: App,
    sent: Seq<Effect>,
    out: Seq<Effect>,
)
    requires
        distinct_ids(agent_ids(s.tree.agents@)),
        distinct_ids(worktree_ids(s.tree.worktrees@)),
        0 <= i < open_ids(s).len(),
        opens_tab(s, open_ids(s)[i], after, sent, out),
    ensures
        scope_of(after) == Some(open_ids(s)[i]@),
        after.tree == s.tree,
        after.launcher_tabs == s.launcher_tabs,
        after.launcher_tab_cursor == s.launcher_tab_cursor,
        s.project_on() is Some ==> open_ids(after) == open_ids(s),
{
    let id = open_ids(s)[i];
    lemma_open_tab(s, i);
    let pids = project_ids(s.tree.projects@);
    lemma_place_of(pids, id@);
    if scope_of(s) != Some(id@) {
        law_opened_project_is_on_the_grid(s, id, after, sent, out);
    }
    if s.project_on() is Some {
        let on = after.project_on()->0;
        let sel = after.sel_project->0;
        lemma_place_of(pids, sel@);
        assert(pids[place_of(pids, sel@)->0] == sel@);
        assert(on.id@ == sel@);
        lemma_same_tabs(s, after, s.launcher_tabs@.len() as int);
        assert(open_ids(after) =~= open_ids(s));
    }
}

/// From the tab in place `at`, a step of `delta` lands on the tab in place
/// `at + delta` wherever there is one, and on the end it was going to where
/// there is none. From no tab at all a step back lands on the last and any
/// other on the first.
pub proof fn law_tab_step_goes_that_far(
    s: App,
    at: int,
    delta: int,
    after: App,
    sent: Seq<Effect>,
    out: Seq<Effect>,
)
    requires
        distinct_ids(agent_ids(s.tree.agents@)),
        distinct_ids(worktree_ids(s.tree.worktrees@)),
        distinct_ids(views(s.launcher_tabs@)),
        open_ids(s).len() > 0,
        steps_tab(s, delta, after, sent, out),
    ensures
        ({
            let tabs = open_ids(s);
            let n = tabs.len() as int;
            let on = 0 <= at < n && scope_of(s) == Some(tabs[at]@);
            &&& on ==> open_ids(after) == tabs
            &&& on && 0 <= at + delta < n ==> stepped_tab(s, delta) == at + delta && scope_of(
                after,
            ) == Some(tabs[at + delta]@)
            &&& on && at + delta < 0 ==> scope_of(after) == Some(tabs[0]@)
            &&& on && at + delta >= n ==> scope_of(after) == Some(tabs[n - 1]@)
            &&& (forall|i: int| 0 <= i < n ==> scope_of(s) != Some((#[trigger] tabs[i])@))
                ==> scope_of(after) == Some(
                if delta < 0 {
                    tabs[n - 1]@
                } else {
                    tabs[0]@
                },
            )
            &&& after.tree == s.tree && after.launcher_tabs == s.launcher_tabs
        }),
{
    let tabs = open_ids(s);
    let n = tabs.len() as int;
    lemma_drawn_once(s);
    if 0 <= at < n && scope_of(s) == Some(tabs[at]@) {
        assert(views(tabs)[at] == tabs[at]@);
        lemma_distinct_place(views(tabs), at);
        assert(tab_place(s) == Some(at));
    }
    if let Some(id) = scope_of(s) {
        lemma_place_of(views(tabs), id);
        if let Some(i) = place_of(views(tabs), id) {
            assert(views(tabs)[i] == tabs[i]@);
        }
    }
    let to = stepped_tab(s, delta);
    if tab_place(s) == Some(to) {
        assert(scope_of(after) == scope_of(s));
        if n == 1 {
            lemma_same_tabs(s, after, s.launcher_tabs@.len() as int);
            assert(open_ids(after) =~= open_ids(s));
        }
    } else {
        lemma_onto_tab(s, to, after, sent, out);
    }
}

/// A step along the tabs and the same step back end on the tab they began on,
/// wherever the first did not run into an end.
pub proof fn law_tab_step_and_back(
    s: App,
    at: int,
    delta: int,
    mid: App,
    after: App,
    sent: Seq<Effect>,
    half: Seq<Effect>,
    out: Seq<Effect>,
)
    requires
        distinct_ids(agent_ids(s.tree.agents@)),
        distinct_ids(worktree_ids(s.tree.worktrees@)),
        distinct_ids(views(s.launcher_tabs@)),
        0 <= at < open_ids(s).len(),
        0 <= at + delta < open_ids(s).len(),
        scope_of(s) == Some(open_ids(s)[at]@),
        steps_tab(s, delta, mid, sent, half),
        steps_tab(mid, -delta, after, half, out),
    ensures
        scope_of(mid) == Some(open_ids(s)[at + delta]@),
        scope_of(after) == scope_of(s),
{
    law_tab_step_goes_that_far(s, at, delta, mid, sent, half);
    law_tab_step_goes_that_far(mid, at + delta, -delta, after, half, out);
}

/// The header's cursor goes as far along the tabs as it is sent, or to the end
/// on the way, and takes the grid with it.
pub proof fn law_header_cursor_goes_that_far(
    s: App,
    at: int,
    delta: int,
    after: App,
    sent: Seq<Effect>,
    out: Seq<Effect>,
)
    requires
        distinct_ids(agent_ids(s.tree.agents@)),
        distinct_ids(worktree_ids(s.tree.worktrees@)),
        distinct_ids(views(s.launcher_tabs@)),
        open_ids(s).len() > 1,
        0 <= at < open_ids(s).len(),
        s.launcher_tab_cursor is Some,
        s.launcher_tab_cursor->0@ == open_ids(s)[at]@,
        walks_cursor(s, delta, after, sent, out),
    ensures
        ({
            let tabs = open_ids(s);
            let n = tabs.len() as int;
            let to = if at + delta < 0 {
                0
            } else if at + delta >= n {
                n - 1
            } else {
                at + delta
            };
            &&& after.launcher_tab_cursor is Some
            &&& after.launcher_tab_cursor->0@ == tabs[to]@
            &&& to != at ==> scope_of(after) == Some(tabs[to]@)
            &&& to == at ==> after == s && out == sent
        }),
{
    let tabs = open_ids(s);
    lemma_drawn_once(s);
    assert(views(tabs)[at] == tabs[at]@);
    lemma_distinct_place(views(tabs), at);
    let next = clamped_to(at + delta, tabs.len() as int);
    if next != at {
        let moved = App { launcher_tab_cursor: Some(tabs[next]), dirty: true, ..s };
        if s.project_on() is Some {
            lemma_same_tabs(s, moved, s.launcher_tabs@.len() as int);
        } else {
            lemma_same_tabs_unscoped(s, moved, s.launcher_tabs@.len() as int);
        }
        assert(open_ids(moved) =~= tabs);
        lemma_onto_tab(moved, next, after, sent, out);
    }
}

proof fn lemma_same_tabs_unscoped(s: App, after: App, n: int)
    requires
        0 <= n <= s.launcher_tabs@.len(),
        after.tree == s.tree,
        after.launcher_tabs == s.launcher_tabs,
        s.project_on() is None,
        after.project_on() is None,
    ensures
        tabs_of_first(&after, n).len() == tabs_of_first(&s, n).len(),
        forall|i: int|
            0 <= i < tabs_of_first(&s, n).len() ==> (#[trigger] tabs_of_first(&after, n)[i]).id
                == tabs_of_first(&s, n)[i].id,
    decreases n,
{
    if n > 0 {
        lemma_same_tabs_unscoped(s, after, n - 1);
        let (a, b) = (tabs_of_first(&s, n - 1), tabs_of_first(&after, n - 1));
        assert forall|i: int| 0 <= i < tabs_of_first(&s, n).len() implies (
        #[trigger] tabs_of_first(&after, n)[i]).id == tabs_of_first(&s, n)[i].id by {
            if i < a.len() {
                assert(tabs_of_first(&s, n)[i] == a[i]);
                assert(tabs_of_first(&after, n)[i] == b[i]);
            }
        }
    }
}

/// The digit `n` puts the grid on the tab that is the `n`th from the left; one
/// past the last moves nothing.
pub proof fn law_digit_opens_its_tab(
    s: App,
    slot: u8,
    after: App,
    sent: Seq<Effect>,
    out: Seq<Effect>,
)
    requires
        distinct_ids(agent_ids(s.tree.agents@)),
        distinct_ids(worktree_ids(s.tree.worktrees@)),
        slot > 0,
        opens_slot(s, slot, after, sent, out),
    ensures
        slot <= open_ids(s).len() ==> scope_of(after) == Some(open_ids(s)[slot - 1]@),
        slot > open_ids(s).len() ==> {
            &&& out == sent
            &&& after.sel_project == s.sel_project
            &&& after.sel_worktree == s.sel_worktree
            &&& after.sel_session == s.sel_session
            &&& after.flash is Some
        },
        after.launcher_tabs == s.launcher_tabs,
{
    if slot <= open_ids(s).len() {
        lemma_onto_tab(s, slot - 1, after, sent, out);
    }
}

/// The keys go up to the tab of the project on screen, where it has one, and
/// else to the first.
pub proof fn law_header_cursor_starts_on_the_screen(s: App, after: App, i: int)
    requires
        focuses_tabs(s, after),
        0 <= i < open_ids(s).len(),
    ensures
        after.launcher_tab_cursor is Some,
        scope_of(s) == Some(open_ids(s)[i]@) ==> after.launcher_tab_cursor->0@
            == open_ids(s)[i]@,
        (forall|k: int|
            0 <= k < open_ids(s).len() ==> scope_of(s) != Some((#[trigger] open_ids(s)[k])@))
            ==> after.launcher_tab_cursor->0 == open_ids(s)[0],
        after.dirty,
        scope_of(after) == scope_of(s),
        after.sel_session == s.sel_session,
{
    let tabs = open_ids(s);
    if let Some(id) = scope_of(s) {
        lemma_place_of(views(tabs), id);
        assert(views(tabs)[i] == tabs[i]@);
        if let Some(k) = place_of(views(tabs), id) {
            assert(views(tabs)[k] == tabs[k]@);
        }
    }
}

proof fn lemma_without_keeps(tabs: Seq<ProjectId>, id: Seq<char>)
    ensures
        without_tab(tabs, id) == tabs.filter(|t: ProjectId| t@ != id),
    decreases tabs.len(),
{
    let other = |t: ProjectId| t@ != id;
    if tabs.len() > 0 {
        lemma_without_keeps(tabs.drop_last(), id);
        assert(tabs =~= tabs.drop_last().push(tabs.last()));
        tabs.drop_last().lemma_filter_push(tabs.last(), other);
    } else {
        reveal(Seq::filter);
        assert(tabs.filter(other) =~= Seq::empty());
    }
}

/// Closing a tab takes that tab out and leaves the others in their order; the
/// grid, where it was on the tab, goes to the one on the right, and from the
/// last tab to the one on the left.
pub proof fn law_closing_takes_one_tab_out(
    before: App,
    at: int,
    after: App,
    sent: Seq<Effect>,
    out: Seq<Effect>,
)
    requires
        distinct_ids(agent_ids(before.tree.agents@)),
        distinct_ids(worktree_ids(before.tree.worktrees@)),
        distinct_ids(views(before.launcher_tabs@)),
        0 <= at < open_ids(before).len(),
        open_ids(before).len() > 1,
        closes_tab(before, open_ids(before)[at]@, after, sent, out),
    ensures
        ({
            let tabs = open_ids(before);
            let id = tabs[at]@;
            &&& after.launcher_tabs@ == before.launcher_tabs@.filter(|t: ProjectId| t@ != id)
            &&& scope_of(before) == Some(id) && at + 1 < tabs.len() ==> scope_of(after) == Some(
                tabs[at + 1]@,
            )
            &&& scope_of(before) == Some(id) && at + 1 == tabs.len() ==> scope_of(after) == Some(
                tabs[at - 1]@,
            )
            &&& scope_of(before) != Some(id) ==> scope_of(after) == scope_of(before)
                && after.sel_session == before.sel_session && out == sent && after.dirty
        }),
{
    let tabs = open_ids(before);
    let id = tabs[at]@;
    lemma_drawn_once(before);
    assert(views(tabs)[at] == id);
    lemma_distinct_place(views(tabs), at);
    lemma_without_keeps(before.launcher_tabs@, id);
    if scope_of(before) == Some(id) {
        law_closed_tab_hands_the_grid_on(before, id, after, sent, out);
    }
}

/// The only tab, and an id no tab has, are left alone: the grid stays where it
/// is and so do the tabs.
pub proof fn law_what_is_not_closed_stays(
    before: App,
    id: Seq<char>,
    after: App,
    sent: Seq<Effect>,
    out: Seq<Effect>,
)
    requires
        closes_tab(before, id, after, sent, out),
        open_ids(before).len() == 1 || forall|i: int|
            0 <= i < open_ids(before).len() ==> (#[trigger] open_ids(before)[i])@ != id,
    ensures
        after == (App { flash: after.flash, ..before }),
        out == sent,
{
    let tabs = open_ids(before);
    lemma_place_of(views(tabs), id);
    if let Some(k) = place_of(views(tabs), id) {
        assert(views(tabs)[k] == tabs[k]@);
    }
}

/// Once the tab under it closed, the header's cursor is on the tab that took
/// its place from the right, or on the last one left where it was the last.
pub proof fn law_header_cursor_after_a_close(
    before: App,
    at: int,
    mid: App,
    after: App,
)
    requires
        0 <= at < open_ids(before).len(),
        distinct_ids(views(open_ids(before))),
        forall|i: int|
            0 <= i < open_ids(mid).len() ==> (#[trigger] open_ids(mid)[i])@ != open_ids(
                before,
            )[at]@,
        closes_under_cursor(before, open_ids(before)[at]@, mid, after),
    ensures
        ({
            let left = open_ids(mid);
            &&& at < left.len() ==> after.launcher_tab_cursor == Some(left[at])
            &&& 0 < left.len() <= at ==> after.launcher_tab_cursor == Some(left.last())
            &&& left.len() == 0 ==> after.launcher_tab_cursor is None
        }),
{
    let (tabs, left) = (open_ids(before), open_ids(mid));
    assert(views(tabs)[at] == tabs[at]@);
    lemma_distinct_place(views(tabs), at);
    lemma_place_of(views(left), tabs[at]@);
    if let Some(k) = place_of(views(left), tabs[at]@) {
        assert(views(left)[k] == left[k]@);
    }
}

proof fn lemma_hit_rect(hits: Seq<Hit>, what: HitView, i: int)
    requires
        0 <= i < hits.len(),
        hits[i].target@ == what,
        forall|k: int| 0 <= k < i ==> (#[trigger] hits[k]).target@ != what,
    ensures
        hit_rect(hits, what) == Some(hits[i].rect),
    decreases hits.len(),
{
    if i > 0 {
        assert(hits[0].target@ != what);
        let rest = hits.drop_first();
        assert forall|k: int| 0 <= k < i - 1 implies (#[trigger] rest[k]).target@ != what by {
            assert(rest[k] == hits[k + 1]);
        }
        assert(rest[i - 1] == hits[i]);
        lemma_hit_rect(rest, what, i - 1);
    }
}

proof fn lemma_no_hit(hits: Seq<Hit>, what: HitView)
    requires
        forall|k: int| 0 <= k < hits.len() ==> (#[trigger] hits[k]).target@ != what,
    ensures
        hit_rect(hits, what) is None,
    decreases hits.len(),
{
    if hits.len() > 0 {
        assert(hits[0].target@ != what);
        let rest = hits.drop_first();
        assert forall|k: int| 0 <= k < rest.len() implies (#[trigger] rest[k]).target@
            != what by {
            assert(rest[k] == hits[k + 1]);
        }
        lemma_no_hit(rest, what);
    }
}

/// A menu hangs right under the part of the header it belongs to, at its left
/// edge; where that part was not drawn, where the keyboard's menus go.
pub proof fn law_menu_hangs_under_its_part(app: App, what: HitView, i: int)
    requires
        anchor_in_range(app, what),
    ensures
        ({
            let hits = app.screen.hits@;
            &&& 0 <= i < hits.len() && hits[i].target@ == what && (forall|k: int|
                0 <= k < i ==> (#[trigger] hits[k]).target@ != what) ==> {
                &&& anchor(app, what).0 == hits[i].rect.x
                &&& anchor(app, what).1 == hits[i].rect.y + 1
            }
            &&& (forall|k: int| 0 <= k < hits.len() ==> (#[trigger] hits[k]).target@ != what)
                ==> anchor(app, what) == app.facts.menu_anchor
        }),
{
    let hits = app.screen.hits@;
    if 0 <= i < hits.len() && hits[i].target@ == what && (forall|k: int|
        0 <= k < i ==> (#[trigger] hits[k]).target@ != what) {
        lemma_hit_rect(hits, what, i);
    }
    if forall|k: int| 0 <= k < hits.len() ==> (#[trigger] hits[k]).target@ != what {
        lemma_no_hit(hits, what);
    }
}

/// The digit for none means the first tab.
pub proof fn law_no_digit_opens_the_first_tab(
    s: App,
    after: App,
    sent: Seq<Effect>,
    out: Seq<Effect>,
)
    requires
        distinct_ids(agent_ids(s.tree.agents@)),
        distinct_ids(worktree_ids(s.tree.worktrees@)),
        open_ids(s).len() > 0,
        opens_slot(s, 0, after, sent, out),
    ensures
        scope_of(after) == Some(open_ids(s)[0]@),
{
    lemma_onto_tab(s, 0, after, sent, out);
}

/// The tab closed by the grid's own key is the one of the project on screen.
pub proof fn law_own_tab_is_the_one_closed(
    s: App,
    at: int,
    after: App,
    sent: Seq<Effect>,
    out: Seq<Effect>,
)
    requires
        distinct_ids(agent_ids(s.tree.agents@)),
        distinct_ids(worktree_ids(s.tree.worktrees@)),
        distinct_ids(views(s.launcher_tabs@)),
        0 <= at < open_ids(s).len(),
        scope_of(s) == Some(open_ids(s)[at]@),
        closes_active(s, after, sent, out),
    ensures
        ({
            let tabs = open_ids(s);
            let id = tabs[at]@;
            &&& tabs.len() == 1 ==> after == (App { flash: after.flash, ..s }) && out == sent
            &&& tabs.len() > 1 ==> after.launcher_tabs@ == s.launcher_tabs@.filter(
                |t: ProjectId| t@ != id,
            )
            &&& at + 1 < tabs.len() ==> scope_of(after) == Some(tabs[at + 1]@)
            &&& at + 1 == tabs.len() && at > 0 ==> scope_of(after) == Some(tabs[at - 1]@)
        }),
{
    let tabs = open_ids(s);
    lemma_drawn_once(s);
    assert(views(tabs)[at] == tabs[at]@);
    lemma_distinct_place(views(tabs), at);
    if tabs.len() > 1 {
        law_closing_takes_one_tab_out(s, at, after, sent, out);
    } else {
        law_what_is_not_closed_stays(s, tabs[at]@, after, sent, out);
    }
}

/// Clicking a tab, or pressing Enter on it, puts the grid on its project and
/// the keys on the cards, and leaves the tabs as they are.
pub proof fn law_clicked_tab_is_on_the_grid(
    before: App,
    id: ProjectId,
    after: App,
    sent: Seq<Effect>,
    out: Seq<Effect>,
)
    requires
        distinct_ids(agent_ids(before.tree.agents@)),
        distinct_ids(worktree_ids(before.tree.worktrees@)),
        the_project(before.tree.projects@, id@) is Some,
        opens_tab(down_from_tabs(before), id, after, sent, out),
    ensures
        scope_of(after) == Some(id@),
        after.launcher_tab_cursor is None,
        after.launcher_tabs == before.launcher_tabs,
{
    let down = down_from_tabs(before);
    if scope_of(down) != Some(id@) {
        law_opened_project_is_on_the_grid(down, id, after, sent, out);
    }
}

/// A folder step puts the grid on the project it was to land on; with nowhere
/// to go it only says so.
pub proof fn law_folder_step_moves_the_grid(
    s: App,
    next: Option<ProjectId>,
    after: App,
    sent: Seq<Effect>,
    out: Seq<Effect>,
)
    requires
        distinct_ids(agent_ids(s.tree.agents@)),
        distinct_ids(worktree_ids(s.tree.worktrees@)),
        next is Some ==> the_project(s.tree.projects@, next->0@) is Some,
        steps_folder(s, next, after, sent, out),
    ensures
        next is Some ==> scope_of(after) == Some(next->0@),
        next is None ==> after == (App { flash: after.flash, ..s }) && out == sent && after.flash
            is Some,
{
    if let Some(id) = next {
        if scope_of(s) != Some(id@) {
            law_opened_project_is_on_the_grid(s, id, after, sent, out);
        }
    }
}

/// With no project on screen, or none that has a tab, the grid's own key closes
/// nothing and says so.
pub proof fn law_no_tab_of_its_own_closes_nothing(
    s: App,
    after: App,
    sent: Seq<Effect>,
    out: Seq<Effect>,
)
    requires
        closes_active(s, after, sent, out),
        forall|i: int|
            0 <= i < open_ids(s).len() ==> scope_of(s) != Some((#[trigger] open_ids(s)[i])@),
    ensures
        after == (App { flash: after.flash, ..s }),
        after.flash is Some,
        out == sent,
{
    let tabs = open_ids(s);
    if let Some(id) = scope_of(s) {
        lemma_place_of(views(tabs), id);
        if let Some(k) = place_of(views(tabs), id) {
            assert(views(tabs)[k] == tabs[k]@);
        }
    }
}

} // verus!
