//! The menus of the view: a project's own, and the dropdown of them all.

use crate::keys::aim::{only_says, say};
use crate::keys::projects::{open_tab, opens_tab};
use crate::keys::tabs::{anchor, anchor_in_range, crumb_anchor};
use crate::launcher::{
    card_keys, card_of, checkout_for, checkout_of, project_cards, scope_of, sessions_of,
    ProjectCard,
};
use crate::model::{lemma_place_of, place_of, Project, ProjectId};
use crate::order::order_of;
use crate::state::{
    find_worktree, the_worktree, ActionView, App, ContextMenu, Effect, HitTarget, HitView,
    ItemView, MenuAction, MenuFilter, MenuItem, Overlay,
};
use crate::text::{decimal, decimal_text, joined};
use crate::views::{group_views, opt, views};
use vstd::prelude::*;

verus! {

/// What the PROJECT DROPDOWN says with no project to list.
pub const NO_PROJECTS: &'static str = "no projects yet — o opens a folder";
/// The PROJECT DROPDOWN's last row: a folder that is not a project yet.
pub const OPEN_FOLDER: &'static str = "+ open a folder…";
/// What a row that is already picked wears at its end.
pub const TICK: &'static str = " ✓";

/// A menu on screen.
pub struct MenuView {
    pub title: Option<Seq<char>>,
    pub items: Seq<ItemView>,
    pub at: Option<(u16, u16)>,
    pub hover: int,
    /// Typing narrows it.
    pub filtered: bool,
}

/// `m` is the menu.
pub open spec fn is_menu(m: ContextMenu, v: MenuView) -> bool {
    &&& opt(m.title) == v.title
    &&& views(m.items@) == v.items
    &&& m.at == v.at
    &&& m.hover == v.hover
    &&& match m.filter {
        Some(f) => v.filtered && f.query@.len() == 0 && views(f.all@) == v.items,
        None => !v.filtered,
    }
}

/// The menu lies over the view.
pub open spec fn over_view(app: App, v: MenuView) -> bool {
    match app.overlay {
        Some(Overlay::Menu(m)) => is_menu(m, v),
        _ => false,
    }
}

/// A row of a menu.
pub open spec fn item(label: Seq<char>, action: ActionView) -> ItemView {
    ItemView { label, action, destructive: false }
}

/// A row of a menu that throws something away.
pub open spec fn harmful(label: Seq<char>, action: ActionView) -> ItemView {
    ItemView { label, action, destructive: true }
}

/// One more row of a menu.
pub(crate) fn push_item(items: &mut Vec<MenuItem>, label: &str, action: MenuAction, destructive: bool)
    ensures
        views(final(items)@) == views(old(items)@).push(
            ItemView { label: label@, action: action@, destructive },
        ),
{
    broadcast use group_views;

    items.push(MenuItem { label: label.to_owned(), action, destructive });
}

/// The same rows again.
pub(crate) fn copy_items(items: &Vec<MenuItem>) -> (r: Vec<MenuItem>)
    ensures
        r@ == items@,
{
    let mut out: Vec<MenuItem> = Vec::new();
    let mut i: usize = 0;
    while i < items.len()
        invariant
            i <= items@.len(),
            out@ == items@.take(i as int),
        decreases items@.len() - i,
    {
        out.push(items[i].clone());
        i += 1;
        assert(out@ =~= items@.take(i as int));
    }
    assert(items@.take(i as int) =~= items@);
    out
}

// ---- a project's own menu ----

/// The run command of the checkout is running.
pub open spec fn runs(app: App, id: Seq<char>) -> bool {
    match the_worktree(app.tree.worktrees@, id) {
        Some(w) => w.running,
        None => false,
    }
}

/// The checkout is a root.
pub open spec fn is_root(app: App, id: Seq<char>) -> bool {
    exists|j: int|
        0 <= j < app.tree.worktrees@.len() && #[trigger] app.tree.worktrees@[j].id@ == id
            && app.tree.worktrees@[j].is_main
}

/// What a project's menu does with the checkout it acts on.
pub open spec fn checkout_items(app: App, id: Seq<char>) -> Seq<ItemView> {
    let both = seq![
        item(
            if runs(app, id) {
                "Stop run"@
            } else {
                "Run"@
            },
            ActionView::ToggleRun(id),
        ),
        item("Open"@, ActionView::OpenWorktree(id)),
    ];
    if is_root(app, id) {
        both
    } else {
        both.push(harmful("Delete worktree"@, ActionView::DeleteWorktree(id)))
    }
}

/// A project's menu: a checkout cut in it, the run command of the checkout the
/// grid would launch into, the project renamed or dropped. A root is never
/// offered for deletion.
pub open spec fn project_items(app: App, project: Seq<char>) -> Seq<ItemView> {
    seq![item("New worktree"@, ActionView::NewWorktree(project))] + (match checkout_of(
        app,
        project,
    ) {
        Some(id) => checkout_items(app, id),
        None => Seq::empty(),
    }) + seq![
        item("Rename"@, ActionView::RenameProject(project)),
        harmful("Remove from list"@, ActionView::RemoveProject(project)),
    ]
}

/// The menu of the project the grid is on, hung at `at`; nothing with none.
pub open spec fn shows_project_menu(before: App, at: (u16, u16), after: App) -> bool {
    match scope_of(before) {
        None => after == before,
        Some(project) => {
            &&& after == (App { overlay: after.overlay, ..before })
            &&& over_view(
                after,
                MenuView {
                    title: None,
                    items: project_items(before, project),
                    at: Some(at),
                    hover: 0,
                    filtered: false,
                },
            )
        },
    }
}

fn root_checkout_named(app: &App, id: &crate::model::WorktreeId) -> (r: bool)
    ensures
        r == is_root(*app, id@),
{
    let mut j: usize = 0;
    while j < app.tree.worktrees.len()
        invariant
            j <= app.tree.worktrees@.len(),
            forall|k: int|
                0 <= k < j ==> !(#[trigger] app.tree.worktrees@[k].id@ == id@
                    && app.tree.worktrees@[k].is_main),
        decreases app.tree.worktrees@.len() - j,
    {
        let w = &app.tree.worktrees[j];
        if w.id.same(id) && w.is_main {
            return true;
        }
        j += 1;
    }
    false
}

fn build_project_items(app: &App, project: &ProjectId) -> (r: Vec<MenuItem>)
    ensures
        views(r@) == project_items(*app, project@),
{
    let mut items: Vec<MenuItem> = Vec::new();
    push_item(&mut items, "New worktree", MenuAction::NewWorktree(project.clone()), false);
    let ghost first = views(items@);
    assert(first =~= seq![item("New worktree"@, ActionView::NewWorktree(project@))]);
    if let Some(w) = checkout_for(app, project) {
        let running: bool = match find_worktree(&app.tree.worktrees, &w) {
            Some(i) => app.tree.worktrees[i].running,
            None => false,
        };
        let label: &str = if running {
            "Stop run"
        } else {
            "Run"
        };
        push_item(&mut items, label, MenuAction::ToggleRun(w.clone()), false);
        push_item(&mut items, "Open", MenuAction::OpenWorktree(w.clone()), false);
        if !root_checkout_named(app, &w) {
            push_item(&mut items, "Delete worktree", MenuAction::DeleteWorktree(w.clone()), true);
        }
        assert(views(items@) =~= first + checkout_items(*app, w@));
    }
    push_item(&mut items, "Rename", MenuAction::RenameProject(project.clone()), false);
    push_item(&mut items, "Remove from list", MenuAction::RemoveProject(project.clone()), true);
    assert(views(items@) =~= project_items(*app, project@));
    items
}

/// The PROJECT's own menu — with no card selected, and a right-click on its
/// PROJECT TAB: a checkout cut in it, the project renamed or dropped, and the
/// RUN COMMAND of the checkout the grid would launch into started or stopped.
/// `at` is where it hangs.
pub fn project_menu(app: &mut App, at: (u16, u16))
    ensures
        shows_project_menu(*old(app), at, *final(app)),
{
    let project: ProjectId = match app.selected_project() {
        Some(p) => p.id.clone(),
        None => return,
    };
    let items = build_project_items(app, &project);
    app.overlay = Some(
        Overlay::Menu(ContextMenu { title: None, items, at: Some(at), hover: 0, filter: None }),
    );
}

/// A right-click on a PROJECT TAB: that project opened, as a left click opens
/// it, with its menu hung under the tab — so the menu is always of the project
/// on screen.
pub fn tab_menu(app: &mut App, id: &ProjectId, out: &mut Vec<Effect>)
    requires
        anchor_in_range(*old(app), HitView::LauncherTab(id@)),
    ensures
        exists|mid: App| #[trigger]
            opens_tab(*old(app), *id, mid, old(out)@, final(out)@) && shows_project_menu(
                mid,
                anchor(mid, HitView::LauncherTab(id@)),
                *final(app),
            ),
{
    open_tab(app, id, out);
    let ghost mid = *app;
    assert(mid.screen == old(app).screen);
    let at = crumb_anchor(app, &HitTarget::LauncherTab(id.clone()));
    project_menu(app, at);
    assert(opens_tab(*old(app), *id, mid, old(out)@, out@));
}

// ---- the dropdown ----

/// What a project's row of the dropdown says: its name, how many sessions it
/// holds, and the tick on the one in front of you.
pub open spec fn dropdown_label(app: App, p: Project) -> Seq<char> {
    p.name@ + "  ("@ + decimal(sessions_of(&app, p.id@).len()) + ")"@ + (if scope_of(app) == Some(
        p.id@,
    ) {
        TICK@
    } else {
        ""@
    })
}

/// The projects in the dropdown's order.
pub open spec fn dropdown_projects(app: App) -> Seq<Project> {
    let order = order_of(card_keys(&app));
    Seq::new(order.len(), |i: int| app.tree.projects@[order[i]])
}

/// The rows of the dropdown: every project, then a folder that is not one yet.
pub open spec fn dropdown_items(app: App) -> Seq<ItemView> {
    let projects = dropdown_projects(app);
    Seq::new(
        projects.len(),
        |i: int|
            item(dropdown_label(app, projects[i]), ActionView::OpenProject(projects[i].id@)),
    ).push(item(OPEN_FOLDER@, ActionView::AddProject))
}

/// The row the dropdown starts on: the project in front of you, else the first.
pub open spec fn dropdown_hover(app: App) -> int {
    let ids = crate::state::project_ids(dropdown_projects(app));
    match scope_of(app) {
        Some(id) => match place_of(ids, id) {
            Some(i) => i,
            None => 0,
        },
        None => 0,
    }
}

fn label_of_card(app: &App, card: &ProjectCard) -> (r: String)
    requires
        exists|p: Project| #[trigger] card_of(app, p, *card),
    ensures
        forall|p: Project| #[trigger] card_of(app, p, *card) ==> r@ == dropdown_label(*app, p),
{
    let here: bool = match app.selected_project() {
        Some(p) => p.id.same(&card.id),
        None => false,
    };
    let mut text = joined(&card.name, "  (");
    text.append(&decimal_text(card.sessions.len() as u64));
    text.append(")");
    if here {
        text.append(TICK);
    } else {
        text.append("");
    }
    text
}

fn dropdown_rows(app: &App, cards: &Vec<ProjectCard>) -> (r: (Vec<MenuItem>, usize))
    requires
        cards@.len() == dropdown_projects(*app).len(),
        forall|i: int|
            0 <= i < cards@.len() ==> card_of(
                app,
                dropdown_projects(*app)[i],
                #[trigger] cards@[i],
            ),
    ensures
        views(r.0@) == dropdown_items(*app),
        r.1 == dropdown_hover(*app),
{
    let ghost projects = dropdown_projects(*app);
    let ghost ids = crate::state::project_ids(projects);
    let ghost all = dropdown_items(*app);
    let mut items: Vec<MenuItem> = Vec::new();
    let mut hover: usize = 0;
    let mut found: bool = false;
    let mut i: usize = 0;
    assert(views(items@) =~= all.take(0));
    proof {
        if scope_of(*app) is Some {
            lemma_place_of(ids, scope_of(*app)->0);
        }
    }
    while i < cards.len()
        invariant
            i <= cards@.len(),
            projects == dropdown_projects(*app),
            ids == crate::state::project_ids(projects),
            all == dropdown_items(*app),
            cards@.len() == projects.len(),
            forall|k: int|
                0 <= k < cards@.len() ==> card_of(app, projects[k], #[trigger] cards@[k]),
            views(items@) == all.take(i as int),
            found ==> scope_of(*app) is Some && place_of(ids, scope_of(*app)->0) == Some(
                hover as int,
            ),
            !found ==> hover == 0 && (scope_of(*app) is Some ==> forall|k: int|
                0 <= k < i ==> #[trigger] ids[k] != scope_of(*app)->0),
        decreases cards@.len() - i,
    {
        let card = &cards[i];
        assert(card_of(app, projects[i as int], *card));
        let label = label_of_card(app, card);
        push_item(&mut items, &label, MenuAction::OpenProject(card.id.clone()), false);
        if !found {
            if let Some(p) = app.selected_project() {
                if p.id.same(&card.id) {
                    proof {
                        lemma_place_of(ids, scope_of(*app)->0);
                        assert(ids[i as int] == scope_of(*app)->0);
                    }
                    hover = i;
                    found = true;
                }
            }
        }
        i += 1;
        assert(views(items@) =~= all.take(i as int));
    }
    push_item(&mut items, OPEN_FOLDER, MenuAction::AddProject, false);
    assert(views(items@) =~= all);
    (items, hover)
}

/// The PROJECT DROPDOWN: every project on this machine — the ones wanting a
/// human first, then the most recently worked in — the one in front of you
/// ticked, each with how many sessions it holds, and last a row that opens a
/// folder that is not a project yet. Typing narrows it.
pub fn open_project_menu(app: &mut App)
    requires
        anchor_in_range(*old(app), HitView::LauncherTabAdd),
    ensures
        old(app).tree.projects@.len() == 0 ==> only_says(
            *old(app),
            *final(app),
            NO_PROJECTS@,
        ),
        old(app).tree.projects@.len() > 0 ==> {
            &&& *final(app) == (App { overlay: final(app).overlay, dirty: true, ..*old(app) })
            &&& over_view(
                *final(app),
                MenuView {
                    title: Some("Project"@),
                    items: dropdown_items(*old(app)),
                    at: Some(anchor(*old(app), HitView::LauncherTabAdd)),
                    hover: dropdown_hover(*old(app)),
                    filtered: true,
                },
            )
        },
{
    let cards = project_cards(app);
    if cards.len() == 0 {
        say(app, NO_PROJECTS);
        return;
    }
    let ghost projects = dropdown_projects(*app);
    assert(forall|i: int|
        0 <= i < cards@.len() ==> card_of(app, projects[i], #[trigger] cards@[i]));
    let (items, hover) = dropdown_rows(app, &cards);
    let at = crumb_anchor(app, &HitTarget::LauncherTabAdd);
    let all = copy_items(&items);
    app.overlay = Some(
        Overlay::Menu(
            ContextMenu {
                title: Some("Project".to_owned()),
                items,
                at: Some(at),
                hover,
                filter: Some(MenuFilter { query: no_text(), all }),
            },
        ),
    );
    app.dirty = true;
}

/// Nothing typed yet.
pub(crate) fn no_text() -> (r: String)
    ensures
        r@.len() == 0,
{
    String::new()
}

// ---- what holds of it ----

/// A project's menu never offers to delete its root.
pub proof fn law_root_is_never_deleted(app: App, project: Seq<char>, id: Seq<char>)
    requires
        is_root(app, id),
        checkout_of(app, project) == Some(id),
    ensures
        forall|i: int|
            0 <= i < project_items(app, project).len() ==> (#[trigger] project_items(
                app,
                project,
            )[i]).action != ActionView::DeleteWorktree(id),
{
}

/// Some row of the dropdown opens the project.
pub open spec fn in_dropdown(app: App, id: Seq<char>) -> bool {
    exists|i: int|
        0 <= i < dropdown_items(app).len() && (#[trigger] dropdown_items(app)[i]).action
            == ActionView::OpenProject(id)
}

/// The dropdown has a row for every project of the tree, and one more.
pub proof fn law_dropdown_lists_every_project(app: App, k: int)
    requires
        0 <= k < app.tree.projects@.len(),
    ensures
        dropdown_items(app).len() == app.tree.projects@.len() + 1,
        in_dropdown(app, app.tree.projects@[k].id@),
{
    let keys = card_keys(&app);
    crate::order::law_order_sorts(keys);
    let order = order_of(keys);
    assert(order.contains(k));
    let i = choose|i: int| 0 <= i < order.len() && order[i] == k;
    assert(dropdown_items(app)[i].action == ActionView::OpenProject(app.tree.projects@[k].id@));
}

/// What a project's menu offers, top to bottom: a new worktree first; then, of
/// the checkout it acts on, the run command — to stop it where it runs, to
/// start it where it does not —, the checkout opened, and the checkout deleted
/// unless it is a root; and last the project renamed and taken off the list.
/// What throws something away is marked.
pub proof fn law_project_menu_offers(app: App, project: Seq<char>)
    ensures
        ({
            let items = project_items(app, project);
            let n = items.len() as int;
            let at = checkout_of(app, project);
            &&& n >= 3
            &&& items[0].action == ActionView::NewWorktree(project) && !items[0].destructive
            &&& items[0].label == "New worktree"@ && items[n - 2].label == "Rename"@
                && items[n - 1].label == "Remove from list"@
            &&& items[n - 2].action == ActionView::RenameProject(project)
            &&& !items[n - 2].destructive
            &&& items[n - 1].action == ActionView::RemoveProject(project)
            &&& items[n - 1].destructive
            &&& at is None ==> n == 3
            &&& at is Some ==> {
                let id = at->0;
                let w = the_worktree(app.tree.worktrees@, id);
                let root = exists|j: int|
                    0 <= j < app.tree.worktrees@.len() && #[trigger] app.tree.worktrees@[j].id@
                        == id && app.tree.worktrees@[j].is_main;
                &&& items[1].action == ActionView::ToggleRun(id) && !items[1].destructive
                &&& w is Some && w->0.running ==> items[1].label == "Stop run"@
                &&& !(w is Some && w->0.running) ==> items[1].label == "Run"@
                &&& items[2].action == ActionView::OpenWorktree(id) && !items[2].destructive
                    && items[2].label == "Open"@
                &&& root ==> n == 5
                &&& !root ==> n == 6 && items[3].action == ActionView::DeleteWorktree(id)
                    && items[3].destructive && items[3].label == "Delete worktree"@
            }
        }),
{
}

/// A row of the dropdown says the project's name and how many sessions it has,
/// and wears the tick exactly where it is the project on screen; picking it
/// opens that project. The row after them all opens a folder. It starts on the
/// project on screen.
pub proof fn law_dropdown_row_is_its_projects(app: App, i: int)
    requires
        0 <= i < app.tree.projects@.len(),
    ensures
        ({
            let items = dropdown_items(app);
            let p = app.tree.projects@[order_of(card_keys(&app))[i]];
            let on = app.project_on() is Some && app.project_on()->0.id@ == p.id@;
            let said = p.name@ + "  ("@ + decimal(sessions_of(&app, p.id@).len()) + ")"@;
            &&& items[i].action == ActionView::OpenProject(p.id@)
            &&& on ==> items[i].label == said + " ✓"@
            &&& !on ==> items[i].label == said
            &&& items.last().action == ActionView::AddProject
            &&& app.project_on() is None ==> dropdown_hover(app) == 0
            &&& on ==> items[dropdown_hover(app)].action == ActionView::OpenProject(p.id@)
        }),
{
    let keys = card_keys(&app);
    crate::order::law_order_sorts(keys);
    let order = order_of(keys);
    let projects = dropdown_projects(app);
    let ids = crate::state::project_ids(projects);
    let p = projects[i];
    let said = p.name@ + "  ("@ + decimal(sessions_of(&app, p.id@).len()) + ")"@;
    reveal_strlit("");
    assert(said + ""@ =~= said);
    if scope_of(app) is Some {
        let id = scope_of(app)->0;
        lemma_place_of(ids, id);
        assert(ids[i] == p.id@);
        if let Some(k) = place_of(ids, id) {
            assert(ids[k] == id);
            assert(dropdown_items(app)[k].action == ActionView::OpenProject(projects[k].id@));
        }
    }
}

/// A project's menu is of the project on screen, hung where it was asked for
/// and starting on its first row; with no project on screen there is none.
pub proof fn law_menu_is_of_the_project_on_screen(before: App, at: (u16, u16), after: App)
    requires
        shows_project_menu(before, at, after),
    ensures
        before.project_on() is None ==> after == before,
        before.project_on() is Some ==> {
            let menu = after.overlay->0->Menu_0;
            &&& after.overlay is Some && after.overlay->0 is Menu
            &&& menu.at == Some(at) && menu.hover == 0 && menu.filter is None
            &&& views(menu.items@) == project_items(before, before.project_on()->0.id@)
            &&& after.sel_project == before.sel_project
        },
{
}

} // verus!
