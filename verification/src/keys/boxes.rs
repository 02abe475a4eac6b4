//! The prompt box: opening it, the pickers behind its details, and the keys of
//! the PROJECT PICKER.

use crate::keys::aim::{only_says, say};
use crate::keys::cards::nothing;
use crate::keys::menus::{copy_items, item, no_text, over_view, push_item, MenuView, TICK};
use crate::keys::projects::PROJECT_GONE;
use crate::launcher::{
    aimed_project, hides_root, lemma_same_order, no_id, project_of, root_checkout, root_of,
    shown_checkout, stand_in, target_for, target_of, BoxField,
};
use crate::model::{
    distinct_ids, lemma_distinct_place, lemma_place_of, place_of, ProjectId, QuickLaunch,
    QuickReturn, QuickTarget, TextInput, Worktree,
};
use crate::order::{in_order_given, lemma_order_distinct, order_of, ordered, places, Key};
use crate::picker::{clamped_to, lists_all, offered, picker_ids, Match, ProjectPicker};
use crate::state::{
    find_project, find_worktree, the_project, worktree_ids, ActionView, App, ContextMenu, Effect,
    ItemView, MenuAction, MenuFilter, MenuItem, Overlay, PromptDialog, PromptKind,
};
use crate::text::{char_count, decimal, decimal_text, joined, same_text};
use crate::views::views;
use vstd::prelude::*;

verus! {

/// What a box with no project to aim at says.
pub const NO_PROJECT: &'static str = "add a project first";
/// What a pull request's box says of its checkout.
pub const PR_CHECKOUT: &'static str = "quick prompt: a PR session runs in the pull request's own checkout";
/// What the toggle says with no root to go to.
pub const NO_ROOT: &'static str = "no root branch to launch on — keeping the new worktree";

/// A key, by what it is to the box and its pickers.
#[derive(Debug, Clone, Copy, PartialEq, Eq, Structural)]
pub enum KeyCode {
    Char(char),
    Enter,
    Esc,
    Up,
    Down,
    Other,
}

/// A key press.
#[derive(Debug, Clone, Copy, PartialEq, Eq, Structural)]
pub struct KeyPress {
    pub code: KeyCode,
    pub ctrl: bool,
}

// ---- opening the box ----

/// The project a new box is aimed at: the selected one, else the first the
/// projects panel lists.
pub open spec fn box_project(app: App) -> Option<ProjectId> {
    match app.project_on() {
        Some(p) => Some(p.id),
        None => if app.records.project_rows@.len() > 0 && app.records.project_rows@[0]
            < app.tree.projects@.len() {
            Some(app.tree.projects@[app.records.project_rows@[0] as int].id)
        } else {
            None
        },
    }
}

/// The box, aimed at the project under the list's cursor. It lands on the
/// project's ROOT BRANCH, or on a fresh worktree when the setting says so.
/// Never the checkout of the card under the cursor: which card is selected — or
/// whether any is — does not move where a new session starts.
pub fn open_box(app: &mut App, out: &mut Vec<Effect>)
    ensures
        match box_project(*old(app)) {
            None => only_says(*old(app), *final(app), NO_PROJECT@) && final(out)@ == old(out)@,
            Some(project) => {
                &&& *final(app) == *old(app)
                &&& final(out)@ == old(out)@.push(
                    Effect::OpenBoxFor(
                        target_of(*old(app), project, old(app).facts.new_worktree),
                    ),
                )
            },
        },
{
    let project: ProjectId = match app.selected_project() {
        Some(p) => p.id.clone(),
        None => {
            if app.records.project_rows.len() > 0 && app.records.project_rows[0]
                < app.tree.projects.len() {
                app.tree.projects[app.records.project_rows[0]].id.clone()
            } else {
                say(app, NO_PROJECT);
                return;
            }
        },
    };
    let target = target_for(app, &project, app.facts.new_worktree);
    out.push(Effect::OpenBoxFor(target));
}

/// The box up on `launch` with `input`.
pub open spec fn box_with(app: App, launch: QuickLaunch, input: TextInput) -> App {
    App {
        overlay: Some(
            Overlay::Prompt(PromptDialog { kind: PromptKind::QuickPrompt(launch), input }),
        ),
        ..app
    }
}

/// Put the box back up on `launch` with `input` — text and caret — as it was.
pub fn reopen_with(app: &mut App, launch: QuickLaunch, input: TextInput)
    ensures
        *final(app) == box_with(*old(app), launch, input),
{
    app.overlay = Some(
        Overlay::Prompt(PromptDialog { kind: PromptKind::QuickPrompt(launch), input }),
    );
}

/// The box up on `launch` with `text`, the caret behind it.
pub open spec fn box_again(before: App, launch: QuickLaunch, text: String, after: App) -> bool {
    after == box_with(
        before,
        launch,
        TextInput { text, caret: text@.len() as usize },
    )
}

/// Put the box back up on `launch` with `text`.
pub fn reopen(app: &mut App, launch: QuickLaunch, text: String)
    ensures
        box_again(*old(app), launch, text, *final(app)),
{
    let caret: usize = char_count(&text);
    reopen_with(app, launch, TextInput { text, caret });
}

/// A row of the WORKTREE PICKER: the box back, aimed at `target`, with the text
/// it had. Only this box: the next one starts from the setting.
pub fn pick_launch_worktree(app: &mut App, target: QuickTarget, back: QuickReturn)
    ensures
        box_again(
            *old(app),
            QuickLaunch { target, ..back.launch },
            back.text,
            *final(app),
        ),
{
    let launch = QuickLaunch { target, ..back.launch };
    reopen(app, launch, back.text);
}

// ---- the toggle ----

/// A fresh worktree in `project`, on a branch nobody has yet: named after the
/// issue where the launch is for one.
pub open spec fn fresh_target(app: App, project: ProjectId, launch: QuickLaunch) -> QuickTarget {
    QuickTarget::NewWorktree {
        project,
        branch: if launch.issue is Some {
            app.facts.issue_branch
        } else {
            app.facts.fresh_branch
        },
    }
}

/// A fresh worktree for `launch` in `project`, on a branch nobody has yet.
pub fn fresh_worktree(app: &App, project: ProjectId, launch: &QuickLaunch) -> (r: QuickTarget)
    ensures
        r == fresh_target(*app, project, *launch),
{
    let branch: String = match &launch.issue {
        Some(_) => app.facts.issue_branch.clone(),
        None => app.facts.fresh_branch.clone(),
    };
    QuickTarget::NewWorktree { project, branch }
}

/// The launch flipped between a fresh worktree and the root of its own
/// project.
pub open spec fn flips(
    before: App,
    launch: QuickLaunch,
    input: TextInput,
    after: App,
) -> bool {
    if launch.pr is Some {
        only_says(before, after, PR_CHECKOUT@)
    } else {
        match aimed_project(before, launch.target) {
            None => only_says(before, after, PROJECT_GONE@),
            Some(project) => if !launch.fresh() {
                after == box_with(
                    before,
                    QuickLaunch { target: fresh_target(before, project, launch), ..launch },
                    input,
                )
            } else {
                match root_of(before, project@) {
                    Some(root) => after == box_with(
                        before,
                        QuickLaunch { target: QuickTarget::Worktree(root), ..launch },
                        input,
                    ),
                    None => only_says(before, after, NO_ROOT@),
                }
            },
        }
    }
}

/// Flip this launch between a fresh worktree and the ROOT BRANCH of the project
/// the box is aimed at, which is not always the one under the list's cursor.
/// Only this box. A pull request's session has nothing to flip.
pub fn toggle_new_worktree(app: &mut App, launch: QuickLaunch, input: TextInput)
    ensures
        flips(*old(app), launch, input, *final(app)),
{
    if launch.pr.is_some() {
        say(app, PR_CHECKOUT);
        return;
    }
    let project: ProjectId = match project_of(app, &launch.target) {
        Some(p) => p,
        None => {
            say(app, PROJECT_GONE);
            return;
        },
    };
    let target: QuickTarget = if !launch.is_new_worktree() {
        fresh_worktree(app, project, &launch)
    } else {
        match root_checkout(app, &project) {
            Some(worktree) => QuickTarget::Worktree(worktree),
            None => {
                say(app, NO_ROOT);
                return;
            },
        }
    };
    reopen_with(app, QuickLaunch { target, ..launch }, input);
}

/// The box that is up, if it is one.
pub open spec fn box_up(app: App) -> Option<(QuickLaunch, TextInput)> {
    match app.overlay {
        Some(Overlay::Prompt(p)) => match p.kind {
            PromptKind::QuickPrompt(launch) => Some((launch, p.input)),
            PromptKind::Other => None,
        },
        _ => None,
    }
}

fn read_box(app: &App) -> (r: Option<(QuickLaunch, TextInput)>)
    ensures
        r == box_up(*app),
{
    match &app.overlay {
        Some(Overlay::Prompt(p)) => match &p.kind {
            PromptKind::QuickPrompt(launch) => Some((launch.clone(), p.input.clone())),
            PromptKind::Other => None,
        },
        _ => None,
    }
}

/// A click on the box's toggle: the same flip the chord is, read off the box
/// that is up.
pub fn click_new_worktree(app: &mut App)
    ensures
        match box_up(*old(app)) {
            Some((launch, input)) => flips(*old(app), launch, input, *final(app)),
            None => *final(app) == *old(app),
        },
{
    if let Some((launch, input)) = read_box(app) {
        toggle_new_worktree(app, launch, input);
    }
}

// ---- the PROJECT PICKER ----

/// `p` is the picker over every project, the cursor on the one the box is aimed
/// at.
pub open spec fn is_new_picker(app: App, back: QuickReturn, p: ProjectPicker) -> bool {
    let places = offered(app, app.records.project_rows@.len() as int);
    &&& p.wf()
    &&& p.back == back
    &&& p.query.text@.len() == 0
    &&& p.projects@.len() == places.len()
    &&& forall|i: int|
        0 <= i < places.len() ==> {
            let project = app.tree.projects@[places[i]];
            let row = #[trigger] p.projects@[i];
            row.id == project.id && row.name == project.name
        }
    &&& lists_all(p.matches@, p.projects@.len() as int)
    &&& p.selected == match aimed_project(app, back.launch.target) {
        Some(id) => match place_of(picker_ids(p.projects@), id@) {
            Some(i) => i,
            None => 0,
        },
        None => 0,
    }
}

/// The PROJECT PICKER over the box. A box already bound to one project's work —
/// an issue's, a pull request's — keeps its project.
pub open spec fn opens_picker(before: App, back: QuickReturn, after: App) -> bool {
    match back.launch.issue {
        Some(issue) => only_says(
            before,
            after,
            "this box is for issue #"@ + decimal(issue.number as nat)
                + " — its project is fixed"@,
        ),
        None => match back.launch.pr {
            Some(pr) => only_says(
                before,
                after,
                "this box is for PR #"@ + decimal(pr.number as nat)
                    + " — its project is fixed"@,
            ),
            None => {
                &&& after == (App { overlay: after.overlay, ..before })
                &&& match after.overlay {
                    Some(Overlay::ProjectPicker(p)) => is_new_picker(before, back, p),
                    _ => false,
                }
            },
        },
    }
}

/// The PROJECT PICKER over the box. A box already bound to one project's work
/// keeps its project.
pub fn open_project_picker(app: &mut App, back: QuickReturn)
    ensures
        opens_picker(*old(app), back, *final(app)),
{
    if let Some(issue) = &back.launch.issue {
        let text = joined(
            &joined("this box is for issue #", &decimal_text(issue.number)),
            " — its project is fixed",
        );
        say(app, &text);
        return;
    }
    if let Some(pr) = &back.launch.pr {
        let text = joined(
            &joined("this box is for PR #", &decimal_text(pr.number)),
            " — its project is fixed",
        );
        say(app, &text);
        return;
    }
    let home: Option<&str> = match &app.facts.home {
        Some(h) => Some(h.as_str()),
        None => None,
    };
    let picker = ProjectPicker::new(app, back, home);
    app.overlay = Some(Overlay::ProjectPicker(picker));
}

// ---- the model picker ----

/// The MODEL list of the box's harness, over the box it hands back.
pub open spec fn opens_models(
    before: App,
    back: QuickReturn,
    after: App,
    sent: Seq<Effect>,
    out: Seq<Effect>,
) -> bool {
    if !before.facts.has_models {
        &&& only_says(
            before,
            after,
            before.facts.harness_label@ + " has no model list — Tab picks the harness"@,
        )
        &&& out == sent
    } else {
        match before.facts.picker_context {
            None => only_says(before, after, PROJECT_GONE@) && out == sent,
            Some(worktree) => {
                &&& after == before
                &&& out == sent.push(Effect::OpenModels { worktree, back })
            },
        }
    }
}

/// The MODEL list of the box's harness: a harness with none says so, and a box
/// whose project is gone too.
pub fn open_model_picker(app: &mut App, back: QuickReturn, out: &mut Vec<Effect>)
    ensures
        opens_models(*old(app), back, *final(app), old(out)@, final(out)@),
{
    if !app.facts.has_models {
        let text = joined(
            &app.facts.harness_label,
            " has no model list — Tab picks the harness",
        );
        say(app, &text);
        return;
    }
    match &app.facts.picker_context {
        Some(worktree) => {
            let worktree = worktree.clone();
            out.push(Effect::OpenModels { worktree, back });
        },
        None => say(app, PROJECT_GONE),
    }
}

// ---- the WORKTREE PICKER ----

/// A checkout the launch can run in: the project's, not a hidden root, not a
/// stand-in.
pub open spec fn pickable(app: App, project: Seq<char>, w: Worktree) -> bool {
    shown_checkout(app, project, w) && !stand_in(app, w.id@)
}

/// Those of the first `n` checkouts of the tree that can be picked.
pub open spec fn pickable_first<'a>(app: &'a App, project: Seq<char>, n: int) -> Seq<&'a Worktree>
    decreases n,
{
    if n <= 0 {
        Seq::empty()
    } else {
        let before = pickable_first(app, project, n - 1);
        if pickable(*app, project, app.tree.worktrees@[n - 1]) {
            before.push(&app.tree.worktrees@[n - 1])
        } else {
            before
        }
    }
}

/// What the picker's checkouts are ordered by: the root first, then the most
/// recently worked in.
pub open spec fn pick_keys(s: Seq<&Worktree>) -> Seq<Key> {
    Seq::new(
        s.len(),
        |i: int|
            Key {
                rank: if s[i].is_main {
                    1
                } else {
                    0
                },
                recency: s[i].recency,
                id: no_id(),
            },
    )
}

/// The checkouts the picker lists, in order.
pub open spec fn picks<'a>(app: &'a App, project: Seq<char>) -> Seq<&'a Worktree> {
    let all = pickable_first(app, project, app.tree.worktrees@.len() as int);
    let order = order_of(pick_keys(all));
    Seq::new(order.len(), |i: int| all[order[i]])
}

fn list_picks<'a>(app: &'a App, project: &ProjectId) -> (r: Vec<&'a Worktree>)
    ensures
        r@ == picks(app, project@),
{
    let hide_root: bool = match find_project(&app.tree.projects, project) {
        Some(i) => app.tree.projects[i].root_hidden,
        None => false,
    };
    let mut all: Vec<&'a Worktree> = Vec::new();
    let mut keys: Vec<Key> = Vec::new();
    let mut i: usize = 0;
    while i < app.tree.worktrees.len()
        invariant
            i <= app.tree.worktrees@.len(),
            hide_root == hides_root(*app, project@),
            all@ == pickable_first(app, project@, i as int),
            keys@.len() == all@.len(),
            forall|k: int|
                0 <= k < keys@.len() ==> {
                    let key = #[trigger] keys@[k];
                    &&& key.rank == pick_keys(all@)[k].rank
                    &&& key.recency == pick_keys(all@)[k].recency
                    &&& key.id@ == Seq::<char>::empty()
                },
        decreases app.tree.worktrees@.len() - i,
    {
        let w: &'a Worktree = &app.tree.worktrees[i];
        let standing: bool = match find_worktree(&app.tree.worktrees, &w.id) {
            Some(k) => app.tree.worktrees[k].placeholder,
            None => false,
        };
        if w.project_id.same(project) && !(hide_root && w.is_main) && !standing {
            let rank: u8 = if w.is_main {
                1
            } else {
                0
            };
            keys.push(Key { rank, recency: w.recency, id: String::new() });
            all.push(w);
        }
        i += 1;
    }
    let order = ordered(&keys);
    proof {
        lemma_order_distinct(keys@, order@);
        if keys@.len() > 0 {
            assert(keys@[0].id@ == Seq::<char>::empty());
        }
        lemma_same_order(keys@, pick_keys(all@), places(order@));
        assert(Seq::new(order@.len(), |a: int| all@[order@[a] as int]) =~= picks(app, project@));
    }
    in_order_given(all, &order)
}

/// The tick on the row the box is aimed at.
pub open spec fn tick(on: bool) -> Seq<char> {
    if on {
        TICK@
    } else {
        ""@
    }
}

fn tick_of(on: bool) -> (r: &'static str)
    ensures
        r@ == tick(on),
{
    if on {
        TICK
    } else {
        ""
    }
}

/// The launch runs in the checkout.
pub open spec fn aimed_at(target: QuickTarget, id: Seq<char>) -> bool {
    match target {
        QuickTarget::Worktree(w) => w@ == id,
        QuickTarget::NewWorktree { project: _, branch: _ } => false,
    }
}

/// The fresh worktree the picker offers: the one already minted when the box is
/// aimed at one.
pub open spec fn offered_fresh(app: App, project: ProjectId, launch: QuickLaunch) -> QuickTarget {
    if launch.fresh() {
        launch.target
    } else {
        fresh_target(app, project, launch)
    }
}

/// The first row of the picker: a fresh worktree, the branch it would be cut
/// on named.
pub open spec fn fresh_item(app: App, project: ProjectId, back: QuickReturn) -> ItemView {
    let target = offered_fresh(app, project, back.launch);
    item(
        "+ new worktree  "@ + target->branch@ + tick(back.launch.fresh()),
        ActionView::PickLaunchWorktree { target, back },
    )
}

/// The row of a checkout.
pub open spec fn checkout_item(w: Worktree, back: QuickReturn) -> ItemView {
    item(
        w.branch@ + (if w.is_main {
            "  (root)"@
        } else {
            ""@
        }) + tick(aimed_at(back.launch.target, w.id@)),
        ActionView::PickLaunchWorktree { target: QuickTarget::Worktree(w.id), back },
    )
}

/// The rows of the picker.
pub open spec fn worktree_items(app: App, project: ProjectId, back: QuickReturn) -> Seq<ItemView> {
    let list = picks(&app, project@);
    seq![fresh_item(app, project, back)] + Seq::new(
        list.len(),
        |i: int| checkout_item(*list[i], back),
    )
}

pub open spec fn pick_ids(s: Seq<&Worktree>) -> Seq<Seq<char>> {
    Seq::new(s.len(), |i: int| s[i].id@)
}

/// The row the box is aimed at: the fresh worktree's, or its checkout's; the
/// first where that checkout is not listed.
pub open spec fn aimed_row(list: Seq<&Worktree>, target: QuickTarget) -> int {
    match target {
        QuickTarget::Worktree(w) => match place_of(pick_ids(list), w@) {
            Some(i) => i + 1,
            None => 0,
        },
        QuickTarget::NewWorktree { project: _, branch: _ } => 0,
    }
}

fn find_aimed(list: &Vec<&Worktree>, target: &QuickTarget) -> (r: usize)
    ensures
        r == aimed_row(list@, *target),
{
    let id = match target {
        QuickTarget::Worktree(id) => id,
        QuickTarget::NewWorktree { project: _, branch: _ } => return 0,
    };
    let ghost ids = pick_ids(list@);
    proof {
        lemma_place_of(ids, id@);
    }
    let mut i: usize = 0;
    while i < list.len()
        invariant
            i <= list@.len(),
            *target == QuickTarget::Worktree(*id),
            ids == pick_ids(list@),
            forall|k: int| 0 <= k < i ==> #[trigger] ids[k] != id@,
        decreases list@.len() - i,
    {
        if list[i].id.same(id) {
            proof {
                lemma_place_of(ids, id@);
                assert(ids[i as int] == id@);
            }
            return i + 1;
        }
        i += 1;
    }
    0
}

/// The WORKTREE PICKER over the box `back` owes, or the word for why not.
pub open spec fn opens_worktrees(before: App, back: QuickReturn, after: App) -> bool {
    if back.launch.pr is Some {
        only_says(before, after, PR_CHECKOUT@)
    } else {
        match aimed_project(before, back.launch.target) {
            None => only_says(before, after, PROJECT_GONE@),
            Some(project) => {
                let items = worktree_items(before, project, back);
                &&& after == (App { overlay: after.overlay, ..before })
                &&& over_view(
                    after,
                    MenuView {
                        title: Some("Worktree"@),
                        items,
                        at: None,
                        hover: aimed_row(picks(&before, project@), back.launch.target),
                        filtered: true,
                    },
                )
            },
        }
    }
}

fn worktree_rows(
    app: &App,
    project: &ProjectId,
    list: &Vec<&Worktree>,
    back: &QuickReturn,
) -> (r: Vec<MenuItem>)
    requires
        list@ == picks(app, project@),
    ensures
        views(r@) == worktree_items(*app, *project, *back),
{
    let fresh: QuickTarget = if back.launch.is_new_worktree() {
        back.launch.target.clone()
    } else {
        fresh_worktree(app, project.clone(), &back.launch)
    };
    let branch: String = match &fresh {
        QuickTarget::NewWorktree { project: _, branch } => branch.clone(),
        QuickTarget::Worktree(_) => String::new(),
    };
    let mut items: Vec<MenuItem> = Vec::new();
    let label = joined(
        &joined("+ new worktree  ", &branch),
        tick_of(back.launch.is_new_worktree()),
    );
    push_item(
        &mut items,
        &label,
        MenuAction::PickLaunchWorktree { target: fresh, back: back.clone() },
        false,
    );
    let ghost all = worktree_items(*app, *project, *back);
    let mut i: usize = 0;
    assert(views(items@) =~= all.take(1));
    while i < list.len()
        invariant
            i <= list@.len(),
            list@ == picks(app, project@),
            all == worktree_items(*app, *project, *back),
            views(items@) == all.take(i + 1),
        decreases list@.len() - i,
    {
        let w: &Worktree = list[i];
        let aimed: bool = match &back.launch.target {
            QuickTarget::Worktree(id) => id.same(&w.id),
            QuickTarget::NewWorktree { project: _, branch: _ } => false,
        };
        let root: &str = if w.is_main {
            "  (root)"
        } else {
            ""
        };
        let label = joined(&joined(&w.branch, root), tick_of(aimed));
        push_item(
            &mut items,
            &label,
            MenuAction::PickLaunchWorktree {
                target: QuickTarget::Worktree(w.id.clone()),
                back: back.clone(),
            },
            false,
        );
        i += 1;
        assert(views(items@) =~= all.take(i + 1));
    }
    assert(all.take(i + 1) =~= all);
    items
}

/// The WORKTREE PICKER for the box `back` owes, dropped down from the branch
/// over the box. It is the manual pick of where this one launch runs, and never
/// a branch switch: every checkout keeps the branch it is on. First a fresh
/// worktree — the branch it would be cut on named, the one already minted when
/// the box is aimed at one — then the project's checkouts, the ROOT WORKTREE
/// first and the rest most recently worked in first. Never a stand-in git is
/// still cutting, nor a root the project hides. The row the box is aimed at
/// wears the tick and starts highlighted; letters narrow the list.
///
/// Every row carries the box back. A pull request's session has nothing to
/// pick.
pub fn open_worktree_picker(app: &mut App, back: QuickReturn)
    ensures
        opens_worktrees(*old(app), back, *final(app)),
{
    if back.launch.pr.is_some() {
        say(app, PR_CHECKOUT);
        return;
    }
    let project: ProjectId = match project_of(app, &back.launch.target) {
        Some(p) => p,
        None => {
            say(app, PROJECT_GONE);
            return;
        },
    };
    let list = list_picks(app, &project);
    let items = worktree_rows(app, &project, &list, &back);
    let hover: usize = find_aimed(&list, &back.launch.target);
    let all = copy_items(&items);
    app.overlay = Some(
        Overlay::Menu(
            ContextMenu {
                title: Some("Worktree".to_owned()),
                items,
                at: None,
                hover,
                filter: Some(MenuFilter { query: no_text(), all }),
            },
        ),
    );
}

// ---- the box's details ----

/// The picker behind one of the box's details.
pub open spec fn opens_field(
    before: App,
    field: BoxField,
    back: QuickReturn,
    after: App,
    sent: Seq<Effect>,
    out: Seq<Effect>,
) -> bool {
    match field {
        BoxField::Project => opens_picker(before, back, after) && out == sent,
        BoxField::Worktree => opens_worktrees(before, back, after) && out == sent,
        BoxField::Agent => after == before && out == sent.push(Effect::OpenLaunchPicker(back)),
        BoxField::Model => opens_models(before, back, after, sent, out),
    }
}

/// The picker behind one of the box's details, whichever way it was asked for —
/// the chord beside it or a click on it.
pub fn open_box_field(app: &mut App, field: BoxField, back: QuickReturn, out: &mut Vec<Effect>)
    ensures
        opens_field(*old(app), field, back, *final(app), old(out)@, final(out)@),
{
    match field {
        BoxField::Project => open_project_picker(app, back),
        BoxField::Worktree => open_worktree_picker(app, back),
        BoxField::Agent => out.push(Effect::OpenLaunchPicker(back)),
        BoxField::Model => open_model_picker(app, back, out),
    }
}

/// The box a picker hands back.
pub open spec fn box_back(launch: QuickLaunch, input: TextInput) -> QuickReturn {
    QuickReturn { launch, text: input.text, from_box: true }
}

/// A click on one of the box's details: the launch and the text read off the
/// box that is up, then the same picker the chord opens.
pub fn click_box_field(app: &mut App, field: BoxField, out: &mut Vec<Effect>)
    ensures
        match box_up(*old(app)) {
            Some((launch, input)) => opens_field(
                *old(app),
                field,
                box_back(launch, input),
                *final(app),
                old(out)@,
                final(out)@,
            ),
            None => nothing(*old(app), *final(app), old(out)@, final(out)@),
        },
{
    if let Some((launch, input)) = read_box(app) {
        let back = QuickReturn { launch, text: input.text, from_box: true };
        open_box_field(app, field, back, out);
    }
}

/// What a key is to the box: one of its chords, or none of them.
pub open spec fn box_chord(key: KeyPress) -> Option<Option<BoxField>> {
    if !key.ctrl {
        None
    } else {
        match key.code {
            KeyCode::Char(c) => if c == 'p' || c == 'P' {
                Some(Some(BoxField::Project))
            } else if c == 'o' || c == 'O' {
                Some(Some(BoxField::Model))
            } else if c == 'n' || c == 'N' {
                Some(None)
            } else {
                None
            },
            _ => None,
        }
    }
}

/// Is the key one of the view's box chords — project, model, fresh worktree or
/// not? The rest of the box's keys are its own. True when the key was taken.
pub fn handle_box_key(
    app: &mut App,
    key: KeyPress,
    launch: &QuickLaunch,
    input: &TextInput,
    out: &mut Vec<Effect>,
) -> (taken: bool)
    ensures
        taken == (box_chord(key) is Some),
        match box_chord(key) {
            Some(Some(field)) => opens_field(
                *old(app),
                field,
                box_back(*launch, *input),
                *final(app),
                old(out)@,
                final(out)@,
            ),
            Some(None) => flips(*old(app), *launch, *input, *final(app)) && final(out)@ == old(
                out,
            )@,
            None => nothing(*old(app), *final(app), old(out)@, final(out)@),
        },
{
    if !key.ctrl {
        return false;
    }
    match key.code {
        KeyCode::Char(c) => {
            if c == 'p' || c == 'P' {
                let back = QuickReturn {
                    launch: launch.clone(),
                    text: input.text.clone(),
                    from_box: true,
                };
                open_box_field(app, BoxField::Project, back, out);
                true
            } else if c == 'o' || c == 'O' {
                let back = QuickReturn {
                    launch: launch.clone(),
                    text: input.text.clone(),
                    from_box: true,
                };
                open_box_field(app, BoxField::Model, back, out);
                true
            } else if c == 'n' || c == 'N' {
                toggle_new_worktree(app, launch.clone(), input.clone());
                true
            } else {
                false
            }
        },
        _ => false,
    }
}

// ---- the PROJECT PICKER's keys ----

/// The picker that is up.
pub open spec fn picker_up(app: App) -> Option<ProjectPicker> {
    match app.overlay {
        Some(Overlay::ProjectPicker(p)) => Some(p),
        _ => None,
    }
}

/// The project the picker's cursor is on.
pub open spec fn picked(p: ProjectPicker) -> Option<ProjectId> {
    if p.selected < p.matches@.len() && p.matches@[p.selected as int].project
        < p.projects@.len() {
        Some(p.on_row(p.selected as int).id)
    } else {
        None
    }
}

/// The state with nothing over the view.
pub open spec fn uncovered(app: App) -> App {
    App { overlay: None, ..app }
}

/// The picker's project picked: the box back aimed at it, text kept, a fresh
/// worktree or its root branch as the box had it; with no box to come back to,
/// a new one.
pub open spec fn picks_project(
    before: App,
    p: ProjectPicker,
    after: App,
    sent: Seq<Effect>,
    out: Seq<Effect>,
) -> bool {
    match picked(p) {
        None => nothing(before, after, sent, out),
        Some(project) => {
            let launch = QuickLaunch {
                target: target_of(uncovered(before), project, p.back.launch.fresh()),
                ..p.back.launch
            };
            if p.back.from_box {
                box_again(before, launch, p.back.text, after) && out == sent
            } else {
                after == uncovered(before) && out == sent.push(Effect::OpenBox(launch))
            }
        },
    }
}

/// What a pick needs of the picker that is up.
fn read_pick(app: &App) -> (r: Option<(ProjectId, QuickReturn)>)
    ensures
        match picker_up(*app) {
            Some(p) => match picked(p) {
                Some(project) => r == Some((project, p.back)),
                None => r is None,
            },
            None => r is None,
        },
{
    match &app.overlay {
        Some(Overlay::ProjectPicker(p)) => match p.selected_project() {
            Some(project) => Some((project.id.clone(), p.back.clone())),
            None => None,
        },
        _ => None,
    }
}

/// Enter in the PROJECT PICKER: the box comes back aimed at the project under
/// the cursor, text kept, a fresh worktree or its root branch as the box had
/// it. Aiming the box is not navigation: the grid behind it stays on the
/// project you are working in.
pub fn pick(app: &mut App, out: &mut Vec<Effect>)
    ensures
        match picker_up(*old(app)) {
            Some(p) => picks_project(*old(app), p, *final(app), old(out)@, final(out)@),
            None => nothing(*old(app), *final(app), old(out)@, final(out)@),
        },
{
    let (project, back) = match read_pick(app) {
        Some(found) => found,
        None => return,
    };
    app.overlay = None;
    let target = target_for(app, &project, back.launch.is_new_worktree());
    let launch = QuickLaunch { target, ..back.launch };
    if back.from_box {
        reopen(app, launch, back.text);
    } else {
        out.push(Effect::OpenBox(launch));
    }
}

/// A click in the PROJECT PICKER's list: the row under the pointer is picked,
/// as Enter on it would pick it.
pub fn click_picker_row(app: &mut App, index: usize, out: &mut Vec<Effect>)
    ensures
        match picker_up(*old(app)) {
            Some(p) => if index < p.matches@.len() {
                let on = ProjectPicker { selected: index, ..p };
                picks_project(
                    App { overlay: Some(Overlay::ProjectPicker(on)), ..*old(app) },
                    on,
                    *final(app),
                    old(out)@,
                    final(out)@,
                )
            } else {
                nothing(*old(app), *final(app), old(out)@, final(out)@)
            },
            None => nothing(*old(app), *final(app), old(out)@, final(out)@),
        },
{
    let over = app.overlay.take();
    match over {
        Some(Overlay::ProjectPicker(p)) => {
            if index >= p.matches.len() {
                app.overlay = Some(Overlay::ProjectPicker(p));
                return;
            }
            app.overlay = Some(Overlay::ProjectPicker(ProjectPicker { selected: index, ..p }));
            pick(app, out);
        },
        other => {
            app.overlay = other;
        },
    }
}

/// What a key does in the picker.
#[derive(Debug, Clone, Copy, PartialEq, Eq, Structural)]
pub enum PickerMove {
    /// Clears a typed query.
    Clear,
    /// Hands the box back.
    Leave,
    Pick,
    Down,
    Up,
    /// Edits the query.
    Edit,
}

/// What a key does: the arrows and their chords move, Enter picks, Esc clears a
/// typed query and then leaves, and everything else edits the query.
pub open spec fn picker_move(key: KeyPress, typed: bool) -> PickerMove {
    match key.code {
        KeyCode::Esc => if typed {
            PickerMove::Clear
        } else {
            PickerMove::Leave
        },
        KeyCode::Enter => PickerMove::Pick,
        KeyCode::Down => PickerMove::Down,
        KeyCode::Up => PickerMove::Up,
        KeyCode::Char(c) => if key.ctrl && (c == 'n' || c == 'j') {
            PickerMove::Down
        } else if key.ctrl && (c == 'p' || c == 'k') {
            PickerMove::Up
        } else {
            PickerMove::Edit
        },
        KeyCode::Other => PickerMove::Edit,
    }
}

fn move_of(key: KeyPress, typed: bool) -> (r: PickerMove)
    ensures
        r == picker_move(key, typed),
{
    match key.code {
        KeyCode::Esc => if typed {
            PickerMove::Clear
        } else {
            PickerMove::Leave
        },
        KeyCode::Enter => PickerMove::Pick,
        KeyCode::Down => PickerMove::Down,
        KeyCode::Up => PickerMove::Up,
        KeyCode::Char(c) => if key.ctrl && (c == 'n' || c == 'j') {
            PickerMove::Down
        } else if key.ctrl && (c == 'p' || c == 'k') {
            PickerMove::Up
        } else {
            PickerMove::Edit
        },
        KeyCode::Other => PickerMove::Edit,
    }
}

/// The picker after the key left it up: `q` the same picker but for its query,
/// its rows and its cursor.
pub open spec fn picker_after(
    p: ProjectPicker,
    m: PickerMove,
    edited: TextInput,
    ranked: Seq<Match>,
    q: ProjectPicker,
) -> bool {
    &&& q == (ProjectPicker {
        query: q.query,
        matches: q.matches,
        selected: q.selected,
        ..p
    })
    &&& match m {
        PickerMove::Clear => {
            &&& q.query.text@.len() == 0 && q.query.caret == 0
            &&& lists_all(q.matches@, p.projects@.len() as int)
            &&& q.selected == 0
        },
        PickerMove::Down => {
            &&& q.query == p.query && q.matches == p.matches
            &&& q.selected == clamped_to(p.selected + 1, p.matches@.len() as int)
        },
        PickerMove::Up => {
            &&& q.query == p.query && q.matches == p.matches
            &&& q.selected == clamped_to(p.selected - 1, p.matches@.len() as int)
        },
        PickerMove::Edit => {
            &&& q.query == edited
            &&& if edited.text@ == p.query.text@ {
                q.matches == p.matches && q.selected == p.selected
            } else {
                &&& q.selected == 0
                &&& if edited.text@.len() == 0 {
                    lists_all(q.matches@, p.projects@.len() as int)
                } else {
                    q.matches@ == ranked
                }
            }
        },
        _ => false,
    }
}

/// A key in the picker `p`.
pub open spec fn picker_key(
    before: App,
    p: ProjectPicker,
    m: PickerMove,
    edited: TextInput,
    ranked: Seq<Match>,
    after: App,
    sent: Seq<Effect>,
    out: Seq<Effect>,
) -> bool {
    match m {
        PickerMove::Leave => {
            &&& out == sent
            &&& if p.back.from_box {
                box_again(before, p.back.launch, p.back.text, after)
            } else {
                after == uncovered(before)
            }
        },
        PickerMove::Pick => picks_project(before, p, after, sent, out),
        _ => {
            &&& out == sent
            &&& after == (App { overlay: after.overlay, ..before })
            &&& match after.overlay {
                Some(Overlay::ProjectPicker(q)) => picker_after(p, m, edited, ranked, q),
                _ => false,
            }
        },
    }
}

fn edit_picker(p: ProjectPicker, m: PickerMove, edited: TextInput, ranked: Vec<Match>) -> (q:
    ProjectPicker)
    requires
        m is Clear || m is Down || m is Up || m is Edit,
        forall|i: int|
            0 <= i < ranked@.len() ==> (#[trigger] ranked@[i]).project < p.projects@.len(),
    ensures
        picker_after(p, m, edited, ranked@, q),
        p.wf() ==> q.wf(),
{
    let mut q = p;
    match m {
        PickerMove::Clear => {
            q.query = TextInput { text: no_text(), caret: 0 };
            q.show_all();
        },
        PickerMove::Down => q.select(1),
        PickerMove::Up => q.select(-1),
        _ => {
            let same: bool = same_text(&edited.text, &q.query.text);
            q.query = edited;
            if !same {
                q.apply_filter(ranked);
            }
        },
    }
    q
}

/// A key in the PROJECT PICKER: the arrows (and their chords) move, Enter
/// picks, Esc clears a typed query and then hands the box back, and everything
/// else edits the query, the list narrowing as you type. `edited` is the query
/// as the key edits it, and `ranked` the projects that one matches, best first.
pub fn handle_picker_key(
    app: &mut App,
    key: KeyPress,
    edited: TextInput,
    ranked: Vec<Match>,
    out: &mut Vec<Effect>,
)
    requires
        picker_up(*old(app)) is Some ==> forall|i: int|
            0 <= i < ranked@.len() ==> (#[trigger] ranked@[i]).project < picker_up(
                *old(app),
            )->0.projects@.len(),
    ensures
        match picker_up(*old(app)) {
            Some(p) => picker_key(
                *old(app),
                p,
                picker_move(key, p.query.text@.len() > 0),
                edited,
                ranked@,
                *final(app),
                old(out)@,
                final(out)@,
            ),
            None => nothing(*old(app), *final(app), old(out)@, final(out)@),
        },
{
    let over = app.overlay.take();
    match over {
        Some(Overlay::ProjectPicker(p)) => {
            let m = move_of(key, !p.query.text.as_str().is_empty());
            match m {
                PickerMove::Leave => {
                    if p.back.from_box {
                        let QuickReturn { launch, text, from_box: _ } = p.back;
                        reopen(app, launch, text);
                    }
                },
                PickerMove::Pick => {
                    app.overlay = Some(Overlay::ProjectPicker(p));
                    pick(app, out);
                },
                _ => {
                    let q = edit_picker(p, m, edited, ranked);
                    app.overlay = Some(Overlay::ProjectPicker(q));
                },
            }
        },
        other => {
            app.overlay = other;
        },
    }
}

// ---- what holds of it ----

/// The toggle undoes itself: a box on its project's root, flipped twice, is on
/// that root again, with its text.
pub proof fn law_toggle_twice_is_the_root_again(
    before: App,
    launch: QuickLaunch,
    input: TextInput,
    project: ProjectId,
    mid: App,
    after: App,
)
    requires
        launch.pr is None,
        !launch.fresh(),
        aimed_project(before, launch.target) == Some(project),
        root_of(before, project@) is Some,
        flips(before, launch, input, mid),
        box_up(mid) is Some,
        flips(mid, (box_up(mid)->0).0, (box_up(mid)->0).1, after),
    ensures
        box_up(after) == Some(
            (
                QuickLaunch {
                    target: QuickTarget::Worktree(root_of(before, project@)->0),
                    ..launch
                },
                input,
            ),
        ),
{
    crate::launcher::law_launch_ignores_the_card(before, mid, project, false);
    assert(target_of(before, project, false) == target_of(mid, project, false));
}

/// A pick only aims the box: whatever is picked, the grid behind stays on its
/// project, its card and its tabs.
pub proof fn law_pick_is_not_navigation(
    before: App,
    p: ProjectPicker,
    after: App,
    sent: Seq<Effect>,
    out: Seq<Effect>,
)
    requires
        picks_project(before, p, after, sent, out),
    ensures
        after.sel_project == before.sel_project,
        after.sel_worktree == before.sel_worktree,
        after.sel_session == before.sel_session,
        after.launcher_tabs == before.launcher_tabs,
        after.focus == before.focus,
        after.launcher_unaimed == before.launcher_unaimed,
{
}

/// Leaving the picker hands the box back as it was: its launch, and its text.
pub proof fn law_leaving_the_picker_keeps_the_box(
    before: App,
    p: ProjectPicker,
    edited: TextInput,
    ranked: Seq<Match>,
    after: App,
    sent: Seq<Effect>,
    out: Seq<Effect>,
)
    requires
        p.back.from_box,
        picker_key(before, p, PickerMove::Leave, edited, ranked, after, sent, out),
    ensures
        box_up(after) is Some,
        (box_up(after)->0).0 == p.back.launch,
        (box_up(after)->0).1.text == p.back.text,
{
}

/// A pick keeps what was typed, and whether the launch cuts a fresh worktree,
/// where the project has a root for one that does not.
pub proof fn law_pick_keeps_the_task(
    before: App,
    p: ProjectPicker,
    after: App,
    sent: Seq<Effect>,
    out: Seq<Effect>,
)
    requires
        p.back.from_box,
        picked(p) is Some,
        picks_project(before, p, after, sent, out),
    ensures
        box_up(after) is Some,
        (box_up(after)->0).1.text == p.back.text,
        p.back.launch.fresh() ==> (box_up(after)->0).0.fresh(),
        !p.back.launch.fresh() && root_of(before, picked(p)->0@) is Some
            ==> !(box_up(after)->0).0.fresh(),
{
    let project = picked(p)->0;
    crate::launcher::law_launch_ignores_the_card(
        before,
        uncovered(before),
        project,
        p.back.launch.fresh(),
    );
}

proof fn lemma_picks_from(app: App, project: Seq<char>, n: int)
    requires
        0 <= n <= app.tree.worktrees@.len(),
    ensures
        forall|i: int|
            0 <= i < pickable_first(&app, project, n).len() ==> pickable(
                app,
                project,
                *#[trigger] pickable_first(&app, project, n)[i],
            ),
    decreases n,
{
    if n > 0 {
        lemma_picks_from(app, project, n - 1);
        let before = pickable_first(&app, project, n - 1);
        assert forall|i: int| 0 <= i < pickable_first(&app, project, n).len() implies pickable(
            app,
            project,
            *#[trigger] pickable_first(&app, project, n)[i],
        ) by {
            if i < before.len() {
                assert(pickable_first(&app, project, n)[i] == before[i]);
            }
        }
    }
}

/// The WORKTREE PICKER never offers a stand-in git is still cutting, nor a root
/// the project hides, and a root it does offer comes before every checkout that
/// is none.
pub proof fn law_worktree_picker_offers_what_can_run(app: App, project: Seq<char>, i: int)
    requires
        0 <= i < picks(&app, project).len(),
    ensures
        pickable(app, project, *picks(&app, project)[i]),
        picks(&app, project)[i].is_main ==> forall|j: int|
            0 <= j < i ==> (#[trigger] picks(&app, project)[j]).is_main,
{
    let n = app.tree.worktrees@.len() as int;
    let all = pickable_first(&app, project, n);
    let keys = pick_keys(all);
    crate::order::law_order_sorts(keys);
    lemma_picks_from(app, project, n);
    let order = order_of(keys);
    assert(0 <= order[i] < keys.len());
    assert forall|j: int| 0 <= j < i && picks(&app, project)[i].is_main implies (
    #[trigger] picks(&app, project)[j]).is_main by {
        assert(crate::order::comes_before(keys, order[j], order[i]));
        assert(0 <= order[j] < keys.len());
    }
}

/// The row the box is aimed at is the one that starts highlighted, and it wears
/// the tick: the fresh worktree where the launch cuts one, else the launch's
/// own checkout, wherever the picker lists it.
pub proof fn law_picker_starts_on_the_aimed_row(app: App, project: ProjectId, back: QuickReturn)
    requires
        back.launch.fresh() || exists|i: int|
            0 <= i < picks(&app, project@).len() && aimed_at(
                back.launch.target,
                (#[trigger] picks(&app, project@)[i]).id@,
            ),
    ensures
        ({
            let row = aimed_row(picks(&app, project@), back.launch.target);
            let items = worktree_items(app, project, back);
            &&& 0 <= row < items.len()
            &&& TICK@.is_suffix_of(items[row].label)
            &&& back.launch.fresh() ==> row == 0 && items[row].action
                == (ActionView::PickLaunchWorktree { target: back.launch.target, back })
            &&& !back.launch.fresh() ==> aimed_at(
                back.launch.target,
                picks(&app, project@)[row - 1].id@,
            ) && items[row] == checkout_item(*picks(&app, project@)[row - 1], back)
        }),
{
    let list = picks(&app, project@);
    let items = worktree_items(app, project, back);
    let row = aimed_row(list, back.launch.target);
    if let QuickTarget::Worktree(w) = back.launch.target {
        lemma_place_of(pick_ids(list), w@);
        let i = choose|i: int|
            0 <= i < list.len() && aimed_at(back.launch.target, (#[trigger] list[i]).id@);
        assert(pick_ids(list)[i] == w@);
        assert(pick_ids(list)[row - 1] == w@);
        lemma_ends_in(
            list[row - 1].branch@ + (if list[row - 1].is_main {
                "  (root)"@
            } else {
                ""@
            }),
            TICK@,
        );
    } else {
        lemma_ends_in("+ new worktree  "@ + back.launch.target->branch@, TICK@);
    }
}

proof fn lemma_ends_in(head: Seq<char>, tail: Seq<char>)
    ensures
        tail.is_suffix_of(head + tail),
{
    assert((head + tail).subrange(head.len() as int, (head + tail).len() as int) =~= tail);
}

/// The order the WORKTREE PICKER lists checkouts in, below the root: the one
/// last interacted with first, of two the same in that the one with the later
/// stamp, and of two the same in both the one the tree lists first.
pub proof fn law_picker_lists_the_latest_first(app: App, project: Seq<char>, i: int, j: int)
    requires
        0 <= i < j < picks(&app, project).len(),
    ensures
        ({
            let (a, b) = (picks(&app, project)[i], picks(&app, project)[j]);
            &&& b.is_main ==> a.is_main
            &&& a.is_main == b.is_main ==> {
                &&& a.recency.interacted >= b.recency.interacted
                &&& a.recency.interacted == b.recency.interacted ==> a.recency.stamped
                    >= b.recency.stamped
                &&& a.recency == b.recency ==> exists|m: int, n: int|
                    0 <= m < n < app.tree.worktrees@.len() && *a
                        == #[trigger] app.tree.worktrees@[m] && *b
                        == #[trigger] app.tree.worktrees@[n]
            }
        }),
{
    let n = app.tree.worktrees@.len() as int;
    let all = pickable_first(&app, project, n);
    let keys = pick_keys(all);
    crate::order::law_order_sorts(keys);
    let order = order_of(keys);
    assert(0 <= order[i] < keys.len() && 0 <= order[j] < keys.len());
    assert(crate::order::comes_before(keys, order[i], order[j]));
    crate::text::lemma_text_lt_irreflexive(no_id()@);
    if order[i] < order[j] {
        lemma_picks_in_order(app, project, n, order[i], order[j]);
    }
}

proof fn lemma_picks_in_order(app: App, project: Seq<char>, n: int, i: int, j: int)
    requires
        0 <= n <= app.tree.worktrees@.len(),
        0 <= i < j < pickable_first(&app, project, n).len(),
    ensures
        exists|a: int, b: int|
            0 <= a < b < n && *pickable_first(&app, project, n)[i]
                == #[trigger] app.tree.worktrees@[a] && *pickable_first(&app, project, n)[j]
                == #[trigger] app.tree.worktrees@[b],
    decreases n,
{
    let before = pickable_first(&app, project, n - 1);
    let now = pickable_first(&app, project, n);
    assert(now[i] == before[i]);
    if j < before.len() {
        lemma_picks_in_order(app, project, n - 1, i, j);
        let (a, b) = choose|a: int, b: int|
            0 <= a < b < n - 1 && *before[i] == #[trigger] app.tree.worktrees@[a] && *before[j]
                == #[trigger] app.tree.worktrees@[b];
        assert(*now[j] == app.tree.worktrees@[b]);
    } else {
        lemma_pick_place(app, project, n - 1, i);
        let a = choose|a: int|
            0 <= a < n - 1 && *before[i] == #[trigger] app.tree.worktrees@[a];
        assert(*now[i] == app.tree.worktrees@[a] && *now[j] == app.tree.worktrees@[n - 1]);
    }
}

proof fn lemma_pick_place(app: App, project: Seq<char>, n: int, i: int)
    requires
        0 <= n <= app.tree.worktrees@.len(),
        0 <= i < pickable_first(&app, project, n).len(),
    ensures
        exists|a: int|
            0 <= a < n && *pickable_first(&app, project, n)[i]
                == #[trigger] app.tree.worktrees@[a],
    decreases n,
{
    let before = pickable_first(&app, project, n - 1);
    if i < before.len() {
        lemma_pick_place(app, project, n - 1, i);
        let a = choose|a: int|
            0 <= a < n - 1 && *before[i] == #[trigger] app.tree.worktrees@[a];
        assert(*pickable_first(&app, project, n)[i] == app.tree.worktrees@[a]);
    } else {
        assert(*pickable_first(&app, project, n)[i] == app.tree.worktrees@[n - 1]);
    }
}

proof fn lemma_pick_listed(app: App, project: Seq<char>, n: int, k: int)
    requires
        0 <= k < n <= app.tree.worktrees@.len(),
        pickable(app, project, app.tree.worktrees@[k]),
    ensures
        exists|i: int|
            0 <= i < pickable_first(&app, project, n).len() && *(#[trigger] pickable_first(
                &app,
                project,
                n,
            )[i]) == app.tree.worktrees@[k],
    decreases n,
{
    let before = pickable_first(&app, project, n - 1);
    let now = pickable_first(&app, project, n);
    if k < n - 1 {
        lemma_pick_listed(app, project, n - 1, k);
        let i = choose|i: int|
            0 <= i < before.len() && *(#[trigger] before[i]) == app.tree.worktrees@[k];
        assert(now[i] == before[i]);
    } else {
        assert(*now[now.len() - 1] == app.tree.worktrees@[k]);
    }
}

/// The WORKTREE PICKER lists every checkout of the project it can launch in,
/// and no other: all that are the project's own, but for one git is still
/// cutting and for a root the project hides.
pub proof fn law_picker_lists_every_checkout(app: App, project: Seq<char>, k: int)
    requires
        0 <= k < app.tree.worktrees@.len(),
        distinct_ids(worktree_ids(app.tree.worktrees@)),
    ensures
        ({
            let w = app.tree.worktrees@[k];
            let p = the_project(app.tree.projects@, project);
            let open = w.project_id@ == project && !w.placeholder && !(w.is_main && p is Some
                && p->0.root_hidden);
            open <==> exists|i: int|
                0 <= i < picks(&app, project).len() && *(#[trigger] picks(&app, project)[i]) == w
        }),
{
    let w = app.tree.worktrees@[k];
    let n = app.tree.worktrees@.len() as int;
    let wids = worktree_ids(app.tree.worktrees@);
    assert(wids[k] == w.id@);
    lemma_distinct_place(wids, k);
    let all = pickable_first(&app, project, n);
    let keys = pick_keys(all);
    crate::order::law_order_sorts(keys);
    let order = order_of(keys);
    if pickable(app, project, w) {
        lemma_pick_listed(app, project, n, k);
        let m = choose|m: int| 0 <= m < all.len() && *(#[trigger] all[m]) == w;
        assert(order.contains(m));
        let i = choose|i: int| 0 <= i < order.len() && order[i] == m;
        assert(*picks(&app, project)[i] == w);
    }
    if exists|i: int|
        0 <= i < picks(&app, project).len() && *(#[trigger] picks(&app, project)[i]) == w {
        let i = choose|i: int|
            0 <= i < picks(&app, project).len() && *(#[trigger] picks(&app, project)[i]) == w;
        law_worktree_picker_offers_what_can_run(app, project, i);
    }
}

/// What the WORKTREE PICKER's rows do and say: the first aims the box at a
/// fresh worktree of the project, each of the others at the checkout it names,
/// by its branch; the box comes back with the text it had. A root says that it
/// is one, and only the row the box is aimed at wears the tick.
pub proof fn law_picker_row_aims_at_its_checkout(
    app: App,
    project: ProjectId,
    back: QuickReturn,
    i: int,
)
    requires
        0 <= i < picks(&app, project@).len(),
    ensures
        ({
            let items = worktree_items(app, project, back);
            let w = picks(&app, project@)[i];
            let aimed = back.launch.target is Worktree && back.launch.target->Worktree_0@
                == w.id@;
            &&& items.len() == picks(&app, project@).len() + 1
            &&& items[0].action is PickLaunchWorktree
            &&& items[0].action->target is NewWorktree
            &&& items[0].action->PickLaunchWorktree_back == back
            &&& back.launch.target is Worktree ==> items[0].action->target->project == project
            &&& items[i + 1].action is PickLaunchWorktree
            &&& items[i + 1].action->target == QuickTarget::Worktree(w.id)
            &&& items[i + 1].action->PickLaunchWorktree_back == back
            &&& items[i + 1].label == w.branch@ + (if w.is_main {
                "  (root)"@
            } else {
                ""@
            }) + (if aimed {
                TICK@
            } else {
                ""@
            })
        }),
{
    assert(worktree_items(app, project, back)[i + 1] == checkout_item(
        *picks(&app, project@)[i],
        back,
    ));
}

/// A new box is aimed at the project on screen; with none on screen at the
/// first one the projects panel lists; and at none where it lists none.
pub proof fn law_new_box_is_aimed_at_the_screen(app: App)
    ensures
        ({
            let rows = app.records.project_rows@;
            &&& app.project_on() is Some ==> box_project(app) == Some(app.project_on()->0.id)
            &&& app.project_on() is None && rows.len() > 0 && rows[0] < app.tree.projects@.len()
                ==> box_project(app) == Some(app.tree.projects@[rows[0] as int].id)
            &&& app.project_on() is None && rows.len() == 0 ==> box_project(app) is None
        }),
{
}

/// What the toggle does to a box that is no pull request's: one that launches
/// in a checkout is set to cut a fresh worktree of that checkout's project, on
/// the issue's branch where it is for an issue; one that cuts a worktree is set
/// to its project's root where that can be launched in, and else left alone.
/// The text, the caret and the rest of the launch stay as they are.
pub proof fn law_toggle_changes_the_target_alone(
    before: App,
    launch: QuickLaunch,
    input: TextInput,
    j: int,
    after: App,
)
    requires
        distinct_ids(worktree_ids(before.tree.worktrees@)),
        launch.pr is None,
        0 <= j < before.tree.worktrees@.len(),
        flips(before, launch, input, after),
    ensures
        ({
            let w = before.tree.worktrees@[j];
            let p = the_project(before.tree.projects@, w.project_id@);
            let branch = if launch.issue is Some {
                before.facts.issue_branch
            } else {
                before.facts.fresh_branch
            };
            let at_box = |target: QuickTarget|
                Some(
                    Overlay::Prompt(
                        PromptDialog {
                            kind: PromptKind::QuickPrompt(QuickLaunch { target, ..launch }),
                            input,
                        },
                    ),
                );
            &&& after.tree == before.tree && after.sel_session == before.sel_session
                && after.sel_project == before.sel_project
            &&& launch.target is Worktree && launch.target->Worktree_0@ == w.id@ ==> after.overlay
                == at_box(QuickTarget::NewWorktree { project: w.project_id, branch })
            &&& launch.target is NewWorktree && launch.target->project@ == w.project_id@ && p
                is Some && !p->0.root_hidden && w.is_main && !w.placeholder && (forall|k: int|
                0 <= k < before.tree.worktrees@.len() && k != j ==> !((
                #[trigger] before.tree.worktrees@[k]).is_main
                    && before.tree.worktrees@[k].project_id@ == w.project_id@)) ==> after.overlay
                == at_box(QuickTarget::Worktree(w.id))
            &&& launch.target is NewWorktree && launch.target->project@ == w.project_id@ && p
                is Some && p->0.root_hidden ==> after.overlay == before.overlay && after.flash
                is Some
        }),
{
    let w = before.tree.worktrees@[j];
    let wids = worktree_ids(before.tree.worktrees@);
    assert(wids[j] == w.id@);
    lemma_distinct_place(wids, j);
    if launch.target is NewWorktree && launch.target->project@ == w.project_id@ {
        let project = launch.target->project;
        crate::launcher::law_launch_lands_on_the_root(before, project, false, j);
        let target = target_of(before, project, false);
        if target is Worktree && forall|k: int|
            0 <= k < before.tree.worktrees@.len() && k != j ==> !((
            #[trigger] before.tree.worktrees@[k]).is_main
                && before.tree.worktrees@[k].project_id@ == w.project_id@) {
            let k = choose|k: int|
                0 <= k < before.tree.worktrees@.len() && (
                #[trigger] before.tree.worktrees@[k]).id == target->Worktree_0
                    && before.tree.worktrees@[k].project_id@ == project@
                    && before.tree.worktrees@[k].is_main
                    && !before.tree.worktrees@[k].placeholder;
            assert(k == j);
        }
    }
}

/// A pull request's box has nothing to flip and no checkout to pick: both say
/// so, and the box stays as it is.
pub proof fn law_pull_requests_box_keeps_its_checkout(
    before: App,
    back: QuickReturn,
    input: TextInput,
    flipped: App,
    opened: App,
)
    requires
        back.launch.pr is Some,
        flips(before, back.launch, input, flipped),
        opens_worktrees(before, back, opened),
    ensures
        flipped == (App { flash: flipped.flash, ..before }),
        opened == (App { flash: opened.flash, ..before }),
        flipped.flash is Some && opened.flash is Some,
{
}

/// The box's chords, each with the control key and in either case: the project,
/// the model, and a fresh worktree or not. No other key is one.
pub proof fn law_box_chords(key: KeyPress)
    ensures
        key.ctrl && (key.code == KeyCode::Char('p') || key.code == KeyCode::Char('P'))
            <==> box_chord(key) == Some(Some(BoxField::Project)),
        key.ctrl && (key.code == KeyCode::Char('o') || key.code == KeyCode::Char('O'))
            <==> box_chord(key) == Some(Some(BoxField::Model)),
        key.ctrl && (key.code == KeyCode::Char('n') || key.code == KeyCode::Char('N'))
            <==> box_chord(key) == Some(None::<BoxField>),
        !key.ctrl ==> box_chord(key) is None,
        !(key.code is Char) ==> box_chord(key) is None,
{
}

/// Each of the box's details opens its own picker over the same box, and none
/// of them launches anything.
pub proof fn law_detail_opens_its_own_picker(
    before: App,
    field: BoxField,
    back: QuickReturn,
    after: App,
    sent: Seq<Effect>,
    out: Seq<Effect>,
)
    requires
        opens_field(before, field, back, after, sent, out),
        back.launch.issue is None,
        back.launch.pr is None,
        aimed_project(before, back.launch.target) is Some,
        before.facts.has_models,
        before.facts.picker_context is Some,
    ensures
        field == BoxField::Project ==> out == sent && after.overlay is Some && after.overlay->0
            is ProjectPicker && after.overlay->0->ProjectPicker_0.back == back,
        field == BoxField::Worktree ==> out == sent && after.overlay is Some && after.overlay->0
            is Menu,
        field == BoxField::Agent ==> after == before && out == sent.push(
            Effect::OpenLaunchPicker(back),
        ),
        field == BoxField::Model ==> after == before && out == sent.push(
            Effect::OpenModels { worktree: before.facts.picker_context->0, back },
        ),
        after.sel_session == before.sel_session && after.sel_project == before.sel_project,
{
}

/// The keys of the PROJECT PICKER. Down and control with `n` or `j` move its
/// cursor a row down, Up and control with `p` or `k` a row up, and neither past
/// an end; Esc takes a typed query away, the list whole again, and with nothing
/// typed closes the picker; any other key but Enter is the query's.
pub proof fn law_picker_keys(
    before: App,
    p: ProjectPicker,
    key: KeyPress,
    edited: TextInput,
    ranked: Seq<Match>,
    after: App,
    sent: Seq<Effect>,
    out: Seq<Effect>,
)
    requires
        key.code != KeyCode::Enter,
        picker_key(
            before,
            p,
            picker_move(key, p.query.text@.len() > 0),
            edited,
            ranked,
            after,
            sent,
            out,
        ),
    ensures
        ({
            let c = match key.code {
                KeyCode::Char(c) => Some(c),
                _ => None,
            };
            let down = key.code == KeyCode::Down || key.ctrl && (c == Some('n') || c == Some('j'));
            let up = key.code == KeyCode::Up || key.ctrl && (c == Some('p') || c == Some('k'));
            let typed = p.query.text@.len() > 0;
            let q = after.overlay->0->ProjectPicker_0;
            let stays = after.overlay is Some && after.overlay->0 is ProjectPicker
                && q.projects == p.projects && q.back == p.back;
            &&& out == sent
            &&& down ==> stays && q.matches == p.matches && q.query == p.query
            &&& down && p.selected + 1 < p.matches@.len() ==> q.selected == p.selected + 1
            &&& down && p.selected + 1 == p.matches@.len() ==> q.selected == p.selected
            &&& up ==> stays && q.matches == p.matches && q.query == p.query
            &&& up && 0 < p.selected < p.matches@.len() ==> q.selected == p.selected - 1
            &&& up && p.selected == 0 ==> q.selected == 0
            &&& key.code == KeyCode::Esc && typed ==> stays && q.query.text@.len() == 0
                && q.selected == 0 && q.matches@.len() == p.projects@.len()
            &&& key.code == KeyCode::Esc && !typed ==> !(after.overlay is Some && after.overlay->0
                is ProjectPicker)
            &&& !down && !up && key.code != KeyCode::Esc ==> stays && q.query == edited
            &&& !down && !up && key.code != KeyCode::Esc && edited.text@ != p.query.text@
                && edited.text@.len() > 0 ==> q.matches@ == ranked && q.selected == 0
            &&& !down && !up && key.code != KeyCode::Esc && edited.text@ == p.query.text@
                ==> q.matches == p.matches && q.selected == p.selected
        }),
{
}

/// Enter picks the project on the cursor's row: the box comes back on it, its
/// text as it was, the caret behind it, cutting a fresh worktree of that very
/// project where the box was set to; with no box to come back to a new one is
/// opened.
pub proof fn law_pick_is_of_the_row_under_the_cursor(
    before: App,
    p: ProjectPicker,
    typed: bool,
    ctrl: bool,
    edited: TextInput,
    ranked: Seq<Match>,
    after: App,
    sent: Seq<Effect>,
    out: Seq<Effect>,
)
    requires
        p.wf(),
        p.selected < p.matches@.len(),
        picker_key(
            before,
            p,
            picker_move(KeyPress { code: KeyCode::Enter, ctrl }, typed),
            edited,
            ranked,
            after,
            sent,
            out,
        ),
    ensures
        ({
            let id = p.projects@[p.matches@[p.selected as int].project as int].id;
            let dialog = after.overlay->0->Prompt_0;
            let launch = dialog.kind->QuickPrompt_0;
            &&& p.back.from_box ==> {
                &&& out == sent
                &&& after.overlay is Some && after.overlay->0 is Prompt && dialog.kind
                    is QuickPrompt
                &&& dialog.input.text == p.back.text
                &&& dialog.input.caret == p.back.text@.len() as usize
                &&& launch == (QuickLaunch { target: launch.target, ..p.back.launch })
                &&& p.back.launch.target is NewWorktree ==> launch.target is NewWorktree
                    && launch.target->project == id
            }
            &&& !p.back.from_box ==> after.overlay is None && out.len() == sent.len() + 1
                && out.last() is OpenBox
        }),
{
}

/// A picked row of the WORKTREE PICKER: the box back as it was but for where it
/// launches, the caret behind its text.
pub proof fn law_picked_checkout_is_launched_in(
    before: App,
    target: QuickTarget,
    back: QuickReturn,
    after: App,
)
    requires
        box_again(before, QuickLaunch { target, ..back.launch }, back.text, after),
    ensures
        after.overlay is Some && after.overlay->0 is Prompt,
        ({
            let dialog = after.overlay->0->Prompt_0;
            &&& dialog.kind == PromptKind::QuickPrompt(QuickLaunch { target, ..back.launch })
            &&& dialog.input.text == back.text
            &&& dialog.input.caret == back.text@.len() as usize
        }),
        after == (App { overlay: after.overlay, ..before }),
{
}

/// A new PROJECT PICKER starts on the project the box is aimed at, where it is
/// one of those offered.
pub proof fn law_new_picker_starts_on_the_aimed_project(
    app: App,
    back: QuickReturn,
    p: ProjectPicker,
    i: int,
)
    requires
        is_new_picker(app, back, p),
        aimed_project(app, back.launch.target) is Some,
        distinct_ids(picker_ids(p.projects@)),
        0 <= i < p.projects@.len(),
        p.projects@[i].id@ == aimed_project(app, back.launch.target)->0@,
    ensures
        p.selected == i,
        p.matches@[i].project == i,
        p.matches@.len() == p.projects@.len(),
{
    let ids = picker_ids(p.projects@);
    assert(ids[i] == p.projects@[i].id@);
    lemma_distinct_place(ids, i);
}

/// A box for an issue or a pull request keeps its project: the picker does not
/// open, the number is said, and the box stays as it is.
pub proof fn law_bound_box_keeps_its_project(before: App, back: QuickReturn, after: App)
    requires
        opens_picker(before, back, after),
    ensures
        back.launch.issue is Some || back.launch.pr is Some ==> after == (App {
            flash: after.flash,
            ..before
        }) && after.flash is Some,
        back.launch.issue is Some ==> after.flash->0@ == "this box is for issue #"@ + decimal(
            back.launch.issue->0.number as nat,
        ) + " — its project is fixed"@,
        back.launch.issue is None && back.launch.pr is Some ==> after.flash->0@
            == "this box is for PR #"@ + decimal(back.launch.pr->0.number as nat)
            + " — its project is fixed"@,
        back.launch.issue is None && back.launch.pr is None ==> after.overlay is Some
            && after.overlay->0 is ProjectPicker && after.flash == before.flash,
{
}

/// With no models to list, or no checkout to list them for, no list is asked
/// for and the reason is said.
pub proof fn law_no_models_are_asked_for_in_vain(
    before: App,
    back: QuickReturn,
    after: App,
    sent: Seq<Effect>,
    out: Seq<Effect>,
)
    requires
        opens_models(before, back, after, sent, out),
    ensures
        !before.facts.has_models || before.facts.picker_context is None ==> out == sent && after
            == (App { flash: after.flash, ..before }) && after.flash is Some,
        before.facts.has_models && before.facts.picker_context is Some ==> after == before && out
            == sent.push(
            Effect::OpenModels { worktree: before.facts.picker_context->0, back },
        ),
{
}

/// The first row of the WORKTREE PICKER cuts a fresh worktree: the one the box
/// already means to cut, and for a box that launches in a checkout one on a
/// branch nobody has yet, the issue's where it is for an issue. The row says
/// the branch.
pub proof fn law_first_row_cuts_a_worktree(app: App, project: ProjectId, back: QuickReturn)
    ensures
        ({
            let row = worktree_items(app, project, back)[0];
            let target = row.action->target;
            let branch = if back.launch.issue is Some {
                app.facts.issue_branch
            } else {
                app.facts.fresh_branch
            };
            &&& row.action is PickLaunchWorktree && target is NewWorktree
            &&& back.launch.target is NewWorktree ==> target == back.launch.target && row.label
                == "+ new worktree  "@ + target->branch@ + TICK@
            &&& back.launch.target is Worktree ==> target == (QuickTarget::NewWorktree {
                project,
                branch,
            }) && row.label == "+ new worktree  "@ + branch@ + ""@
        }),
{
}

/// A picker opened from the box hands back that very box: its launch, its text,
/// and that there was one.
pub proof fn law_box_is_handed_back(launch: QuickLaunch, input: TextInput)
    ensures
        box_back(launch, input).launch == launch,
        box_back(launch, input).text == input.text,
        box_back(launch, input).from_box,
{
}

/// Picked with no box to come back to, the project's new box launches in it: on
/// a fresh worktree of it where the launch was to cut one.
pub proof fn law_pick_without_a_box_opens_one(
    before: App,
    p: ProjectPicker,
    after: App,
    sent: Seq<Effect>,
    out: Seq<Effect>,
)
    requires
        !p.back.from_box,
        picks_project(before, p, after, sent, out),
        picked(p) is Some,
    ensures
        out.len() == sent.len() + 1,
        out.last() is OpenBox,
        p.back.launch.target is NewWorktree ==> out.last()->OpenBox_0.target is NewWorktree
            && out.last()->OpenBox_0.target->project == picked(p)->0,
        out.last()->OpenBox_0 == (QuickLaunch {
            target: out.last()->OpenBox_0.target,
            ..p.back.launch
        }),
        after.overlay is None,
{
}

} // verus!
