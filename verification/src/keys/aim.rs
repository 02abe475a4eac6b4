//! The cursor on the cards and the pane that reads it: aiming, letting go,
//! folding the pane away, and putting the cursor on a session.

use crate::launcher::{agent_at, rows_of};
use crate::model::{Agent, AgentId, ProjectId, SessionRef, WorktreeId};
use crate::state::{
    find_agent, find_worktree, the_agent, the_worktree, App, Effect, Focus, Landing,
};
use crate::views::opt;
use vstd::prelude::*;

verus! {

/// What `⇧A` says each way: which of the two lists the grid is now of.
pub const ARCHIVED_VIEW: &'static str = "archived sessions — u unarchives one, ⇧A back to the live ones";
pub const LIVE_VIEW: &'static str = "live sessions — ⇧A reads the archived ones";
/// What the grid says when there is nothing to step through yet — of whichever
/// of the two lists it is showing.
pub const NO_SESSIONS: &'static str = "no sessions yet — p starts one";
pub const NO_ARCHIVED_SESSIONS: &'static str = "nothing archived here — ⇧A back to the live sessions";
/// What folding the PANE away says, and what bringing it back says.
pub const PANE_HIDDEN: &'static str = "pane hidden, nothing selected — ^` brings it back";
pub const PANE_SHOWN: &'static str = "pane back under the cards";
/// What the fold key did as the first of its two presses from inside the PANE.
pub const BACK_TO_CARD: &'static str = "Back to the card";
/// What letting the card under the cursor go says.
pub const UNAIMED: &'static str = "nothing selected — j/k or a click picks a card again";

/// Only the word at the foot of the screen changed, to `text`.
pub open spec fn only_says(before: App, after: App, text: Seq<char>) -> bool {
    &&& after == (App { flash: after.flash, ..before })
    &&& opt(after.flash) == Some(text)
}

/// Puts a word at the foot of the screen.
pub(crate) fn say(app: &mut App, text: &str)
    ensures
        only_says(*old(app), *final(app), text@),
{
    app.flash = Some(text.to_owned());
}

/// Is the card under this id one of the ARCHIVED VIEW's? Nothing on it can be
/// stepped into.
pub fn is_archived(app: &App, id: &AgentId) -> (r: bool)
    ensures
        r == filed(*app, id@),
        r <==> exists|k: int|
            0 <= k < app.tree.agents@.len() && #[trigger] app.tree.agents@[k].id@ == id@
                && app.tree.agents@[k].archived,
{
    let mut i: usize = 0;
    while i < app.tree.agents.len()
        invariant
            i <= app.tree.agents@.len(),
            forall|k: int|
                0 <= k < i ==> !(#[trigger] app.tree.agents@[k].id@ == id@
                    && app.tree.agents@[k].archived),
        decreases app.tree.agents@.len() - i,
    {
        let a = &app.tree.agents[i];
        if a.id.same(id) && a.archived {
            return true;
        }
        i += 1;
    }
    false
}

/// Some session of the tree with the id is archived.
pub open spec fn filed(app: App, id: Seq<char>) -> bool {
    exists|k: int|
        0 <= k < app.tree.agents@.len() && #[trigger] app.tree.agents@[k].id@ == id
            && app.tree.agents@[k].archived
}

/// What a grid with no cards says.
pub open spec fn nothing_word(app: App) -> Seq<char> {
    if app.show_archived {
        NO_ARCHIVED_SESSIONS@
    } else {
        NO_SESSIONS@
    }
}

/// What a grid with no cards says, of whichever of the two lists it shows.
pub fn nothing_here(app: &App) -> (r: &'static str)
    ensures
        r@ == nothing_word(*app),
        r@ == if app.show_archived {
            NO_ARCHIVED_SESSIONS@
        } else {
            NO_SESSIONS@
        },
{
    if app.show_archived {
        NO_ARCHIVED_SESSIONS
    } else {
        NO_SESSIONS
    }
}

// ---- aim ----

/// The state once a card wears the cursor again.
pub open spec fn aimed(app: App) -> App {
    App { launcher_unaimed: false, dirty: app.dirty || app.launcher_unaimed, ..app }
}

/// Put the cursor back on a card: anything that lands on one takes the aim
/// back, so the box reads a checkout again and the PANE opens on that card.
/// Only the aim: the keys stay on the cards.
pub fn take_aim(app: &mut App)
    ensures
        *final(app) == aimed(*old(app)),
{
    if app.launcher_unaimed {
        app.launcher_unaimed = false;
        app.dirty = true;
    }
}

/// No card wears the cursor any more, and the word for it is said.
pub open spec fn let_go(before: App, after: App, text: Seq<char>) -> bool {
    &&& after == (App { launcher_unaimed: true, dirty: true, flash: after.flash, ..before })
    &&& opt(after.flash) == Some(text)
}

/// Let the card under the cursor go: no card is drawn wearing the cursor, and
/// the PANE collapses — it is the selected session, so with nothing selected
/// there is nothing for it to be. What the cursor was on is only let go of and
/// not forgotten.
pub fn clear_aim(app: &mut App)
    ensures
        let_go(*old(app), *final(app), UNAIMED@),
{
    app.launcher_unaimed = true;
    say(app, UNAIMED);
    app.dirty = true;
}

/// Nothing to aim at: with no card the PANE has no session to be, so it folds
/// and the grid takes the body — and says how to fill it.
pub fn fold_empty_grid(app: &mut App)
    ensures
        let_go(*old(app), *final(app), nothing_word(*old(app))),
{
    let word = nothing_here(app);
    clear_aim(app);
    say(app, word);
}

/// The pane folded away: the aim let go with it, and the keys back on the
/// cards.
pub open spec fn folded(before: App, after: App) -> bool {
    &&& after == (App {
        launcher_pane_hidden: true,
        launcher_unaimed: true,
        focus: Focus::Sessions,
        term_locked: false,
        dirty: true,
        flash: after.flash,
        ..before
    })
    &&& opt(after.flash) == Some(PANE_HIDDEN@)
}

/// The pane back under the cards, aimed.
pub open spec fn unfolded(before: App, after: App) -> bool {
    &&& after == (App {
        launcher_pane_hidden: false,
        launcher_unaimed: false,
        dirty: true,
        flash: after.flash,
        ..before
    })
    &&& opt(after.flash) == Some(PANE_SHOWN@)
}

/// Fold the PANE under the cards away and give the grid the whole body, or
/// bring it back. Folding it lets the card under the cursor go with it, and
/// bringing the pane back takes the aim again.
pub fn toggle_pane(app: &mut App)
    ensures
        old(app).launcher_pane_hidden ==> unfolded(*old(app), *final(app)),
        !old(app).launcher_pane_hidden ==> folded(*old(app), *final(app)),
{
    app.launcher_pane_hidden = !app.launcher_pane_hidden;
    if app.launcher_pane_hidden {
        clear_aim(app);
        app.focus = Focus::Sessions;
        app.term_locked = false;
        say(app, PANE_HIDDEN);
    } else {
        take_aim(app);
        say(app, PANE_SHOWN);
    }
    app.dirty = true;
}

/// The keys are in a pane that is drawn.
pub open spec fn in_pane(app: App) -> bool {
    app.focus == Focus::Terminal && !app.launcher_pane_hidden
}

/// The keys handed from the pane back to the card it reads.
pub open spec fn stepped_out(app: App) -> App {
    App { focus: Focus::Sessions, term_locked: false, dirty: true, ..app }
}

/// The way out of the PANE, and then the way it folds. With the keys in the
/// pane the first press only hands them back to the card it reads, the cursor
/// still on it; pressed again from the cards it folds the pane away, and once
/// more brings it back. Returns what it did.
pub fn fold_key(app: &mut App, out: &mut Vec<Effect>) -> (r: &'static str)
    ensures
        in_pane(*old(app)) ==> {
            &&& *final(app) == stepped_out(*old(app))
            &&& final(out)@ == old(out)@.push(Effect::LeavePane)
            &&& r@ == BACK_TO_CARD@
        },
        !in_pane(*old(app)) && old(app).launcher_pane_hidden ==> {
            &&& unfolded(*old(app), *final(app))
            &&& final(out)@ == old(out)@
            &&& r@ == "Show the pane"@
        },
        !in_pane(*old(app)) && !old(app).launcher_pane_hidden ==> {
            &&& folded(*old(app), *final(app))
            &&& final(out)@ == old(out)@
            &&& r@ == "Hide the pane"@
        },
{
    if app.focus == Focus::Terminal && !app.launcher_pane_hidden {
        app.focus = Focus::Sessions;
        app.term_locked = false;
        app.dirty = true;
        out.push(Effect::LeavePane);
        return BACK_TO_CARD;
    }
    toggle_pane(app);
    if app.launcher_pane_hidden {
        "Hide the pane"
    } else {
        "Show the pane"
    }
}

// ---- the cursor on a session ----

/// The checkout a session runs in.
pub open spec fn checkout_of_session(app: App, id: Seq<char>) -> Option<WorktreeId> {
    match the_agent(app.tree.agents@, id) {
        Some(a) => Some(a.worktree_id),
        None => app.sel_worktree,
    }
}

/// The project that checkout is in.
pub open spec fn project_of_session(app: App, id: Seq<char>) -> Option<ProjectId> {
    match the_agent(app.tree.agents@, id) {
        Some(a) => match the_worktree(app.tree.worktrees@, a.worktree_id@) {
            Some(w) => Some(w.project_id),
            None => app.sel_project,
        },
        None => app.sel_project,
    }
}

/// The state with the cursor on session `id`: the selection on it, its
/// checkout and its project, a card aimed at, the keys on the grid, and a
/// follow-up box that was aimed at another session folded.
pub open spec fn on_session(app: App, id: AgentId) -> App {
    App {
        follow_up: match app.follow_up {
            Some(f) => if f@ == id@ {
                app.follow_up
            } else {
                None
            },
            None => None,
        },
        launcher_unaimed: false,
        dirty: app.dirty || app.launcher_unaimed,
        sel_session: Some(SessionRef::Agent(id)),
        sel_worktree: checkout_of_session(app, id@),
        sel_project: project_of_session(app, id@),
        focus: Focus::Sessions,
        ..app
    }
}

/// Put the cursor on session `id` — so the panels' selection and every verb
/// that reads it agree with the card. The keys land on the grid: the pane is
/// opened on the session, never entered.
pub fn select(app: &mut App, id: AgentId, out: &mut Vec<Effect>)
    ensures
        *final(app) == on_session(*old(app), id),
        final(out)@ == old(out)@.push(
            Effect::Jump { session: id, landing: Landing::FocusOnly },
        ),
{
    let (worktree, project) = place_of_session(app, &id);
    let other: bool = match &app.follow_up {
        Some(f) => !f.same(&id),
        None => false,
    };
    if other {
        app.follow_up = None;
    }
    take_aim(app);
    app.sel_worktree = worktree;
    app.sel_project = project;
    app.sel_session = Some(SessionRef::Agent(id.clone()));
    app.focus = Focus::Sessions;
    out.push(Effect::Jump { session: id, landing: Landing::FocusOnly });
}

/// The selection on session `id`, its checkout and its project.
pub open spec fn selection_on(app: App, id: AgentId) -> App {
    App {
        sel_session: Some(SessionRef::Agent(id)),
        sel_worktree: checkout_of_session(app, id@),
        sel_project: project_of_session(app, id@),
        ..app
    }
}

/// The checkout and the project the selection goes to with session `id`.
fn place_of_session(app: &App, id: &AgentId) -> (r: (Option<WorktreeId>, Option<ProjectId>))
    ensures
        r.0 == checkout_of_session(*app, id@),
        r.1 == project_of_session(*app, id@),
{
    match find_agent(&app.tree.agents, id) {
        Some(i) => {
            let wid = app.tree.agents[i].worktree_id.clone();
            let project: Option<ProjectId> = match find_worktree(&app.tree.worktrees, &wid) {
                Some(j) => Some(app.tree.worktrees[j].project_id.clone()),
                None => app.sel_project.clone(),
            };
            (Some(wid), project)
        },
        None => (app.sel_worktree.clone(), app.sel_project.clone()),
    }
}

/// Moves the selection onto session `id`.
pub(crate) fn move_selection(app: &mut App, id: &AgentId)
    ensures
        *final(app) == selection_on(*old(app), *id),
{
    let (worktree, project) = place_of_session(app, id);
    app.sel_worktree = worktree;
    app.sel_project = project;
    app.sel_session = Some(SessionRef::Agent(id.clone()));
}

/// `⇧A`: swap the grid between a project's LIVE sessions and its ARCHIVED
/// ones. The cursor lands on the first card of whichever list arrives; an
/// empty list lets the aim go, the way a folded pane does.
pub fn toggle_archived(app: &mut App, out: &mut Vec<Effect>)
    ensures
        ({
            let s = App { show_archived: !old(app).show_archived, ..*old(app) };
            let rows = rows_of(&s);
            let after = *final(app);
            &&& opt(after.flash) == Some(
                if s.show_archived {
                    ARCHIVED_VIEW@
                } else {
                    LIVE_VIEW@
                },
            )
            &&& rows.len() > 0 ==> {
                &&& after == (App {
                    dirty: true,
                    flash: after.flash,
                    ..on_session(s, rows[0].agent.id)
                })
                &&& final(out)@ == old(out)@.push(
                    Effect::Jump { session: rows[0].agent.id, landing: Landing::FocusOnly },
                )
            }
            &&& rows.len() == 0 ==> {
                &&& after == (App {
                    launcher_unaimed: true,
                    dirty: true,
                    flash: after.flash,
                    ..s
                })
                &&& final(out)@ == old(out)@
            }
        }),
{
    app.show_archived = !app.show_archived;
    match agent_at(app, 0) {
        Some(first) => select(app, first, out),
        None => clear_aim(app),
    }
    if app.show_archived {
        say(app, ARCHIVED_VIEW);
    } else {
        say(app, LIVE_VIEW);
    }
    app.dirty = true;
}

// ---- what holds of it ----

/// Letting the card go and taking it back leaves the cursor where it was: only
/// the word said, and that the screen wants drawing, are new.
pub proof fn law_aim_comes_back(before: App, gone: App, back: App)
    requires
        let_go(before, gone, UNAIMED@),
        back == aimed(gone),
    ensures
        back == (App { launcher_unaimed: false, dirty: true, flash: back.flash, ..before }),
{
}

/// Folding a pane away and bringing it back ends on the same card, aimed, with
/// the keys on the cards.
pub proof fn law_fold_twice_is_the_pane_again(before: App, hidden: App, shown: App)
    requires
        !before.launcher_pane_hidden,
        folded(before, hidden),
        unfolded(hidden, shown),
    ensures
        shown == (App {
            launcher_unaimed: false,
            focus: Focus::Sessions,
            term_locked: false,
            dirty: true,
            flash: shown.flash,
            ..before
        }),
{
}

/// A folded pane never has the keys: nothing can be typed where nothing is
/// drawn.
pub proof fn law_folded_pane_has_no_keys(before: App, after: App)
    requires
        folded(before, after),
    ensures
        after.focus != Focus::Terminal,
        !after.term_locked,
        after.body_parts(after.screen.launcher_body).1 is None,
{
}

/// Wherever the cursor is put, the session it is put on is the selected one,
/// and the grid is of its project.
pub proof fn law_cursor_is_the_selection(app: App, id: AgentId, a: Agent)
    requires
        the_agent(app.tree.agents@, id@) == Some(a),
    ensures
        on_session(app, id).session_on() == Some(a),
        on_session(app, id).sel_worktree == Some(a.worktree_id),
        !on_session(app, id).launcher_unaimed,
        on_session(app, id).focus == Focus::Sessions,
{
}

/// Putting the cursor on a session twice is putting it there once.
pub proof fn law_select_twice_is_once(app: App, id: AgentId)
    ensures
        on_session(on_session(app, id), id) == on_session(app, id),
{
}

/// What putting the cursor on a session moves: the selection goes to it, its
/// checkout and that checkout's project; a follow-up box stays up over its own
/// session and over no other; and the tree, the tabs, the pane's fold and the
/// list shown stay as they are.
pub proof fn law_select_moves_the_selection_alone(app: App, id: AgentId, a: Agent)
    requires
        the_agent(app.tree.agents@, id@) == Some(a),
    ensures
        ({
            let after = on_session(app, id);
            let w = the_worktree(app.tree.worktrees@, a.worktree_id@);
            &&& after.sel_session == Some(SessionRef::Agent(id))
            &&& after.sel_worktree == Some(a.worktree_id)
            &&& app.dirty || app.launcher_unaimed ==> after.dirty && aimed(app).dirty
            &&& w is Some ==> after.sel_project == Some(w->0.project_id)
            &&& w is None ==> after.sel_project == app.sel_project
            &&& app.follow_up is Some && app.follow_up->0@ == id@ ==> after.follow_up
                == app.follow_up
            &&& app.follow_up is Some && app.follow_up->0@ != id@ ==> after.follow_up is None
            &&& app.follow_up is None ==> after.follow_up is None
            &&& after.tree == app.tree && after.launcher_tabs == app.launcher_tabs
            &&& after.launcher_pane_hidden == app.launcher_pane_hidden
            &&& after.show_archived == app.show_archived
            &&& after.launcher_terminal == app.launcher_terminal
            &&& after.launcher_tab_cursor == app.launcher_tab_cursor
            &&& after.overlay == app.overlay
        }),
{
}

/// Folding and letting go move no selection: what was selected stays so.
pub proof fn law_letting_go_forgets_nothing(before: App, after: App, text: Seq<char>)
    requires
        let_go(before, after, text) || folded(before, after) || unfolded(before, after),
    ensures
        after.sel_session == before.sel_session,
        after.sel_worktree == before.sel_worktree,
        after.sel_project == before.sel_project,
        after.launcher_tabs == before.launcher_tabs,
        after.tree == before.tree,
        after.flash is Some,
        after.dirty,
        let_go(before, after, text) ==> after.launcher_unaimed && after.flash->0@ == text
            && after.launcher_pane_hidden == before.launcher_pane_hidden,
        folded(before, after) ==> after.launcher_pane_hidden && after.launcher_unaimed,
        unfolded(before, after) ==> !after.launcher_pane_hidden && !after.launcher_unaimed,
{
}

} // verus!
