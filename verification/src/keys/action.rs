//! Which key does what: on the cards, and up on the PROJECT TABS.

use crate::folders::stepped_folder;
use crate::grid::{grid_of, law_columns_hold_the_minimum};
use crate::keys::aim::{
    clear_aim, fold_key, folded, in_pane, let_go, on_session, only_says, stepped_out,
    toggle_archived, toggle_pane, unfolded, ARCHIVED_VIEW, LIVE_VIEW, UNAIMED,
};
use crate::keys::boxes::{box_project, open_box, NO_PROJECT};
use crate::keys::cards::{
    enter_pane, enters_pane, follow_up, law_top_row_is_the_first, law_walking_down_selects_the_card,
    law_walking_sideways_selects_the_card, nothing, on_top_row, open_pull_request, open_session,
    pane_back, row_for_pr, row_selected, step_grid, step_up, steps_grid, steps_in, walkable,
    INTO_TABS, NO_CARD_FOR_PR,
};
use crate::keys::menus::{
    dropdown_hover, dropdown_items, open_project_menu, over_view, project_menu,
    shows_project_menu, MenuView, NO_PROJECTS,
};
use crate::keys::projects::{law_opened_project_is_on_the_grid, opens_tab, settles};
use crate::keys::strip_keys::{
    asks_to_close, close_pinned_terminal, cycle_pane_tab, next_tab, pinned_place, reads_tab,
    NO_TERMINALS,
};
use crate::keys::tabs::{
    anchor, anchor_in_range, choose_tab, close_active_tab, close_cursor_tab, closes_active,
    closes_tab, closes_under_cursor, down_from_tabs, focuses_tabs, law_digit_opens_its_tab,
    law_folder_step_moves_the_grid, law_header_cursor_goes_that_far, law_tab_step_goes_that_far,
    leave_tabs, open_ids, open_tab_slot, opens_slot, settled_as, step_folder, step_tab,
    steps_folder, steps_tab, walk_tab_cursor, walks_cursor,
};
use crate::launcher::{
    law_list_ignores_the_cursor, name_of, project_name, rows, rows_of, scope_of, target_of,
};
use crate::model::{distinct_ids, ProjectId, SessionRef};
use crate::state::{agent_ids, the_project, worktree_ids, App, Effect, Focus, HitView, Landing};
use crate::text::joined;
use crate::views::{opt, views};
use vstd::arithmetic::div_mod::*;
use vstd::arithmetic::mul::*;
use vstd::prelude::*;

verus! {

/// What a key means, before it is known where the keys are.
#[derive(Debug, Clone, Copy, PartialEq, Eq, Structural)]
pub enum Action {
    MoveDown,
    MoveUp,
    FocusRight,
    FocusLeft,
    HalfPageDown,
    HalfPageUp,
    Activate,
    FocusNext,
    FocusPrev,
    FocusTerminal,
    Zoom,
    PaneTabs,
    Delete,
    New,
    QuickPrompt,
    ToggleArchived,
    FollowUp,
    OpenPullRequest,
    ContextMenu,
    ToggleLauncherPane,
    ToggleSidebars,
    NextProjectTab,
    PrevProjectTab,
    NextFolder,
    PrevFolder,
    CloseProjectTab,
    SelectProjectTab(u8),
    ProjectDropdown,
    /// One the view leaves to the panels.
    Other,
}

/// Rows of cards a half page jumps.
pub const HALF_PAGE: i64 = 2;

// ---- Esc ----

/// Esc in the GRID: let the card under the cursor go. With nothing selected
/// already there is nothing left to let go of. With the PROJECT TABS holding
/// the keys Esc is only the way back down.
pub fn escape(app: &mut App)
    ensures
        old(app).launcher_tab_cursor is Some ==> *final(app) == down_from_tabs(*old(app)),
        old(app).launcher_tab_cursor is None && !old(app).launcher_unaimed ==> let_go(
            *old(app),
            *final(app),
            UNAIMED@,
        ),
        old(app).launcher_tab_cursor is None && old(app).launcher_unaimed ==> *final(app) == *old(
            app,
        ),
{
    if app.launcher_tab_cursor.is_some() {
        leave_tabs(app);
    } else if !app.launcher_unaimed {
        clear_aim(app);
    }
}

// ---- up on the tabs ----

/// The header has a use for the key.
pub open spec fn tabs_take(action: Action) -> bool {
    match action {
        Action::FocusLeft
        | Action::PrevProjectTab
        | Action::FocusRight
        | Action::NextProjectTab
        | Action::Activate
        | Action::MoveDown
        | Action::MoveUp
        | Action::CloseProjectTab => true,
        _ => false,
    }
}

/// What the edge of the header says a second press does.
pub open spec fn into_project(app: App, on: Seq<char>) -> Seq<char> {
    "into "@ + match name_of(app, on) {
        Some(name) => name@,
        None => ""@,
    }
}

/// One more request, that says what a second press would do.
pub open spec fn arms_tap(sent: Seq<Effect>, out: Seq<Effect>, text: Seq<char>) -> bool {
    &&& out.len() == sent.len() + 1
    &&& out.drop_last() == sent
    &&& out.last() is ArmTap
    &&& out.last()->ArmTap_0@ == text
}

/// A key the header takes, its cursor on `on`.
pub open spec fn header_action(
    before: App,
    on: ProjectId,
    action: Action,
    after: App,
    sent: Seq<Effect>,
    out: Seq<Effect>,
) -> bool {
    let s = settled_as(before, after);
    match action {
        Action::FocusLeft | Action::PrevProjectTab => settles(before, s) && walks_cursor(
            s,
            -1,
            after,
            sent,
            out,
        ),
        Action::FocusRight | Action::NextProjectTab => settles(before, s) && walks_cursor(
            s,
            1,
            after,
            sent,
            out,
        ),
        Action::Activate => opens_tab(down_from_tabs(before), on, after, sent, out),
        Action::MoveDown => if before.facts.tapped {
            opens_tab(down_from_tabs(before), on, after, sent, out)
        } else {
            after == before && arms_tap(sent, out, into_project(before, on@))
        },
        Action::MoveUp => nothing(before, after, sent, out),
        Action::CloseProjectTab => exists|mid: App| #[trigger]
            closes_tab(before, on@, mid, sent, out) && closes_under_cursor(
                before,
                on@,
                mid,
                after,
            ),
        _ => false,
    }
}

/// A key while the PROJECT TABS have the keyboard: along the tabs walks the
/// header's cursor and the grid with it, Enter goes back down to the cards of
/// the tab under it, the double tap back down does too, and one closes it. Up
/// has nowhere higher to go. Any other key hands the keys back to the cards and
/// is false, so the grid's own meaning of it runs.
pub fn tabs_action(app: &mut App, action: Action, out: &mut Vec<Effect>) -> (taken: bool)
    ensures
        match old(app).launcher_tab_cursor {
            None => !taken && nothing(*old(app), *final(app), old(out)@, final(out)@),
            Some(on) => {
                &&& taken == tabs_take(action)
                &&& taken ==> header_action(
                    *old(app),
                    on,
                    action,
                    *final(app),
                    old(out)@,
                    final(out)@,
                )
                &&& !taken ==> {
                    &&& *final(app) == down_from_tabs(*old(app))
                    &&& final(out)@ == old(out)@
                }
            },
        },
{
    let on: ProjectId = match &app.launcher_tab_cursor {
        Some(on) => on.clone(),
        None => return false,
    };
    match action {
        Action::FocusLeft | Action::PrevProjectTab => walk_tab_cursor(app, -1, out),
        Action::FocusRight | Action::NextProjectTab => walk_tab_cursor(app, 1, out),
        Action::Activate => choose_tab(app, &on, out),
        Action::MoveDown => {
            if app.facts.tapped {
                choose_tab(app, &on, out);
            } else {
                let text: String = match project_name(app, &on) {
                    Some(name) => joined("into ", &name),
                    None => joined("into ", ""),
                };
                out.push(Effect::ArmTap(text));
                assert(out@.drop_last() =~= old(out)@);
            }
        },
        Action::MoveUp => {},
        Action::CloseProjectTab => close_cursor_tab(app, &on, out),
        _ => {
            leave_tabs(app);
            return false;
        },
    }
    true
}

// ---- on the cards ----

/// The grid has a use for the key: all but the ones left to the panels, the
/// delete key only while the pane is on a terminal, and the menu key only while
/// there is no card for it to be the menu of.
pub open spec fn grid_takes(app: App, action: Action) -> bool {
    match action {
        Action::Delete => app.launcher_terminal is Some,
        Action::ContextMenu => app.launcher_unaimed || rows_of(&app).len() == 0,
        Action::Other => false,
        _ => true,
    }
}

/// The grid's two lists swapped.
pub open spec fn swaps_lists(before: App, after: App, sent: Seq<Effect>, out: Seq<Effect>) -> bool {
    let s = App { show_archived: !before.show_archived, ..before };
    let rows = rows_of(&s);
    &&& opt(after.flash) == Some(
        if s.show_archived {
            ARCHIVED_VIEW@
        } else {
            LIVE_VIEW@
        },
    )
    &&& rows.len() > 0 ==> {
        &&& after == (App { dirty: true, flash: after.flash, ..on_session(s, rows[0].agent.id) })
        &&& out == sent.push(
            Effect::Jump { session: rows[0].agent.id, landing: Landing::FocusOnly },
        )
    }
    &&& rows.len() == 0 ==> {
        &&& after == (App { launcher_unaimed: true, dirty: true, flash: after.flash, ..s })
        &&& out == sent
    }
}

/// The pane folded away or brought back.
pub open spec fn toggles_pane(before: App, after: App) -> bool {
    if before.launcher_pane_hidden {
        unfolded(before, after)
    } else {
        folded(before, after)
    }
}

/// A key the grid takes.
pub open spec fn grid_action(
    before: App,
    action: Action,
    after: App,
    sent: Seq<Effect>,
    out: Seq<Effect>,
) -> bool {
    let s = settled_as(before, after);
    match action {
        Action::MoveDown => steps_grid(before, 0, 1, after, sent, out),
        Action::MoveUp => if !on_top_row(before) {
            steps_grid(before, 0, -1, after, sent, out)
        } else if before.facts.tapped {
            settles(before, s) && focuses_tabs(s, after) && out == sent
        } else {
            after == before && arms_tap(sent, out, INTO_TABS@)
        },
        Action::FocusRight => steps_grid(before, 1, 0, after, sent, out),
        Action::FocusLeft => steps_grid(before, -1, 0, after, sent, out),
        Action::HalfPageDown => steps_grid(before, 0, HALF_PAGE as int, after, sent, out),
        Action::HalfPageUp => steps_grid(before, 0, -HALF_PAGE, after, sent, out),
        Action::Activate | Action::FocusNext | Action::FocusTerminal => exists|mid: App| #[trigger]
            pane_back(before, mid) && enters_pane(mid, after, sent, out),
        Action::Zoom => steps_in(
            before,
            Effect::ZoomPane,
            Effect::ZoomIfAttached,
            after,
            sent,
            out,
        ),
        Action::FocusPrev => nothing(before, after, sent, out),
        Action::PaneTabs => if before.records.pane_terminals@.len() == 0 {
            only_says(before, after, NO_TERMINALS@) && out == sent
        } else {
            reads_tab(before, next_tab(before), after, sent, out)
        },
        Action::Delete => {
            &&& out == sent
            &&& match pinned_place(before) {
                Some(i) => asks_to_close(before, before.records.pane_terminals@[i], after),
                None => after == before,
            }
        },
        Action::New | Action::QuickPrompt => match box_project(before) {
            None => only_says(before, after, NO_PROJECT@) && out == sent,
            Some(project) => {
                &&& after == before
                &&& out == sent.push(
                    Effect::OpenBoxFor(target_of(before, project, before.facts.new_worktree)),
                )
            },
        },
        Action::ToggleArchived => swaps_lists(before, after, sent, out),
        Action::FollowUp => asks_follow_up(before, after, sent, out),
        Action::OpenPullRequest => opens_pr(before, after, sent, out),
        Action::ContextMenu => shows_project_menu(before, before.facts.menu_anchor, after) && out
            == sent,
        Action::ToggleLauncherPane => if in_pane(before) {
            after == stepped_out(before) && out == sent.push(Effect::LeavePane)
        } else {
            toggles_pane(before, after) && out == sent
        },
        Action::ToggleSidebars => toggles_pane(before, after) && out == sent,
        Action::NextProjectTab => settles(before, s) && steps_tab(s, 1, after, sent, out),
        Action::PrevProjectTab => settles(before, s) && steps_tab(s, -1, after, sent, out),
        Action::NextFolder => settles(before, s) && steps_folder(
            s,
            stepped_folder(before, true),
            after,
            sent,
            out,
        ),
        Action::PrevFolder => settles(before, s) && steps_folder(
            s,
            stepped_folder(before, false),
            after,
            sent,
            out,
        ),
        Action::CloseProjectTab => exists|t: App| #[trigger]
            settles(before, t) && closes_active(t, after, sent, out),
        Action::SelectProjectTab(n) => settles(before, s) && opens_slot(s, n, after, sent, out),
        Action::ProjectDropdown => drops_projects(before, after) && out == sent,
        Action::Other => false,
    }
}

/// The follow-up box asked for.
pub open spec fn asks_follow_up(before: App, after: App, sent: Seq<Effect>, out: Seq<Effect>) -> bool {
    if !row_selected(before) {
        only_says(before, after, crate::keys::aim::nothing_word(before)) && out == sent
    } else {
        match before.facts.no_follow_up {
            Some(why) => only_says(before, after, why@) && out == sent,
            None => {
                &&& after == before
                &&& out == match before.session_on() {
                    Some(a) => sent.push(Effect::OpenFollowUp(a.id)),
                    None => sent,
                }
            },
        }
    }
}

/// The card's pull request asked for.
pub open spec fn opens_pr(before: App, after: App, sent: Seq<Effect>, out: Seq<Effect>) -> bool {
    match row_for_pr(&before) {
        None => only_says(before, after, NO_CARD_FOR_PR@) && out == sent,
        Some(row) => match row.pr {
            Some(pr) => after == before && out == sent.push(Effect::OpenLink(pr.url)),
            None => {
                &&& only_says(
                    before,
                    after,
                    "no pull request on "@ + row.branch@ + " yet — ⇧R asks GitHub again"@,
                )
                &&& out == sent
            },
        },
    }
}

/// The projects dropped under the button that opens one.
pub open spec fn drops_projects(before: App, after: App) -> bool {
    if before.tree.projects@.len() == 0 {
        only_says(before, after, NO_PROJECTS@)
    } else {
        &&& after == (App { overlay: after.overlay, dirty: true, ..before })
        &&& over_view(
            after,
            MenuView {
                title: Some("Project"@),
                items: dropdown_items(before),
                at: Some(anchor(before, HitView::LauncherTabAdd)),
                hover: dropdown_hover(before),
                filtered: true,
            },
        )
    }
}

/// The state a key of the grid starts from: the keys are on the cards.
pub open spec fn on_cards(app: App) -> App {
    if app.launcher_tab_cursor is Some {
        down_from_tabs(app)
    } else {
        app
    }
}

/// What a key of the view needs of the screen and of the list: a step that can
/// be counted, and cells that can be named.
pub open spec fn keys_ready(app: App, action: Action) -> bool {
    match action {
        Action::MoveDown => walkable(app, 0, 1),
        Action::MoveUp => !on_top_row(app) ==> walkable(app, 0, -1),
        Action::FocusRight => walkable(app, 1, 0),
        Action::FocusLeft => walkable(app, -1, 0),
        Action::HalfPageDown => walkable(app, 0, HALF_PAGE as int),
        Action::HalfPageUp => walkable(app, 0, -HALF_PAGE),
        Action::Activate | Action::FocusNext | Action::FocusTerminal => {
            app.screen.launcher_body.in_range()
        },
        Action::ProjectDropdown => anchor_in_range(app, HitView::LauncherTabAdd),
        _ => true,
    }
}

fn handle_grid_action(app: &mut App, action: Action, out: &mut Vec<Effect>) -> (taken: bool)
    requires
        keys_ready(*old(app), action),
    ensures
        taken == grid_takes(*old(app), action),
        taken ==> grid_action(*old(app), action, *final(app), old(out)@, final(out)@),
        !taken ==> nothing(*old(app), *final(app), old(out)@, final(out)@),
{
    match action {
        Action::MoveDown => step_grid(app, 0, 1, out),
        Action::MoveUp => step_up(app, out),
        Action::FocusRight => step_grid(app, 1, 0, out),
        Action::FocusLeft => step_grid(app, -1, 0, out),
        Action::HalfPageDown => step_grid(app, 0, HALF_PAGE, out),
        Action::HalfPageUp => step_grid(app, 0, -HALF_PAGE, out),
        Action::Activate | Action::FocusNext | Action::FocusTerminal => enter_pane(app, out),
        Action::Zoom => open_session(app, out),
        Action::FocusPrev => {},
        Action::PaneTabs => cycle_pane_tab(app, out),
        Action::Delete => {
            if app.launcher_terminal.is_none() {
                return false;
            }
            close_pinned_terminal(app);
        },
        Action::New | Action::QuickPrompt => open_box(app, out),
        Action::ToggleArchived => toggle_archived(app, out),
        Action::FollowUp => follow_up(app, out),
        Action::OpenPullRequest => open_pull_request(app, out),
        Action::ContextMenu => {
            if !app.launcher_unaimed && rows(app).len() > 0 {
                return false;
            }
            let at = app.facts.menu_anchor;
            project_menu(app, at);
        },
        Action::ToggleLauncherPane => {
            fold_key(app, out);
        },
        Action::ToggleSidebars => toggle_pane(app),
        Action::NextProjectTab => step_tab(app, 1, out),
        Action::PrevProjectTab => step_tab(app, -1, out),
        Action::NextFolder => step_folder(app, true, out),
        Action::PrevFolder => step_folder(app, false, out),
        Action::CloseProjectTab => close_active_tab(app, out),
        Action::SelectProjectTab(n) => open_tab_slot(app, n, out),
        Action::ProjectDropdown => open_project_menu(app),
        Action::Other => return false,
    }
    true
}

/// A panel key while the GRID is up — true when the view took it: along and
/// down the cards, into a session, the box, the PROJECT TABS, the pane's strip
/// and its fold; every other key falls through to its panel meaning, which
/// reads the same selection the grid's cursor is. While the PROJECT TABS hold
/// the keys they are asked first, and a key they have no use for runs on the
/// grid with the keys back on the cards.
pub fn handle_action(app: &mut App, action: Action, out: &mut Vec<Effect>) -> (taken: bool)
    requires
        !(old(app).launcher_tab_cursor is Some && tabs_take(action)) ==> keys_ready(
            *old(app),
            action,
        ),
    ensures
        old(app).launcher_tab_cursor is Some && tabs_take(action) ==> {
            &&& taken
            &&& header_action(
                *old(app),
                old(app).launcher_tab_cursor->0,
                action,
                *final(app),
                old(out)@,
                final(out)@,
            )
        },
        !(old(app).launcher_tab_cursor is Some && tabs_take(action)) ==> {
            let s = on_cards(*old(app));
            &&& taken == grid_takes(s, action)
            &&& taken ==> grid_action(s, action, *final(app), old(out)@, final(out)@)
            &&& !taken ==> nothing(s, *final(app), old(out)@, final(out)@)
        },
{
    if app.launcher_tab_cursor.is_some() {
        if tabs_action(app, action, out) {
            return true;
        }
    }
    proof {
        law_list_ignores_the_cursor(*old(app), *app);
    }
    handle_grid_action(app, action, out)
}

// ---- what holds of it ----

/// Esc is never more than one step: pressed again with the keys on the cards
/// and nothing selected it does nothing.
pub proof fn law_escape_goes_no_further(before: App, after: App)
    requires
        before.launcher_tab_cursor is None,
        let_go(before, after, UNAIMED@),
    ensures
        after.launcher_tab_cursor is None && after.launcher_unaimed,
{
}

/// With the header holding the keys no key is lost: the ones it has no use for
/// mean what they mean on the cards.
pub proof fn law_no_key_is_lost(before: App, action: Action)
    requires
        before.launcher_tab_cursor is Some,
        !tabs_take(action),
    ensures
        on_cards(before) == (App { launcher_tab_cursor: None, dirty: true, ..before }),
        rows_of(&on_cards(before)) == rows_of(&before),
{
    law_list_ignores_the_cursor(before, on_cards(before));
}

/// The keys that walk the cards: from the card in place `at` of rows `c` long,
/// down and up select the card a row on, left and right the one beside it in
/// the row, the half pages the one two rows on, wherever there is such a card.
pub proof fn law_keys_walk_the_cards(
    before: App,
    action: Action,
    at: int,
    after: App,
    sent: Seq<Effect>,
    out: Seq<Effect>,
)
    requires
        distinct_ids(agent_ids(before.tree.agents@)),
        0 <= at < rows_of(&before).len() <= usize::MAX,
        before.session_on() is Some,
        rows_of(&before)[at].agent.id@ == before.session_on()->0.id@,
        grid_action(before, action, after, sent, out),
    ensures
        ({
            let rows = rows_of(&before);
            let n = rows.len() as int;
            let c = grid_of(before.screen.body_area).cols as int;
            let on = |to: int| after.sel_session == Some(SessionRef::Agent(rows[to].agent.id));
            &&& action == Action::MoveDown && at + c < n ==> on(at + c)
            &&& action == Action::MoveUp && at >= c ==> on(at - c)
            &&& action == Action::HalfPageDown && at + 2 * c < n ==> on(at + 2 * c)
            &&& action == Action::HalfPageUp && at >= 2 * c ==> on(at - 2 * c)
            &&& action == Action::FocusRight && at + 1 < n && (at + 1) % c != 0 ==> on(at + 1)
            &&& action == Action::FocusRight && (at + 1) % c == 0 ==> after == before
            &&& action == Action::FocusLeft && at % c != 0 ==> on(at - 1)
            &&& action == Action::FocusLeft && at % c == 0 ==> after == before
            &&& action == Action::MoveUp && at < c && before.facts.tapped ==> {
                ||| after.launcher_tab_cursor is Some
                ||| after.flash is Some
            }
            &&& action == Action::MoveUp && at < c && !before.facts.tapped ==> after == before
                && out.len() == sent.len() + 1 && out.last() is ArmTap
        }),
{
    let rows = rows_of(&before);
    let n = rows.len() as int;
    let c = grid_of(before.screen.body_area).cols as int;
    law_columns_hold_the_minimum(before.screen.body_area);
    law_top_row_is_the_first(before, at);
    lemma_fundamental_div_mod(at, c);
    lemma_mod_bound(at, c);
    let (row, col) = (at / c, at % c);
    if at < c {
        lemma_basic_div(at, c);
    } else {
        lemma_div_non_zero(at, c);
    }
    lemma_mul_is_commutative(c, row);
    if col + 1 < c {
        lemma_fundamental_div_mod_converse(at + 1, c, row, col + 1);
    } else {
        lemma_mul_is_distributive_add(c, row, 1);
        lemma_mul_is_commutative(c, row + 1);
        lemma_fundamental_div_mod_converse(at + 1, c, row + 1, 0);
    }
    if action == Action::MoveDown {
        law_walking_down_selects_the_card(before, at, 1, after, sent, out);
    } else if action == Action::MoveUp && at >= c {
        law_walking_down_selects_the_card(before, at, -1, after, sent, out);
    } else if action == Action::HalfPageDown {
        law_walking_down_selects_the_card(before, at, 2, after, sent, out);
    } else if action == Action::HalfPageUp {
        law_walking_down_selects_the_card(before, at, -2, after, sent, out);
    } else if action == Action::FocusRight {
        law_walking_sideways_selects_the_card(before, at, 1, after, sent, out);
    } else if action == Action::FocusLeft {
        law_walking_sideways_selects_the_card(before, at, -1, after, sent, out);
    }
}

/// The keys that walk the tabs from the cards: the next one and the one before,
/// and a digit its own.
pub proof fn law_keys_walk_the_tabs(
    before: App,
    action: Action,
    at: int,
    after: App,
    sent: Seq<Effect>,
    out: Seq<Effect>,
)
    requires
        grid_action(before, action, after, sent, out),
        ({
            let s = settled_as(before, after);
            &&& distinct_ids(agent_ids(s.tree.agents@))
            &&& distinct_ids(worktree_ids(s.tree.worktrees@))
            &&& distinct_ids(views(s.launcher_tabs@))
            &&& 0 <= at < open_ids(s).len()
            &&& scope_of(s) == Some(open_ids(s)[at]@)
        }),
    ensures
        ({
            let tabs = open_ids(settled_as(before, after));
            &&& action == Action::NextProjectTab && at + 1 < tabs.len() ==> scope_of(after)
                == Some(tabs[at + 1]@)
            &&& action == Action::NextProjectTab && at + 1 == tabs.len() ==> scope_of(after)
                == scope_of(before)
            &&& action == Action::PrevProjectTab && at > 0 ==> scope_of(after) == Some(
                tabs[at - 1]@,
            )
            &&& action == Action::PrevProjectTab && at == 0 ==> scope_of(after) == scope_of(
                before,
            )
            &&& action is SelectProjectTab && 1 <= action->SelectProjectTab_0 <= tabs.len()
                ==> scope_of(after) == Some(tabs[action->SelectProjectTab_0 - 1]@)
        }),
{
    let s = settled_as(before, after);
    match action {
        Action::NextProjectTab => {
            law_tab_step_goes_that_far(s, at, 1, after, sent, out);
        },
        Action::PrevProjectTab => {
            law_tab_step_goes_that_far(s, at, -1, after, sent, out);
        },
        Action::SelectProjectTab(n) => {
            if n > 0 {
                law_digit_opens_its_tab(s, n, after, sent, out);
            }
        },
        _ => {},
    }
}

/// The keys of the header: along the tabs moves its cursor, and the grid, to
/// the tab beside; Enter leaves the header on the project under its cursor; up
/// does nothing.
pub proof fn law_keys_of_the_header(
    before: App,
    on: ProjectId,
    action: Action,
    at: int,
    after: App,
    sent: Seq<Effect>,
    out: Seq<Effect>,
)
    requires
        before.launcher_tab_cursor == Some(on),
        header_action(before, on, action, after, sent, out),
        ({
            let s = settled_as(before, after);
            &&& distinct_ids(agent_ids(s.tree.agents@))
            &&& distinct_ids(worktree_ids(s.tree.worktrees@))
            &&& distinct_ids(views(s.launcher_tabs@))
            &&& open_ids(s).len() > 1
            &&& 0 <= at < open_ids(s).len()
            &&& on@ == open_ids(s)[at]@
        }),
    ensures
        ({
            let tabs = open_ids(settled_as(before, after));
            let cursor = after.launcher_tab_cursor;
            let right = action == Action::FocusRight || action == Action::NextProjectTab;
            let left = action == Action::FocusLeft || action == Action::PrevProjectTab;
            &&& right && at + 1 < tabs.len() ==> cursor is Some && cursor->0@ == tabs[at + 1]@
                && scope_of(after) == Some(tabs[at + 1]@)
            &&& right && at + 1 == tabs.len() ==> cursor is Some && cursor->0@ == on@
            &&& left && at > 0 ==> cursor is Some && cursor->0@ == tabs[at - 1]@ && scope_of(
                after,
            ) == Some(tabs[at - 1]@)
            &&& left && at == 0 ==> cursor is Some && cursor->0@ == on@
            &&& action == Action::Activate ==> cursor is None
            &&& action == Action::MoveDown && before.facts.tapped ==> cursor is None
            &&& action == Action::MoveDown && !before.facts.tapped ==> after == before
                && out.last() is ArmTap
            &&& action == Action::MoveUp ==> after == before && out == sent
        }),
{
    let s = settled_as(before, after);
    match action {
        Action::FocusRight | Action::NextProjectTab => {
            law_header_cursor_goes_that_far(s, at, 1, after, sent, out);
        },
        Action::FocusLeft | Action::PrevProjectTab => {
            law_header_cursor_goes_that_far(s, at, -1, after, sent, out);
        },
        _ => {},
    }
}

/// Enter on a tab of the header puts the grid on that project and the keys on
/// the cards.
pub proof fn law_enter_leaves_the_header_on_its_tab(
    before: App,
    on: ProjectId,
    after: App,
    sent: Seq<Effect>,
    out: Seq<Effect>,
)
    requires
        distinct_ids(agent_ids(before.tree.agents@)),
        distinct_ids(worktree_ids(before.tree.worktrees@)),
        the_project(before.tree.projects@, on@) is Some,
        header_action(before, on, Action::Activate, after, sent, out),
    ensures
        scope_of(after) == Some(on@),
        after.launcher_tab_cursor is None,
        after.launcher_tabs == before.launcher_tabs,
{
    let down = down_from_tabs(before);
    if scope_of(down) != Some(on@) {
        law_opened_project_is_on_the_grid(down, on, after, sent, out);
    }
}

/// Which keys are the header's while it holds them: along the tabs, Enter, up
/// and down, and the one that closes a tab; and which the grid leaves to the
/// panels.
pub proof fn law_keys_taken(app: App, action: Action)
    ensures
        tabs_take(action) <==> {
            ||| action == Action::FocusLeft || action == Action::FocusRight
            ||| action == Action::PrevProjectTab || action == Action::NextProjectTab
            ||| action == Action::Activate || action == Action::CloseProjectTab
            ||| action == Action::MoveUp || action == Action::MoveDown
        },
        grid_takes(app, action) <==> {
            &&& action != Action::Other
            &&& action == Action::Delete ==> app.launcher_terminal is Some
            &&& action == Action::ContextMenu ==> app.launcher_unaimed || rows_of(&app).len() == 0
        },
{
}

/// The keys of the pane and of the lists: the fold keys put it away and bring
/// it back, the first press of the one of them from inside it only stepping
/// out; the archive key shows the other list, from its first card; the delete
/// key asks about the terminal the pane reads.
pub proof fn law_keys_of_the_pane(
    before: App,
    action: Action,
    after: App,
    sent: Seq<Effect>,
    out: Seq<Effect>,
)
    requires
        grid_action(before, action, after, sent, out),
    ensures
        ({
            let inside = before.focus == Focus::Terminal && !before.launcher_pane_hidden;
            let other = rows_of(&App { show_archived: !before.show_archived, ..before });
            &&& action == Action::ToggleSidebars ==> after.launcher_pane_hidden
                == !before.launcher_pane_hidden && after.launcher_unaimed
                == after.launcher_pane_hidden
            &&& action == Action::ToggleLauncherPane && !inside ==> after.launcher_pane_hidden
                == !before.launcher_pane_hidden && after.launcher_unaimed
                == after.launcher_pane_hidden
            &&& action == Action::ToggleLauncherPane && inside ==> !after.launcher_pane_hidden
                && after.focus == Focus::Sessions && !after.term_locked && after.launcher_unaimed
                == before.launcher_unaimed && out == sent.push(Effect::LeavePane)
            &&& action == Action::ToggleArchived ==> after.show_archived == !before.show_archived
            &&& action == Action::ToggleArchived && other.len() > 0 ==> after.sel_session == Some(
                SessionRef::Agent(other[0].agent.id),
            ) && !after.launcher_unaimed
            &&& action == Action::ToggleArchived && other.len() == 0 ==> after.launcher_unaimed
                && after.sel_session == before.sel_session
            &&& action == Action::Delete && after.overlay != before.overlay ==> after.overlay is Some
                && after.overlay->0 is ConfirmClose
            &&& action == Action::ToggleSidebars || action == Action::ToggleLauncherPane || action
                == Action::ToggleArchived ==> after.dirty
            &&& action == Action::FocusPrev ==> after == before && out == sent
            &&& action == Action::ToggleSidebars || action == Action::ToggleLauncherPane
                || action == Action::FocusPrev || action == Action::Delete ==> after.sel_session
                == before.sel_session
        }),
{
}

/// The keys that ask for something outside the grid ask for just that, once,
/// and move nothing in it: a new box aimed at the project on screen, the
/// follow-up box of the selected session, the page of the card's pull request.
pub proof fn law_keys_that_ask(
    before: App,
    action: Action,
    after: App,
    sent: Seq<Effect>,
    out: Seq<Effect>,
)
    requires
        grid_action(before, action, after, sent, out),
    ensures
        (action == Action::New || action == Action::QuickPrompt) && before.project_on() is Some
            ==> after == before && out == sent.push(
            Effect::OpenBoxFor(
                target_of(before, before.project_on()->0.id, before.facts.new_worktree),
            ),
        ),
        action == Action::FollowUp && before.session_on() is Some && before.facts.no_follow_up
            is None ==> after == before && out == sent.push(
            Effect::OpenFollowUp(before.session_on()->0.id),
        ),
        action == Action::FollowUp && before.facts.no_follow_up is Some ==> out == sent
            && after.sel_session == before.sel_session,
        action == Action::OpenPullRequest && row_for_pr(&before) is Some && row_for_pr(
            &before,
        )->0.pr is Some ==> after == before && out == sent.push(
            Effect::OpenLink(row_for_pr(&before)->0.pr->0.url),
        ),
        action == Action::OpenPullRequest && (row_for_pr(&before) is None || row_for_pr(
            &before,
        )->0.pr is None) ==> out == sent && after == (App { flash: after.flash, ..before }),
{
}

/// The folder keys go to the next folder and to the one before.
pub proof fn law_keys_walk_the_folders(
    before: App,
    action: Action,
    after: App,
    sent: Seq<Effect>,
    out: Seq<Effect>,
)
    requires
        grid_action(before, action, after, sent, out),
        distinct_ids(agent_ids(before.tree.agents@)),
        distinct_ids(worktree_ids(before.tree.worktrees@)),
    ensures
        ({
            let on = stepped_folder(before, true);
            let back = stepped_folder(before, false);
            &&& action == Action::NextFolder && on is Some && the_project(
                before.tree.projects@,
                on->0@,
            ) is Some ==> scope_of(after) == Some(on->0@)
            &&& action == Action::PrevFolder && back is Some && the_project(
                before.tree.projects@,
                back->0@,
            ) is Some ==> scope_of(after) == Some(back->0@)
            &&& action == Action::NextFolder && on is None ==> after.sel_project
                == before.sel_project && out == sent
        }),
{
    let s = settled_as(before, after);
    if action == Action::NextFolder {
        let next = stepped_folder(before, true);
        if next is None || the_project(s.tree.projects@, next->0@) is Some {
            law_folder_step_moves_the_grid(s, next, after, sent, out);
        }
    }
    if action == Action::PrevFolder {
        let next = stepped_folder(before, false);
        if next is None || the_project(s.tree.projects@, next->0@) is Some {
            law_folder_step_moves_the_grid(s, next, after, sent, out);
        }
    }
}

/// The keys that step in: Enter, and the ones that move the focus on, into the
/// pane, which is never left folded away; the one that zooms to the whole
/// screen, the pane as it was. The strip's key reads the next tab in the pane.
pub proof fn law_keys_that_step_in(
    before: App,
    action: Action,
    after: App,
    sent: Seq<Effect>,
    out: Seq<Effect>,
)
    requires
        grid_action(before, action, after, sent, out),
    ensures
        ({
            let enters = action == Action::Activate || action == Action::FocusNext || action
                == Action::FocusTerminal;
            let pinned = before.launcher_terminal;
            &&& enters ==> !after.launcher_pane_hidden && !after.launcher_unaimed
            &&& action == Action::Zoom ==> after.launcher_pane_hidden
                == before.launcher_pane_hidden
            &&& action == Action::Zoom && pinned is Some ==> out == sent.push(
                Effect::AttachNow(SessionRef::Terminal(pinned->0)),
            ).push(Effect::ZoomPane)
            &&& action == Action::Zoom && pinned is None && out != sent ==> out.last()
                == Effect::ZoomIfAttached
            &&& action == Action::PaneTabs && before.records.pane_terminals@.len() > 0 && pinned
                is None ==> after.launcher_terminal == Some(before.records.pane_terminals@[0].id)
                && !after.launcher_pane_hidden
            &&& action == Action::PaneTabs && before.records.pane_terminals@.len() == 0
                ==> after.launcher_terminal == pinned && out == sent && after.flash is Some
        }),
{
}

} // verus!
