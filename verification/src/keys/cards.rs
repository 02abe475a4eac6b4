//! The cards: walking the grid, pointing at a card, keeping the cursor when
//! its card leaves, and stepping into a session.

use crate::grid::{
    grid_of, grid_stepped, law_columns_hold_the_minimum, law_sideways_goes_that_far,
    law_up_and_down_go_that_far, lemma_steps, step_in_range, stepped, CARD_MIN_W, GAP_X, MAX_COLS,
    PAD_X,
};
use crate::keys::aim::{
    fold_empty_grid, filed, is_archived, let_go, nothing_here, nothing_word, on_session, only_says,
    say, select, selection_on, move_selection, take_aim, toggle_pane, PANE_SHOWN,
};
use crate::keys::projects::settles;
use crate::keys::tabs::{focus_tabs, focuses_tabs, settled_as};
use crate::launcher::{
    agent_at, cursor, cursor_of, find_row, law_cards_are_the_projects_sessions,
    law_cursor_is_on_the_selected_session, law_no_session_has_two_cards,
    law_row_asked_for_is_its_own, row, row_ids, row_named, rows, rows_of, scope_of, LauncherRow,
};
use crate::layout::{larger, less, max_usize, min_usize, smaller};
use crate::model::{
    distinct_ids, lemma_distinct_place, lemma_place_of, place_of, Agent, AgentId, ProjectId,
    SessionRef,
};
use crate::state::{agent_ids, the_agent, App, Effect, Focus, Landing};
use crate::text::joined;
use crate::views::opt;
use vstd::arithmetic::div_mod::*;
use vstd::arithmetic::mul::*;
use vstd::prelude::*;

verus! {

/// What the pull request key says with no card under the cursor to read one
/// off.
pub const NO_CARD_FOR_PR: &'static str = "no card selected — j/k onto one, then ⇧P opens its pull request";
/// What the edge of the grid says a second press does.
pub const INTO_TABS: &'static str = "project tabs";

/// Nothing happened.
pub open spec fn nothing(before: App, after: App, sent: Seq<Effect>, out: Seq<Effect>) -> bool {
    after == before && out == sent
}

// ---- walking the grid ----

/// Cards per row as the last frame drew them.
pub open spec fn row_length(app: App) -> int {
    grid_of(app.screen.body_area).cols as int
}

/// Cards per row as the last frame drew them — the geometry the keys and the
/// drawing share, so a step down moves by exactly one row of cards. One before
/// the first draw, which walks the grid as a list until the body is known.
pub fn cols(app: &App) -> (r: usize)
    ensures
        r == row_length(*app),
        1 <= r <= MAX_COLS,
{
    proof {
        lemma_steps();
    }
    let width: u16 = app.screen.body_area.width.saturating_sub(PAD_X * 2);
    let fit: usize = ((width + GAP_X) / (CARD_MIN_W + GAP_X)) as usize;
    min_usize(max_usize(fit, 1), MAX_COLS)
}

/// The cursor stepped over the grid: the word for a grid with no cards, nothing
/// at an edge, else the cursor on the card the step lands on.
pub open spec fn steps_grid(
    before: App,
    dx: int,
    dy: int,
    after: App,
    sent: Seq<Effect>,
    out: Seq<Effect>,
) -> bool {
    let rows = rows_of(&before);
    let at = cursor_of(before, rows);
    let from = match at {
        Some(i) => Some(i as usize),
        None => None,
    };
    match stepped(from, dx, dy, row_length(before), rows.len() as int) {
        None => only_says(before, after, nothing_word(before)) && out == sent,
        Some(next) => if at == Some(next) {
            nothing(before, after, sent, out)
        } else {
            &&& after == on_session(before, rows[next].agent.id)
            &&& out == sent.push(
                Effect::Jump { session: rows[next].agent.id, landing: Landing::FocusOnly },
            )
        },
    }
}

/// The step from the cursor can be counted in machine words.
pub open spec fn walkable(app: App, dx: int, dy: int) -> bool {
    let rows = rows_of(&app);
    let from = match cursor_of(app, rows) {
        Some(i) => Some(i as usize),
        None => None,
    };
    rows.len() > 0 ==> step_in_range(
        from,
        dx as i64,
        dy as i64,
        row_length(app) as usize,
        rows.len() as usize,
    )
}

/// The cursor `dx` cards along its row and `dy` rows down the grid.
pub fn step_grid(app: &mut App, dx: i64, dy: i64, out: &mut Vec<Effect>)
    requires
        walkable(*old(app), dx as int, dy as int),
    ensures
        steps_grid(*old(app), dx as int, dy as int, *final(app), old(out)@, final(out)@),
{
    let list = rows(app);
    let at = cursor(app, &list);
    let wide: usize = cols(app);
    let n: usize = list.len();
    let next: usize = match grid_stepped(at, dx, dy, wide, n) {
        Some(next) => next,
        None => {
            let word = nothing_here(app);
            say(app, word);
            return;
        },
    };
    let stays: bool = match at {
        Some(i) => i == next,
        None => false,
    };
    if stays {
        return;
    }
    let id = list[next].agent.id.clone();
    select(app, id, out);
}

/// The cursor is on the top row, or there is no card at all.
pub open spec fn on_top_row(app: App) -> bool {
    match cursor_of(app, rows_of(&app)) {
        Some(at) => at < row_length(app),
        None => rows_of(&app).len() == 0,
    }
}

/// A row up the grid — and on the top row, where there is no row above, the
/// edge of a DOUBLE TAP: the first press stays put and says what a second one
/// does, the second walks up into the PROJECT TABS. A grid with no cards on it
/// is all top row.
pub fn step_up(app: &mut App, out: &mut Vec<Effect>)
    requires
        !on_top_row(*old(app)) ==> walkable(*old(app), 0, -1),
    ensures
        !on_top_row(*old(app)) ==> steps_grid(
            *old(app),
            0,
            -1,
            *final(app),
            old(out)@,
            final(out)@,
        ),
        on_top_row(*old(app)) && old(app).facts.tapped ==> {
            &&& settles(*old(app), settled_as(*old(app), *final(app)))
            &&& focuses_tabs(settled_as(*old(app), *final(app)), *final(app))
            &&& final(out)@ == old(out)@
        },
        on_top_row(*old(app)) && !old(app).facts.tapped ==> {
            &&& *final(app) == *old(app)
            &&& final(out)@.len() == old(out)@.len() + 1
            &&& final(out)@.drop_last() == old(out)@
            &&& final(out)@.last() is ArmTap
            &&& final(out)@.last()->ArmTap_0@ == INTO_TABS@
        },
{
    let list = rows(app);
    let top: bool = match cursor(app, &list) {
        Some(at) => at < cols(app),
        None => list.len() == 0,
    };
    if !top {
        step_grid(app, 0, -1, out);
    } else if app.facts.tapped {
        focus_tabs(app);
    } else {
        out.push(Effect::ArmTap(INTO_TABS.to_owned()));
        assert(out@.drop_last() =~= old(out)@);
    }
}

// ---- pointing at a card ----

/// The pane brought back and aimed: unfolded where it was folded away, which is
/// said, and a card wearing the cursor again.
pub open spec fn pane_back(before: App, after: App) -> bool {
    &&& after == (App {
        launcher_pane_hidden: false,
        launcher_unaimed: false,
        dirty: before.dirty || before.launcher_pane_hidden || before.launcher_unaimed,
        flash: after.flash,
        ..before
    })
    &&& if before.launcher_pane_hidden {
        opt(after.flash) == Some(PANE_SHOWN@)
    } else {
        after.flash == before.flash
    }
}

fn bring_pane_back(app: &mut App)
    ensures
        pane_back(*old(app), *final(app)),
{
    if app.launcher_pane_hidden {
        toggle_pane(app);
    }
    take_aim(app);
}

/// The pointer landed on the card of session `id`: the pane back, and the
/// cursor on it.
pub open spec fn points_at(
    before: App,
    id: AgentId,
    after: App,
    sent: Seq<Effect>,
    out: Seq<Effect>,
) -> bool {
    let s = App {
        launcher_pane_hidden: false,
        launcher_unaimed: false,
        dirty: before.dirty || before.launcher_pane_hidden || before.launcher_unaimed,
        flash: after.flash,
        ..before
    };
    &&& pane_back(before, s)
    &&& after == on_session(s, id)
    &&& out == sent.push(Effect::Jump { session: id, landing: Landing::FocusOnly })
}

/// The pointer landing on the card at `index`, either button: the cursor goes
/// there and the PANE opens on it, folded away or not. A card clicked is a card
/// to read. None off the grid.
pub fn point_at(app: &mut App, index: usize, out: &mut Vec<Effect>) -> (r: Option<AgentId>)
    ensures
        r is Some <==> index < rows_of(old(app)).len(),
        r is None ==> nothing(*old(app), *final(app), old(out)@, final(out)@),
        r is Some ==> {
            &&& r->0 == rows_of(old(app))[index as int].agent.id
            &&& points_at(*old(app), r->0, *final(app), old(out)@, final(out)@)
        },
{
    let id: AgentId = match agent_at(app, index) {
        Some(id) => id,
        None => return None,
    };
    bring_pane_back(app);
    select(app, id.clone(), out);
    Some(id)
}

/// A right-click's first half: the cursor on the card at `index` and the pane
/// open on it, as a left click leaves them. False off the grid.
pub fn select_row(app: &mut App, index: usize, out: &mut Vec<Effect>) -> (r: bool)
    ensures
        r == (index < rows_of(old(app)).len()),
        !r ==> nothing(*old(app), *final(app), old(out)@, final(out)@),
        r ==> points_at(
            *old(app),
            rows_of(old(app))[index as int].agent.id,
            *final(app),
            old(out)@,
            final(out)@,
        ),
{
    point_at(app, index, out).is_some()
}

// ---- a card that leaves ----

/// The card under the cursor ahead of an input event: where it sat in the grid,
/// its session, its neighbours by id — so the cursor lands on the card the eye
/// is on rather than on whatever the arithmetic points at once the list has
/// moved — and the project whose cards the grid was listing.
#[derive(Debug)]
pub struct CursorCard {
    pub index: usize,
    pub id: AgentId,
    pub before: Option<AgentId>,
    pub after: Option<AgentId>,
    pub project: Option<ProjectId>,
}

/// The session on row `i`, while the list has one.
pub open spec fn id_at(rows: Seq<LauncherRow>, i: int) -> Option<AgentId> {
    if 0 <= i < rows.len() {
        Some(rows[i].agent.id)
    } else {
        None
    }
}

/// The card under the cursor, and its neighbours.
pub fn cursor_entry(app: &App) -> (r: Option<CursorCard>)
    ensures
        r is Some <==> cursor_of(*app, rows_of(app)) is Some,
        r is Some ==> {
            let rows = rows_of(app);
            let at = cursor_of(*app, rows)->0;
            let card = r->0;
            &&& card.index == at
            &&& Some(card.id) == id_at(rows, at)
            &&& card.before == id_at(rows, at - 1)
            &&& card.after == id_at(rows, at + 1)
            &&& opt(card.project) == scope_of(*app)
        },
{
    let list = rows(app);
    let n: usize = list.len();
    let at: usize = match cursor(app, &list) {
        Some(at) => at,
        None => return None,
    };
    let before: Option<AgentId> = if at > 0 {
        Some(list[at - 1].agent.id.clone())
    } else {
        None
    };
    let after: Option<AgentId> = if at + 1 < n {
        Some(list[at + 1].agent.id.clone())
    } else {
        None
    };
    let project: Option<ProjectId> = match app.selected_project() {
        Some(p) => Some(p.id.clone()),
        None => None,
    };
    Some(CursorCard { index: at, id: list[at].agent.id.clone(), before, after, project })
}

/// Where a session stands in the list, if it is named and listed.
pub open spec fn listed_at(rows: Seq<LauncherRow>, id: Option<AgentId>) -> Option<int> {
    match id {
        Some(id) => place_of(row_ids(rows), id@),
        None => None,
    }
}

/// The row the cursor takes when its card left: the card that was before it,
/// wherever the list now holds it, else the one that was after it, else the
/// slot before the one it left.
pub open spec fn takes_over(rows: Seq<LauncherRow>, card: CursorCard) -> int {
    match listed_at(rows, card.before) {
        Some(i) => i,
        None => match listed_at(rows, card.after) {
            Some(i) => i,
            None => smaller(less(card.index as int, 1), rows.len() - 1),
        },
    }
}

/// The cursor kept after an event in which `card` may have left the list.
pub open spec fn keeps_cursor(
    before: App,
    card: CursorCard,
    after: App,
    sent: Seq<Effect>,
    out: Seq<Effect>,
) -> bool {
    let rows = rows_of(&before);
    if scope_of(before) != opt(card.project) || before.select_when_seen {
        nothing(before, after, sent, out)
    } else if rows.len() == 0 {
        let_go(before, after, nothing_word(before)) && out == sent
    } else if place_of(row_ids(rows), card.id@) is Some {
        nothing(before, after, sent, out)
    } else {
        let next = takes_over(rows, card);
        if cursor_of(before, rows) == Some(next) {
            nothing(before, after, sent, out)
        } else {
            &&& after == on_session(before, rows[next].agent.id)
            &&& out == sent.push(
                Effect::Jump { session: rows[next].agent.id, landing: Landing::FocusOnly },
            )
        }
    }
}

fn find_listed(rows: &Vec<LauncherRow>, id: &Option<AgentId>) -> (r: Option<usize>)
    ensures
        match r {
            Some(i) => i < rows@.len() && listed_at(rows@, *id) == Some(i as int),
            None => listed_at(rows@, *id) is None,
        },
{
    match id {
        Some(id) => find_row(rows, id),
        None => None,
    }
}

fn same_project(app: &App, project: &Option<ProjectId>) -> (r: bool)
    ensures
        r == (scope_of(*app) == opt(*project)),
{
    match (app.selected_project(), project) {
        (Some(p), Some(id)) => p.id.same(id),
        (None, None) => true,
        _ => false,
    }
}

/// After an input event: the session the cursor was on left the list. The
/// cursor takes the card BEFORE it, with the pane on it; the card that slid
/// into the slot when the one that left was the first. The LAST card leaving
/// has no neighbour to take: the pane folds away with it. A switch to another
/// project, or a session being created that is still to be landed on, is left
/// alone.
pub fn keep_cursor(app: &mut App, card: CursorCard, out: &mut Vec<Effect>)
    ensures
        keeps_cursor(*old(app), card, *final(app), old(out)@, final(out)@),
{
    if !same_project(app, &card.project) || app.select_when_seen {
        return;
    }
    let list = rows(app);
    let n: usize = list.len();
    if n == 0 {
        fold_empty_grid(app);
        return;
    }
    if find_row(&list, &card.id).is_some() {
        return;
    }
    let next: usize = match find_listed(&list, &card.before) {
        Some(i) => i,
        None => match find_listed(&list, &card.after) {
            Some(i) => i,
            None => min_usize(card.index.saturating_sub(1), n - 1),
        },
    };
    let stays: bool = match cursor(app, &list) {
        Some(i) => i == next,
        None => false,
    };
    if stays {
        return;
    }
    let id = list[next].agent.id.clone();
    select(app, id, out);
}

// ---- stepping in ----

/// The pane is on screen.
pub open spec fn pane_drawn(app: App) -> bool {
    app.body_parts(app.screen.launcher_body).1 is Some
}

/// Is the PANE on screen? False with the pane folded away, on a body too short
/// to hold the header, a row of cards and a pane worth the name, and before
/// the first draw.
pub fn has_pane(app: &App) -> (r: bool)
    requires
        app.screen.launcher_body.in_range(),
    ensures
        r == pane_drawn(*app),
{
    app.launcher_split(app.screen.launcher_body).1.is_some()
}

/// The card under the cursor, else the first.
pub open spec fn card_or_first(app: App) -> Option<AgentId> {
    let rows = rows_of(&app);
    match cursor_of(app, rows) {
        Some(i) => id_at(rows, i),
        None => id_at(rows, 0),
    }
}

/// The card under the cursor, or the first one when it is on none. None with
/// no session anywhere.
pub fn cursor_or_first(app: &App) -> (r: Option<AgentId>)
    ensures
        r == card_or_first(*app),
{
    let list = rows(app);
    let at: usize = match cursor(app, &list) {
        Some(i) => i,
        None => 0,
    };
    if at < list.len() {
        Some(list[at].agent.id.clone())
    } else {
        None
    }
}

/// Stepped into what the pane reads, `then` once it is attached and `shown`
/// where it is a terminal: the terminal that is pinned, else the card's
/// session, the selection on it; nothing but a word with no card, and on one
/// that is archived.
pub open spec fn steps_in(
    before: App,
    shown: Effect,
    then: Effect,
    after: App,
    sent: Seq<Effect>,
    out: Seq<Effect>,
) -> bool {
    match before.launcher_terminal {
        Some(t) => {
            &&& after == before
            &&& out == sent.push(Effect::AttachNow(SessionRef::Terminal(t))).push(shown)
        },
        None => match card_or_first(before) {
            None => only_says(before, after, nothing_word(before)) && out == sent,
            Some(id) => if filed(before, id@) {
                only_says(before, after, before.facts.archived_word@) && out == sent
            } else {
                &&& after == selection_on(crate::keys::aim::aimed(before), id)
                &&& out == sent.push(Effect::Jump { session: id, landing: Landing::Attach }).push(
                    then,
                )
            },
        },
    }
}

fn step_in(app: &mut App, shown: Effect, after: Effect, out: &mut Vec<Effect>)
    ensures
        steps_in(*old(app), shown, after, *final(app), old(out)@, final(out)@),
{
    if let Some(t) = &app.launcher_terminal {
        out.push(Effect::AttachNow(SessionRef::Terminal(t.clone())));
        out.push(shown);
        return;
    }
    let id: AgentId = match cursor_or_first(app) {
        Some(id) => id,
        None => {
            let word = nothing_here(app);
            say(app, word);
            return;
        },
    };
    if is_archived(app, &id) {
        let word = app.facts.archived_word.clone();
        say(app, &word);
        return;
    }
    take_aim(app);
    move_selection(app, &id);
    out.push(Effect::Jump { session: id, landing: Landing::Attach });
    out.push(after);
}

/// The session under the cursor full-screen — the grid and its pane give way
/// to it. What the pane is reading, which is the pinned TERMINAL when the
/// strip is on one.
pub fn open_session(app: &mut App, out: &mut Vec<Effect>)
    ensures
        steps_in(
            *old(app),
            Effect::ZoomPane,
            Effect::ZoomIfAttached,
            *final(app),
            old(out)@,
            final(out)@,
        ),
{
    step_in(app, Effect::ZoomPane, Effect::ZoomIfAttached, out);
}

/// Crossed into the pane, by way of `mid`, where it is back and aimed: into the
/// pane where it is drawn, full-screen where the body has no room for one.
pub open spec fn enters_pane(
    mid: App,
    after: App,
    sent: Seq<Effect>,
    out: Seq<Effect>,
) -> bool {
    if pane_drawn(mid) {
        steps_in(mid, Effect::EnterPane, Effect::EnterPaneIfAttached, after, sent, out)
    } else {
        steps_in(mid, Effect::ZoomPane, Effect::ZoomIfAttached, after, sent, out)
    }
}

/// The session under the cursor in the PANE, with the keys: focus crosses into
/// the pane where it stands, the grid still up over it. A pane folded away is
/// brought back rather than stepped over, and so is one collapsed for want of a
/// card under the cursor. A body too short for a pane draws none: the session
/// takes the whole screen then.
pub fn enter_pane(app: &mut App, out: &mut Vec<Effect>)
    requires
        old(app).screen.launcher_body.in_range(),
    ensures
        exists|mid: App| #[trigger]
            pane_back(*old(app), mid) && enters_pane(mid, *final(app), old(out)@, final(out)@),
{
    bring_pane_back(app);
    let ghost mid = *app;
    if !has_pane(app) {
        open_session(app, out);
    } else {
        step_in(app, Effect::EnterPane, Effect::EnterPaneIfAttached, out);
    }
    assert(enters_pane(mid, *app, old(out)@, out@));
    assert(pane_back(*old(app), mid));
}

/// A click on the card at `index`: the cursor lands there, which opens the
/// PANE on that session without taking the keys off the cards. A second click
/// on the same card — `double` — is Enter.
pub fn click_row(app: &mut App, index: usize, double: bool, out: &mut Vec<Effect>)
    requires
        old(app).screen.launcher_body.in_range(),
    ensures
        index >= rows_of(old(app)).len() ==> nothing(
            *old(app),
            *final(app),
            old(out)@,
            final(out)@,
        ),
        index < rows_of(old(app)).len() && !double ==> points_at(
            *old(app),
            rows_of(old(app))[index as int].agent.id,
            *final(app),
            old(out)@,
            final(out)@,
        ),
        index < rows_of(old(app)).len() && double ==> exists|on: App, said: Seq<Effect>, mid: App|
            #![trigger points_at(*old(app), rows_of(old(app))[index as int].agent.id, on, old(out)@, said), pane_back(on, mid)]
            {
                &&& points_at(
                    *old(app),
                    rows_of(old(app))[index as int].agent.id,
                    on,
                    old(out)@,
                    said,
                )
                &&& pane_back(on, mid)
                &&& enters_pane(mid, *final(app), said, final(out)@)
            },
{
    let found = point_at(app, index, out).is_some();
    if found && double {
        let ghost on = *app;
        let ghost said = out@;
        enter_pane(app, out);
        proof {
            let mid = choose|mid: App| #[trigger]
                pane_back(on, mid) && enters_pane(mid, *app, said, out@);
            assert(points_at(
                *old(app),
                rows_of(old(app))[index as int].agent.id,
                on,
                old(out)@,
                said,
            ));
            assert(pane_back(on, mid));
        }
    }
}

// ---- what a card is asked ----

/// A session row is selected: a session the tree has, or a terminal.
pub open spec fn row_selected(app: App) -> bool {
    match app.sel_session {
        Some(SessionRef::Agent(id)) => the_agent(app.tree.agents@, id@) is Some,
        Some(SessionRef::Terminal(_)) => true,
        None => false,
    }
}

/// The FOLLOW-UP box for the session under the cursor. What a row refuses, and
/// the word it refuses with, is known ahead. Nothing about the PANE moves:
/// prompting a card is not opening it.
pub fn follow_up(app: &mut App, out: &mut Vec<Effect>)
    ensures
        !row_selected(*old(app)) ==> {
            &&& only_says(*old(app), *final(app), nothing_word(*old(app)))
            &&& final(out)@ == old(out)@
        },
        row_selected(*old(app)) && old(app).facts.no_follow_up is Some ==> {
            &&& only_says(*old(app), *final(app), old(app).facts.no_follow_up->0@)
            &&& final(out)@ == old(out)@
        },
        row_selected(*old(app)) && old(app).facts.no_follow_up is None ==> {
            &&& *final(app) == *old(app)
            &&& final(out)@ == match old(app).session_on() {
                Some(a) => old(out)@.push(Effect::OpenFollowUp(a.id)),
                None => old(out)@,
            }
        },
{
    let found: Option<AgentId> = match app.selected_session() {
        Some(a) => Some(a.id.clone()),
        None => None,
    };
    let terminal: bool = match &app.sel_session {
        Some(SessionRef::Terminal(_)) => true,
        _ => false,
    };
    if found.is_none() && !terminal {
        let word = nothing_here(app);
        say(app, word);
        return;
    }
    if let Some(why) = &app.facts.no_follow_up {
        let why = why.clone();
        say(app, &why);
        return;
    }
    if let Some(id) = found {
        out.push(Effect::OpenFollowUp(id));
    }
}

/// The row of the card the pull request key reads: the selected session's,
/// while a card is aimed at.
pub open spec fn row_for_pr<'a>(app: &'a App) -> Option<LauncherRow<'a>> {
    if app.launcher_grid && app.launcher_unaimed {
        None
    } else {
        match app.session_on() {
            Some(a) => row_named(app, a.id@),
            None => None,
        }
    }
}

/// The pull request of the checkout the card's session runs in, in the
/// browser, without stepping into the session.
pub fn open_pull_request(app: &mut App, out: &mut Vec<Effect>)
    ensures
        match row_for_pr(old(app)) {
            None => {
                &&& only_says(*old(app), *final(app), NO_CARD_FOR_PR@)
                &&& final(out)@ == old(out)@
            },
            Some(row) => match row.pr {
                Some(pr) => {
                    &&& *final(app) == *old(app)
                    &&& final(out)@ == old(out)@.push(Effect::OpenLink(pr.url))
                },
                None => {
                    &&& only_says(
                        *old(app),
                        *final(app),
                        "no pull request on "@ + row.branch@ + " yet — ⇧R asks GitHub again"@,
                    )
                    &&& final(out)@ == old(out)@
                },
            },
        },
{
    let aimed: bool = !(app.launcher_grid && app.launcher_unaimed);
    let found: Option<LauncherRow> = if aimed {
        match app.selected_session() {
            Some(a) => row(app, &a.id),
            None => None,
        }
    } else {
        None
    };
    match found {
        None => say(app, NO_CARD_FOR_PR),
        Some(row) => match row.pr {
            Some(pr) => out.push(Effect::OpenLink(pr.url)),
            None => {
                let text = joined(
                    &joined("no pull request on ", &row.branch),
                    " yet — ⇧R asks GitHub again",
                );
                say(app, &text);
            },
        },
    }
}

// ---- what holds of it ----

/// A click on a card and the keys that walk to it end in the same state, with
/// the pane drawn.
pub proof fn law_click_is_the_walk(
    before: App,
    id: AgentId,
    after: App,
    sent: Seq<Effect>,
    out: Seq<Effect>,
)
    requires
        !before.launcher_pane_hidden,
        points_at(before, id, after, sent, out),
    ensures
        after == on_session(before, id),
        out == sent.push(Effect::Jump { session: id, landing: Landing::FocusOnly }),
{
}

/// A card clicked is a card to read: the pane is never left folded away, and
/// the keys stay on the cards.
pub proof fn law_click_opens_the_pane(
    before: App,
    id: AgentId,
    after: App,
    sent: Seq<Effect>,
    out: Seq<Effect>,
)
    requires
        points_at(before, id, after, sent, out),
    ensures
        !after.launcher_pane_hidden,
        !after.launcher_unaimed,
        after.focus == Focus::Sessions,
        after.sel_session == Some(SessionRef::Agent(id)),
        before.dirty || before.launcher_pane_hidden || before.launcher_unaimed ==> after.dirty,
{
}

/// Asking for a session never takes the whole screen while a pane is drawn,
/// and never leaves one folded away.
pub proof fn law_enter_brings_the_pane_back(
    before: App,
    mid: App,
    after: App,
    sent: Seq<Effect>,
    out: Seq<Effect>,
)
    requires
        pane_back(before, mid),
        enters_pane(mid, after, sent, out),
    ensures
        !after.launcher_pane_hidden,
        !after.launcher_unaimed,
        after.launcher_terminal == before.launcher_terminal,
{
}

/// The row the cursor takes over is one of the list's, and where the card that
/// was before the one that left is still listed, it is that one.
pub proof fn law_cursor_takes_the_card_before(rows: Seq<LauncherRow>, card: CursorCard)
    requires
        rows.len() > 0,
    ensures
        0 <= takes_over(rows, card) < rows.len(),
        card.before is Some && listed_at(rows, card.before) is Some ==> rows[takes_over(
            rows,
            card,
        )].agent.id@ == card.before->0@,
{
    if let Some(id) = card.before {
        lemma_place_of(row_ids(rows), id@);
    }
    if let Some(id) = card.after {
        lemma_place_of(row_ids(rows), id@);
    }
}

/// A card that leaves a list nothing else moved in hands the cursor to the card
/// before it; the first card hands it to the card that slid up into its slot.
pub proof fn law_card_leaving_hands_the_cursor_on(
    rows: Seq<LauncherRow>,
    left: Seq<LauncherRow>,
    at: int,
    card: CursorCard,
)
    requires
        rows.len() > 1,
        0 <= at < rows.len(),
        row_ids(left) == row_ids(rows).remove(at),
        distinct_ids(row_ids(rows)),
        card.index == at,
        card.before == id_at(rows, at - 1),
        card.after == id_at(rows, at + 1),
    ensures
        takes_over(left, card) == larger(at - 1, 0),
{
    let ids = row_ids(rows);
    let now = row_ids(left);
    assert forall|i: int, j: int| 0 <= i < j < now.len() implies #[trigger] now[i]
        != #[trigger] now[j] by {
        let a = if i < at { i } else { i + 1 };
        let b = if j < at { j } else { j + 1 };
        assert(now[i] == ids[a] && now[j] == ids[b]);
    }
    if at > 0 {
        assert(now[at - 1] == ids[at - 1]);
        lemma_distinct_place(now, at - 1);
    } else {
        assert(now[0] == ids[1]);
        lemma_distinct_place(now, 0);
    }
}

/// The top of the grid is an edge: one press of the key there moves nothing.
pub proof fn law_top_row_is_an_edge(before: App)
    requires
        cursor_of(before, rows_of(&before)) is Some,
        on_top_row(before),
    ensures
        ({
            let rows = rows_of(&before);
            let at = cursor_of(before, rows)->0;
            stepped(
                Some(at as usize),
                0,
                -1,
                row_length(before),
                rows.len() as int,
            ) == Some(at) || rows.len() > usize::MAX
        }),
{
    let rows = rows_of(&before);
    let a = before.session_on()->0;
    lemma_place_of(row_ids(rows), a.id@);
    let at = cursor_of(before, rows)->0;
    let c = row_length(before);
    if rows.len() <= usize::MAX {
        lemma_small_div(at as nat, c as nat);
        lemma_small_mod(at as nat, c as nat);
        lemma_div_pos_is_pos(rows.len() - 1, c);
        lemma_mul_basics(c);
    }
}

proof fn lemma_small_div(a: nat, c: nat)
    requires
        a < c,
    ensures
        a / c == 0,
{
    lemma_basic_div(a as int, c as int);
}

proof fn lemma_cursor(app: App, at: int)
    requires
        distinct_ids(agent_ids(app.tree.agents@)),
        0 <= at < rows_of(&app).len() <= usize::MAX,
        app.session_on() is Some,
        rows_of(&app)[at].agent.id@ == app.session_on()->0.id@,
    ensures
        cursor_of(app, rows_of(&app)) == Some(at),
        1 <= row_length(app),
{
    law_cursor_is_on_the_selected_session(app, at);
    law_columns_hold_the_minimum(app.screen.body_area);
}

/// From the card in place `at`, a step of `dx` along the row selects the card
/// `dx` places on, where the row has it, and past an end of the row the card at
/// that end; where that is the card itself nothing moves.
pub proof fn law_walking_sideways_selects_the_card(
    before: App,
    at: int,
    dx: int,
    after: App,
    sent: Seq<Effect>,
    out: Seq<Effect>,
)
    requires
        distinct_ids(agent_ids(before.tree.agents@)),
        dx != 0,
        0 <= at < rows_of(&before).len() <= usize::MAX,
        before.session_on() is Some,
        rows_of(&before)[at].agent.id@ == before.session_on()->0.id@,
        steps_grid(before, dx, 0, after, sent, out),
    ensures
        ({
            let rows = rows_of(&before);
            let n = rows.len() as int;
            let c = grid_of(before.screen.body_area).cols as int;
            let first = at - at % c;
            let last = if first + c <= n {
                first + c - 1
            } else {
                n - 1
            };
            let to = if at + dx < first {
                first
            } else if at + dx > last {
                last
            } else {
                at + dx
            };
            &&& to != at ==> after.sel_session == Some(SessionRef::Agent(rows[to].agent.id))
                && out == sent.push(
                Effect::Jump { session: rows[to].agent.id, landing: Landing::FocusOnly },
            )
            &&& to == at ==> after == before && out == sent
        }),
{
    lemma_cursor(before, at);
    let c = row_length(before);
    let n = rows_of(&before).len() as int;
    law_sideways_goes_that_far(at as usize, dx, 0, c, n);
    lemma_mod_bound(at, c);
}

/// From the card in place `at`, a step of `dy` down selects the card of the
/// same column `dy` rows on, where there is one, and otherwise stays in the
/// grid: past the top in the first row's card of the column, past the bottom in
/// the last rows of the list.
pub proof fn law_walking_down_selects_the_card(
    before: App,
    at: int,
    dy: int,
    after: App,
    sent: Seq<Effect>,
    out: Seq<Effect>,
)
    requires
        distinct_ids(agent_ids(before.tree.agents@)),
        0 <= at < rows_of(&before).len() <= usize::MAX,
        before.session_on() is Some,
        rows_of(&before)[at].agent.id@ == before.session_on()->0.id@,
        steps_grid(before, 0, dy, after, sent, out),
    ensures
        ({
            let rows = rows_of(&before);
            let n = rows.len() as int;
            let c = grid_of(before.screen.body_area).cols as int;
            let to = at + dy * c;
            &&& 0 <= to < n && to != at ==> after.sel_session == Some(
                SessionRef::Agent(rows[to].agent.id),
            )
            &&& to == at ==> after == before && out == sent
            &&& to < 0 && at >= c ==> after.sel_session == Some(
                SessionRef::Agent(rows[at % c].agent.id),
            )
            &&& to < 0 && at < c ==> after == before && out == sent
            &&& to >= n && to / c == (n - 1) / c ==> after.sel_session == Some(
                SessionRef::Agent(rows[n - 1].agent.id),
            ) || after == before && at == n - 1
        }),
{
    lemma_cursor(before, at);
    let c = row_length(before);
    let n = rows_of(&before).len() as int;
    law_up_and_down_go_that_far(at as usize, dy, c, n);
    lemma_mod_bound(at, c);
    lemma_fundamental_div_mod(at, c);
    if at < c {
        lemma_small_mod(at as nat, c as nat);
    }
}

/// With no card under the cursor a step forward selects the first card and a
/// step back the last; with no cards at all the word for that is said.
pub proof fn law_walking_onto_the_grid(
    before: App,
    dx: int,
    dy: int,
    after: App,
    sent: Seq<Effect>,
    out: Seq<Effect>,
)
    requires
        before.session_on() is None,
        steps_grid(before, dx, dy, after, sent, out),
    ensures
        ({
            let rows = rows_of(&before);
            &&& rows.len() > 0 && dx + dy >= 0 ==> after.sel_session == Some(
                SessionRef::Agent(rows[0].agent.id),
            )
            &&& rows.len() > 0 && dx + dy < 0 ==> after.sel_session == Some(
                SessionRef::Agent(rows.last().agent.id),
            )
            &&& rows.len() == 0 ==> after.sel_session == before.sel_session && out == sent
                && after.flash is Some
        }),
{
}

/// The top row is the first row of cards, and all of a grid with none.
pub proof fn law_top_row_is_the_first(app: App, at: int)
    requires
        distinct_ids(agent_ids(app.tree.agents@)),
    ensures
        ({
            let rows = rows_of(&app);
            let c = grid_of(app.screen.body_area).cols as int;
            &&& rows.len() == 0 ==> on_top_row(app)
            &&& 0 <= at < rows.len() <= usize::MAX && app.session_on() is Some
                && rows[at].agent.id@ == app.session_on()->0.id@ ==> (on_top_row(app) <==> at / c
                == 0)
            &&& rows.len() > 0 && app.session_on() is None ==> !on_top_row(app)
        }),
{
    let rows = rows_of(&app);
    let c = row_length(app);
    law_columns_hold_the_minimum(app.screen.body_area);
    law_cursor_is_on_the_selected_session(app, 0);
    if 0 <= at < rows.len() <= usize::MAX && app.session_on() is Some && rows[at].agent.id@
        == app.session_on()->0.id@ {
        lemma_cursor(app, at);
        if at < c {
            lemma_basic_div(at, c);
        } else {
            lemma_div_non_zero(at, c);
        }
    }
}

/// The card stepped into is the one under the cursor, and with no card under it
/// the first there is.
pub proof fn law_card_stepped_into(app: App, at: int)
    requires
        distinct_ids(agent_ids(app.tree.agents@)),
    ensures
        ({
            let rows = rows_of(&app);
            &&& 0 <= at < rows.len() && app.session_on() is Some && rows[at].agent.id@
                == app.session_on()->0.id@ ==> card_or_first(app) == Some(rows[at].agent.id)
            &&& app.session_on() is None && rows.len() > 0 ==> card_or_first(app) == Some(
                rows[0].agent.id,
            )
            &&& rows.len() == 0 ==> card_or_first(app) is None
            &&& rows.len() > 0 ==> card_or_first(app) is Some
        }),
{
    law_cursor_is_on_the_selected_session(app, at);
    law_cursor_is_on_the_selected_session(app, 0);
}

/// The card in place `at` stepped into: the pinned terminal where there is one;
/// else the card's session, attached and selected, and then what follows; one
/// that is archived is not stepped into.
pub proof fn law_stepping_in_attaches_the_card(
    before: App,
    at: int,
    shown: Effect,
    then: Effect,
    after: App,
    sent: Seq<Effect>,
    out: Seq<Effect>,
)
    requires
        distinct_ids(agent_ids(before.tree.agents@)),
        0 <= at < rows_of(&before).len(),
        before.session_on() is Some,
        rows_of(&before)[at].agent.id@ == before.session_on()->0.id@,
        steps_in(before, shown, then, after, sent, out),
    ensures
        ({
            let a = rows_of(&before)[at].agent;
            let pinned = before.launcher_terminal;
            &&& pinned is Some ==> after == before && out == sent.push(
                Effect::AttachNow(SessionRef::Terminal(pinned->0)),
            ).push(shown)
            &&& pinned is None && !before.show_archived ==> {
                &&& out == sent.push(
                    Effect::Jump { session: a.id, landing: Landing::Attach },
                ).push(then)
                &&& after.sel_session == Some(SessionRef::Agent(a.id))
                &&& !after.launcher_unaimed
            }
            &&& pinned is None && before.show_archived ==> {
                &&& out == sent
                &&& after.sel_session == before.sel_session
                &&& after.flash is Some && after.flash->0@ == before.facts.archived_word@
            }
        }),
{
    law_card_stepped_into(before, at);
    law_cards_are_the_projects_sessions(before, at);
    let a = *rows_of(&before)[at].agent;
    let ids = agent_ids(before.tree.agents@);
    let k = choose|k: int| 0 <= k < before.tree.agents@.len() && a == #[trigger] before.tree.agents@[k];
    assert(ids[k] == a.id@);
    assert(before.tree.agents@[k].id@ == a.id@ && a.archived == before.show_archived);
    assert(filed(before, a.id@) <==> a.archived) by {
        if filed(before, a.id@) {
            let m = choose|m: int|
                0 <= m < before.tree.agents@.len() && #[trigger] before.tree.agents@[m].id@
                    == a.id@ && before.tree.agents@[m].archived;
            assert(ids[m] == a.id@);
            lemma_distinct_place(ids, m);
            lemma_distinct_place(ids, k);
        }
    }
}

/// Entering goes into the pane where the pane is drawn, and takes the whole
/// screen where the body has no room for one.
pub proof fn law_enter_goes_where_the_pane_is(
    before: App,
    mid: App,
    at: int,
    after: App,
    sent: Seq<Effect>,
    out: Seq<Effect>,
)
    requires
        distinct_ids(agent_ids(mid.tree.agents@)),
        before.launcher_terminal is None,
        !mid.show_archived,
        0 <= at < rows_of(&mid).len(),
        mid.session_on() is Some,
        rows_of(&mid)[at].agent.id@ == mid.session_on()->0.id@,
        pane_back(before, mid),
        enters_pane(mid, after, sent, out),
    ensures
        out.len() == sent.len() + 2,
        out[sent.len() as int] == (Effect::Jump {
            session: rows_of(&mid)[at].agent.id,
            landing: Landing::Attach,
        }),
        mid.body_parts(mid.screen.launcher_body).1 is Some ==> out.last()
            == Effect::EnterPaneIfAttached,
        mid.body_parts(mid.screen.launcher_body).1 is None ==> out.last()
            == Effect::ZoomIfAttached,
{
    if pane_drawn(mid) {
        law_stepping_in_attaches_the_card(
            mid,
            at,
            Effect::EnterPane,
            Effect::EnterPaneIfAttached,
            after,
            sent,
            out,
        );
    } else {
        law_stepping_in_attaches_the_card(
            mid,
            at,
            Effect::ZoomPane,
            Effect::ZoomIfAttached,
            after,
            sent,
            out,
        );
    }
}

/// What becomes of the cursor after an event: a card still listed keeps it, and
/// so does one of a project the grid has moved off; with the list empty it is
/// let go; and otherwise it is on the card that was before the one that left,
/// wherever that now is, else on the one that was after it, else on the slot
/// before the one it left.
pub proof fn law_what_becomes_of_the_cursor(
    before: App,
    card: CursorCard,
    i: int,
    after: App,
    sent: Seq<Effect>,
    out: Seq<Effect>,
)
    requires
        distinct_ids(agent_ids(before.tree.agents@)),
        keeps_cursor(before, card, after, sent, out),
    ensures
        ({
            let rows = rows_of(&before);
            let moved = opt(card.project) != scope_of(before) || before.select_when_seen;
            let gone = forall|k: int|
                0 <= k < rows.len() ==> (#[trigger] rows[k]).agent.id@ != card.id@;
            let lost = |id: Option<AgentId>|
                id is None || forall|k: int|
                    0 <= k < rows.len() ==> (#[trigger] rows[k]).agent.id@ != id->0@;
            let on = |id: AgentId| {
                ||| after.sel_session == Some(SessionRef::Agent(id))
                ||| after == before && before.session_on() is Some
                    && before.session_on()->0.id@ == id@
            };
            &&& moved ==> after == before && out == sent
            &&& !moved && rows.len() == 0 ==> after.launcher_unaimed && out == sent
                && after.sel_session == before.sel_session
            &&& !moved && rows.len() > 0 && !gone ==> after == before && out == sent
            &&& !moved && gone && 0 <= i < rows.len() && card.before is Some && rows[i].agent.id@
                == card.before->0@ ==> on(rows[i].agent.id)
            &&& !moved && gone && lost(card.before) && 0 <= i < rows.len() && card.after is Some
                && rows[i].agent.id@ == card.after->0@ ==> on(rows[i].agent.id)
            &&& !moved && gone && lost(card.before) && lost(card.after) && 0 < card.index
                <= rows.len() ==> on(rows[card.index - 1].agent.id)
            &&& !moved && gone && lost(card.before) && lost(card.after) && card.index == 0
                && rows.len() > 0 ==> on(rows[0].agent.id)
        }),
{
    let rows = rows_of(&before);
    let ids = row_ids(rows);
    lemma_place_of(ids, card.id@);
    if let Some(k) = place_of(ids, card.id@) {
        assert(ids[k] == card.id@);
        assert(rows[k].agent.id@ == card.id@);
    } else {
        assert forall|k: int| 0 <= k < rows.len() implies (#[trigger] rows[k]).agent.id@
            != card.id@ by {
            assert(ids[k] != card.id@);
        }
    }
    if let Some(id) = card.before {
        lemma_place_of(ids, id@);
        if let Some(k) = place_of(ids, id@) {
            assert(ids[k] == rows[k].agent.id@);
            if 0 <= i < rows.len() && rows[i].agent.id@ == id@ {
                assert(ids[i] == id@);
                if k < i {
                    law_no_session_has_two_cards(before, k, i);
                }
            }
        } else if 0 <= i < rows.len() {
            assert(ids[i] != id@);
        }
    }
    if let Some(id) = card.after {
        lemma_place_of(ids, id@);
        if let Some(k) = place_of(ids, id@) {
            assert(ids[k] == rows[k].agent.id@);
            if 0 <= i < rows.len() && rows[i].agent.id@ == id@ {
                assert(ids[i] == id@);
                if k < i {
                    law_no_session_has_two_cards(before, k, i);
                }
            }
        } else if 0 <= i < rows.len() {
            assert(ids[i] != id@);
        }
    }
    law_cursor_is_on_the_selected_session(before, 0);
}

/// The pull request key reads the selected session's own row while a card is
/// aimed at, and nothing where none is.
pub proof fn law_pull_request_is_the_cards(app: App, k: int)
    requires
        0 <= k < app.tree.agents@.len(),
        distinct_ids(agent_ids(app.tree.agents@)),
    ensures
        app.launcher_grid && app.launcher_unaimed ==> row_for_pr(&app) is None,
        app.session_on() is None ==> row_for_pr(&app) is None,
        !(app.launcher_grid && app.launcher_unaimed) && app.session_on() == Some(
            app.tree.agents@[k],
        ) && row_for_pr(&app) is Some ==> *row_for_pr(&app)->0.agent == app.tree.agents@[k],
        !(app.launcher_grid && app.launcher_unaimed) && app.session_on() == Some(
            app.tree.agents@[k],
        ) ==> row_for_pr(&app) == row_named(&app, app.tree.agents@[k].id@),
{
    law_row_asked_for_is_its_own(app, k);
}

/// A row is selected where a terminal is, and where a session the tree has is.
pub proof fn law_row_is_selected_or_not(app: App, k: int)
    requires
        distinct_ids(agent_ids(app.tree.agents@)),
    ensures
        app.sel_session is None ==> !row_selected(app),
        app.sel_session is Some && app.sel_session->0 is Terminal ==> row_selected(app),
        0 <= k < app.tree.agents@.len() && app.sel_session == Some(
            SessionRef::Agent(app.tree.agents@[k].id),
        ) ==> row_selected(app),
        app.sel_session is Some && app.sel_session->0 is Agent ==> (row_selected(app)
            <==> app.session_on() is Some),
{
    let ids = agent_ids(app.tree.agents@);
    if 0 <= k < app.tree.agents@.len() {
        assert(ids[k] == app.tree.agents@[k].id@);
        lemma_distinct_place(ids, k);
    }
}

} // verus!
