//! The PANE's TAB STRIP: which of the checkout's terminals the pane reads in
//! place of the card, and closing one.

use crate::keys::aim::{only_says, say, take_aim, toggle_pane, PANE_SHOWN};
use crate::model::{lemma_place_of, place_of, SessionRef, TerminalId, TerminalTab};
use crate::state::{find_terminal, terminal_ids, App, Effect, Overlay};
use crate::views::opt;
use vstd::prelude::*;

verus! {

/// What the strip's key says with nothing to walk to.
pub const NO_TERMINALS: &'static str = "no terminals in this checkout — t opens one";
/// What it says over a full-screen session, which has no strip to walk.
pub const NO_PANE_HERE: &'static str = "the pane's terminals are under the grid — ^q back to it";

/// The pane reading `tab`: unfolded, aimed, and the tab pinned. The word for
/// the unfolding is said where there was one.
pub open spec fn reads_tab(
    before: App,
    tab: Option<TerminalId>,
    after: App,
    sent: Seq<Effect>,
    out: Seq<Effect>,
) -> bool {
    &&& after == (App {
        launcher_pane_hidden: false,
        launcher_unaimed: false,
        launcher_terminal: tab,
        dirty: true,
        flash: after.flash,
        ..before
    })
    &&& if before.launcher_pane_hidden {
        opt(after.flash) == Some(PANE_SHOWN@)
    } else {
        after.flash == before.flash
    }
    &&& out == sent.push(
        match tab {
            Some(id) => Effect::AttachNow(SessionRef::Terminal(id)),
            None => Effect::PreviewSelected,
        },
    )
}

/// Read `tab` in the PANE: None is the SESSION tab — the card under the cursor
/// — and Some names one of the checkout's TERMINALS. The one function behind
/// every way the strip is walked, so the pointer and the key end in the same
/// state. A folded pane comes back, and so does one collapsed for want of a
/// card under the cursor.
pub fn show_pane_tab(app: &mut App, tab: Option<TerminalId>, out: &mut Vec<Effect>)
    ensures
        reads_tab(*old(app), tab, *final(app), old(out)@, final(out)@),
{
    if app.launcher_pane_hidden {
        toggle_pane(app);
    }
    take_aim(app);
    app.launcher_terminal = tab.clone();
    app.dirty = true;
    match tab {
        Some(id) => out.push(Effect::AttachNow(SessionRef::Terminal(id))),
        None => out.push(Effect::PreviewSelected),
    }
}

/// The place on the strip of the terminal the pane reads.
pub open spec fn pinned_place(app: App) -> Option<int> {
    match app.launcher_terminal {
        Some(id) => place_of(terminal_ids(app.records.pane_terminals@), id@),
        None => None,
    }
}

/// The tab after the one the pane reads: SESSION, then each terminal in the
/// order the strip lists them, then SESSION again.
pub open spec fn next_tab(app: App) -> Option<TerminalId> {
    let terminals = app.records.pane_terminals@;
    match pinned_place(app) {
        None => Some(terminals[0].id),
        Some(i) => if i + 1 < terminals.len() {
            Some(terminals[i + 1].id)
        } else {
            None
        },
    }
}

fn find_pinned(app: &App) -> (r: Option<usize>)
    ensures
        match r {
            Some(i) => i < app.records.pane_terminals@.len() && pinned_place(*app) == Some(
                i as int,
            ),
            None => pinned_place(*app) is None,
        },
{
    match &app.launcher_terminal {
        Some(id) => find_terminal(&app.records.pane_terminals, id),
        None => None,
    }
}

/// Walk the strip — SESSION, then each TERMINAL of the checkout in the order
/// the header lists them, then back to SESSION. The key walks exactly the tabs
/// the pointer can click.
pub fn cycle_pane_tab(app: &mut App, out: &mut Vec<Effect>)
    ensures
        old(app).records.pane_terminals@.len() == 0 ==> {
            &&& only_says(*old(app), *final(app), NO_TERMINALS@)
            &&& final(out)@ == old(out)@
        },
        old(app).records.pane_terminals@.len() > 0 ==> reads_tab(
            *old(app),
            next_tab(*old(app)),
            *final(app),
            old(out)@,
            final(out)@,
        ),
{
    let n: usize = app.records.pane_terminals.len();
    if n == 0 {
        say(app, NO_TERMINALS);
        return;
    }
    let next: Option<TerminalId> = match find_pinned(app) {
        None => Some(app.records.pane_terminals[0].id.clone()),
        Some(i) => if i + 1 < n {
            Some(app.records.pane_terminals[i + 1].id.clone())
        } else {
            None
        },
    };
    show_pane_tab(app, next, out);
}

/// A click on the TERMINAL tab at `index`, its place in the order the strip
/// draws. A stale index is left alone rather than reading whatever slid into
/// the slot.
pub fn click_pane_tab(app: &mut App, index: usize, out: &mut Vec<Effect>)
    ensures
        index >= old(app).records.pane_terminals@.len() ==> {
            &&& *final(app) == *old(app)
            &&& final(out)@ == old(out)@
        },
        index < old(app).records.pane_terminals@.len() ==> reads_tab(
            *old(app),
            Some(old(app).records.pane_terminals@[index as int].id),
            *final(app),
            old(out)@,
            final(out)@,
        ),
{
    if index >= app.records.pane_terminals.len() {
        return;
    }
    let id = app.records.pane_terminals[index].id.clone();
    show_pane_tab(app, Some(id), out);
}

/// The question that is put up before terminal `t` is closed.
pub open spec fn asks_to_close(before: App, t: TerminalTab, after: App) -> bool {
    after == (App {
        overlay: Some(Overlay::ConfirmClose { name: t.name, terminal: t.id }),
        ..before
    })
}

/// Close the TERMINAL at `index` on the strip — the `×` on its tab, and `d`
/// with the pane on it. Both put up the same question first.
pub fn close_pane_tab(app: &mut App, index: usize)
    ensures
        index >= old(app).records.pane_terminals@.len() ==> *final(app) == *old(app),
        index < old(app).records.pane_terminals@.len() ==> asks_to_close(
            *old(app),
            old(app).records.pane_terminals@[index as int],
            *final(app),
        ),
{
    if index >= app.records.pane_terminals.len() {
        return;
    }
    let name = app.records.pane_terminals[index].name.clone();
    let terminal = app.records.pane_terminals[index].id.clone();
    app.overlay = Some(Overlay::ConfirmClose { name, terminal });
}

/// `d` while the pane is on a TERMINAL: close that terminal rather than delete
/// the card under the cursor.
pub fn close_pinned_terminal(app: &mut App)
    ensures
        match pinned_place(*old(app)) {
            Some(i) => asks_to_close(
                *old(app),
                old(app).records.pane_terminals@[i],
                *final(app),
            ),
            None => *final(app) == *old(app),
        },
{
    if let Some(at) = find_pinned(app) {
        close_pane_tab(app, at);
    }
}

/// The tab the strip lands on when terminal `closing` goes.
pub open spec fn lands_after(app: App, closing: Seq<char>) -> Option<Option<TerminalId>> {
    let terminals = app.records.pane_terminals@;
    if opt(app.launcher_terminal) != Some(closing) {
        None
    } else {
        match place_of(terminal_ids(terminals), closing) {
            None => None,
            Some(at) => Some(
                if at + 1 < terminals.len() {
                    Some(terminals[at + 1].id)
                } else if at > 0 {
                    Some(terminals[at - 1].id)
                } else {
                    None
                },
            ),
        }
    }
}

/// Which tab the strip lands on when `closing` goes: the tab after it, else
/// the one before it, else SESSION (the inner None). The outer None means the
/// strip was not on that terminal at all and must be left alone. Read before
/// the row is dropped, since it is the row's neighbours that answer it.
pub fn tab_after(app: &App, closing: &TerminalId) -> (r: Option<Option<TerminalId>>)
    ensures
        r == lands_after(*app, closing@),
{
    let here: bool = match &app.launcher_terminal {
        Some(id) => id.same(closing),
        None => false,
    };
    if !here {
        return None;
    }
    let terminals = &app.records.pane_terminals;
    let n: usize = terminals.len();
    match find_terminal(terminals, closing) {
        None => None,
        Some(at) => {
            proof {
                lemma_place_of(terminal_ids(app.records.pane_terminals@), closing@);
            }
            if at + 1 < n {
                Some(Some(terminals[at + 1].id.clone()))
            } else if at > 0 {
                Some(Some(terminals[at - 1].id.clone()))
            } else {
                Some(None)
            }
        },
    }
}

// ---- what holds of it ----

/// The terminals on the strip have ids of their own.
pub open spec fn distinct_terminals(app: App) -> bool {
    let ids = terminal_ids(app.records.pane_terminals@);
    forall|i: int, j: int| 0 <= i < j < ids.len() ==> #[trigger] ids[i] != #[trigger] ids[j]
}

/// The key lands where a click on the next tab lands, all along the strip and
/// round again to SESSION.
pub proof fn law_key_walks_what_the_click_picks(app: App, i: int)
    requires
        distinct_terminals(app),
        0 <= i < app.records.pane_terminals@.len(),
    ensures
        app.launcher_terminal is None ==> next_tab(app) == Some(
            app.records.pane_terminals@[0].id,
        ),
        app.launcher_terminal == Some(app.records.pane_terminals@[i].id) ==> next_tab(app) == (
        if i + 1 < app.records.pane_terminals@.len() {
            Some(app.records.pane_terminals@[i + 1].id)
        } else {
            None
        }),
{
    let ids = terminal_ids(app.records.pane_terminals@);
    if app.launcher_terminal == Some(app.records.pane_terminals@[i].id) {
        lemma_place_of(ids, ids[i]);
        let at = place_of(ids, ids[i])->0;
        if at < i {
            assert(ids[at] != ids[i]);
        } else if at > i {
            assert(ids[i] != ids[at]);
        }
    }
}

/// A terminal that closes under the pane never leaves the pane on it: the
/// strip moves to a neighbour, or back to SESSION when it was the only one.
pub proof fn law_closing_moves_the_strip_on(app: App, closing: TerminalId)
    requires
        distinct_terminals(app),
        app.launcher_terminal == Some(closing),
        place_of(terminal_ids(app.records.pane_terminals@), closing@) is Some,
    ensures
        lands_after(app, closing@) is Some,
        app.records.pane_terminals@.len() > 1 ==> lands_after(app, closing@)->0 is Some,
        lands_after(app, closing@)->0 is Some ==> lands_after(app, closing@)->0->0@ != closing@,
        app.records.pane_terminals@.len() == 1 ==> lands_after(app, closing@)->0 is None,
{
    let ids = terminal_ids(app.records.pane_terminals@);
    lemma_place_of(ids, closing@);
    let at = place_of(ids, closing@)->0;
    if at + 1 < ids.len() {
        assert(ids[at] != ids[at + 1]);
    } else if at > 0 {
        assert(ids[at - 1] != ids[at]);
    }
}

/// The terminal at place `at` closing under the pane hands the strip to the one
/// after it; the last of several to the one before; the only one to SESSION. A
/// strip on another tab, or on SESSION, is left alone.
pub proof fn law_closed_terminal_hands_the_strip_on(app: App, at: int)
    requires
        distinct_terminals(app),
        0 <= at < app.records.pane_terminals@.len(),
    ensures
        ({
            let t = app.records.pane_terminals@;
            let lands = lands_after(app, t[at].id@);
            let here = app.launcher_terminal is Some && app.launcher_terminal->0@ == t[at].id@;
            &&& !here ==> lands is None
            &&& here && at + 1 < t.len() ==> lands == Some(Some(t[at + 1].id))
            &&& here && at + 1 == t.len() && at > 0 ==> lands == Some(Some(t[at - 1].id))
            &&& here && t.len() == 1 ==> lands == Some(None::<TerminalId>)
        }),
{
    let ids = terminal_ids(app.records.pane_terminals@);
    lemma_place_of(ids, ids[at]);
    let i = place_of(ids, ids[at])->0;
    if i < at {
        assert(ids[i] != ids[at]);
    } else if i > at {
        assert(ids[at] != ids[i]);
    }
}

/// A tab read in the pane is the one pinned there, with the pane drawn on it
/// and the selection where it was; the session it shows is the terminal, or for
/// SESSION the card's own.
pub proof fn law_read_tab_is_pinned(
    before: App,
    tab: Option<TerminalId>,
    after: App,
    sent: Seq<Effect>,
    out: Seq<Effect>,
)
    requires
        reads_tab(before, tab, after, sent, out),
    ensures
        after.launcher_terminal == tab,
        !after.launcher_pane_hidden && !after.launcher_unaimed,
        after.sel_session == before.sel_session,
        after.sel_project == before.sel_project,
        after.focus == before.focus,
        after.dirty,
        out.len() == sent.len() + 1,
        tab is Some ==> out.last() == Effect::AttachNow(SessionRef::Terminal(tab->0)),
        tab is None ==> out.last() == Effect::PreviewSelected,
{
}

/// The question before a terminal closes is about the terminal the pane reads,
/// by its name.
pub proof fn law_asks_about_the_terminal_read(app: App, at: int, after: App)
    requires
        distinct_terminals(app),
        0 <= at < app.records.pane_terminals@.len(),
        app.launcher_terminal is Some,
        app.launcher_terminal->0@ == app.records.pane_terminals@[at].id@,
        asks_to_close(app, app.records.pane_terminals@[at], after),
    ensures
        pinned_place(app) == Some(at),
        ({
            let t = app.records.pane_terminals@[at];
            after.overlay == Some(Overlay::ConfirmClose { name: t.name, terminal: t.id })
        }),
        after.launcher_terminal == app.launcher_terminal,
        after.records == app.records,
{
    let ids = terminal_ids(app.records.pane_terminals@);
    lemma_place_of(ids, ids[at]);
    let i = place_of(ids, ids[at])->0;
    if i < at {
        assert(ids[i] != ids[at]);
    } else if i > at {
        assert(ids[at] != ids[i]);
    }
}

} // verus!
