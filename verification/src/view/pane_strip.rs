//! The PANE's own header: the TAB STRIP that says what the pane is reading and
//! is how it gets swapped.

use crate::launcher::{cursor, cursor_of, rows, rows_of, LauncherRow};
use crate::layout::{larger, less, max_usize, Rect};
use crate::model::{place_of, TerminalTab, Worktree};
use crate::state::{find_terminal, hovers, terminal_ids, App, Hit, HitTarget, HitView};
use crate::text::{char_count, cut, decimal, decimal_text, joined, truncate};
use crate::view::rows::{
    below_header, header_in_range, pad_x, padded, row_of_rect, row_rect, under_header,
};
use crate::view::span::{
    bare, bold, columns, inked, lemma_columns_push, push_span, span, Ink, Span, SpanView, Style,
};
use crate::view::strip::{
    law_window_fits, lay_out, lemma_strip_width_concat, lemma_strip_width_push, one_span, plain_tab,
    push_hit, push_tab, strip_hits, strip_spans, strip_width, taken, width_of, window, window_of,
    PaneTab, TabView,
};
use crate::views::{lemma_concat_assoc, opt, views};
use vstd::prelude::*;

verus! {

/// Longest a TERMINAL's name is drawn on the strip before it is clipped.
pub const TAB_MAX: usize = 18;
/// The characters around the digits of a count at an end of the strip.
pub const MARK_FRAME: usize = 3;

/// How a tab of the strip is drawn: the one the pane reads in the accent, the
/// rest muted, and one whose process is gone dimmer still.
pub open spec fn tab_look(active: bool, alive: bool) -> Style {
    if active {
        bold(Ink::Accent)
    } else if alive {
        inked(Ink::Muted)
    } else {
        inked(Ink::Dim)
    }
}

fn look(active: bool, alive: bool) -> (r: Style)
    ensures
        r == tab_look(active, alive),
{
    if active {
        Style::bold(Ink::Accent)
    } else if alive {
        Style::ink(Ink::Muted)
    } else {
        Style::ink(Ink::Dim)
    }
}

/// The card under the cursor.
pub open spec fn card_on<'a>(app: &'a App) -> Option<LauncherRow<'a>> {
    match cursor_of(*app, rows_of(app)) {
        Some(i) => Some(rows_of(app)[i]),
        None => None,
    }
}

/// How much of a name or a branch the strip shows.
pub open spec fn name_room(room: int) -> nat {
    larger(room / 4, 8) as nat
}

/// The SESSION tab: the word, and the name of the card under the cursor.
pub open spec fn session_tab(app: App, room: int) -> TabView {
    let style = tab_look(app.launcher_terminal is None, true);
    let word = seq![span("SESSION"@, style)];
    TabView {
        spans: match card_on(&app) {
            Some(row) => word.push(span(" · "@, inked(Ink::Dim))).push(
                span(cut(row.agent.name@, name_room(room)), style),
            ),
            None => word,
        },
        hit: Some(HitView::LauncherPaneSession),
    }
}

/// The checkout everything after it belongs to, in the color of its scope.
pub open spec fn checkout_tab(is_main: bool, branch: Seq<char>, room: int) -> TabView {
    let (glyph, ink) = if is_main {
        ("⌂ "@, Ink::Root)
    } else {
        ("↳ "@, Ink::Worktree)
    };
    plain_tab(
        seq![
            span("  "@, bare()),
            span(glyph, inked(ink)),
            span(cut(branch, name_room(room)), inked(ink)),
        ],
    )
}

/// The checkout the strip is scoped to: the card's, else the selected one.
pub open spec fn strip_checkout(app: App) -> Option<(bool, Seq<char>)> {
    match card_on(&app) {
        Some(row) => Some((row.is_main, row.branch@)),
        None => match app.worktree_on() {
            Some(w) => Some((w.is_main, w.branch@)),
            None => None,
        },
    }
}

/// The part of the strip that never gives way: the SESSION tab, the checkout
/// and the divider.
pub open spec fn fixed_tabs(app: App, room: int) -> Seq<TabView> {
    let divider = plain_tab(seq![span("  │  "@, inked(Ink::Edge))]);
    let first = seq![session_tab(app, room)];
    match strip_checkout(app) {
        Some((is_main, branch)) => first.push(checkout_tab(is_main, branch, room)).push(divider),
        None => first.push(divider),
    }
}

/// What the strip says with no terminal to tab to.
pub open spec fn no_terminal_tab(app: App) -> TabView {
    plain_tab(seq![span(app.facts.terminal_key@ + " opens a terminal here"@, inked(Ink::Dim))])
}

/// The columns of each terminal's tab: its glyph, its name, its cross.
pub open spec fn terminal_widths(terminals: Seq<TerminalTab>) -> Seq<usize> {
    Seq::new(
        terminals.len(),
        |i: int| (cut(terminals[i].name@, TAB_MAX as nat).len() + 4) as usize,
    )
}

/// The tab of the terminal at place `i`: its glyph and its name, and the cross
/// that closes it, a tab of its own.
pub open spec fn terminal_tab(t: TerminalTab, i: int, active: bool) -> Seq<TabView> {
    let glyph = if t.run_command is Some {
        "▶ "@
    } else {
        "❯ "@
    };
    seq![
        TabView {
            spans: seq![
                span(
                    glyph,
                    inked(
                        if t.alive {
                            Ink::Good
                        } else {
                            Ink::Dim
                        },
                    ),
                ),
                span(cut(t.name@, TAB_MAX as nat), tab_look(active, t.alive)),
            ],
            hit: Some(HitView::LauncherPaneTerminal(i as usize)),
        },
        TabView {
            spans: seq![
                span(
                    " ×"@,
                    inked(
                        if active {
                            Ink::Muted
                        } else {
                            Ink::Dim
                        },
                    ),
                ),
            ],
            hit: Some(HitView::LauncherPaneCloseTerminal(i as usize)),
        },
    ]
}

/// Two blanks between two tabs.
pub open spec fn wide_gap() -> TabView {
    plain_tab(seq![span("  "@, bare())])
}

/// The tabs of the terminals from `start` to `end`, `pinned` the one the pane
/// reads.
pub open spec fn terminal_tabs(
    terminals: Seq<TerminalTab>,
    pinned: Option<Seq<char>>,
    start: int,
    end: int,
) -> Seq<TabView>
    decreases end - start,
{
    if end <= start {
        Seq::empty()
    } else {
        let t = terminals[end - 1];
        terminal_tabs(terminals, pinned, start, end - 1) + (if end - 1 > start {
            seq![wide_gap()]
        } else {
            Seq::empty()
        }) + terminal_tab(t, end - 1, pinned == Some(t.id@))
    }
}

/// The count of the terminals before the window, and of those after it.
pub open spec fn before_mark(n: int) -> TabView {
    plain_tab(seq![span("+"@ + decimal(n as nat) + "  "@, inked(Ink::Dim))])
}

pub open spec fn after_mark(n: int) -> TabView {
    plain_tab(seq![span("  +"@ + decimal(n as nat), inked(Ink::Dim))])
}

/// The window of terminals drawn behind the fixed part.
pub open spec fn terminal_window(app: App, room: int) -> (int, int) {
    let terminals = app.records.pane_terminals@;
    let at = match app.launcher_terminal {
        Some(id) => place_of(terminal_ids(terminals), id@),
        None => None,
    };
    window(
        terminal_widths(terminals),
        2,
        MARK_FRAME as nat,
        at,
        less(room, strip_width(fixed_tabs(app, room)) as int),
    )
}

/// The terminals of the strip, those that do not fit counted at either end.
pub open spec fn terminal_part(app: App, room: int) -> Seq<TabView> {
    let terminals = app.records.pane_terminals@;
    let (start, end) = terminal_window(app, room);
    let before = if start > 0 {
        seq![before_mark(start)]
    } else {
        Seq::empty()
    };
    let after = if end < terminals.len() {
        seq![after_mark(terminals.len() - end)]
    } else {
        Seq::empty()
    };
    before + terminal_tabs(terminals, opt(app.launcher_terminal), start, end) + after
}

/// The strip, laid out in `room` columns.
#[verifier::opaque]
pub open spec fn pane_row(app: App, room: int) -> Seq<TabView> {
    if app.records.pane_terminals@.len() == 0 {
        fixed_tabs(app, room).push(no_terminal_tab(app))
    } else {
        fixed_tabs(app, room) + terminal_part(app, room)
    }
}

fn fixed_part(app: &App, room: usize) -> (r: Vec<PaneTab>)
    ensures
        views(r@) == fixed_tabs(*app, room as int),
{
    let most: usize = max_usize(room / 4, 8);
    let own = look(app.launcher_terminal.is_none(), true);
    let list = rows(app);
    let at = cursor(app, &list);
    let mut label: Vec<Span> = Vec::new();
    push_span(&mut label, Span::of("SESSION", own));
    let mut checkout: Option<(bool, &String)> = None;
    match at {
        Some(i) => {
            push_span(&mut label, Span::of(" · ", Style::ink(Ink::Dim)));
            push_span(&mut label, Span::styled(truncate(&list[i].agent.name, most), own));
            checkout = Some((list[i].is_main, &list[i].branch));
        },
        None => {
            if let Some(w) = app.selected_worktree() {
                checkout = Some((w.is_main, &w.branch));
            }
        },
    }
    assert(views(label@) =~= session_tab(*app, room as int).spans);
    let mut tabs: Vec<PaneTab> = Vec::new();
    push_tab(&mut tabs, PaneTab { spans: label, hit: Some(HitTarget::LauncherPaneSession) });
    if let Some((is_main, branch)) = checkout {
        let ink: Ink = if is_main {
            Ink::Root
        } else {
            Ink::Worktree
        };
        let glyph: &str = if is_main {
            "⌂ "
        } else {
            "↳ "
        };
        let mut spans: Vec<Span> = Vec::new();
        push_span(&mut spans, Span::of("  ", Style::raw()));
        push_span(&mut spans, Span::of(glyph, Style::ink(ink)));
        push_span(&mut spans, Span::styled(truncate(branch, most), Style::ink(ink)));
        assert(views(spans@) =~= checkout_tab(is_main, branch@, room as int).spans);
        push_tab(&mut tabs, PaneTab::plain(spans));
    }
    push_tab(&mut tabs, PaneTab::plain(one_span(Span::of("  │  ", Style::ink(Ink::Edge)))));
    assert(views(tabs@) =~= fixed_tabs(*app, room as int));
    tabs
}

fn widths_of(terminals: &Vec<TerminalTab>) -> (r: Vec<usize>)
    ensures
        r@ == terminal_widths(terminals@),
{
    let mut out: Vec<usize> = Vec::new();
    let mut i: usize = 0;
    while i < terminals.len()
        invariant
            i <= terminals@.len(),
            out@ == terminal_widths(terminals@.take(i as int)),
        decreases terminals@.len() - i,
    {
        let name = truncate(&terminals[i].name, TAB_MAX);
        out.push(char_count(&name) + 4);
        i += 1;
        assert(out@ =~= terminal_widths(terminals@.take(i as int)));
    }
    assert(terminals@.take(i as int) =~= terminals@);
    out
}

fn push_terminal(tabs: &mut Vec<PaneTab>, t: &TerminalTab, i: usize, active: bool)
    ensures
        views(final(tabs)@) == views(old(tabs)@) + terminal_tab(*t, i as int, active),
{
    let ghost before = views(tabs@);
    let glyph: &str = if t.run_command.is_some() {
        "▶ "
    } else {
        "❯ "
    };
    let mut label: Vec<Span> = Vec::new();
    push_span(
        &mut label,
        Span::of(
            glyph,
            Style::ink(
                if t.alive {
                    Ink::Good
                } else {
                    Ink::Dim
                },
            ),
        ),
    );
    push_span(&mut label, Span::styled(truncate(&t.name, TAB_MAX), look(active, t.alive)));
    assert(views(label@) =~= terminal_tab(*t, i as int, active)[0].spans);
    push_tab(tabs, PaneTab { spans: label, hit: Some(HitTarget::LauncherPaneTerminal(i)) });
    let cross = one_span(
        Span::of(
            " ×",
            Style::ink(
                if active {
                    Ink::Muted
                } else {
                    Ink::Dim
                },
            ),
        ),
    );
    push_tab(tabs, PaneTab { spans: cross, hit: Some(HitTarget::LauncherPaneCloseTerminal(i)) });
    assert(views(tabs@) =~= before + terminal_tab(*t, i as int, active));
}

fn push_terminals(tabs: &mut Vec<PaneTab>, app: &App, start: usize, end: usize)
    requires
        start <= end <= app.records.pane_terminals@.len(),
    ensures
        views(final(tabs)@) == views(old(tabs)@) + terminal_tabs(
            app.records.pane_terminals@,
            opt(app.launcher_terminal),
            start as int,
            end as int,
        ),
{
    let ghost before = views(tabs@);
    let ghost terminals = app.records.pane_terminals@;
    let ghost pinned = opt(app.launcher_terminal);
    let mut i: usize = start;
    assert(views(tabs@) =~= before + terminal_tabs(terminals, pinned, start as int, i as int));
    while i < end
        invariant
            start <= i <= end <= app.records.pane_terminals@.len(),
            terminals == app.records.pane_terminals@,
            pinned == opt(app.launcher_terminal),
            views(tabs@) == before + terminal_tabs(terminals, pinned, start as int, i as int),
        decreases end - i,
    {
        if i > start {
            push_tab(tabs, PaneTab::plain(one_span(Span::of("  ", Style::raw()))));
        }
        let t = &app.records.pane_terminals[i];
        let active: bool = match &app.launcher_terminal {
            Some(id) => id.same(&t.id),
            None => false,
        };
        push_terminal(tabs, t, i, active);
        i += 1;
        assert(views(tabs@) =~= before + terminal_tabs(terminals, pinned, start as int, i as int));
    }
}

/// The strip itself, laid out left to right in `room` columns. The SESSION tab
/// and the checkout never give way — they are what the rest of the strip is
/// scoped by — and a terminal that will not fit is counted in the `+N` at
/// either end rather than drawn half.
pub fn pane_tabs(app: &App, room: usize) -> (r: Vec<PaneTab>)
    ensures
        views(r@) == pane_row(*app, room as int),
{
    let mut tabs = fixed_part(app, room);
    let ghost fixed = views(tabs@);
    if app.records.pane_terminals.len() == 0 {
        let text = joined(&app.facts.terminal_key, " opens a terminal here");
        push_tab(&mut tabs, PaneTab::plain(one_span(Span::styled(text, Style::ink(Ink::Dim)))));
        assert(views(tabs@) == pane_row(*app, room as int)) by {
            reveal(pane_row);
        }
        return tabs;
    }
    let widths = widths_of(&app.records.pane_terminals);
    let used: usize = width_of(&tabs);
    let budget: usize = room.saturating_sub(used);
    let at: Option<usize> = match &app.launcher_terminal {
        Some(id) => find_terminal(&app.records.pane_terminals, id),
        None => None,
    };
    let (start, end) = window_of(&widths, 2, MARK_FRAME, at, budget);
    assert((start as int, end as int) == terminal_window(*app, room as int));
    let ghost lead = if start > 0 {
        seq![before_mark(start as int)]
    } else {
        Seq::empty()
    };
    if start > 0 {
        let text = joined(&joined("+", &decimal_text(start as u64)), "  ");
        push_tab(&mut tabs, PaneTab::plain(one_span(Span::styled(text, Style::ink(Ink::Dim)))));
    }
    assert(views(tabs@) =~= fixed + lead);
    push_terminals(&mut tabs, app, start, end);
    if end < app.records.pane_terminals.len() {
        let text = joined("  +", &decimal_text((app.records.pane_terminals.len() - end) as u64));
        push_tab(&mut tabs, PaneTab::plain(one_span(Span::styled(text, Style::ink(Ink::Dim)))));
    }
    assert(views(tabs@) =~= fixed + terminal_part(*app, room as int));
    assert(views(tabs@) == pane_row(*app, room as int)) by {
        reveal(pane_row);
    }
    tabs
}

// ---- the frame ----

/// The columns of the button that folds the pane away.
pub const PANE_CLOSE_W: u16 = 3;
pub const PANE_CLOSE: &'static str = " × ";

/// The pane's header as it is drawn: the strip, the state tag before the close
/// button, the button, the rule under them, and the part of the pane the
/// session's screen draws in.
#[derive(Debug)]
pub struct DrawnPane {
    pub row: Option<PaneRow>,
    pub rule: Option<Rect>,
    pub rule_ink: Ink,
    pub inner: Rect,
}

/// The row of the strip.
#[derive(Debug)]
pub struct PaneRow {
    pub area: Rect,
    pub strip: Vec<Span>,
    /// Where the state tag is right-aligned, a blank behind it.
    pub tag_area: Rect,
    pub close: Option<(Rect, Ink)>,
}

/// The columns of the row that the button and the tag leave for the strip.
pub open spec fn strip_room(width: int, tag: Option<Span>) -> int {
    less(
        width,
        PANE_CLOSE_W + match tag {
            Some(t) => t.text@.len() + 2,
            None => 0,
        },
    )
}

/// What is left of the row in front of the button.
pub open spec fn tag_area(r: Rect) -> Rect {
    Rect { width: less(r.width as int, PANE_CLOSE_W as int) as u16, ..r }
}

/// The button at the right end of the row.
pub open spec fn close_area(r: Rect) -> Rect {
    Rect { x: (r.right() - PANE_CLOSE_W) as u16, width: PANE_CLOSE_W, ..r }
}

/// The close button, where the row has room for it: red under the pointer.
pub open spec fn close_button(r: Rect, hover: Option<HitView>) -> Option<(Rect, Ink)> {
    if r.width >= PANE_CLOSE_W {
        Some(
            (
                close_area(r),
                if hover == Some(HitView::LauncherPaneClose) {
                    Ink::Alarm
                } else {
                    Ink::Muted
                },
            ),
        )
    } else {
        None
    }
}

/// The hits of the pane's header row: the strip's, and the close button's.
pub open spec fn line_hits(app: App, r: Rect, tag: Option<Span>) -> Seq<(Rect, HitView)> {
    let tabs = pane_row(app, strip_room(r.width as int, tag));
    strip_hits(tabs, r, tabs.len() as int) + (if r.width >= PANE_CLOSE_W {
        seq![(close_area(r), HitView::LauncherPaneClose)]
    } else {
        Seq::empty()
    })
}

/// The hits of the pane's header.
pub open spec fn pane_hits(app: App, area: Rect, tag: Option<Span>) -> Seq<(Rect, HitView)> {
    match row_of_rect(area, 1) {
        None => Seq::empty(),
        Some(line) => line_hits(app, padded(line), tag),
    }
}

/// `row` is the pane's header row on `r`.
pub open spec fn is_pane_row(app: App, r: Rect, tag: Option<Span>, row: PaneRow) -> bool {
    &&& row.area == r
    &&& views(row.strip@) == strip_spans(pane_row(app, strip_room(r.width as int, tag)))
    &&& row.tag_area == tag_area(r)
    &&& row.close == close_button(r, opt(app.screen.hover_crumb))
}

fn pane_line(app: &App, r: Rect, tag: &Option<Span>, hits: &mut Vec<Hit>) -> (row: PaneRow)
    requires
        r.right() <= u16::MAX,
    ensures
        is_pane_row(*app, r, *tag, row),
        views(final(hits)@) == views(old(hits)@) + line_hits(*app, r, *tag),
{
    let ghost before = views(hits@);
    let mut room: usize = (r.width as usize).saturating_sub(PANE_CLOSE_W as usize);
    if let Some(t) = tag {
        room = room.saturating_sub(2).saturating_sub(char_count(&t.text));
    }
    assert(room == strip_room(r.width as int, *tag));
    let tabs = pane_tabs(app, room);
    let ghost row = views(tabs@);
    let strip = lay_out(tabs, r, hits);
    let tag_area = Rect { width: r.width.saturating_sub(PANE_CLOSE_W), ..r };
    let ghost laid = views(hits@);
    let mut close: Option<(Rect, Ink)> = None;
    let ghost mut button = Seq::<(Rect, HitView)>::empty();
    if r.width >= PANE_CLOSE_W {
        let rect = Rect { x: tag_area.x + tag_area.width, width: PANE_CLOSE_W, ..r };
        let ink = if hovers(&app.screen.hover_crumb, &HitTarget::LauncherPaneClose) {
            Ink::Alarm
        } else {
            Ink::Muted
        };
        close = Some((rect, ink));
        push_hit(hits, Hit { rect, target: HitTarget::LauncherPaneClose });
        proof {
            button = seq![(rect, HitView::LauncherPaneClose)];
        }
    }
    proof {
        assert(views(hits@) =~= laid + button);
        lemma_concat_assoc(before, strip_hits(row, r, row.len() as int), button);
    }
    PaneRow { area: r, strip, tag_area, close }
}

/// The PANE's own header: the TAB STRIP, the CLOSE BUTTON at the right end of
/// the row and the state tag right-aligned just before it; a rule under it,
/// and the rect the session's screen draws in. The hits it lays down go to
/// `hits`.
pub fn pane_frame(
    app: &App,
    area: Rect,
    tag: &Option<Span>,
    focused: bool,
    hits: &mut Vec<Hit>,
) -> (pane: DrawnPane)
    requires
        header_in_range(area),
        area.y + 3 <= u16::MAX,
    ensures
        views(final(hits)@) == views(old(hits)@) + pane_hits(*app, area, *tag),
        pane.rule == row_of_rect(area, 2),
        pane.rule_ink == (if focused {
            Ink::Accent
        } else {
            Ink::Edge
        }),
        pane.inner == under_header(area),
        match row_of_rect(area, 1) {
            None => pane.row is None,
            Some(line) => pane.row is Some && is_pane_row(*app, padded(line), *tag, pane.row->0),
        },
{
    let rule = row_rect(area, 2);
    let rule_ink = if focused {
        Ink::Accent
    } else {
        Ink::Edge
    };
    let inner = below_header(area);
    let row: Option<PaneRow> = match row_rect(area, 1) {
        Some(line) => Some(pane_line(app, pad_x(line), tag, hits)),
        None => {
            assert(views(hits@) + Seq::<(Rect, HitView)>::empty() =~= views(hits@));
            None
        },
    };
    DrawnPane { row, rule, rule_ink, inner }
}

// ---- what holds of it ----

proof fn lemma_one_width(t: TabView)
    requires
        t.spans.len() == 1,
    ensures
        t.width() == t.spans[0].text.len(),
        strip_width(seq![t]) == t.width(),
{
    lemma_columns_push(Seq::<SpanView>::empty(), t.spans[0]);
    assert(t.spans =~= Seq::<SpanView>::empty().push(t.spans[0]));
    lemma_strip_width_push(Seq::<TabView>::empty(), t);
    assert(seq![t] =~= Seq::<TabView>::empty().push(t));
}

proof fn lemma_terminal_width(t: TerminalTab, i: int, active: bool)
    ensures
        strip_width(terminal_tab(t, i, active)) == cut(t.name@, TAB_MAX as nat).len() + 4,
        cut(t.name@, TAB_MAX as nat).len() <= TAB_MAX,
{
    let pair = terminal_tab(t, i, active);
    reveal_strlit("▶ ");
    reveal_strlit("❯ ");
    reveal_strlit(" ×");
    let s = pair[0].spans;
    lemma_columns_push(Seq::<SpanView>::empty(), s[0]);
    lemma_columns_push(Seq::<SpanView>::empty().push(s[0]), s[1]);
    assert(s =~= Seq::<SpanView>::empty().push(s[0]).push(s[1]));
    lemma_one_width(pair[1]);
    lemma_strip_width_push(Seq::<TabView>::empty(), pair[0]);
    lemma_strip_width_push(Seq::<TabView>::empty().push(pair[0]), pair[1]);
    assert(pair =~= Seq::<TabView>::empty().push(pair[0]).push(pair[1]));
}

proof fn lemma_terminals_width(
    terminals: Seq<TerminalTab>,
    pinned: Option<Seq<char>>,
    start: int,
    end: int,
)
    requires
        0 <= start <= end <= terminals.len(),
    ensures
        strip_width(terminal_tabs(terminals, pinned, start, end)) == taken(
            terminal_widths(terminals),
            2,
            start,
            end,
        ),
    decreases end - start,
{
    if start < end {
        lemma_terminals_width(terminals, pinned, start, end - 1);
        let t = terminals[end - 1];
        let active = pinned == Some(t.id@);
        lemma_terminal_width(t, end - 1, active);
        let before = terminal_tabs(terminals, pinned, start, end - 1);
        let gap = if end - 1 > start {
            seq![wide_gap()]
        } else {
            Seq::<TabView>::empty()
        };
        reveal_strlit("  ");
        lemma_one_width(wide_gap());
        lemma_strip_width_concat(before, gap);
        lemma_strip_width_concat(before + gap, terminal_tab(t, end - 1, active));
    }
}

/// A strip that draws a terminal at all stays inside its room, counts and all:
/// what does not fit is counted, never drawn half.
pub proof fn law_pane_strip_fits(app: App, room: int)
    requires
        app.records.pane_terminals@.len() > 0,
        strip_width(fixed_tabs(app, room)) <= room,
        terminal_window(app, room).0 < terminal_window(app, room).1,
    ensures
        strip_width(pane_row(app, room)) <= room,
{
    reveal(pane_row);
    let terminals = app.records.pane_terminals@;
    let widths = terminal_widths(terminals);
    let fixed = fixed_tabs(app, room);
    let at = match app.launcher_terminal {
        Some(id) => place_of(terminal_ids(terminals), id@),
        None => None,
    };
    if let Some(id) = app.launcher_terminal {
        crate::model::lemma_place_of(terminal_ids(terminals), id@);
    }
    let (start, end) = terminal_window(app, room);
    law_window_fits(widths, 2, MARK_FRAME as nat, at, less(room, strip_width(fixed) as int));
    lemma_terminals_width(terminals, opt(app.launcher_terminal), start, end);
    let shown = terminal_tabs(terminals, opt(app.launcher_terminal), start, end);
    let before = if start > 0 {
        seq![before_mark(start)]
    } else {
        Seq::<TabView>::empty()
    };
    let after = if end < terminals.len() {
        seq![after_mark(terminals.len() - end)]
    } else {
        Seq::<TabView>::empty()
    };
    reveal_strlit("+");
    reveal_strlit("  ");
    reveal_strlit("  +");
    lemma_one_width(before_mark(start));
    lemma_one_width(after_mark(terminals.len() - end));
    lemma_strip_width_concat(before, shown);
    lemma_strip_width_concat(before + shown, after);
    lemma_strip_width_concat(fixed, terminal_part(app, room));
}

/// The terminal the pane is reading is one of those the strip draws, unless it
/// has no room for any.
pub proof fn law_pinned_terminal_is_drawn(app: App, room: int)
    requires
        app.launcher_terminal is Some,
        place_of(terminal_ids(app.records.pane_terminals@), app.launcher_terminal->0@) is Some,
    ensures
        ({
            let at = place_of(terminal_ids(app.records.pane_terminals@), app.launcher_terminal->0@)->0;
            let (start, end) = terminal_window(app, room);
            start <= at < end || (start == at && end == at)
        }),
{
    crate::model::lemma_place_of(
        terminal_ids(app.records.pane_terminals@),
        app.launcher_terminal->0@,
    );
    crate::view::strip::law_window_holds_the_lit_tab(
        terminal_widths(app.records.pane_terminals@),
        2,
        MARK_FRAME as nat,
        place_of(terminal_ids(app.records.pane_terminals@), app.launcher_terminal->0@)->0,
        less(room, strip_width(fixed_tabs(app, room)) as int),
    );
}

/// The close button is drawn behind the strip's room and over none of its
/// columns.
pub proof fn law_close_button_has_its_own_columns(r: Rect)
    requires
        r.right() <= u16::MAX,
        r.width >= PANE_CLOSE_W,
    ensures
        close_area(r).within(r),
        close_area(r).apart(tag_area(r)),
{
}

/// The strip opens on the SESSION tab, pressed to read the card, with the name
/// of the card under the cursor; it is lit while the pane reads no terminal.
/// The checkout behind it is the card's own.
pub proof fn law_strip_opens_on_the_session(app: App, room: int)
    ensures
        ({
            let row = pane_row(app, room);
            let s = row[0];
            let card = card_on(&app);
            &&& row.len() > 0
            &&& s.hit == Some(HitView::LauncherPaneSession)
            &&& s.spans[0].text == "SESSION"@
            &&& app.launcher_terminal is None ==> s.spans[0].style.fg == Some(Ink::Accent)
            &&& app.launcher_terminal is Some ==> s.spans[0].style.fg == Some(Ink::Muted)
            &&& card is Some ==> s.spans.len() == 3 && s.spans[2].text == cut(
                card->0.agent.name@,
                larger(room / 4, 8) as nat,
            )
            &&& card is Some ==> row[1].spans[2].text == cut(
                card->0.branch@,
                larger(room / 4, 8) as nat,
            )
            &&& card is Some && card->0.is_main ==> row[1].spans[1].text == "⌂ "@
            &&& card is Some && !card->0.is_main ==> row[1].spans[1].text == "↳ "@
            &&& card is None ==> s.spans.len() == 1
        }),
{
    reveal(pane_row);
}

/// The tabs of a terminal: one pressed to read it and a cross pressed to close
/// it, both by its place on the strip; a command that was run wears another
/// glyph than a shell, one whose process is gone is dim, and the one the pane
/// reads is lit.
pub proof fn law_terminal_has_a_tab_and_a_cross(t: TerminalTab, i: usize, active: bool)
    ensures
        ({
            let tabs = terminal_tab(t, i as int, active);
            &&& tabs.len() == 2
            &&& tabs[0].hit == Some(HitView::LauncherPaneTerminal(i))
            &&& tabs[1].hit == Some(HitView::LauncherPaneCloseTerminal(i))
            &&& tabs[1].spans[0].text == " ×"@
            &&& t.run_command is Some ==> tabs[0].spans[0].text == "▶ "@
            &&& t.run_command is None ==> tabs[0].spans[0].text == "❯ "@
            &&& t.alive <==> tabs[0].spans[0].style.fg == Some(Ink::Good)
            &&& tabs[0].spans[1].text == cut(t.name@, TAB_MAX as nat)
            &&& active <==> tabs[0].spans[1].style.fg == Some(Ink::Accent)
            &&& !active && t.alive ==> tabs[0].spans[1].style.fg == Some(Ink::Muted)
            &&& !active && !t.alive ==> tabs[0].spans[1].style.fg == Some(Ink::Dim)
        }),
{
}

/// Terminal `k` of those drawn is on the strip with its own tab and cross, and
/// is the lit one exactly where the pane reads it.
pub proof fn law_each_terminal_is_on_the_strip(
    terminals: Seq<TerminalTab>,
    pinned: Option<Seq<char>>,
    start: int,
    end: int,
    k: int,
)
    requires
        0 <= start <= k < end <= terminals.len(),
    ensures
        ({
            let tabs = terminal_tabs(terminals, pinned, start, end);
            let its = terminal_tab(
                terminals[k],
                k,
                pinned is Some && pinned->0 == terminals[k].id@,
            );
            &&& tabs.len() == 3 * (end - start) - 1
            &&& tabs[3 * (k - start)] == its[0]
            &&& tabs[3 * (k - start) + 1] == its[1]
        }),
    decreases end - start,
{
    if end - 1 > start {
        law_each_terminal_is_on_the_strip(
            terminals,
            pinned,
            start,
            end - 1,
            if k < end - 1 {
                k
            } else {
                start
            },
        );
    } else {
        assert(terminal_tabs(terminals, pinned, start, start).len() == 0);
    }
}

/// The terminals the strip has no room for are counted at the end they are
/// past.
pub proof fn law_terminals_past_an_end_are_counted(app: App, room: int)
    requires
        app.records.pane_terminals@.len() > 0,
    ensures
        ({
            let part = terminal_part(app, room);
            let (start, end) = terminal_window(app, room);
            let after = app.records.pane_terminals@.len() - end;
            let shown = terminal_tabs(
                app.records.pane_terminals@,
                opt(app.launcher_terminal),
                start,
                end,
            );
            let ahead = if start > 0 {
                1int
            } else {
                0
            };
            &&& pane_row(app, room) == fixed_tabs(app, room) + part
            &&& start > 0 ==> part[0].spans[0].text == "+"@ + decimal(start as nat) + "  "@
            &&& after > 0 ==> part.last().spans[0].text == "  +"@ + decimal(after as nat)
            &&& part.len() == ahead + shown.len() + if after > 0 {
                1int
            } else {
                0
            }
            &&& forall|i: int| 0 <= i < shown.len() ==> part[ahead + i] == #[trigger] shown[i]
        }),
{
    reveal(pane_row);
}

/// The button that closes the pane is the last columns of the row, where it has
/// room for it, and red under the pointer.
pub proof fn law_close_button_is_at_the_right_end(r: Rect, hover: Option<HitView>)
    requires
        r.right() <= u16::MAX,
    ensures
        ({
            let b = close_button(r, hover);
            &&& b is Some <==> r.width >= PANE_CLOSE_W
            &&& b is Some ==> {
                &&& (b->0).0.x + (b->0).0.width == r.x + r.width
                &&& (b->0).0.width == PANE_CLOSE_W
                &&& (b->0).0.y == r.y
                &&& (b->0).1 == Ink::Alarm <==> hover == Some(HitView::LauncherPaneClose)
            }
        }),
{
}

/// With no terminal in the checkout the strip ends on how to open one.
pub proof fn law_strip_says_how_to_open_a_terminal(app: App, room: int)
    requires
        app.records.pane_terminals@.len() == 0,
    ensures
        pane_row(app, room).last().spans[0].text == app.facts.terminal_key@
            + " opens a terminal here"@,
        pane_row(app, room).last().hit is None,
{
    reveal(pane_row);
}

/// The strip has the row but for the button, and but for the state's tag and
/// two columns of air where there is one.
pub proof fn law_strip_leaves_room_for_the_tag(width: int, tag: Span)
    requires
        width >= tag.text@.len() + 5,
    ensures
        strip_room(width, None) == width - 3,
        strip_room(width, Some(tag)) == width - 3 - tag.text@.len() - 2,
{
}

} // verus!
