//! The GRID on screen: which cards are drawn where, the cue under the last of
//! them, and what stands in the place of a grid with nothing in it.

use crate::grid::{cards_area, grid, grid_of, room_to_draw, Grid, Hidden, CARD_H, GAP_X};
use crate::launcher::{cursor, cursor_of, rows, rows_of, LauncherRow};
use crate::layout::{larger, less, min_u16, min_usize, smaller, Rect};
use crate::state::{hovers, App, Focus, Hit, HitTarget, HitView};
use crate::text::{decimal, decimal_text, joined};
use crate::view::count::{
    count_parts, draw_head, ending, head_hits, is_head_row, plural, CountsBadge, DrawnHead,
};
use crate::view::rows::{padded, row_of_rect, row_rect};
use crate::view::span::{
    bare, columns, display_columns, inked, lemma_columns_push, line_width, narrow_spans,
    narrow_text, push_span, span, Ink, Span, SpanView, Style, Sweep,
};
use crate::view::strip::{capped, push_hit};
use crate::views::{opt, views};
use vstd::arithmetic::div_mod::*;
use vstd::arithmetic::mul::*;
use vstd::prelude::*;

verus! {

/// What the ARCHIVED VIEW says with nothing in it.
pub const NO_ARCHIVED: &'static str = "nothing archived in this project — ⇧A back to the live sessions";
/// Smallest GRID the welcome turns a nebula in: under it the words stand
/// alone, centered.
pub const SKY_MIN_W: u16 = 30;
pub const SKY_MIN_H: u16 = 10;

// ---- the cards ----

/// The card that wears the cursor.
pub open spec fn worn(app: App, cursor: Option<usize>) -> Option<usize> {
    if app.launcher_unaimed {
        None
    } else {
        cursor
    }
}

/// Which card wears the cursor: the one the cursor is on, or none at all once
/// the aim has been let go of. The grid still knows where the cursor is; it
/// simply draws no card as selected.
pub fn wearing(app: &App, cursor: Option<usize>) -> (r: Option<usize>)
    ensures
        r == worn(*app, cursor),
{
    if app.launcher_unaimed {
        None
    } else {
        cursor
    }
}

/// Where the card in `slot` goes, or None once the grid has run out of rows
/// for it — a card is drawn whole or not at all.
pub fn fitting_cell(g: &Grid, slot: usize) -> (r: Option<Rect>)
    requires
        g.wf(),
        slot < g.cols * g.rows_fit,
    ensures
        r == (if g.whole(slot as int) {
            Some(g.cell_of(slot as int))
        } else {
            None
        }),
{
    proof {
        crate::grid::lemma_slot_in_range(*g, slot as int);
    }
    let cell = g.cell(slot);
    if cell.y + cell.height <= g.area.y + g.area.height {
        Some(cell)
    } else {
        None
    }
}

/// A card on screen: which row of the list it is, where it goes, and whether
/// it wears the cursor.
#[derive(Debug, Clone, Copy, PartialEq, Eq, Structural)]
pub struct CardSlot {
    pub index: usize,
    pub cell: Rect,
    pub selected: bool,
}

/// The cards the window draws.
pub open spec fn slots(g: Grid, cursor: Option<usize>, on: Option<usize>, total: usize) -> Seq<
    CardSlot,
> {
    let start = g.window_from(cursor);
    Seq::new(
        g.shown_of(cursor, total) as nat,
        |slot: int|
            CardSlot {
                index: (start + slot) as usize,
                cell: g.cell_of(slot),
                selected: on == Some((start + slot) as usize),
            },
    )
}

/// The hits of the cards drawn.
pub open spec fn slot_hits(cards: Seq<CardSlot>) -> Seq<(Rect, HitView)> {
    Seq::new(cards.len(), |i: int| (cards[i].cell, HitView::LauncherRow(cards[i].index)))
}

/// The cue under the last whole row of cards.
#[derive(Debug)]
pub struct MoreBelow {
    /// The row it is centered in.
    pub area: Rect,
    pub line: Span,
}

/// Where the cue goes: the middle of the air under the last whole row, as wide
/// as the cards over it. Nothing when every card is on screen, or when the
/// cards fill the grid to its last row.
pub open spec fn cue_area(g: Grid, shown: int, below: int) -> Option<Rect> {
    if below == 0 || shown == 0 {
        None
    } else {
        let top = g.cell_of(shown - 1).bottom();
        let bottom = g.area.bottom();
        if top >= bottom {
            None
        } else {
            Some(
                Rect {
                    x: g.area.x,
                    y: (top + (bottom - top) / 2) as u16,
                    width: (g.cell_of(smaller(g.cols as int, shown) - 1).right() - g.area.x) as u16,
                    height: 1,
                },
            )
        }
    }
}

/// What the cue says.
pub open spec fn cue_text(below: int) -> Seq<char> {
    "↓ "@ + decimal(below as nat) + " more session"@ + ending(below) + " below"@
}

/// The cue, in the color of the header's mark.
pub open spec fn cue_line(below: int) -> SpanView {
    span(cue_text(below), inked(Ink::Muted))
}

/// The MORE-BELOW CUE: the air under the last whole row of cards says how many
/// cards the window left past its bottom edge, so a screenful that happens to
/// end on a full row does not read as the whole project. Nothing once every
/// card from the window down is on screen, and nothing when the cards fill the
/// grid to its last row.
pub fn draw_more_below(g: &Grid, shown: usize, below: usize) -> (r: Option<MoreBelow>)
    requires
        g.wf(),
        shown <= g.whole_slots(),
    ensures
        match r {
            Some(cue) => cue_area(*g, shown as int, below as int) == Some(cue.area) && cue.line@
                == cue_line(below as int),
            None => cue_area(*g, shown as int, below as int) is None,
        },
{
    if below == 0 || shown == 0 {
        return None;
    }
    let at: usize = min_usize(g.cols, shown) - 1;
    proof {
        lemma_whole_in_page(*g);
        crate::grid::lemma_slot_in_range(*g, shown - 1);
        crate::grid::lemma_slot_in_range(*g, at as int);
        lemma_small_mod(at as nat, g.cols as nat);
        lemma_mul_inequality(at as int, g.cols - 1, g.card_w + GAP_X);
        lemma_mul_is_distributive_sub_other_way(g.card_w + GAP_X, g.cols as int, 1);
        lemma_mul_nonnegative(at as int, g.card_w + GAP_X);
    }
    let last = g.cell(shown - 1);
    let top: u16 = last.y + last.height;
    let bottom: u16 = g.area.y + g.area.height;
    if top >= bottom {
        return None;
    }
    let edge = g.cell(at);
    let area = Rect {
        x: g.area.x,
        y: top + (bottom - top) / 2,
        width: edge.x + edge.width - g.area.x,
        height: 1,
    };
    let mut text = joined("↓ ", &decimal_text(below as u64));
    text.append(" more session");
    text.append(plural(below));
    text.append(" below");
    Some(MoreBelow { area, line: Span::styled(text, Style::ink(Ink::Muted)) })
}

proof fn lemma_whole_in_page(g: Grid)
    requires
        g.wf(),
    ensures
        g.whole_slots() <= g.cols * g.rows_fit,
        forall|slot: int| 0 <= slot < g.whole_slots() ==> #[trigger] g.whole(slot),
{
    let rows = smaller(
        g.rows_fit as int,
        crate::grid::whole_rows(g.area.height as int),
    );
    lemma_mul_inequality(rows, g.rows_fit as int, g.cols as int);
    lemma_mul_is_commutative(g.rows_fit as int, g.cols as int);
    assert forall|slot: int| 0 <= slot < g.whole_slots() implies #[trigger] g.whole(slot) by {
        let row = slot / g.cols as int;
        lemma_fundamental_div_mod(slot, g.cols as int);
        lemma_mod_bound(slot, g.cols as int);
        if row >= rows {
            lemma_mul_inequality(rows, row, g.cols as int);
            lemma_mul_is_commutative(g.cols as int, row);
        }
        assert(row + 1 <= (g.area.height + 1) / 9);
        assert(row * 9 + 8 <= g.area.height);
    }
}

/// The grid as it is drawn: its cards, whether the keys are on them, and the
/// cue under the last of them.
#[derive(Debug)]
pub struct DrawnGrid {
    pub cards: Vec<CardSlot>,
    pub focused: bool,
    pub more: Option<MoreBelow>,
}

/// The keys are on the cards: not in the pane, not up on the tabs.
pub open spec fn grid_focused(app: App) -> bool {
    app.focus != Focus::Terminal && app.launcher_tab_cursor is None
}

/// `d` is the grid of `app` on `g`.
pub open spec fn is_drawn_grid(app: App, g: Grid, at: Option<usize>, total: usize, d: DrawnGrid) -> bool {
    let shown = g.shown_of(at, total);
    let below = less(total as int, g.window_from(at) + shown);
    &&& d.cards@ == slots(g, at, worn(app, at), total)
    &&& d.focused == grid_focused(app)
    &&& match d.more {
        Some(cue) => cue_area(g, shown, below) == Some(cue.area) && cue.line@ == cue_line(below),
        None => cue_area(g, shown, below) is None,
    }
}

/// The hits of the grid: its cards, and behind them the air between.
pub open spec fn grid_hits(g: Grid, at: Option<usize>, on: Option<usize>, total: usize) -> Seq<
    (Rect, HitView),
> {
    slot_hits(slots(g, at, on, total)).push((g.area, HitView::PanelBg(Focus::Sessions)))
}

/// The GRID: one card per session, most recent first, left to right and top to
/// bottom, scrolled by whole rows so the cursor's card is always drawn. The
/// hits of the cards come before the air's, so a click on a card is the
/// card's.
pub fn draw_grid(app: &App, g: Grid, at: Option<usize>, total: usize, hits: &mut Vec<Hit>) -> (d:
    DrawnGrid)
    requires
        g.wf(),
        at is Some ==> at->0 < total,
    ensures
        is_drawn_grid(*app, g, at, total, d),
        views(final(hits)@) == views(old(hits)@) + grid_hits(g, at, worn(*app, at), total),
{
    let focused: bool = app.focus != Focus::Terminal && app.launcher_tab_cursor.is_none();
    let on = wearing(app, at);
    let (start, shown) = g.window(at, total);
    let ghost before = views(hits@);
    let ghost all = slots(g, at, on, total);
    proof {
        lemma_whole_in_page(g);
        crate::grid::lemma_window_from(g, at);
        crate::grid::lemma_whole_slots_bound(g);
    }
    let mut cards: Vec<CardSlot> = Vec::new();
    let mut slot: usize = 0;
    assert(slot_hits(all.take(0)) =~= Seq::empty());
    assert(before + Seq::<(Rect, HitView)>::empty() =~= before);
    while slot < shown
        invariant
            g.wf(),
            slot <= shown,
            shown == g.shown_of(at, total),
            start == g.window_from(at),
            shown <= g.whole_slots(),
            shown <= less(total as int, start as int),
            g.whole_slots() <= g.cols * g.rows_fit,
            forall|s: int| 0 <= s < g.whole_slots() ==> #[trigger] g.whole(s),
            all == slots(g, at, on, total),
            cards@ == all.take(slot as int),
            views(hits@) == before + slot_hits(all.take(slot as int)),
        decreases shown - slot,
    {
        assert(g.whole(slot as int));
        match fitting_cell(&g, slot) {
            Some(cell) => {
                let index: usize = start + slot;
                let selected: bool = match on {
                    Some(i) => i == index,
                    None => false,
                };
                cards.push(CardSlot { index, cell, selected });
                push_hit(hits, Hit { rect: cell, target: HitTarget::LauncherRow(index) });
            },
            None => {},
        }
        slot += 1;
        assert(cards@ =~= all.take(slot as int));
        assert(views(hits@) =~= before + slot_hits(all.take(slot as int)));
    }
    assert(all.take(slot as int) =~= all);
    let below: usize = total.saturating_sub(start).saturating_sub(shown);
    let more = draw_more_below(&g, shown, below);
    push_hit(hits, Hit { rect: g.area, target: HitTarget::PanelBg(Focus::Sessions) });
    assert(views(hits@) =~= before + grid_hits(g, at, on, total));
    DrawnGrid { cards, focused, more }
}

// ---- nothing to draw ----

/// A line centered in a row.
#[derive(Debug)]
pub struct EmptyLine {
    pub area: Rect,
    pub line: Span,
}

/// What the ARCHIVED VIEW shows with no cards at all — one line where the grid
/// would be. Under a modal it says nothing.
pub fn draw_list_empty(app: &App, area: Rect, what: &str, hits: &mut Vec<Hit>) -> (r: Option<
    EmptyLine,
>)
    requires
        app.overlay is None && area.height > 1 ==> area.y + 1 <= u16::MAX,
    ensures
        views(final(hits)@) == views(old(hits)@).push((area, HitView::PanelBg(Focus::Sessions))),
        match r {
            Some(empty) => app.overlay is None && row_of_rect(area, 1) == Some(empty.area)
                && empty.line@ == span(what@, inked(Ink::Dim)),
            None => app.overlay is Some || row_of_rect(area, 1) is None,
        },
{
    push_hit(hits, Hit { rect: area, target: HitTarget::PanelBg(Focus::Sessions) });
    if app.overlay.is_some() {
        return None;
    }
    match row_rect(area, 1) {
        Some(r) => Some(EmptyLine { area: r, line: Span::of(what, Style::ink(Ink::Dim)) }),
        None => None,
    }
}

/// The cells two rectangles have in common.
pub open spec fn common(a: Rect, b: Rect) -> Rect {
    let x = larger(a.x as int, b.x as int);
    let y = larger(a.y as int, b.y as int);
    Rect {
        x: x as u16,
        y: y as u16,
        width: less(
            smaller(smaller(a.right(), u16::MAX as int), smaller(b.right(), u16::MAX as int)),
            x,
        ) as u16,
        height: less(
            smaller(smaller(a.bottom(), u16::MAX as int), smaller(b.bottom(), u16::MAX as int)),
            y,
        ) as u16,
    }
}

/// `ratatui::layout::Rect::intersection`: the cells the two have in common, of
/// no size where there are none.
#[verifier::external_body]
fn intersection(a: Rect, b: Rect) -> (r: Rect)
    ensures
        r == common(a, b),
{
    let one = ratatui::layout::Rect { x: a.x, y: a.y, width: a.width, height: a.height };
    let two = ratatui::layout::Rect { x: b.x, y: b.y, width: b.width, height: b.height };
    let both = one.intersection(two);
    Rect { x: both.x, y: both.y, width: both.width, height: both.height }
}

/// Where the welcome is drawn: its three centered lines, the sky cleared
/// around them where there is room for one, and the line that is a button.
#[derive(Debug, Clone, Copy, PartialEq, Eq, Structural)]
pub struct WelcomeAreas {
    pub text: Rect,
    /// What the sky keeps clear of.
    pub clear: Option<Rect>,
    pub key_row: Rect,
}

/// The welcome as it is drawn: the name, a blank line, and the key that starts
/// a session.
#[derive(Debug)]
pub struct Welcome {
    pub areas: WelcomeAreas,
    pub name: Vec<Span>,
    pub prompt: Vec<Span>,
}

/// The welcome's first line: the name of the program, as its splash draws it.
pub open spec fn name_spans() -> Seq<SpanView> {
    seq![
        span("Welcome to "@, inked(Ink::Text)),
        SpanView { text: "nebula"@, style: bare(), sweep: Some(Sweep::Wordmark) },
    ]
}

/// The words around the key, marked as a button's under the pointer.
pub open spec fn words_style(hovered: bool) -> Style {
    Style { underlined: hovered, ..inked(Ink::Muted) }
}

/// The welcome's last line: the key that starts a session, as a key cap.
pub open spec fn prompt_spans(key: Seq<char>, hovered: bool) -> Seq<SpanView> {
    seq![
        span("press "@, words_style(hovered)),
        span(
            " "@ + key + " "@,
            Style { fg: Some(Ink::OnAccent), bg: Some(Ink::Accent), bold: true, underlined: false },
        ),
        span(" to prompt"@, words_style(hovered)),
    ]
}

/// The welcome's first line.
pub fn name_line() -> (r: Vec<Span>)
    ensures
        views(r@) == name_spans(),
{
    let mut line: Vec<Span> = Vec::new();
    push_span(&mut line, Span::of("Welcome to ", Style::ink(Ink::Text)));
    push_span(
        &mut line,
        Span { text: "nebula".to_owned(), style: Style::raw(), sweep: Some(Sweep::Wordmark) },
    );
    assert(views(line@) =~= name_spans());
    line
}

/// The welcome's last line: `press <key> to prompt`.
pub fn prompt_line(key: &str, hovered: bool) -> (r: Vec<Span>)
    ensures
        views(r@) == prompt_spans(key@, hovered),
{
    let words = Style { fg: Some(Ink::Muted), bg: None, bold: false, underlined: hovered };
    let cap = Style {
        fg: Some(Ink::OnAccent),
        bg: Some(Ink::Accent),
        bold: true,
        underlined: false,
    };
    let mut line: Vec<Span> = Vec::new();
    push_span(&mut line, Span::of("press ", words));
    push_span(&mut line, Span::styled(joined(&joined(" ", key), " "), cap));
    push_span(&mut line, Span::of(" to prompt", words));
    assert(views(line@) =~= prompt_spans(key@, hovered));
    line
}

/// The grid has room for a sky.
pub open spec fn has_sky(area: Rect) -> bool {
    area.width >= SKY_MIN_W && area.height >= SKY_MIN_H
}

/// The row the words start on: a little under the middle where there is a sky
/// above them to turn in, else centered.
pub open spec fn welcome_row(area: Rect) -> int {
    let h = smaller(3, area.height as int);
    area.y + if has_sky(area) {
        less(area.height * 3 / 5, h / 2)
    } else {
        less(area.height as int, h) / 2
    }
}

/// Where the words stand, centered on their row: as wide as the wider of the
/// name and the prompt.
pub open spec fn welcome_area(area: Rect, name_w: int, prompt_w: int) -> Rect {
    let w = smaller(larger(name_w, prompt_w) % 65536, area.width as int);
    let h = smaller(3, area.height as int);
    Rect {
        x: (area.x + (area.width - w) / 2) as u16,
        y: welcome_row(area) as u16,
        width: w as u16,
        height: h as u16,
    }
}

/// Where the button is: under the words' first two rows, as wide as what it
/// says.
pub open spec fn key_area(area: Rect, text: Rect, prompt_w: int) -> Rect {
    let w = smaller(prompt_w % 65536, area.width as int);
    common(
        Rect {
            x: (area.x + (area.width - w) / 2) as u16,
            y: (text.y + 2) as u16,
            width: w as u16,
            height: 1,
        },
        area,
    )
}

/// The part of the sky kept clear: the words with four columns either side.
pub open spec fn clear_area(area: Rect, text: Rect) -> Rect {
    common(
        Rect {
            x: less(text.x as int, 4) as u16,
            width: smaller(text.width + 8, u16::MAX as int) as u16,
            ..text
        },
        area,
    )
}

/// Every cell the welcome on `area` draws on can be named, and so can three
/// times the height of its sky.
pub open spec fn welcome_in_range(area: Rect) -> bool {
    &&& area.right() <= u16::MAX
    &&& welcome_row(area) + 2 <= u16::MAX
    &&& has_sky(area) ==> area.height * 3 <= u16::MAX
}

/// Where the welcome goes on `area`, its lines `name_w` and `prompt_w` columns
/// wide.
pub open spec fn welcome_areas(area: Rect, name_w: int, prompt_w: int) -> WelcomeAreas {
    let text = welcome_area(area, name_w, prompt_w);
    WelcomeAreas {
        text,
        clear: if has_sky(area) {
            Some(clear_area(area, text))
        } else {
            None
        },
        key_row: key_area(area, text, prompt_w),
    }
}

/// The pointer rests on the welcome's button.
pub open spec fn prompt_hovered(app: App) -> bool {
    opt(app.screen.hover_crumb) == Some(HitView::LauncherWelcomePrompt)
}

/// `w` is the welcome on `area`.
pub open spec fn is_welcome(app: App, area: Rect, w: Welcome) -> bool {
    let prompt = prompt_spans(app.facts.prompt_key@, prompt_hovered(app));
    &&& views(w.name@) == name_spans()
    &&& views(w.prompt@) == prompt
    &&& w.areas == welcome_areas(
        area,
        capped(display_columns(name_spans()) as int),
        capped(display_columns(prompt) as int),
    )
}

/// Where the welcome goes on `area`, its lines measured.
pub fn place_welcome(area: Rect, name_w: usize, prompt_w: usize) -> (r: WelcomeAreas)
    requires
        welcome_in_range(area),
    ensures
        r == welcome_areas(area, name_w as int, prompt_w as int),
{
    let most: usize = if name_w >= prompt_w {
        name_w
    } else {
        prompt_w
    };
    let prompt: u16 = min_u16((prompt_w % 65536) as u16, area.width);
    let w: u16 = min_u16((most % 65536) as u16, area.width);
    let h: u16 = min_u16(3, area.height);
    let sky: bool = area.width >= SKY_MIN_W && area.height >= SKY_MIN_H;
    let down: u16 = if sky {
        (area.height * 3 / 5).saturating_sub(h / 2)
    } else {
        area.height.saturating_sub(h) / 2
    };
    let text = Rect {
        x: area.x + (area.width - w) / 2,
        y: area.y + down,
        width: w,
        height: h,
    };
    let clear: Option<Rect> = if sky {
        Some(
            intersection(
                Rect {
                    x: text.x.saturating_sub(4),
                    width: text.width.saturating_add(8),
                    ..text
                },
                area,
            ),
        )
    } else {
        None
    };
    let key_row = intersection(
        Rect {
            x: area.x + (area.width - prompt) / 2,
            y: text.y + 2,
            width: prompt,
            height: 1,
        },
        area,
    );
    WelcomeAreas { text, clear, key_row }
}

/// The grid with nothing in it: a sky across the space the cards would take,
/// and one welcome under its core — the name, and the one key that starts a
/// session, as a key cap a click presses too. Under a modal there is only the
/// air.
pub fn draw_empty(app: &App, area: Rect, hits: &mut Vec<Hit>) -> (r: Option<Welcome>)
    requires
        app.overlay is None ==> welcome_in_range(area),
    ensures
        r is None <==> app.overlay is Some,
        r is None ==> views(final(hits)@) == views(old(hits)@).push(
            (area, HitView::PanelBg(Focus::Sessions)),
        ),
        r is Some ==> {
            &&& is_welcome(*app, area, r->0)
            &&& views(final(hits)@) == views(old(hits)@).push(
                (r->0.areas.key_row, HitView::LauncherWelcomePrompt),
            ).push((area, HitView::PanelBg(Focus::Sessions)))
        },
        r is Some && narrow_text(app.facts.prompt_key@) ==> {
            &&& display_columns(name_spans()) == 17
            &&& display_columns(prompt_spans(app.facts.prompt_key@, prompt_hovered(*app)))
                == app.facts.prompt_key@.len() + 18
        },
{
    if app.overlay.is_some() {
        push_hit(hits, Hit { rect: area, target: HitTarget::PanelBg(Focus::Sessions) });
        return None;
    }
    let name = name_line();
    let prompt = prompt_line(
        &app.facts.prompt_key,
        hovers(&app.screen.hover_crumb, &HitTarget::LauncherWelcomePrompt),
    );
    proof {
        lemma_welcome_columns(app.facts.prompt_key@, prompt_hovered(*app));
    }
    let name_w: usize = line_width(&name);
    let prompt_w: usize = line_width(&prompt);
    let areas = place_welcome(area, name_w, prompt_w);
    push_hit(hits, Hit { rect: areas.key_row, target: HitTarget::LauncherWelcomePrompt });
    push_hit(hits, Hit { rect: area, target: HitTarget::PanelBg(Focus::Sessions) });
    Some(Welcome { areas, name, prompt })
}

proof fn lemma_welcome_columns(key: Seq<char>, hovered: bool)
    ensures
        columns(name_spans()) == 17,
        columns(prompt_spans(key, hovered)) == key.len() + 18,
        narrow_spans(name_spans()),
        narrow_text(key) ==> narrow_spans(prompt_spans(key, hovered)),
{
    reveal_strlit("Welcome to ");
    reveal_strlit("nebula");
    reveal_strlit("press ");
    reveal_strlit(" ");
    reveal_strlit(" to prompt");
    let none = Seq::<SpanView>::empty();
    let n = name_spans();
    lemma_columns_push(none, n[0]);
    lemma_columns_push(none.push(n[0]), n[1]);
    assert(n =~= none.push(n[0]).push(n[1]));
    let p = prompt_spans(key, hovered);
    lemma_columns_push(none, p[0]);
    lemma_columns_push(none.push(p[0]), p[1]);
    lemma_columns_push(none.push(p[0]).push(p[1]), p[2]);
    assert(p =~= none.push(p[0]).push(p[1]).push(p[2]));
}

// ---- the view ----

/// What is drawn under the header.
#[derive(Debug)]
pub enum Below {
    Grid(DrawnGrid),
    /// The archived view with nothing in it.
    Archived(Option<EmptyLine>),
    /// The live view with nothing in it.
    Welcome(Option<Welcome>),
}

/// The view as it is drawn.
#[derive(Debug)]
pub struct DrawnView {
    pub head: DrawnHead,
    pub below: Below,
}

/// The live view has no card to draw, and nothing over it.
pub open spec fn welcomes(app: App) -> bool {
    rows_of(&app).len() == 0 && !app.show_archived && app.overlay is None
}

/// Every cell the view draws on can be named.
pub open spec fn on_screen(app: App, body: Rect) -> bool {
    &&& room_to_draw(body)
    &&& welcomes(app) ==> welcome_in_range(cards_area(body))
}

/// The cursor as a place in the list.
pub open spec fn cursor_place(app: App) -> Option<usize> {
    match cursor_of(app, rows_of(&app)) {
        Some(i) => Some(i as usize),
        None => None,
    }
}

/// The cards the grid of `body` leaves off.
pub open spec fn left_off(app: App, body: Rect) -> Hidden {
    grid_of(body).hidden_of(cursor_place(app), rows_of(&app).len() as usize)
}

/// The view's area: the PROJECT TABS header, then the GRID of the lit
/// project's session cards under it. With no card the archived view says so in
/// a line, and the live one welcomes you.
pub fn draw(app: &App, body: Rect, badge: Option<CountsBadge>, hits: &mut Vec<Hit>) -> (view:
    DrawnView)
    requires
        on_screen(*app, body),
    ensures
        ({
            let g = grid_of(body);
            let total = rows_of(app).len() as usize;
            let head = head_hits(*app, body, total as int, left_off(*app, body), badge);
            let before = views(old(hits)@) + head;
            &&& view.head.rule == row_of_rect(body, 2)
            &&& view.head.rule_ink == Ink::Edge
            &&& match row_of_rect(body, 1) {
                None => view.head.row is None,
                Some(line) => view.head.row is Some && is_head_row(
                    *app,
                    padded(line),
                    count_parts(
                        *app,
                        total as int,
                        left_off(*app, body),
                        padded(line).width as int,
                        badge,
                    ),
                    view.head.row->0,
                ),
            }
            &&& match view.below {
                Below::Grid(d) => {
                    &&& rows_of(app).len() > 0
                    &&& is_drawn_grid(*app, g, cursor_place(*app), total, d)
                    &&& views(final(hits)@) == before + grid_hits(
                        g,
                        cursor_place(*app),
                        worn(*app, cursor_place(*app)),
                        total,
                    )
                },
                Below::Archived(line) => {
                    &&& rows_of(app).len() == 0
                    &&& app.show_archived
                    &&& views(final(hits)@) == before.push(
                        (g.area, HitView::PanelBg(Focus::Sessions)),
                    )
                    &&& match line {
                        Some(empty) => app.overlay is None && row_of_rect(g.area, 1) == Some(
                            empty.area,
                        ) && empty.line@ == span(NO_ARCHIVED@, inked(Ink::Dim)),
                        None => app.overlay is Some || row_of_rect(g.area, 1) is None,
                    }
                },
                Below::Welcome(w) => {
                    &&& rows_of(app).len() == 0
                    &&& !app.show_archived
                    &&& w is None <==> app.overlay is Some
                    &&& w is Some ==> is_welcome(*app, g.area, w->0)
                    &&& views(final(hits)@) == (match w {
                        Some(w) => before.push((w.areas.key_row, HitView::LauncherWelcomePrompt)),
                        None => before,
                    }).push((g.area, HitView::PanelBg(Focus::Sessions)))
                },
            }
        }),
{
    let g = grid(body);
    let list = rows(app);
    let total: usize = list.len();
    let at = cursor(app, &list);
    assert(at == cursor_place(*app));
    let hidden = g.hidden(at, total);
    let head = draw_head(app, body, total, hidden, badge, hits);
    if total == 0 {
        if app.show_archived {
            let line = draw_list_empty(app, g.area, NO_ARCHIVED, hits);
            return DrawnView { head, below: Below::Archived(line) };
        }
        let welcome = draw_empty(app, g.area, hits);
        return DrawnView { head, below: Below::Welcome(welcome) };
    }
    let drawn = draw_grid(app, g, at, total, hits);
    DrawnView { head, below: Below::Grid(drawn) }
}

// ---- what holds of it ----

/// Every card drawn stands whole inside the grid's area, and no two overlap.
pub proof fn law_cards_are_drawn_whole(
    g: Grid,
    at: Option<usize>,
    on: Option<usize>,
    total: usize,
    i: int,
    j: int,
)
    requires
        g.wf(),
        0 <= i < slots(g, at, on, total).len(),
        0 <= j < slots(g, at, on, total).len(),
        i != j,
    ensures
        slots(g, at, on, total)[i].cell.within(g.area),
        slots(g, at, on, total)[i].cell.apart(slots(g, at, on, total)[j].cell),
{
    lemma_whole_in_page(g);
    assert(g.whole(i));
    crate::grid::law_cards_stand_apart(g, i, j);
}

/// The card under the cursor is drawn, and it is the one card that wears it —
/// unless the aim was let go of, and then no card does.
pub proof fn law_one_card_wears_the_cursor(app: App, g: Grid, at: usize, total: usize)
    requires
        g.wf(),
        at < total,
        g.area.height >= CARD_H,
    ensures
        ({
            let cards = slots(g, Some(at), worn(app, Some(at)), total);
            if app.launcher_unaimed {
                forall|i: int| 0 <= i < cards.len() ==> !(#[trigger] cards[i]).selected
            } else {
                exists|i: int|
                    0 <= i < cards.len() && (#[trigger] cards[i]).index == at && cards[i].selected
                        && forall|k: int|
                        0 <= k < cards.len() && k != i ==> !(#[trigger] cards[k]).selected
            }
        }),
{
    crate::grid::law_cursor_stays_in_sight(g, at, total);
    crate::grid::lemma_window_from(g, Some(at));
    if !app.launcher_unaimed {
        let cards = slots(g, Some(at), worn(app, Some(at)), total);
        let i = at - g.window_from(Some(at));
        assert(cards[i].index == at && cards[i].selected);
    }
}

/// The button of the welcome is inside the grid's area.
pub proof fn law_welcome_button_is_on_the_grid(app: App, area: Rect, w: Welcome)
    requires
        area.in_range(),
        is_welcome(app, area, w),
    ensures
        w.areas.key_row.within(area),
        w.areas.clear is Some ==> w.areas.clear->0.within(area),
{
}

/// The cards drawn are consecutive rows of the list from the window's first on,
/// each in the next cell, each pressed where it is drawn to mean its own row;
/// behind them the air of the grid is pressed to mean the grid.
pub proof fn law_cards_follow_the_list(
    g: Grid,
    at: Option<usize>,
    on: Option<usize>,
    total: usize,
    i: int,
)
    requires
        g.wf(),
        0 <= i < slots(g, at, on, total).len(),
    ensures
        ({
            let cards = slots(g, at, on, total);
            let hits = grid_hits(g, at, on, total);
            &&& cards[i].index == g.window_from(at) + i
            &&& cards[i].index < total
            &&& cards[i].cell == g.cell_of(i)
            &&& cards[i].selected <==> on == Some(cards[i].index)
            &&& hits.len() == cards.len() + 1
            &&& hits[i].0 == cards[i].cell
            &&& hits[i].1 == HitView::LauncherRow(cards[i].index)
            &&& hits.last() == (g.area, HitView::PanelBg(Focus::Sessions))
        }),
{
    crate::grid::lemma_window_from(g, at);
    crate::grid::lemma_whole_slots_bound(g);
}

/// The cue is there exactly where cards are left below, one is drawn, and there
/// is a row free under the last; it stands in that air, in the middle of it,
/// and says how many cards there are below.
pub proof fn law_cue_stands_in_the_air_below(g: Grid, shown: int, below: int)
    requires
        g.wf(),
        0 <= below,
        0 <= shown <= g.cols * g.rows_fit,
    ensures
        ({
            let cue = cue_area(g, shown, below);
            let top = g.cell_of(shown - 1).y + CARD_H;
            let bottom = g.area.y + g.area.height;
            &&& cue is Some <==> below > 0 && shown > 0 && top < bottom
            &&& cue is Some ==> {
                &&& top <= cue->0.y < bottom
                &&& cue->0.height == 1
                &&& cue->0.x == g.area.x
                &&& -1 <= (cue->0.y - top) - (bottom - 1 - cue->0.y) <= 1
            }
            &&& below == 1 ==> cue_text(below) == "↓ "@ + decimal(1) + " more session"@ + ""@
                + " below"@
            &&& below != 1 ==> cue_text(below) == "↓ "@ + decimal(below as nat)
                + " more session"@ + "s"@ + " below"@
        }),
{
    if shown > 0 {
        crate::grid::lemma_slot_in_range(g, shown - 1);
    }
}

/// The cells two rectangles have in common are those that are in both.
pub proof fn law_common_cells_are_in_both(a: Rect, b: Rect, x: int, y: int)
    requires
        a.in_range(),
        b.in_range(),
    ensures
        common(a, b).has(x, y) <==> a.has(x, y) && b.has(x, y),
{
}

/// The welcome stands in the middle of the columns; there is a sky exactly
/// where the grid is thirty columns wide and ten rows tall, and then the words
/// stand below the middle of the rows, with the sky kept clear of them, and
/// else in the middle. The button is two rows below the name.
pub proof fn law_welcome_stands_in_the_middle(area: Rect, name_w: int, prompt_w: int)
    requires
        area.in_range(),
        0 <= name_w <= u16::MAX,
        0 <= prompt_w <= u16::MAX,
        area.y + 2 + area.height <= u16::MAX,
    ensures
        ({
            let w = welcome_areas(area, name_w, prompt_w);
            let t = w.text;
            let ahead = t.x - area.x;
            let after = area.right() - t.right();
            &&& 0 <= after - ahead <= 1
            &&& t.width == smaller(larger(name_w, prompt_w), area.width as int)
            &&& w.clear is Some <==> area.width >= 30 && area.height >= 10
            &&& w.clear is Some ==> 2 * (t.y - area.y) + t.height > area.height
            &&& w.clear is None && area.height >= 3 ==> -1 <= (t.y - area.y) - (area.bottom()
                - t.bottom()) <= 0
            &&& area.height >= 3 && prompt_w > 0 && area.width > 0 && w.clear is None
                ==> w.key_row.y == t.y + 2 && w.key_row.height == 1
        }),
{
}

/// The keys are on the cards unless they are in the pane or up on the tabs; and
/// the welcome is only for a live view with no cards and nothing over it.
pub proof fn law_when_the_grid_has_the_keys(app: App)
    ensures
        grid_focused(app) <==> app.focus != Focus::Terminal && app.launcher_tab_cursor is None,
        welcomes(app) <==> rows_of(&app).len() == 0 && !app.show_archived && app.overlay is None,
        worn(app, Some(0usize)) is Some <==> !app.launcher_unaimed,
{
}

/// The welcome says the program's name and which key starts a session, that
/// line underlined under the pointer.
pub proof fn law_welcome_names_the_key(app: App, area: Rect, w: Welcome)
    requires
        is_welcome(app, area, w),
    ensures
        ({
            let (name, prompt) = (views(w.name@), views(w.prompt@));
            &&& name[0].text == "Welcome to "@ && name[1].text == "nebula"@
            &&& prompt.len() == 3
            &&& prompt[1].text == " "@ + app.facts.prompt_key@ + " "@
            &&& prompt[0].style.underlined <==> app.screen.hover_crumb is Some
                && app.screen.hover_crumb->0@ == HitView::LauncherWelcomePrompt
        }),
{
}

} // verus!
