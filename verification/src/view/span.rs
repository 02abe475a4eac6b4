//! Styled text: colors by the part they play in the theme, spans of text in
//! them, and how many columns a text takes.

use crate::layout::smaller;
use crate::model::{AgentStatus, Standing, Trouble};
use crate::views::{group_views, views};
use vstd::prelude::*;

verus! {

/// A color, by the part it plays in the theme.
#[derive(Debug, Clone, Copy, PartialEq, Eq, Structural)]
pub enum Ink {
    Text,
    Muted,
    Dim,
    Edge,
    Accent,
    OnAccent,
    SelBg,
    FocusTint,
    Good,
    Warn,
    WarnEdge,
    Alarm,
    Done,
    /// A project's root checkout.
    Root,
    /// Any other checkout.
    Worktree,
}

/// The colors a name sweeps through.
#[derive(Debug, Clone, Copy, PartialEq, Eq, Structural)]
pub enum Ramp {
    Alarm,
    Warn,
    Done,
}

/// What keeps a name in motion: a tab's ramp, or the status of a card's
/// session, with the frame's phase; or the splash's own clock.
#[derive(Debug, Clone, Copy, PartialEq, Eq, Structural)]
pub enum Sweep {
    Tab { ramp: Ramp, phase: usize },
    Card { status: AgentStatus, fresh_done: bool, phase: usize },
    /// The name of the program, as its splash draws it.
    Wordmark,
}

/// How a text is drawn.
#[derive(Debug, Clone, Copy, PartialEq, Eq, Structural)]
pub struct Style {
    pub fg: Option<Ink>,
    pub bg: Option<Ink>,
    pub bold: bool,
    pub underlined: bool,
}

/// No color of its own.
pub open spec fn bare() -> Style {
    Style { fg: None, bg: None, bold: false, underlined: false }
}

/// One color.
pub open spec fn inked(ink: Ink) -> Style {
    Style { fg: Some(ink), ..bare() }
}

/// One color, bold.
pub open spec fn bold(ink: Ink) -> Style {
    Style { fg: Some(ink), bold: true, ..bare() }
}

impl Style {
    pub fn raw() -> (r: Style)
        ensures
            r == bare(),
    {
        Style { fg: None, bg: None, bold: false, underlined: false }
    }

    pub fn ink(ink: Ink) -> (r: Style)
        ensures
            r == inked(ink),
    {
        Style { fg: Some(ink), bg: None, bold: false, underlined: false }
    }

    pub fn bold(ink: Ink) -> (r: Style)
        ensures
            r == bold(ink),
    {
        Style { fg: Some(ink), bg: None, bold: true, underlined: false }
    }
}

/// A run of text in one style.
#[derive(Debug, PartialEq, Eq)]
pub struct Span {
    pub text: String,
    pub style: Style,
    /// The text is a name in motion.
    pub sweep: Option<Sweep>,
}

/// A [`Span`], its text by its characters.
pub struct SpanView {
    pub text: Seq<char>,
    pub style: Style,
    pub sweep: Option<Sweep>,
}

impl View for Span {
    type V = SpanView;

    open spec fn view(&self) -> SpanView {
        SpanView { text: self.text@, style: self.style, sweep: self.sweep }
    }
}

/// A text in a style.
pub open spec fn span(text: Seq<char>, style: Style) -> SpanView {
    SpanView { text, style, sweep: None }
}

impl Span {
    pub fn styled(text: String, style: Style) -> (r: Span)
        ensures
            r@ == span(text@, style),
    {
        Span { text, style, sweep: None }
    }

    pub fn of(text: &str, style: Style) -> (r: Span)
        ensures
            r@ == span(text@, style),
    {
        Span { text: text.to_owned(), style, sweep: None }
    }
}

/// One piece of a row: text, or a part that is drawn the way the panels draw
/// theirs.
#[derive(Debug, PartialEq, Eq)]
pub enum Piece {
    Text(Span),
    /// The dot of a status, two columns wide; of a session still being created
    /// without one. Dimmed where the session is not running.
    Dot { status: Option<AgentStatus>, unseen: bool, dimmed: bool },
    /// A pull request's line: its glyph, its label cut to the width, and its
    /// badge at the end; all in one color where it is history.
    PullRequest {
        label: String,
        badge: String,
        standing: Standing,
        trouble: Option<Trouble>,
        faded: Option<Ink>,
        width: usize,
    },
    /// A name with letters of it lit, by their places.
    Lit { name: String, lit: Vec<usize> },
}

/// A [`Piece`], its texts by their characters.
pub enum PieceView {
    Text(SpanView),
    Dot { status: Option<AgentStatus>, unseen: bool, dimmed: bool },
    PullRequest {
        label: Seq<char>,
        badge: Seq<char>,
        standing: Standing,
        trouble: Option<Trouble>,
        faded: Option<Ink>,
        width: usize,
    },
    Lit { name: Seq<char>, lit: Seq<usize> },
}

impl View for Piece {
    type V = PieceView;

    open spec fn view(&self) -> PieceView {
        match self {
            Piece::Text(s) => PieceView::Text(s@),
            Piece::Dot { status, unseen, dimmed } => PieceView::Dot {
                status: *status,
                unseen: *unseen,
                dimmed: *dimmed,
            },
            Piece::PullRequest { label, badge, standing, trouble, faded, width } => {
                PieceView::PullRequest {
                    label: label@,
                    badge: badge@,
                    standing: *standing,
                    trouble: *trouble,
                    faded: *faded,
                    width: *width,
                }
            },
            Piece::Lit { name, lit } => PieceView::Lit { name: name@, lit: lit@ },
        }
    }
}

/// A text in a style, as a piece of a row.
pub open spec fn text_piece(text: Seq<char>, style: Style) -> PieceView {
    PieceView::Text(span(text, style))
}

/// One more span at the end of a row.
pub(crate) fn push_span(row: &mut Vec<Span>, s: Span)
    ensures
        views(final(row)@) == views(old(row)@).push(s@),
{
    broadcast use group_views;

    row.push(s);
}

/// One more piece at the end of a row.
pub(crate) fn push_piece(row: &mut Vec<Piece>, p: Piece)
    ensures
        views(final(row)@) == views(old(row)@).push(p@),
{
    broadcast use group_views;

    row.push(p);
}

/// One more piece of text at the end of a row.
pub(crate) fn push_text(row: &mut Vec<Piece>, text: String, style: Style)
    ensures
        views(final(row)@) == views(old(row)@).push(text_piece(text@, style)),
{
    push_piece(row, Piece::Text(Span::styled(text, style)));
}

// ---- columns ----

/// How many columns of the screen ratatui counts a text as.
pub uninterp spec fn display_width(text: Seq<char>) -> nat;

/// A printing character of ASCII, or one of the marks the header and the box
/// draw with.
pub open spec fn one_column(c: char) -> bool {
    0x20 <= c as u32 <= 0x7e || c == '·' || c == '…' || c == '▾' || c == '✓' || c == '↑' || c
        == '↓'
}

/// Every character takes one column.
pub open spec fn narrow_text(text: Seq<char>) -> bool {
    forall|i: int| 0 <= i < text.len() ==> one_column(#[trigger] text[i])
}

/// `ratatui::text::Span::width` of a span that holds `text`: the columns its
/// characters take on screen, a function of the text alone. Printing ASCII
/// characters take one column each, and so do `·`, `…`, `▾`, `✓`, `↑` and `↓`;
/// what other characters take, wide, combining and joined ones among them, is
/// left unsaid.
#[verifier::external_body]
pub(crate) fn width_of_text(text: &str) -> (r: usize)
    ensures
        r == display_width(text@),
        narrow_text(text@) ==> r == text@.len(),
{
    ratatui::text::Span::raw(text).width()
}

/// The columns of a row of spans.
pub open spec fn display_columns(spans: Seq<SpanView>) -> nat
    decreases spans.len(),
{
    if spans.len() == 0 {
        0
    } else {
        display_columns(spans.drop_last()) + display_width(spans.last().text)
    }
}

/// Every span's text takes a column a character.
pub open spec fn narrow_spans(spans: Seq<SpanView>) -> bool {
    forall|i: int| 0 <= i < spans.len() ==> narrow_text((#[trigger] spans[i]).text)
}

/// The columns of a row of spans, as far as a machine word counts.
pub fn line_width(spans: &Vec<Span>) -> (r: usize)
    ensures
        r == smaller(display_columns(views(spans@)) as int, usize::MAX as int),
        narrow_spans(views(spans@)) ==> display_columns(views(spans@)) == columns(views(spans@)),
{
    broadcast use group_views;

    let ghost all = views(spans@);
    let mut total: usize = 0;
    let mut i: usize = 0;
    assert(all.take(0) =~= Seq::empty());
    while i < spans.len()
        invariant
            i <= spans@.len(),
            all == views(spans@),
            total == smaller(display_columns(all.take(i as int)) as int, usize::MAX as int),
            narrow_spans(all) ==> display_columns(all.take(i as int)) == columns(
                all.take(i as int),
            ),
        decreases spans@.len() - i,
    {
        let w: usize = width_of_text(&spans[i].text);
        proof {
            let next = all.take(i + 1);
            assert(next.drop_last() =~= all.take(i as int));
            assert(next.last() == spans@[i as int]@);
            assert(all[i as int] == spans@[i as int]@);
        }
        total = total.saturating_add(w);
        i += 1;
    }
    assert(all.take(i as int) =~= all);
    total
}

/// The characters of a row of spans.
pub open spec fn columns(spans: Seq<SpanView>) -> nat
    decreases spans.len(),
{
    if spans.len() == 0 {
        0
    } else {
        columns(spans.drop_last()) + spans.last().text.len()
    }
}

pub proof fn lemma_columns_push(spans: Seq<SpanView>, s: SpanView)
    ensures
        columns(spans.push(s)) == columns(spans) + s.text.len(),
        display_columns(spans.push(s)) == display_columns(spans) + display_width(s.text),
{
    assert(spans.push(s).drop_last() =~= spans);
}

pub proof fn lemma_columns_concat(a: Seq<SpanView>, b: Seq<SpanView>)
    ensures
        columns(a + b) == columns(a) + columns(b),
        display_columns(a + b) == display_columns(a) + display_columns(b),
    decreases b.len(),
{
    if b.len() == 0 {
        assert(a + b =~= a);
    } else {
        lemma_columns_concat(a, b.drop_last());
        assert((a + b).drop_last() =~= a + b.drop_last());
    }
}

/// The characters of a row of spans, as far as a machine word counts.
pub fn char_columns(spans: &Vec<Span>) -> (r: usize)
    ensures
        r == smaller(columns(views(spans@)) as int, usize::MAX as int),
{
    let ghost all = views(spans@);
    let mut total: usize = 0;
    let mut i: usize = 0;
    assert(all.take(0) =~= Seq::empty());
    while i < spans.len()
        invariant
            i <= spans@.len(),
            all == views(spans@),
            total == smaller(columns(all.take(i as int)) as int, usize::MAX as int),
        decreases spans@.len() - i,
    {
        let w: usize = crate::text::char_count(&spans[i].text);
        proof {
            let next = all.take(i + 1);
            assert(next.drop_last() =~= all.take(i as int));
            assert(next.last() == spans@[i as int]@);
        }
        total = total.saturating_add(w);
        i += 1;
    }
    assert(all.take(i as int) =~= all);
    total
}

/// `n` times the same character.
pub open spec fn repeated(c: char, n: nat) -> Seq<char> {
    Seq::new(n, |i: int| c)
}

/// `n` times the same character, as a text.
pub fn repeat(c: char, n: usize) -> (r: String)
    ensures
        r@ == repeated(c, n as nat),
{
    let mut out: String = String::new();
    let mut i: usize = 0;
    assert(out@ =~= repeated(c, 0));
    while i < n
        invariant
            i <= n,
            out@ == repeated(c, i as nat),
        decreases n - i,
    {
        out.push(c);
        i += 1;
        assert(out@ =~= repeated(c, i as nat));
    }
    out
}

} // verus!
