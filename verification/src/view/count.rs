//! The header's right side: how many cards the grid holds, how many of them
//! are off screen, and the counts of open pull requests and issues.

use crate::grid::Hidden;
use crate::layout::{less, smaller, Rect};
use crate::state::{hovers, App, Hit, HitTarget, HitView};
use crate::text::{decimal, decimal_text, joined};
use crate::view::header::{head_row, head_tabs};
use crate::view::rows::{header_in_range, pad_x, padded, row_of_rect, row_rect};
use crate::view::span::{
    columns, display_width, inked, lemma_columns_push, narrow_spans, narrow_text, push_span, span,
    width_of_text, Ink, Span, SpanView, Style,
};
use crate::view::strip::{capped, strip_hits, strip_spans};
use crate::views::{group_views, lemma_concat_assoc, opt, views};
use vstd::prelude::*;

verus! {

/// The ending of a word for `n` of a thing.
pub open spec fn ending(n: int) -> Seq<char> {
    if n == 1 {
        ""@
    } else {
        "s"@
    }
}

/// The ending of a word for `n` of a thing.
pub fn plural(n: usize) -> (r: &'static str)
    ensures
        r@ == ending(n as int),
{
    if n == 1 {
        ""
    } else {
        "s"
    }
}

/// Which way the hidden cards went: past the bottom, off the top, both.
pub open spec fn arrow(hidden: Hidden) -> Seq<char> {
    if hidden.above > 0 && hidden.below > 0 {
        "↑↓"@
    } else if hidden.above > 0 {
        "↑"@
    } else {
        "↓"@
    }
}

/// The mark of the cards that are not on screen; nothing when all of them are.
pub open spec fn hidden_spans(hidden: Hidden) -> Seq<SpanView> {
    let total = hidden.above + hidden.below;
    if total == 0 {
        Seq::empty()
    } else {
        seq![
            span(
                "  "@ + arrow(hidden) + " "@ + decimal(total as nat) + " hidden"@,
                inked(Ink::Muted),
            ),
        ]
    }
}

/// The HIDDEN MARKER: how many cards the grid holds that are not on screen,
/// with an arrow saying which way they went — `↓` past the bottom edge, `↑`
/// scrolled off the top, `↑↓` both. Nothing at all when the window holds every
/// card.
pub fn hidden_mark(hidden: Hidden) -> (r: Vec<Span>)
    requires
        hidden.above + hidden.below <= usize::MAX,
    ensures
        views(r@) == hidden_spans(hidden),
{
    let mut out: Vec<Span> = Vec::new();
    assert(views(out@) =~= Seq::empty());
    let total: usize = hidden.total();
    if total == 0 {
        return out;
    }
    let arrow: &str = if hidden.above > 0 && hidden.below > 0 {
        "↑↓"
    } else if hidden.above > 0 {
        "↑"
    } else {
        "↓"
    };
    let mut text: String = joined("  ", arrow);
    text.append(" ");
    text.append(&decimal_text(total as u64));
    text.append(" hidden");
    push_span(&mut out, Span::styled(text, Style::ink(Ink::Muted)));
    assert(views(out@) =~= hidden_spans(hidden));
    out
}

/// A span of the header's right side, and the button it is, if any.
#[derive(Debug, PartialEq, Eq)]
pub struct HeadSpan {
    pub span: Span,
    pub hit: Option<HitTarget>,
}

impl View for HeadSpan {
    type V = (SpanView, Option<HitView>);

    open spec fn view(&self) -> (SpanView, Option<HitView>) {
        (self.span@, opt(self.hit))
    }
}

/// The counts of a project's open pull requests and issues, as the panels
/// write them, and how many columns they take.
#[derive(Debug)]
pub struct CountsBadge {
    pub parts: Vec<HeadSpan>,
    pub width: usize,
}

/// The part of a badge under the pointer is underlined, where it is a button.
pub open spec fn marked(part: (SpanView, Option<HitView>), hover: Option<HitView>) -> (
    SpanView,
    Option<HitView>,
) {
    if part.1 is Some && hover == part.1 {
        (SpanView { style: Style { underlined: true, ..part.0.style }, ..part.0 }, part.1)
    } else {
        part
    }
}

/// The parts of a badge, the one under the pointer marked.
pub open spec fn marked_all(
    parts: Seq<(SpanView, Option<HitView>)>,
    hover: Option<HitView>,
) -> Seq<(SpanView, Option<HitView>)> {
    Seq::new(parts.len(), |i: int| marked(parts[i], hover))
}

/// How many cards the grid holds, in words.
pub open spec fn count_text(archived: bool, count: int) -> Seq<char> {
    decimal(count as nat) + " "@ + (if archived {
        "archived session"@
    } else {
        "session"@
    }) + ending(count)
}

/// Spans that are no buttons.
pub open spec fn plain_parts(spans: Seq<SpanView>) -> Seq<(SpanView, Option<HitView>)> {
    Seq::new(spans.len(), |i: int| (spans[i], None))
}

/// The header's right side in `width` columns: the count, then the badge where
/// it fits beside the mark, then the mark.
#[verifier::opaque]
pub open spec fn count_parts(
    app: App,
    count: int,
    hidden: Hidden,
    width: int,
    badge: Option<CountsBadge>,
) -> Seq<(SpanView, Option<HitView>)> {
    let text = count_text(app.show_archived, count);
    let mark = hidden_spans(hidden);
    let fits = badge is Some && app.project_on() is Some && text.len() + badge->0.width + columns(
        mark,
    ) <= width;
    let counts = if fits {
        marked_all(views(badge->0.parts@), opt(app.screen.hover_crumb))
    } else {
        Seq::empty()
    };
    seq![(span(text, inked(Ink::Dim)), None::<HitView>)] + counts + plain_parts(mark)
}

/// The header's right side: how many cards the grid holds, and how many of
/// them are off screen.
///
/// The HIDDEN MARKER holds the right edge whatever else has to go: the one
/// thing on this row that says cards are missing outranks the counts of pull
/// requests and issues beside it.
///
/// Each span comes with the button it is, if any: only the two counts are.
pub fn head_count(
    app: &App,
    count: usize,
    hidden: Hidden,
    width: usize,
    badge: Option<CountsBadge>,
) -> (r: Vec<HeadSpan>)
    requires
        hidden.above + hidden.below <= usize::MAX,
    ensures
        views(r@) == count_parts(*app, count as int, hidden, width as int, badge),
{
    broadcast use group_views;

    let ghost badge0 = badge;
    let mut text: String = decimal_text(count as u64);
    text.append(" ");
    text.append(
        if app.show_archived {
            "archived session"
        } else {
            "session"
        },
    );
    text.append(plural(count));
    let ghost label = text@;
    proof {
        lemma_count_narrow(app.show_archived, count as int);
    }
    let used: usize = width_of_text(&text);
    let mut out: Vec<HeadSpan> = Vec::new();
    out.push(HeadSpan { span: Span::styled(text, Style::ink(Ink::Dim)), hit: None });
    let ghost first = seq![(span(label, inked(Ink::Dim)), None::<HitView>)];
    assert(views(out@) =~= first);
    let mut mark = hidden_mark(hidden);
    let mark_w: usize = mark_width(&mark, hidden);
    let ghost mut counts = Seq::<(SpanView, Option<HitView>)>::empty();
    if let Some(badge) = badge {
        if app.selected_project().is_some() && used <= width && badge.width <= width - used
            && mark_w <= width - used - badge.width {
            let CountsBadge { parts, width: _ } = badge;
            let mut parts = parts;
            mark_hovered(&mut parts, &app.screen.hover_crumb);
            proof {
                counts = views(parts@);
            }
            out.append(&mut parts);
        }
    }
    assert(views(out@) =~= first + counts);
    let ghost marks = views(mark@);
    let ghost before = views(out@);
    let mut i: usize = 0;
    assert(plain_parts(marks.take(0)) =~= Seq::empty());
    assert(views(out@) =~= before + plain_parts(marks.take(0)));
    while i < mark.len()
        invariant
            i <= mark@.len(),
            marks == views(mark@),
            views(out@) == before + plain_parts(marks.take(i as int)),
        decreases mark@.len() - i,
    {
        let s = &mark[i];
        push_part(
            &mut out,
            HeadSpan {
                span: Span { text: s.text.clone(), style: s.style, sweep: s.sweep },
                hit: None,
            },
        );
        i += 1;
        assert(views(out@) =~= before + plain_parts(marks.take(i as int)));
    }
    assert(marks.take(i as int) =~= marks);
    assert(views(out@) =~= count_parts(*app, count as int, hidden, width as int, badge0)) by {
        reveal(count_parts);
    }
    out
}

fn push_part(out: &mut Vec<HeadSpan>, part: HeadSpan)
    ensures
        views(final(out)@) == views(old(out)@).push(part@),
{
    broadcast use group_views;

    out.push(part);
}

proof fn lemma_decimal_narrow(n: nat)
    ensures
        narrow_text(decimal(n)),
    decreases n,
{
    if n >= 10 {
        lemma_decimal_narrow(n / 10);
    }
}

proof fn lemma_count_narrow(archived: bool, count: int)
    ensures
        narrow_text(count_text(archived, count)),
{
    lemma_decimal_narrow(count as nat);
    reveal_strlit(" ");
    reveal_strlit("archived session");
    reveal_strlit("session");
    reveal_strlit("");
    reveal_strlit("s");
}

proof fn lemma_mark_narrow(hidden: Hidden)
    ensures
        narrow_spans(hidden_spans(hidden)),
{
    lemma_decimal_narrow((hidden.above + hidden.below) as nat);
    reveal_strlit("  ");
    reveal_strlit(" ");
    reveal_strlit("↑↓");
    reveal_strlit("↑");
    reveal_strlit("↓");
    reveal_strlit(" hidden");
}

/// The columns of the mark.
fn mark_width(mark: &Vec<Span>, hidden: Hidden) -> (r: usize)
    requires
        views(mark@) == hidden_spans(hidden),
    ensures
        r == columns(hidden_spans(hidden)),
{
    if mark.len() == 0 {
        assert(hidden_spans(hidden) =~= Seq::empty());
        return 0;
    }
    proof {
        let m = hidden_spans(hidden);
        lemma_columns_push(Seq::<SpanView>::empty(), m[0]);
        assert(m =~= Seq::<SpanView>::empty().push(m[0]));
        assert(mark@[0]@ == m[0]);
        lemma_mark_narrow(hidden);
    }
    width_of_text(&mark[0].text)
}

/// Underlines the part of a badge the pointer rests on.
fn mark_hovered(parts: &mut Vec<HeadSpan>, hover: &Option<HitTarget>)
    ensures
        views(final(parts)@) == marked_all(views(old(parts)@), opt(*hover)),
{
    broadcast use group_views;

    let ghost before = views(parts@);
    let mut done: Vec<HeadSpan> = Vec::new();
    let mut i: usize = 0;
    assert(marked_all(before.take(0), opt(*hover)) =~= views(done@));
    while i < parts.len()
        invariant
            i <= parts@.len(),
            before == views(parts@),
            views(done@) == marked_all(before.take(i as int), opt(*hover)),
        decreases parts@.len() - i,
    {
        let part = &parts[i];
        let lit: bool = match &part.hit {
            Some(hit) => hovers(hover, hit),
            None => false,
        };
        let underlined: bool = lit || part.span.style.underlined;
        push_part(
            &mut done,
            HeadSpan {
                span: Span {
                    text: part.span.text.clone(),
                    style: Style { underlined, ..part.span.style },
                    sweep: part.span.sweep,
                },
                hit: part.hit.clone(),
            },
        );
        proof {
            assert(before[i as int] == parts@[i as int]@);
        }
        i += 1;
        assert(views(done@) =~= marked_all(before.take(i as int), opt(*hover)));
    }
    assert(before.take(i as int) =~= before);
    *parts = done;
}

// ---- the whole header ----

/// The columns of each of a list of header spans.
pub open spec fn part_widths(parts: Seq<(SpanView, Option<HitView>)>) -> Seq<usize> {
    Seq::new(parts.len(), |i: int| display_width(parts[i].0.text) as usize)
}

/// The columns of the first `n` of them.
pub open spec fn sum_of(widths: Seq<usize>, n: int) -> int
    decreases n,
{
    if n <= 0 {
        0
    } else {
        sum_of(widths, n - 1) + widths[n - 1]
    }
}

/// The columns of a list of header spans, as far as a machine word counts.
pub open spec fn part_columns(parts: Seq<(SpanView, Option<HitView>)>) -> int {
    capped(sum_of(part_widths(parts), parts.len() as int))
}

/// The column the first `n` parts end in front of, starting at `x`.
pub open spec fn part_after(widths: Seq<usize>, x: int, n: int) -> int
    decreases n,
{
    if n <= 0 {
        x
    } else {
        smaller(part_after(widths, x, n - 1) + widths[n - 1] as int % 65536, u16::MAX as int)
    }
}

/// The hits of the first `n` parts: each button over the columns its word
/// takes.
pub open spec fn part_hits(
    parts: Seq<(SpanView, Option<HitView>)>,
    widths: Seq<usize>,
    r: Rect,
    x: int,
    n: int,
) -> Seq<(Rect, HitView)>
    decreases n,
{
    if n <= 0 {
        Seq::empty()
    } else {
        let before = part_hits(parts, widths, r, x, n - 1);
        match parts[n - 1].1 {
            Some(hit) => before.push(
                (
                    Rect {
                        x: part_after(widths, x, n - 1) as u16,
                        width: (widths[n - 1] as int % 65536) as u16,
                        ..r
                    },
                    hit,
                ),
            ),
            None => before,
        }
    }
}

/// The column a right-aligned row of `used` columns starts in.
pub open spec fn right_aligned(r: Rect, used: int) -> int {
    r.x + less(r.width as int, used)
}

/// The texts of a list of header spans.
pub open spec fn part_spans(parts: Seq<(SpanView, Option<HitView>)>) -> Seq<SpanView> {
    Seq::new(parts.len(), |i: int| parts[i].0)
}

/// The header as it is drawn: the row with the tabs from its left and the
/// count up to its right, and the row the rule runs along.
#[derive(Debug)]
pub struct DrawnHead {
    pub row: Option<HeadRow>,
    pub rule: Option<Rect>,
    pub rule_ink: Ink,
}

/// The header's row.
#[derive(Debug)]
pub struct HeadRow {
    pub area: Rect,
    pub tabs: Vec<Span>,
    pub right: Vec<Span>,
}

/// Lays the parts out up to the right edge of `r`, each as wide as it was
/// measured, `used` columns together: what the row draws, with a hit over each
/// part that is a button.
pub fn lay_parts(
    parts: Vec<HeadSpan>,
    widths: &Vec<usize>,
    used: usize,
    r: Rect,
    hits: &mut Vec<Hit>,
) -> (spans: Vec<Span>)
    requires
        widths@.len() == parts@.len(),
        r.right() <= u16::MAX,
    ensures
        views(spans@) == part_spans(views(parts@)),
        views(final(hits)@) == views(old(hits)@) + part_hits(
            views(parts@),
            widths@,
            r,
            right_aligned(r, used as int),
            parts@.len() as int,
        ),
{
    broadcast use group_views;

    let ghost all = views(parts@);
    let start: u16 = if used >= r.width as usize {
        r.x
    } else {
        r.x + (r.width - used as u16)
    };
    let mut x: u16 = start;
    let mut i: usize = 0;
    let count: usize = parts.len();
    let ghost before = views(hits@);
    let mut spans: Vec<Span> = Vec::new();
    assert(views(spans@) =~= part_spans(all.take(0)));
    assert(before + part_hits(all, widths@, r, start as int, 0) =~= before);
    for part in it: parts
        invariant
            it.seq() == parts@,
            all == views(parts@),
            count == parts@.len(),
            widths@.len() == count,
            i == it.index(),
            i <= count,
            views(spans@) == part_spans(all.take(it.index())),
            x == part_after(widths@, start as int, it.index()),
            views(hits@) == before + part_hits(all, widths@, r, start as int, it.index()),
    {
        let ghost n = it.index();
        let ghost shown = part@;
        let width: u16 = (widths[i] % 65536) as u16;
        let HeadSpan { span: own, hit } = part;
        proof {
            assert(all[n] == shown);
        }
        if let Some(target) = hit {
            assert(shown.1 == Some(target@));
            let ghost laid = hits@;
            let own_hit = Hit { rect: Rect { x, width, ..r }, target };
            hits.push(own_hit);
            assert(views(hits@) == views(laid).push(own_hit@)) by {
                assert(hits@ == laid.push(own_hit));
            }
            assert(own_hit@ == (Rect { x, width, ..r }, target@));
            assert(views(hits@) =~= before + part_hits(all, widths@, r, start as int, n + 1));
        }
        x = x.saturating_add(width);
        push_span(&mut spans, own);
        assert(views(spans@) =~= part_spans(all.take(n + 1)));
        i += 1;
    }
    assert(all.take(all.len() as int) =~= all);
    spans
}

fn measured_parts(parts: &Vec<HeadSpan>) -> (r: Vec<usize>)
    ensures
        r@ == part_widths(views(parts@)),
{
    let ghost all = views(parts@);
    let mut out: Vec<usize> = Vec::new();
    let mut i: usize = 0;
    while i < parts.len()
        invariant
            i <= parts@.len(),
            all == views(parts@),
            out@.len() == i,
            forall|k: int| 0 <= k < i ==> #[trigger] out@[k] == part_widths(all)[k],
        decreases parts@.len() - i,
    {
        let w: usize = width_of_text(&parts[i].span.text);
        assert(all[i as int] == parts@[i as int]@);
        out.push(w);
        i += 1;
    }
    assert(out@ =~= part_widths(all));
    out
}

fn sum(widths: &Vec<usize>) -> (r: usize)
    ensures
        r == capped(sum_of(widths@, widths@.len() as int)),
{
    let mut total: usize = 0;
    let mut i: usize = 0;
    while i < widths.len()
        invariant
            i <= widths@.len(),
            total == capped(sum_of(widths@, i as int)),
        decreases widths@.len() - i,
    {
        total = total.saturating_add(widths[i]);
        i += 1;
    }
    total
}

/// The hits the header lays down.
pub open spec fn head_hits(
    app: App,
    body: Rect,
    count: int,
    hidden: Hidden,
    badge: Option<CountsBadge>,
) -> Seq<(Rect, HitView)> {
    match row_of_rect(body, 1) {
        None => Seq::empty(),
        Some(line) => {
            let r = padded(line);
            let right = count_parts(app, count, hidden, r.width as int, badge);
            let used = part_columns(right);
            let tabs = head_row(app, r.width as int, used);
            strip_hits(tabs, r, tabs.len() as int) + part_hits(
                right,
                part_widths(right),
                r,
                right_aligned(r, used),
                right.len() as int,
            )
        },
    }
}

/// The header over the grid: the PROJECT TABS on the left, each with its
/// status dots, how many cards the grid holds on the right — and how many of
/// them it could not fit — a rule under both.
pub fn draw_head(
    app: &App,
    body: Rect,
    count: usize,
    hidden: Hidden,
    badge: Option<CountsBadge>,
    hits: &mut Vec<Hit>,
) -> (head: DrawnHead)
    requires
        header_in_range(body),
        hidden.above + hidden.below <= usize::MAX,
    ensures
        views(final(hits)@) == views(old(hits)@) + head_hits(
            *app,
            body,
            count as int,
            hidden,
            badge,
        ),
        head.rule == row_of_rect(body, 2),
        head.rule_ink == Ink::Edge,
        match row_of_rect(body, 1) {
            None => head.row is None,
            Some(line) => head.row is Some && is_head_row(
                *app,
                padded(line),
                count_parts(*app, count as int, hidden, padded(line).width as int, badge),
                head.row->0,
            ),
        },
{
    let ghost before = views(hits@);
    let rule = row_rect(body, 2);
    match row_rect(body, 1) {
        None => {
            assert(views(hits@) + Seq::<(Rect, HitView)>::empty() =~= views(hits@));
            DrawnHead { row: None, rule, rule_ink: Ink::Edge }
        },
        Some(line) => {
            let r = pad_x(line);
            let right = head_count(app, count, hidden, r.width as usize, badge);
            let widths = measured_parts(&right);
            let used: usize = sum(&widths);
            let tabs = head_tabs(app, r, used, hits);
            let ghost parts = views(right@);
            let right = lay_parts(right, &widths, used, r, hits);
            proof {
                let row = head_row(*app, r.width as int, used as int);
                lemma_concat_assoc(
                    before,
                    strip_hits(row, r, row.len() as int),
                    part_hits(
                        parts,
                        widths@,
                        r,
                        right_aligned(r, used as int),
                        parts.len() as int,
                    ),
                );
            }
            DrawnHead {
                row: Some(HeadRow { area: r, tabs, right }),
                rule,
                rule_ink: Ink::Edge,
            }
        },
    }
}

/// `row` is the header's row on `r` with `right` on its right side.
pub open spec fn is_head_row(
    app: App,
    r: Rect,
    right: Seq<(SpanView, Option<HitView>)>,
    row: HeadRow,
) -> bool {
    &&& row.area == r
    &&& views(row.right@) == part_spans(right)
    &&& views(row.tabs@) == strip_spans(
        head_row(app, r.width as int, part_columns(right)),
    )
}

// ---- what holds of it ----

/// The mark is there exactly when a card is off screen.
pub proof fn law_marked_when_cards_are_hidden(hidden: Hidden)
    ensures
        hidden_spans(hidden).len() == 0 <==> hidden.above == 0 && hidden.below == 0,
{
}

/// The hidden marker outlasts the counts beside it: it is the last thing on
/// the row whether or not the counts found room.
pub proof fn law_mark_outlasts_the_counts(
    app: App,
    count: int,
    hidden: Hidden,
    width: int,
    badge: Option<CountsBadge>,
)
    requires
        hidden.above > 0 || hidden.below > 0,
    ensures
        count_parts(app, count, hidden, width, badge).last() == (
            hidden_spans(hidden)[0],
            None::<HitView>,
        ),
{
    reveal(count_parts);
}

/// What the mark says: the arrow up for cards off the top alone, down for cards
/// past the bottom alone and both for both, and how many there are of them
/// together.
pub proof fn law_mark_says_which_way(hidden: Hidden)
    requires
        hidden.above > 0 || hidden.below > 0,
    ensures
        ({
            let n = decimal((hidden.above + hidden.below) as nat);
            let said = hidden_spans(hidden)[0].text;
            &&& hidden_spans(hidden).len() == 1
            &&& hidden.below == 0 ==> said == "  "@ + "↑"@ + " "@ + n + " hidden"@
            &&& hidden.above == 0 ==> said == "  "@ + "↓"@ + " "@ + n + " hidden"@
            &&& hidden.above > 0 && hidden.below > 0 ==> said == "  "@ + "↑↓"@ + " "@ + n
                + " hidden"@
        }),
{
}

/// The row starts with how many sessions there are: one session, and any other
/// number of sessions, of archived ones where those are shown.
pub proof fn law_row_counts_the_sessions(
    app: App,
    count: int,
    hidden: Hidden,
    width: int,
    badge: Option<CountsBadge>,
)
    requires
        0 <= count,
    ensures
        ({
            let first = count_parts(app, count, hidden, width, badge)[0];
            let n = decimal(count as nat);
            let of = if app.show_archived {
                "archived session"@
            } else {
                "session"@
            };
            &&& first.1 is None
            &&& count == 1 ==> first.0.text == n + " "@ + of + ""@
            &&& count != 1 ==> first.0.text == n + " "@ + of + "s"@
        }),
{
    reveal(count_parts);
}

/// The counts of pull requests and issues are on the row exactly where a
/// project is on screen and they fit beside the count and the mark; the part of
/// them under the pointer is underlined, where it is a button, and nothing else
/// of them is changed.
pub proof fn law_counts_are_shown_where_they_fit(
    app: App,
    count: int,
    hidden: Hidden,
    width: int,
    badge: CountsBadge,
    i: int,
)
    requires
        0 <= i < badge.parts@.len(),
    ensures
        ({
            let parts = count_parts(app, count, hidden, width, Some(badge));
            let mark = hidden_spans(hidden);
            let said = parts[0].0.text.len() + badge.width + columns(mark);
            let fits = app.project_on() is Some && said <= width;
            let was = badge.parts@[i]@;
            let hover = app.screen.hover_crumb is Some && was.1 is Some
                && app.screen.hover_crumb->0@ == was.1->0;
            &&& fits ==> parts.len() == 1 + badge.parts@.len() + mark.len()
            &&& !fits ==> parts.len() == 1 + mark.len()
            &&& fits ==> parts[i + 1].0.text == was.0.text && parts[i + 1].1 == was.1
                && parts[i + 1].0.style.fg == was.0.style.fg
            &&& fits && hover ==> parts[i + 1].0.style.underlined
            &&& fits && !hover ==> parts[i + 1] == was
        }),
{
    reveal(count_parts);
    broadcast use group_views;

    let all = views(badge.parts@);
    assert(all[i] == badge.parts@[i]@);
}

proof fn lemma_part_after(widths: Seq<usize>, x: int, n: int)
    requires
        0 <= n <= widths.len(),
        0 <= x,
        x + sum_of(widths, n) <= u16::MAX,
    ensures
        part_after(widths, x, n) == x + sum_of(widths, n),
        0 <= sum_of(widths, n),
        forall|k: int| 0 <= k < n ==> #[trigger] widths[k] <= sum_of(widths, n),
    decreases n,
{
    if n > 0 {
        lemma_sum_grows(widths, n - 1);
        lemma_part_after(widths, x, n - 1);
    }
}

proof fn lemma_sum_grows(widths: Seq<usize>, n: int)
    requires
        0 <= n <= widths.len(),
    ensures
        0 <= sum_of(widths, n),
    decreases n,
{
    if n > 0 {
        lemma_sum_grows(widths, n - 1);
    }
}

/// A part of the row that is a button is pressed over just the columns its word
/// takes, behind the parts before it.
pub proof fn law_count_is_pressed_on_its_word(
    parts: Seq<(SpanView, Option<HitView>)>,
    widths: Seq<usize>,
    r: Rect,
    x: int,
    n: int,
    k: int,
)
    requires
        widths.len() == parts.len(),
        0 <= k < n <= parts.len(),
        0 <= x,
        x + sum_of(widths, n) <= u16::MAX,
        parts[k].1 is Some,
    ensures
        exists|i: int|
            0 <= i < part_hits(parts, widths, r, x, n).len() && (#[trigger] part_hits(
                parts,
                widths,
                r,
                x,
                n,
            )[i]).1 == parts[k].1->0 && part_hits(parts, widths, r, x, n)[i].0.x == x + sum_of(
                widths,
                k,
            ) && part_hits(parts, widths, r, x, n)[i].0.width == widths[k] && part_hits(
                parts,
                widths,
                r,
                x,
                n,
            )[i].0.y == r.y,
    decreases n,
{
    lemma_part_after(widths, x, n);
    let all = part_hits(parts, widths, r, x, n);
    let before = part_hits(parts, widths, r, x, n - 1);
    lemma_sum_grows(widths, n - 1);
    if k < n - 1 {
        law_count_is_pressed_on_its_word(parts, widths, r, x, n - 1, k);
        let i = choose|i: int|
            0 <= i < before.len() && (#[trigger] before[i]).1 == parts[k].1->0 && before[i].0.x
                == x + sum_of(widths, k) && before[i].0.width == widths[k] && before[i].0.y
                == r.y;
        assert(all[i] == before[i]);
    } else {
        lemma_part_after(widths, x, k);
        assert(widths[k] <= u16::MAX);
        assert(all.last().1 == parts[k].1->0);
    }
}

} // verus!
