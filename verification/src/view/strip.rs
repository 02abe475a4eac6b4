//! A strip of tabs laid out from left to right: how many fit, which window of
//! them is drawn, and where a click on each lands.

use crate::layout::{larger, less, max_usize, smaller, Rect};
use crate::state::{Hit, HitTarget, HitView};
use crate::view::span::{char_columns, columns, Span, SpanView};
use crate::views::{group_views, opt, views};
use crate::text::{char_count, decimal, decimal_text, lemma_decimal_len};
use vstd::prelude::*;

verus! {

/// The least room a strip keeps back for the count of the tabs past its edge.
pub const MORE_ROOM: usize = 5;

/// One tab of a strip: what it draws, and what a click on it means. The gaps
/// and dividers between tabs are tabs with no hit of their own, so one walk
/// both lays the strip out and hit-tests it.
#[derive(Debug, PartialEq, Eq)]
pub struct PaneTab {
    pub spans: Vec<Span>,
    pub hit: Option<HitTarget>,
}

/// A [`PaneTab`] by what it holds.
pub struct TabView {
    pub spans: Seq<SpanView>,
    pub hit: Option<HitView>,
}

impl View for PaneTab {
    type V = TabView;

    open spec fn view(&self) -> TabView {
        TabView { spans: views(self.spans@), hit: opt(self.hit) }
    }
}

/// A tab nothing happens on.
pub open spec fn plain_tab(spans: Seq<SpanView>) -> TabView {
    TabView { spans, hit: None }
}

impl TabView {
    /// The characters it draws.
    pub open spec fn width(self) -> nat {
        columns(self.spans)
    }
}

/// A number as far as a machine word counts.
pub open spec fn capped(n: int) -> int {
    smaller(n, usize::MAX as int)
}

impl PaneTab {
    pub fn plain(spans: Vec<Span>) -> (r: Self)
        ensures
            r@ == plain_tab(views(spans@)),
    {
        PaneTab { spans, hit: None }
    }

    /// How many characters the tab draws.
    pub fn width(&self) -> (r: usize)
        ensures
            r == capped(self@.width() as int),
    {
        char_columns(&self.spans)
    }
}

/// One more tab at the end of a strip.
pub(crate) fn push_tab(tabs: &mut Vec<PaneTab>, t: PaneTab)
    ensures
        views(final(tabs)@) == views(old(tabs)@).push(t@),
{
    broadcast use group_views;

    tabs.push(t);
}

/// One span that is a tab of its own.
pub(crate) fn one_span(s: Span) -> (r: Vec<Span>)
    ensures
        views(r@) == seq![s@],
{
    let mut out: Vec<Span> = Vec::new();
    out.push(s);
    assert(views(out@) =~= seq![s@]);
    out
}

// ---- which tabs fit ----

/// The room kept back for the count of `n` tabs past an edge, its digits with
/// `frame` characters around them: the last tab that fits is never the one that
/// leaves no room to say there are more.
pub open spec fn more_room(frame: nat, n: int) -> int {
    larger(MORE_ROOM as int, (frame + decimal(n as nat).len()) as int)
}

/// The room for a count, where there is anything to count.
pub open spec fn count_room(frame: nat, n: int) -> int {
    if n > 0 {
        more_room(frame, n)
    } else {
        0
    }
}

/// The room kept back for the count of `n` tabs past an edge.
pub fn room_for(frame: usize, n: usize) -> (r: usize)
    requires
        frame <= 4,
    ensures
        r == count_room(frame as nat, n as int),
        r <= 24,
{
    if n == 0 {
        return 0;
    }
    proof {
        lemma_decimal_len(n as nat);
    }
    max_usize(MORE_ROOM, frame + char_count(&decimal_text(n as u64)))
}

/// The first tab from `i` on that does not fit in `left` columns, each but the
/// first with `gap` columns before it, room for the count of those left over
/// kept behind each but the very last.
pub open spec fn fit_from(
    widths: Seq<usize>,
    gap: nat,
    frame: nat,
    start: int,
    i: int,
    left: int,
) -> int
    decreases widths.len() - i,
{
    if i >= widths.len() {
        i
    } else {
        let need = widths[i] + if i > start {
            gap as int
        } else {
            0
        };
        if need + count_room(frame, widths.len() - i - 1) > left {
            i
        } else {
            fit_from(widths, gap, frame, start, i + 1, left - need)
        }
    }
}

/// The place one past the last tab drawn when the strip starts at `start`.
pub open spec fn fits_to(widths: Seq<usize>, gap: nat, frame: nat, start: int, budget: int) -> int {
    fit_from(widths, gap, frame, start, start, budget)
}

/// The tabs drawn: from the first, or — where that leaves the one that is lit
/// past the edge — from the lit one, with room kept for the count of those
/// before it.
pub open spec fn window(
    widths: Seq<usize>,
    gap: nat,
    frame: nat,
    lit: Option<int>,
    budget: int,
) -> (int, int) {
    let end = fits_to(widths, gap, frame, 0, budget);
    match lit {
        Some(at) => if at >= end {
            (at, fits_to(widths, gap, frame, at, less(budget, more_room(frame, at))))
        } else {
            (0, end)
        },
        None => (0, end),
    }
}

/// The tabs that fit from `start` in `budget` columns: the place one past the
/// last.
pub fn fit(widths: &Vec<usize>, gap: usize, frame: usize, start: usize, budget: usize) -> (r: usize)
    requires
        start <= widths@.len(),
        gap <= 16,
        frame <= 4,
    ensures
        r == fits_to(widths@, gap as nat, frame as nat, start as int, budget as int),
        start <= r <= widths@.len(),
{
    let mut left: usize = budget;
    let mut i: usize = start;
    while i < widths.len()
        invariant
            start <= i <= widths@.len(),
            gap <= 16,
            frame <= 4,
            fits_to(widths@, gap as nat, frame as nat, start as int, budget as int) == fit_from(
                widths@,
                gap as nat,
                frame as nat,
                start as int,
                i as int,
                left as int,
            ),
        decreases widths@.len() - i,
    {
        let before: usize = if i > start {
            gap
        } else {
            0
        };
        let spare: usize = room_for(frame, widths.len() - i - 1);
        if left < widths[i] || left - widths[i] < before + spare {
            return i;
        }
        left = left - widths[i] - before;
        i += 1;
    }
    i
}

/// The window of tabs a strip draws in `budget` columns.
pub fn window_of(
    widths: &Vec<usize>,
    gap: usize,
    frame: usize,
    lit: Option<usize>,
    budget: usize,
) -> (r: (usize, usize))
    requires
        gap <= 16,
        frame <= 4,
        lit is Some ==> lit->0 < widths@.len(),
    ensures
        (r.0 as int, r.1 as int) == window(
            widths@,
            gap as nat,
            frame as nat,
            match lit {
                Some(at) => Some(at as int),
                None => None,
            },
            budget as int,
        ),
        r.0 <= r.1 <= widths@.len(),
{
    let end: usize = fit(widths, gap, frame, 0, budget);
    match lit {
        Some(at) => if at >= end {
            let kept: usize = max_usize(MORE_ROOM, room_for(frame, at));
            (at, fit(widths, gap, frame, at, budget.saturating_sub(kept)))
        } else {
            (0, end)
        },
        None => (0, end),
    }
}

/// The columns the tabs from `start` to `end` take, with the gaps between
/// them.
pub open spec fn taken(widths: Seq<usize>, gap: nat, start: int, end: int) -> int
    decreases end - start,
{
    if end <= start {
        0
    } else {
        taken(widths, gap, start, end - 1) + widths[end - 1] + if end - 1 > start {
            gap as int
        } else {
            0
        }
    }
}

proof fn lemma_fit_from(
    widths: Seq<usize>,
    gap: nat,
    frame: nat,
    start: int,
    i: int,
    left: int,
    budget: int,
)
    requires
        0 <= start <= i <= widths.len(),
        left == budget - taken(widths, gap, start, i),
        i > start ==> left >= count_room(frame, widths.len() - i),
        left >= 0,
    ensures
        i <= fit_from(widths, gap, frame, start, i, left) <= widths.len(),
        ({
            let end = fit_from(widths, gap, frame, start, i, left);
            &&& taken(widths, gap, start, end) <= budget
            &&& start < end ==> taken(widths, gap, start, end) + count_room(
                frame,
                widths.len() - end,
            ) <= budget
        }),
    decreases widths.len() - i,
{
    if i < widths.len() {
        let need = widths[i] + if i > start {
            gap as int
        } else {
            0
        };
        if need + count_room(frame, widths.len() - i - 1) <= left {
            lemma_fit_from(widths, gap, frame, start, i + 1, left - need, budget);
        }
    }
}

// ---- laying them out ----

/// The spans of a strip, tab after tab.
pub open spec fn strip_spans(tabs: Seq<TabView>) -> Seq<SpanView>
    decreases tabs.len(),
{
    if tabs.len() == 0 {
        Seq::empty()
    } else {
        strip_spans(tabs.drop_last()) + tabs.last().spans
    }
}

/// The column the first `n` tabs of a strip that starts at `x` end in front
/// of, as far as the screen's columns count.
pub open spec fn column_after(tabs: Seq<TabView>, x: int, n: int) -> int
    decreases n,
{
    if n <= 0 {
        x
    } else {
        smaller(
            column_after(tabs, x, n - 1) + smaller(tabs[n - 1].width() as int, u16::MAX as int),
            u16::MAX as int,
        )
    }
}

/// The hits of the first `n` tabs: each over exactly the columns its tab
/// draws, on the row of `r`, none for a tab that is no button.
pub open spec fn strip_hits(tabs: Seq<TabView>, r: Rect, n: int) -> Seq<(Rect, HitView)>
    decreases n,
{
    if n <= 0 {
        Seq::empty()
    } else {
        let before = strip_hits(tabs, r, n - 1);
        let tab = tabs[n - 1];
        match tab.hit {
            Some(hit) => before.push(
                (
                    Rect {
                        x: column_after(tabs, r.x as int, n - 1) as u16,
                        y: r.y,
                        width: smaller(tab.width() as int, u16::MAX as int) as u16,
                        height: 1,
                    },
                    hit,
                ),
            ),
            None => before,
        }
    }
}

impl View for Hit {
    type V = (Rect, HitView);

    open spec fn view(&self) -> (Rect, HitView) {
        (self.rect, self.target@)
    }
}

/// One more hit on the screen.
pub(crate) fn push_hit(hits: &mut Vec<Hit>, hit: Hit)
    ensures
        views(final(hits)@) == views(old(hits)@).push(hit@),
{
    broadcast use group_views;

    hits.push(hit);
}

/// Lays the tabs out along the row of `r` from its first column: what the row
/// draws, with a hit over each tab that is a button.
pub fn lay_out(tabs: Vec<PaneTab>, r: Rect, hits: &mut Vec<Hit>) -> (spans: Vec<Span>)
    ensures
        views(spans@) == strip_spans(views(tabs@)),
        views(final(hits)@) == views(old(hits)@) + strip_hits(
            views(tabs@),
            r,
            tabs@.len() as int,
        ),
{
    broadcast use group_views;

    let ghost all = views(tabs@);
    let ghost before = views(hits@);
    let mut spans: Vec<Span> = Vec::new();
    let mut x: u16 = r.x;
    assert(all.take(0) =~= Seq::empty());
    assert(before + strip_hits(all, r, 0) =~= before);
    for tab in it: tabs
        invariant
            it.seq() == tabs@,
            all == views(tabs@),
            views(spans@) == strip_spans(all.take(it.index())),
            x == column_after(all, r.x as int, it.index()),
            views(hits@) == before + strip_hits(all, r, it.index()),
    {
        let ghost n = it.index();
        let ghost shown = tab@;
        let w: usize = tab.width();
        let width: u16 = if w <= u16::MAX as usize {
            w as u16
        } else {
            u16::MAX
        };
        let PaneTab { spans: own, hit } = tab;
        let mut own = own;
        proof {
            assert(all[n] == shown);
            assert(all.take(n + 1).drop_last() =~= all.take(n));
            assert(all.take(n + 1).last() == all[n]);
        }
        if let Some(target) = hit {
            assert(shown.hit == Some(target@));
            let ghost laid = hits@;
            let own_hit = Hit { rect: Rect { x, y: r.y, width, height: 1 }, target };
            hits.push(own_hit);
            assert(views(hits@) == views(laid).push(own_hit@)) by {
                assert(hits@ == laid.push(own_hit));
            }
            assert(own_hit@ == (Rect { x, y: r.y, width, height: 1 }, target@));
            assert(strip_hits(all, r, n + 1) == strip_hits(all, r, n).push(
                (Rect { x, y: r.y, width, height: 1 }, target@),
            ));
            assert(views(hits@) =~= before + strip_hits(all, r, n + 1));
        }
        x = x.saturating_add(width);
        spans.append(&mut own);
    }
    assert(all.take(all.len() as int) =~= all);
    spans
}

/// The characters of a strip.
pub open spec fn strip_width(tabs: Seq<TabView>) -> nat
    decreases tabs.len(),
{
    if tabs.len() == 0 {
        0
    } else {
        strip_width(tabs.drop_last()) + tabs.last().width()
    }
}

pub proof fn lemma_strip_width_push(tabs: Seq<TabView>, t: TabView)
    ensures
        strip_width(tabs.push(t)) == strip_width(tabs) + t.width(),
{
    assert(tabs.push(t).drop_last() =~= tabs);
}

pub proof fn lemma_strip_width_concat(a: Seq<TabView>, b: Seq<TabView>)
    ensures
        strip_width(a + b) == strip_width(a) + strip_width(b),
    decreases b.len(),
{
    if b.len() == 0 {
        assert(a + b =~= a);
    } else {
        lemma_strip_width_concat(a, b.drop_last());
        assert((a + b).drop_last() =~= a + b.drop_last());
    }
}

/// How many characters a strip draws.
pub fn width_of(tabs: &Vec<PaneTab>) -> (r: usize)
    ensures
        r == capped(strip_width(views(tabs@)) as int),
{
    let ghost all = views(tabs@);
    let mut total: usize = 0;
    let mut i: usize = 0;
    assert(all.take(0) =~= Seq::empty());
    while i < tabs.len()
        invariant
            i <= tabs@.len(),
            all == views(tabs@),
            total == capped(strip_width(all.take(i as int)) as int),
        decreases tabs@.len() - i,
    {
        proof {
            assert(all.take(i + 1).drop_last() =~= all.take(i as int));
            assert(all.take(i + 1).last() == tabs@[i as int]@);
        }
        total = total.saturating_add(tabs[i].width());
        i += 1;
    }
    assert(all.take(i as int) =~= all);
    total
}

// ---- what holds of it ----

pub proof fn lemma_taken_grows(widths: Seq<usize>, gap: nat, start: int, end: int)
    requires
        0 <= start < end <= widths.len(),
        forall|i: int| 0 <= i < widths.len() ==> #[trigger] widths[i] > 0,
    ensures
        taken(widths, gap, start, end) > 0,
    decreases end - start,
{
    if end - 1 > start {
        lemma_taken_grows(widths, gap, start, end - 1);
    } else {
        assert(taken(widths, gap, start, start) == 0);
        assert(widths[end - 1] > 0);
    }
}

/// The tabs a window draws fit the columns they were given, and so does the
/// count of those past the right edge; a window that does not start at the
/// first tab leaves room for the count of those before it as well.
pub proof fn law_window_fits(
    widths: Seq<usize>,
    gap: nat,
    frame: nat,
    lit: Option<int>,
    budget: int,
)
    requires
        budget >= 0,
        lit is Some ==> 0 <= lit->0 < widths.len(),
        forall|i: int| 0 <= i < widths.len() ==> #[trigger] widths[i] > 0,
    ensures
        ({
            let (start, end) = window(widths, gap, frame, lit, budget);
            &&& 0 <= start <= end <= widths.len()
            &&& start < end ==> count_room(frame, start) + taken(widths, gap, start, end)
                + count_room(frame, widths.len() - end) <= budget
        }),
{
    lemma_fit_from(widths, gap, frame, 0, 0, budget, budget);
    if lit is Some {
        let at = lit->0;
        let left = less(budget, more_room(frame, at));
        lemma_fit_from(widths, gap, frame, at, at, left, left);
        let end = fits_to(widths, gap, frame, at, left);
        if at < end {
            lemma_taken_grows(widths, gap, at, end);
        }
    }
}

/// The tab that is lit is one of those a window draws, unless not even that
/// one tab fits.
pub proof fn law_window_holds_the_lit_tab(
    widths: Seq<usize>,
    gap: nat,
    frame: nat,
    at: int,
    budget: int,
)
    requires
        budget >= 0,
        0 <= at < widths.len(),
    ensures
        ({
            let (start, end) = window(widths, gap, frame, Some(at), budget);
            start <= at < end || (start == at && end == at)
        }),
{
    let left = less(budget, more_room(frame, at));
    lemma_fit_from(widths, gap, frame, 0, 0, budget, budget);
    lemma_fit_from(widths, gap, frame, at, at, left, left);
}

/// No two hits of a strip share a cell: a click on a cross never reads as a
/// click on the tab it closes.
pub proof fn law_hits_stand_apart(tabs: Seq<TabView>, r: Rect, n: int)
    requires
        0 <= n <= tabs.len(),
    ensures
        column_after(tabs, r.x as int, n) >= r.x,
        column_after(tabs, r.x as int, n) <= u16::MAX,
        forall|i: int|
            0 <= i < strip_hits(tabs, r, n).len() ==> {
                let rect = (#[trigger] strip_hits(tabs, r, n)[i]).0;
                &&& r.x <= rect.x
                &&& column_after(tabs, r.x as int, n) < u16::MAX ==> rect.right() <= column_after(
                    tabs,
                    r.x as int,
                    n,
                )
            },
        column_after(tabs, r.x as int, n) < u16::MAX ==> forall|i: int, j: int|
            0 <= i < j < strip_hits(tabs, r, n).len() ==> (#[trigger] strip_hits(
                tabs,
                r,
                n,
            )[i]).0.apart((#[trigger] strip_hits(tabs, r, n)[j]).0),
    decreases n,
{
    if n > 0 {
        law_hits_stand_apart(tabs, r, n - 1);
        let before = strip_hits(tabs, r, n - 1);
        let all = strip_hits(tabs, r, n);
        assert forall|i: int| 0 <= i < all.len() implies {
            let rect = (#[trigger] all[i]).0;
            &&& r.x <= rect.x
            &&& column_after(tabs, r.x as int, n) < u16::MAX ==> rect.right() <= column_after(
                tabs,
                r.x as int,
                n,
            )
        } by {
            if i < before.len() {
                assert(all[i] == before[i]);
            }
        }
        if column_after(tabs, r.x as int, n) < u16::MAX {
            assert forall|i: int, j: int| 0 <= i < j < all.len() implies (#[trigger] all[i]).0.apart(
                (#[trigger] all[j]).0,
            ) by {
                assert(all[i] == before[i]);
                if j < before.len() {
                    assert(all[j] == before[j]);
                }
            }
        }
    }
}

proof fn lemma_fit_all(
    widths: Seq<usize>,
    gap: nat,
    frame: nat,
    start: int,
    i: int,
    left: int,
    budget: int,
)
    requires
        0 <= start <= i <= widths.len(),
        left == budget - taken(widths, gap, start, i),
    ensures
        ({
            let end = fit_from(widths, gap, frame, start, i, left);
            &&& i <= end <= widths.len()
            &&& end < widths.len() ==> taken(widths, gap, start, end + 1) + count_room(
                frame,
                widths.len() - end - 1,
            ) > budget
            &&& forall|k: int|
                i < k <= end ==> #[trigger] taken(widths, gap, start, k) + count_room(
                    frame,
                    widths.len() - k,
                ) <= budget
        }),
    decreases widths.len() - i,
{
    if i < widths.len() {
        let need = widths[i] + if i > start {
            gap as int
        } else {
            0
        };
        assert(taken(widths, gap, start, i + 1) == taken(widths, gap, start, i) + need);
        if need + count_room(frame, widths.len() - i - 1) <= left {
            lemma_fit_all(widths, gap, frame, start, i + 1, left - need, budget);
        }
    }
}

/// The window starts at the first tab and draws as many as fit, unless that
/// leaves the lit tab out: then it starts at the lit one. It stops only where
/// the next tab, with the count of those behind it, would not fit; and all of
/// the tabs are drawn wherever each of them fits with the count of those behind
/// it.
pub proof fn law_window_draws_what_fits(
    widths: Seq<usize>,
    gap: nat,
    frame: nat,
    lit: Option<int>,
    budget: int,
)
    requires
        budget >= 0,
        lit is Some ==> 0 <= lit->0 < widths.len(),
    ensures
        ({
            let n = widths.len() as int;
            let (start, end) = window(widths, gap, frame, lit, budget);
            let fits = |k: int|
                taken(widths, gap, 0, k) + (if k < n {
                    larger(MORE_ROOM as int, (frame + decimal((n - k) as nat).len()) as int)
                } else {
                    0
                }) <= budget;
            &&& lit is None ==> start == 0
            &&& lit is Some ==> start == 0 || start == lit->0
            &&& start == 0 && end < n ==> !fits(end + 1)
            &&& start == 0 ==> forall|k: int| 0 < k <= end ==> #[trigger] fits(k)
            &&& (forall|k: int| 0 < k <= n ==> #[trigger] fits(k)) ==> start == 0 && end == n
            &&& start > 0 ==> exists|k: int| 0 < k <= start + 1 && !#[trigger] fits(k)
        }),
{
    let n = widths.len() as int;
    let fits = |k: int|
        taken(widths, gap, 0, k) + (if k < n {
            larger(MORE_ROOM as int, (frame + decimal((n - k) as nat).len()) as int)
        } else {
            0
        }) <= budget;
    lemma_fit_all(widths, gap, frame, 0, 0, budget, budget);
    let end = fits_to(widths, gap, frame, 0, budget);
    assert forall|k: int| 0 < k <= n implies (#[trigger] fits(k) <==> taken(widths, gap, 0, k)
        + count_room(frame, n - k) <= budget) by {}
    if end < n {
        assert(!fits(end + 1));
    }
    if lit is Some && lit->0 >= end {
        lemma_fit_all(
            widths,
            gap,
            frame,
            lit->0,
            lit->0,
            less(budget, more_room(frame, lit->0)),
            less(budget, more_room(frame, lit->0)),
        );
    }
}

proof fn lemma_column_after(tabs: Seq<TabView>, x: int, n: int)
    requires
        0 <= n <= tabs.len(),
        0 <= x,
        x + strip_width(tabs.take(n)) <= u16::MAX,
    ensures
        column_after(tabs, x, n) == x + strip_width(tabs.take(n)),
    decreases n,
{
    if n > 0 {
        assert(tabs.take(n) =~= tabs.take(n - 1).push(tabs[n - 1]));
        lemma_strip_width_push(tabs.take(n - 1), tabs[n - 1]);
        lemma_column_after(tabs, x, n - 1);
    } else {
        assert(tabs.take(0) =~= Seq::empty());
    }
}

/// A tab that is a button is pressed over just the columns it is drawn in,
/// behind the tabs before it; and nothing is pressed where no tab is a button.
pub proof fn law_tab_is_pressed_where_it_is_drawn(tabs: Seq<TabView>, r: Rect, n: int, k: int)
    requires
        0 <= k < n <= tabs.len(),
        r.x + strip_width(tabs.take(n)) <= u16::MAX,
    ensures
        ({
            let hits = strip_hits(tabs, r, n);
            &&& tabs[k].hit is Some ==> exists|i: int|
                0 <= i < hits.len() && (#[trigger] hits[i]).1 == tabs[k].hit->0 && hits[i].0.x
                    == r.x + strip_width(tabs.take(k)) && hits[i].0.width == columns(
                    tabs[k].spans,
                ) && hits[i].0.y == r.y && hits[i].0.height == 1
            &&& (forall|m: int| 0 <= m < n ==> (#[trigger] tabs[m]).hit is None) ==> hits.len()
                == 0
        }),
    decreases n,
{
    let hits = strip_hits(tabs, r, n);
    let before = strip_hits(tabs, r, n - 1);
    assert(tabs.take(n) =~= tabs.take(n - 1).push(tabs[n - 1]));
    lemma_strip_width_push(tabs.take(n - 1), tabs[n - 1]);
    lemma_column_after(tabs, r.x as int, n - 1);
    if n - 1 > 0 {
        law_tab_is_pressed_where_it_is_drawn(
            tabs,
            r,
            n - 1,
            if k < n - 1 {
                k
            } else {
                0
            },
        );
    }
    if tabs[k].hit is Some {
        if k < n - 1 {
            let i = choose|i: int|
                0 <= i < before.len() && (#[trigger] before[i]).1 == tabs[k].hit->0
                    && before[i].0.x == r.x + strip_width(tabs.take(k)) && before[i].0.width
                    == columns(tabs[k].spans) && before[i].0.y == r.y && before[i].0.height == 1;
            assert(hits[i] == before[i]);
        } else {
            assert(hits[hits.len() - 1].1 == tabs[k].hit->0);
        }
    }
}

/// A strip draws its tabs one after the other.
pub proof fn law_strip_draws_tab_after_tab(a: Seq<TabView>, b: Seq<TabView>, t: TabView)
    ensures
        strip_spans(Seq::<TabView>::empty().push(t)) == t.spans,
        strip_spans(a + b) == strip_spans(a) + strip_spans(b),
        strip_width(a + b) == strip_width(a) + strip_width(b),
    decreases b.len(),
{
    lemma_strip_width_concat(a, b);
    let one = Seq::<TabView>::empty().push(t);
    assert(one.drop_last() =~= Seq::empty());
    assert(strip_spans(one.drop_last()) == Seq::<SpanView>::empty());
    assert(strip_spans(one) == Seq::<SpanView>::empty() + t.spans);
    assert(Seq::<SpanView>::empty() + t.spans =~= t.spans);
    if b.len() == 0 {
        assert(a + b =~= a);
        assert(strip_spans(a) + strip_spans(b) =~= strip_spans(a));
    } else {
        law_strip_draws_tab_after_tab(a, b.drop_last(), t);
        assert((a + b).drop_last() =~= a + b.drop_last());
        assert((strip_spans(a) + strip_spans(b.drop_last())) + b.last().spans =~= strip_spans(a)
            + (strip_spans(b.drop_last()) + b.last().spans));
    }
}

} // verus!
