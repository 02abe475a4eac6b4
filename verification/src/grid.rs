//! The GRID of cards: how many fit, where each one goes, which of them the
//! window shows, and where a step of the cursor lands.

use crate::layout::{held, larger, less, max_usize, min_usize, smaller, Rect};
use vstd::arithmetic::div_mod::*;
use vstd::arithmetic::mul::*;
use vstd::prelude::*;

verus! {

/// Narrowest a card is still worth drawing: the dot, a few words of name
/// and an ago label. The column count is chosen so no card goes under it.
pub const CARD_MIN_W: u16 = 34;
/// Most cards one row holds, however wide the terminal is.
pub const MAX_COLS: usize = 4;
/// How many rows of a card the last prompt gets.
pub const PROMPT_LINES: usize = 3;
/// The rows above the prompt: the name, where it runs, its pull request.
pub const CARD_HEAD_H: u16 = 3;
/// A card's text rows inside its border: [`CARD_HEAD_H`], then the last
/// prompt over [`PROMPT_LINES`].
pub const CARD_TEXT_H: u16 = CARD_HEAD_H + 3;
pub const CARD_H: u16 = CARD_TEXT_H + 2;
/// Gaps between cards: columns of air between two, a blank row under.
pub const GAP_X: u16 = 2;
pub const GAP_Y: u16 = 1;
/// The margin the grid keeps off the body's edges.
pub const PAD_X: u16 = 2;
/// Rows above the grid: the breadcrumb header and a blank under it.
pub const HEAD_H: u16 = 3;

/// From the top of one row of cards to the top of the next: a card and the
/// gap under it.
#[verifier::inline]
pub open spec fn row_step() -> int {
    9
}

/// From the left of the narrowest card to the left of the next: a card and the
/// gap beside it.
#[verifier::inline]
pub open spec fn col_step() -> int {
    36
}

/// The steps are what the cards and the gaps make them.
pub proof fn lemma_steps()
    ensures
        row_step() == CARD_H + GAP_Y,
        col_step() == CARD_MIN_W + GAP_X,
{
}

/// The grid as one frame draws it — the geometry the keys and the drawing
/// both read, so `j` moves by exactly the number of cards a row holds.
#[derive(Debug, Clone, Copy, PartialEq, Eq, Structural)]
pub struct Grid {
    /// Where the cards go: the body under the header, inset by [`PAD_X`].
    pub area: Rect,
    /// Cards per row, 1 to [`MAX_COLS`].
    pub cols: usize,
    /// Width of one card, the leftover split evenly.
    pub card_w: u16,
    /// Rows of cards the area has room for, at least 1.
    pub rows_fit: usize,
}

/// The first row of a list `height` rows tall that keeps `selected` in sight:
/// the top while the selection is on the first screen, else the row that puts
/// the selection on the last one.
pub open spec fn first_shown(selected: int, height: int) -> int {
    less(selected + 1, height)
}

/// The first row of a list `height` rows tall with the cursor on `selected`.
pub fn window_start(selected: usize, height: usize) -> (r: usize)
    requires
        selected < usize::MAX,
    ensures
        r == first_shown(selected as int, height as int),
{
    (selected + 1).saturating_sub(height)
}

/// Where the cards of `body` go.
pub open spec fn cards_area(body: Rect) -> Rect {
    Rect {
        x: (body.x + PAD_X) as u16,
        y: (body.y + HEAD_H) as u16,
        width: less(body.width as int, PAD_X * 2) as u16,
        height: less(body.height as int, HEAD_H as int) as u16,
    }
}

/// The most columns of cards at least [`CARD_MIN_W`] wide that `width` holds
/// with the gaps between them, but one at least and [`MAX_COLS`] at most.
pub open spec fn columns(width: int) -> int {
    held((width + GAP_X) / col_step(), 1, MAX_COLS as int)
}

/// The whole rows of cards that `height` holds.
pub open spec fn whole_rows(height: int) -> int {
    (height + GAP_Y) / row_step()
}

/// The grid of `body`.
pub open spec fn grid_of(body: Rect) -> Grid {
    let area = cards_area(body);
    let cols = columns(area.width as int);
    Grid {
        area,
        cols: cols as usize,
        card_w: (less(area.width as int, GAP_X * (cols - 1)) / cols) as u16,
        rows_fit: larger(whole_rows(area.height as int), 1) as usize,
    }
}

/// The grid `body` lays out. A body too small for one card still reports
/// one column and one row: the cards clip rather than vanish, and the
/// cursor keeps moving.
pub fn grid(body: Rect) -> (r: Grid)
    requires
        body.x + PAD_X <= u16::MAX,
        body.y + HEAD_H <= u16::MAX,
    ensures
        r == grid_of(body),
        room_to_draw(body) ==> r.wf(),
{
    proof {
        lemma_steps();
    }
    let area = Rect {
        x: body.x + PAD_X,
        y: body.y + HEAD_H,
        width: body.width.saturating_sub(PAD_X * 2),
        height: body.height.saturating_sub(HEAD_H),
    };
    let fit: usize = ((area.width + GAP_X) / (CARD_MIN_W + GAP_X)) as usize;
    let cols: usize = min_usize(max_usize(fit, 1), MAX_COLS);
    let gaps: u16 = GAP_X * (cols as u16 - 1);
    let card_w: u16 = area.width.saturating_sub(gaps) / cols as u16;
    let rows_fit: usize = max_usize(((area.height + GAP_Y) / (CARD_H + GAP_Y)) as usize, 1);
    proof {
        if room_to_draw(body) {
            lemma_grid_wf(body);
        }
    }
    Grid { area, cols, card_w, rows_fit }
}

/// Every cell of the grid of `body` can be named, one card's height of it at
/// least.
pub open spec fn room_to_draw(body: Rect) -> bool {
    &&& body.x + PAD_X + less(body.width as int, PAD_X * 2) <= u16::MAX
    &&& body.y + HEAD_H + larger(less(body.height as int, HEAD_H as int), CARD_H as int)
        <= u16::MAX
}

proof fn lemma_grid_wf(body: Rect)
    requires
        room_to_draw(body),
    ensures
        grid_of(body).wf(),
{
    let g = grid_of(body);
    let w = g.area.width as int;
    let h = g.area.height as int;
    let cols = columns(w);
    assert(1 <= cols <= 4);
    assert(cols > 1 ==> (cols * 36 <= w + 2));
    let gaps = 2 * (cols - 1);
    let inner = less(w, gaps);
    assert(cols == 1 || cols == 2 || cols == 3 || cols == 4);
    assert(cols * (inner / cols) <= inner) by {
        lemma_fundamental_div_mod(inner, cols);
    }
    lemma_mul_is_distributive_add(cols, g.card_w as int, 2);
    assert(cols > 1 ==> inner == w - gaps);
    assert(g.card_w == inner / cols);
    assert(cols * (g.card_w + 2) == cols * (inner / cols) + 2 * cols);
}

impl Grid {
    /// What holds of every grid a body lays out: a row of cards fits the
    /// area's width, and the rows it has room for fit its height, but for the
    /// one row that is always counted.
    pub open spec fn wf(self) -> bool {
        &&& 1 <= self.cols <= MAX_COLS
        &&& 1 <= self.rows_fit
        &&& self.cols * (self.card_w + GAP_X) - GAP_X <= self.area.width
        &&& self.rows_fit * row_step() - GAP_Y <= larger(
            self.area.height as int,
            CARD_H as int,
        )
        &&& self.card_w + GAP_X <= u16::MAX
        &&& self.area.right() <= u16::MAX
        &&& self.area.y + larger(self.area.height as int, CARD_H as int) <= u16::MAX
    }

    /// Where the card in `slot` goes.
    pub open spec fn cell_of(self, slot: int) -> Rect {
        Rect {
            x: (self.area.x + (slot % self.cols as int) * (self.card_w + GAP_X)) as u16,
            y: (self.area.y + (slot / self.cols as int) * row_step()) as u16,
            width: self.card_w,
            height: CARD_H,
        }
    }

    /// The corner of the card in `slot` can be named.
    pub open spec fn cell_in_range(self, slot: int) -> bool {
        &&& self.cols > 0
        &&& self.area.x + (slot % self.cols as int) * (self.card_w + GAP_X) <= u16::MAX
        &&& self.area.y + (slot / self.cols as int) * row_step() <= u16::MAX
        &&& self.card_w + GAP_X <= u16::MAX
    }

    /// Where the card in `slot` goes, counting from the first card drawn
    /// (slot 0 is the top-left of the scrolled window, not of the list).
    pub fn cell(&self, slot: usize) -> (r: Rect)
        requires
            self.cell_in_range(slot as int),
        ensures
            r == self.cell_of(slot as int),
    {
        let row: usize = slot / self.cols;
        let col: usize = slot % self.cols;
        let step: u16 = CARD_H + GAP_Y;
        proof {
            lemma_steps();
            assert(row * step == row * row_step()) by (nonlinear_arith)
                requires
                    step == 9,
            ;
            lemma_mul_nonnegative(col as int, self.card_w + GAP_X);
            if col > u16::MAX {
                lemma_mul_inequality(u16::MAX + 1, col as int, self.card_w + GAP_X);
            }
        }
        Rect {
            x: self.area.x + col as u16 * (self.card_w + GAP_X),
            y: self.area.y + row as u16 * step,
            width: self.card_w,
            height: CARD_H,
        }
    }

    /// Cards the window holds at once.
    pub fn page(&self) -> (r: usize)
        requires
            self.cols * self.rows_fit <= usize::MAX,
        ensures
            r == self.cols * self.rows_fit,
    {
        self.cols * self.rows_fit
    }

    /// The first card the window shows: the first of the row that keeps the
    /// cursor's row in sight.
    pub open spec fn window_from(self, cursor: Option<usize>) -> int {
        let at: int = match cursor {
            Some(c) => c as int,
            None => 0,
        };
        first_shown(at / self.cols as int, self.rows_fit as int) * self.cols
    }

    /// How many slots of the window are drawn whole.
    pub open spec fn whole_slots(self) -> int {
        smaller(self.rows_fit as int, whole_rows(self.area.height as int)) * self.cols
    }

    /// How many of `total` cards the window draws.
    pub open spec fn shown_of(self, cursor: Option<usize>, total: usize) -> int {
        smaller(less(total as int, self.window_from(cursor)), self.whole_slots())
    }

    /// The cards the window leaves off.
    pub open spec fn hidden_of(self, cursor: Option<usize>, total: usize) -> Hidden {
        Hidden {
            above: smaller(self.window_from(cursor), total as int) as usize,
            below: less(
                total as int,
                self.window_from(cursor) + self.shown_of(cursor, total),
            ) as usize,
        }
    }

    /// The slice of `total` cards this window actually draws, with the
    /// cursor on `cursor`: where it starts, and how many cards follow it
    /// on screen. The count stops at the last WHOLE row the area has room
    /// for — a card is drawn entire or not at all — so a body too short
    /// for even one reports none rather than a clipped one.
    pub fn window(&self, cursor: Option<usize>, total: usize) -> (r: (usize, usize))
        requires
            self.wf(),
            cursor is Some ==> cursor->0 < usize::MAX,
        ensures
            r.0 == self.window_from(cursor),
            r.1 == self.shown_of(cursor, total),
    {
        let at: usize = match cursor {
            Some(c) => c,
            None => 0,
        };
        proof {
            lemma_window_from(*self, cursor);
            lemma_fundamental_div_mod(at as int, self.cols as int);
            lemma_mul_inequality(self.rows_fit as int, 65536, self.cols as int);
            lemma_mul_is_commutative(self.cols as int, self.rows_fit as int);
        }
        let start: usize = window_start(at / self.cols, self.rows_fit) * self.cols;
        let bottom: u16 = self.area.y + self.area.height;
        let page: usize = self.page();
        let mut fits: usize = 0;
        while fits < page && self.fits_whole(fits, bottom)
            invariant
                self.wf(),
                page == self.cols * self.rows_fit,
                bottom == self.area.bottom(),
                fits <= page,
                forall|slot: int| 0 <= slot < fits ==> self.whole(slot),
            decreases page - fits,
        {
            fits += 1;
        }
        proof {
            lemma_whole_slots(*self, fits as int);
        }
        (start, min_usize(total.saturating_sub(start), fits))
    }

    /// The card in `slot` ends inside the area.
    pub open spec fn whole(self, slot: int) -> bool {
        (slot / self.cols as int) * row_step() + CARD_H <= self.area.height
    }

    fn fits_whole(&self, slot: usize, bottom: u16) -> (r: bool)
        requires
            self.wf(),
            slot < self.cols * self.rows_fit,
            bottom == self.area.bottom(),
        ensures
            r == self.whole(slot as int),
    {
        proof {
            lemma_slot_in_range(*self, slot as int);
        }
        let cell = self.cell(slot);
        cell.y + cell.height <= bottom
    }

    /// How many of `total` cards the window leaves off screen, split by
    /// which way they went: scrolled off the top, or past the bottom edge.
    pub fn hidden(&self, cursor: Option<usize>, total: usize) -> (r: Hidden)
        requires
            self.wf(),
            cursor is Some ==> cursor->0 < usize::MAX,
        ensures
            r == self.hidden_of(cursor, total),
            r.above + r.below <= total,
    {
        let (start, shown) = self.window(cursor, total);
        proof {
            lemma_whole_slots_bound(*self);
        }
        if start > total {
            Hidden { above: total, below: 0 }
        } else {
            Hidden { above: min_usize(start, total), below: total - start - shown }
        }
    }
}

pub(crate) proof fn lemma_whole_slots_bound(g: Grid)
    requires
        g.wf(),
    ensures
        0 <= g.whole_slots(),
{
    lemma_mul_nonnegative(
        smaller(g.rows_fit as int, whole_rows(g.area.height as int)),
        g.cols as int,
    );
}

pub(crate) proof fn lemma_window_from(g: Grid, cursor: Option<usize>)
    requires
        g.wf(),
    ensures
        0 <= g.window_from(cursor),
        g.window_from(cursor) <= match cursor {
            Some(c) => c as int,
            None => 0,
        },
{
    let at: int = match cursor {
        Some(c) => c as int,
        None => 0,
    };
    let row = at / g.cols as int;
    lemma_fundamental_div_mod(at, g.cols as int);
    lemma_mul_nonnegative(first_shown(row, g.rows_fit as int), g.cols as int);
    lemma_mul_inequality(first_shown(row, g.rows_fit as int), row, g.cols as int);
    lemma_mul_is_commutative(g.cols as int, row);
}

pub(crate) proof fn lemma_slot_in_range(g: Grid, slot: int)
    requires
        g.wf(),
        0 <= slot < g.cols * g.rows_fit,
    ensures
        g.cell_in_range(slot),
        0 <= slot / g.cols as int,
        slot / (g.cols as int) < g.rows_fit,
        g.area.y + (slot / g.cols as int) * row_step() + CARD_H <= u16::MAX,
{
    let cols = g.cols as int;
    let row = slot / cols;
    let col = slot % cols;
    lemma_fundamental_div_mod(slot, cols);
    lemma_mod_bound(slot, cols);
    if row >= g.rows_fit {
        lemma_mul_inequality(g.rows_fit as int, row, cols);
        lemma_mul_is_commutative(cols, row);
        lemma_mul_is_commutative(g.rows_fit as int, cols);
    }
    lemma_mul_inequality(col, cols - 1, g.card_w + GAP_X);
    lemma_mul_is_distributive_sub_other_way(g.card_w + GAP_X, cols, 1);
    lemma_mul_nonnegative(col, g.card_w + GAP_X);
}

proof fn lemma_whole_slots(g: Grid, fits: int)
    requires
        g.wf(),
        0 <= fits <= g.cols * g.rows_fit,
        forall|slot: int| 0 <= slot < fits ==> g.whole(slot),
        fits < g.cols * g.rows_fit ==> !g.whole(fits),
    ensures
        fits == g.whole_slots(),
{
    let cols = g.cols as int;
    let whole = whole_rows(g.area.height as int);
    let rows = smaller(g.rows_fit as int, whole);
    assert(forall|slot: int| g.whole(slot) <==> slot / cols < whole);
    lemma_mul_is_commutative(cols, g.rows_fit as int);
    lemma_mul_inequality(rows, g.rows_fit as int, cols);
    lemma_mul_nonnegative(rows, cols);
    if fits > rows * cols {
        lemma_div_multiples_vanish(rows, cols);
        lemma_mul_is_commutative(rows, cols);
        assert((rows * cols) / cols == rows);
        assert(g.whole(rows * cols));
        assert(rows < whole);
        assert(fits > g.rows_fit * cols);
    }
    if fits < rows * cols {
        lemma_fundamental_div_mod(fits, cols);
        lemma_mod_bound(fits, cols);
        if fits / cols >= rows {
            lemma_mul_inequality(rows, fits / cols, cols);
            lemma_mul_is_commutative(cols, fits / cols);
        }
        assert(g.whole(fits));
    }
}

/// Cards a grid holds but does not draw. Counted both ways round so the
/// header can point at them: `above` are scrolled off the top, `below` are
/// past the bottom edge.
#[derive(Debug, Clone, Copy, PartialEq, Eq, Structural)]
pub struct Hidden {
    pub above: usize,
    pub below: usize,
}

impl Default for Hidden {
    fn default() -> (r: Self)
        ensures
            r == (Hidden { above: 0, below: 0 }),
    {
        Hidden { above: 0, below: 0 }
    }
}

impl Hidden {
    /// Cards off screen either way. Zero when the grid holds the lot.
    pub fn total(self) -> (r: usize)
        requires
            self.above + self.below <= usize::MAX,
        ensures
            r == self.above + self.below,
    {
        self.above + self.below
    }
}

/// The card a step lands on, in whole numbers: along the row for `dx`, held
/// to the cards of that row; along the column for `dy`, held to the rows and
/// to the last card.
pub open spec fn stepped(at: Option<usize>, dx: int, dy: int, cols: int, len: int) -> Option<int> {
    let c = larger(cols, 1);
    let last = len - 1;
    if len == 0 {
        None
    } else {
        match at {
            None => Some(
                if dx + dy >= 0 {
                    0
                } else {
                    last
                },
            ),
            Some(a) => {
                let row = a as int / c;
                let col = a as int % c;
                if dx != 0 {
                    Some(row * c + held(col + dx, 0, smaller(last - row * c, c - 1)))
                } else {
                    Some(smaller(held(row + dy, 0, last / c) * c + col, last))
                }
            },
        }
    }
}

/// The step's arithmetic stays in range, and a step along a row starts in a
/// row the grid has.
pub open spec fn step_in_range(at: Option<usize>, dx: i64, dy: i64, cols: usize, len: usize) -> bool {
    let c = larger(cols as int, 1);
    &&& len <= i64::MAX
    &&& c <= i64::MAX
    &&& match at {
        None => i64::MIN <= dx + dy <= i64::MAX,
        Some(a) => {
            &&& a <= i64::MAX
            &&& dx != 0 ==> {
                &&& (a as int / c) * c < len
                &&& a as int % c + dx <= i64::MAX
            }
            &&& dx == 0 ==> {
                &&& a as int / c + dy <= i64::MAX
                &&& held(a as int / c + dy, 0, (len - 1) / c) * c + a as int % c <= i64::MAX
            }
        },
    }
}

/// The card `dx` columns and `dy` rows from `at`, clamped to the grid.
///
/// Each step stays in its own axis: `h`/`l` walk the cursor's own row and
/// stop at its ends rather than wrapping onto the next, and `j`/`k` walk
/// the column and stop at the top and bottom rows rather than sliding
/// along one. A downward step into a short last row lands on its last
/// card, so `j` off the bottom of a column never falls through the grid.
/// From no cursor, a forward step takes the first card and a backward one
/// the last. None only for an empty grid.
pub fn grid_stepped(at: Option<usize>, dx: i64, dy: i64, cols: usize, len: usize) -> (r: Option<
    usize,
>)
    requires
        len > 0 ==> step_in_range(at, dx, dy, cols, len),
    ensures
        r is None <==> len == 0,
        r is Some ==> Some(r->0 as int) == stepped(at, dx as int, dy as int, cols as int, len as int),
        r is Some ==> r->0 < len,
{
    if len == 0 {
        return None;
    }
    proof {
        lemma_stepped_in_grid(at, dx as int, dy as int, cols as int, len as int);
    }
    let at: usize = match at {
        Some(a) => a,
        None => {
            return Some(
                if dx + dy >= 0 {
                    0
                } else {
                    len - 1
                },
            );
        },
    };
    let c: i64 = max_usize(cols, 1) as i64;
    let last: i64 = len as i64 - 1;
    let row: i64 = at as i64 / c;
    let col: i64 = at as i64 % c;
    proof {
        lemma_fundamental_div_mod(at as int, c as int);
        lemma_fundamental_div_mod(last as int, c as int);
        lemma_mul_is_commutative(c as int, row as int);
        lemma_mul_is_commutative(c as int, last as int / c as int);
        lemma_mul_nonnegative(row as int, c as int);
    }
    if dx != 0 {
        // The last card of this row — the row's own right-hand end, which
        // on a short last row is before the column count.
        let row_end: i64 = clamped(last - row * c, 0, c - 1);
        return Some((row * c + clamped(col + dx, 0, row_end)) as usize);
    }
    let rows: i64 = last / c;
    let to: i64 = clamped(row + dy, 0, rows);
    proof {
        lemma_mul_nonnegative(to as int, c as int);
        lemma_mul_inequality(to as int, rows as int, c as int);
    }
    let landed: i64 = to * c + col;
    Some(
        if landed < last {
            landed as usize
        } else {
            last as usize
        },
    )
}

fn clamped(n: i64, lo: i64, hi: i64) -> (r: i64)
    requires
        lo <= hi,
    ensures
        r == held(n as int, lo as int, hi as int),
{
    if n < lo {
        lo
    } else if n > hi {
        hi
    } else {
        n
    }
}

proof fn lemma_stepped_in_grid(at: Option<usize>, dx: int, dy: int, cols: int, len: int)
    requires
        len > 0,
        at is Some && dx != 0 ==> (at->0 as int / larger(cols, 1)) * larger(cols, 1) < len,
    ensures
        0 <= stepped(at, dx, dy, cols, len)->0 < len,
{
    if let Some(a) = at {
        let c = larger(cols, 1);
        let row = a as int / c;
        lemma_fundamental_div_mod(a as int, c);
        lemma_mod_bound(a as int, c);
        lemma_mul_is_commutative(c, row);
        lemma_mul_nonnegative(row, c);
        let to = held(row + dy, 0, (len - 1) / c);
        lemma_mul_nonnegative(to, c);
    }
}

// ---- what holds of it ----

/// However small the body, a grid has one to four columns and at least a row,
/// and where it has more than one column no card is under the minimum width.
pub proof fn law_columns_hold_the_minimum(body: Rect)
    ensures
        1 <= grid_of(body).cols <= MAX_COLS,
        1 <= grid_of(body).rows_fit,
        grid_of(body).cols > 1 ==> grid_of(body).card_w >= CARD_MIN_W,
{
    let g = grid_of(body);
    let w = g.area.width as int;
    let cols = columns(w);
    assert(cols == 1 || cols == 2 || cols == 3 || cols == 4);
    if cols == 2 {
    } else if cols == 3 {
    } else if cols == 4 {
    }
}

/// The cards of a window never overlap, and each one that ends inside the
/// area stands inside it whole.
pub proof fn law_cards_stand_apart(g: Grid, a: int, b: int)
    requires
        g.wf(),
        0 <= a < g.cols * g.rows_fit,
        0 <= b < g.cols * g.rows_fit,
        a != b,
    ensures
        g.cell_of(a).apart(g.cell_of(b)),
        g.whole(a) ==> g.cell_of(a).within(g.area),
{
    let cols = g.cols as int;
    lemma_slot_in_range(g, a);
    lemma_slot_in_range(g, b);
    lemma_fundamental_div_mod(a, cols);
    lemma_fundamental_div_mod(b, cols);
    lemma_mod_bound(a, cols);
    lemma_mod_bound(b, cols);
    let step = g.card_w + GAP_X;
    let ca = a % cols;
    let cb = b % cols;
    lemma_mul_nonnegative(ca, step);
    lemma_mul_nonnegative(cb, step);
    if a / cols == b / cols {
        if ca < cb {
            lemma_mul_inequality(ca + 1, cb, step);
            lemma_mul_is_distributive_add_other_way(step, ca, 1);
        } else {
            lemma_mul_inequality(cb + 1, ca, step);
            lemma_mul_is_distributive_add_other_way(step, cb, 1);
        }
    }
    lemma_mul_inequality(ca, cols - 1, step);
    lemma_mul_is_distributive_sub_other_way(step, cols, 1);
}

/// The number the header says is hidden is exactly the number the grid left
/// off: what is above, what is shown and what is below make up the list.
pub proof fn law_hidden_is_what_was_left_off(g: Grid, cursor: Option<usize>, total: usize)
    requires
        g.wf(),
    ensures
        g.hidden_of(cursor, total).above + g.shown_of(cursor, total) + g.hidden_of(
            cursor,
            total,
        ).below == total,
{
    lemma_window_from(g, cursor);
    lemma_whole_slots_bound(g);
}

/// The card under the cursor is one of those the window draws, wherever a
/// card fits the area at all.
pub proof fn law_cursor_stays_in_sight(g: Grid, cursor: usize, total: usize)
    requires
        g.wf(),
        cursor < total,
        g.area.height >= CARD_H,
    ensures
        g.window_from(Some(cursor)) <= cursor,
        cursor < g.window_from(Some(cursor)) + g.shown_of(Some(cursor), total),
{
    let cols = g.cols as int;
    let row = cursor as int / cols;
    let from = first_shown(row, g.rows_fit as int);
    lemma_window_from(g, Some(cursor));
    lemma_fundamental_div_mod(cursor as int, cols);
    lemma_mod_bound(cursor as int, cols);
    lemma_mul_is_commutative(cols, row);
    assert(whole_rows(g.area.height as int) >= g.rows_fit);
    lemma_mul_inequality(row + 1, from + g.rows_fit, cols);
    lemma_mul_is_distributive_add_other_way(cols, row, 1);
    lemma_mul_is_distributive_add_other_way(cols, from, g.rows_fit as int);
}

/// A step along a row stays in that row.
pub proof fn law_sideways_keeps_the_row(at: usize, dx: int, cols: int, len: int)
    requires
        dx != 0,
        cols >= 1,
        at < len,
    ensures
        stepped(Some(at), dx, 0, cols, len)->0 / cols == at as int / cols,
{
    let row = at as int / cols;
    lemma_fundamental_div_mod(at as int, cols);
    lemma_mod_bound(at as int, cols);
    lemma_mul_is_commutative(cols, row);
    let col = held(at as int % cols + dx, 0, smaller(len - 1 - row * cols, cols - 1));
    lemma_fundamental_div_mod_converse(row * cols + col, cols, row, col);
}

/// A step along a column stays in that column, or lands on the last card of a
/// short last row.
pub proof fn law_up_and_down_keep_the_column(at: usize, dy: int, cols: int, len: int)
    requires
        cols >= 1,
        at < len,
    ensures
        stepped(Some(at), 0, dy, cols, len)->0 % cols == at as int % cols || stepped(
            Some(at),
            0,
            dy,
            cols,
            len,
        )->0 == len - 1,
{
    let row = at as int / cols;
    let col = at as int % cols;
    lemma_mod_bound(at as int, cols);
    let to = held(row + dy, 0, (len - 1) / cols);
    lemma_fundamental_div_mod_converse(to * cols + col, cols, to, col);
}

/// A step of any size lands on a card of the grid, and staying put stays put.
pub proof fn law_steps_stay_in_the_grid(at: usize, dx: int, dy: int, cols: int, len: int)
    requires
        cols >= 1,
        at < len,
    ensures
        0 <= stepped(Some(at), dx, dy, cols, len)->0 < len,
        stepped(Some(at), 0, 0, cols, len) == Some(at as int),
{
    lemma_fundamental_div_mod(at as int, cols);
    lemma_mod_bound(at as int, cols);
    let row = at as int / cols;
    lemma_mul_is_commutative(cols, row);
    lemma_mul_nonnegative(row, cols);
    lemma_stepped_in_grid(Some(at), dx, dy, cols, len);
    lemma_div_is_ordered(at as int, len - 1, cols);
}

/// The cards have the body less two columns on either side and the header's
/// rows on top.
pub proof fn law_cards_keep_the_margin(body: Rect, x: int, y: int)
    requires
        room_to_draw(body),
    ensures
        grid_of(body).area.has(x, y) <==> {
            &&& body.x + PAD_X <= x < body.x + body.width - PAD_X
            &&& body.y + HEAD_H <= y < body.y + body.height
        },
        grid_of(body).area.x == body.x + PAD_X,
        grid_of(body).area.y == body.y + HEAD_H,
{
}

/// The grid packs as many cards into the area as it can: short of the most a
/// row may hold, one more column of the narrowest cards would not fit; a column
/// more on every card would not fit; one more row of cards would not fit.
pub proof fn law_no_more_cards_would_fit(body: Rect)
    ensures
        ({
            let g = grid_of(body);
            let gaps = GAP_X * (g.cols - 1);
            &&& g.cols < MAX_COLS ==> (g.cols + 1) * (CARD_MIN_W + GAP_X) - GAP_X > g.area.width
            &&& g.cols * (g.card_w + 1) + gaps > g.area.width
            &&& g.area.width >= gaps ==> g.cols * g.card_w + gaps <= g.area.width
            &&& (g.rows_fit + 1) * (CARD_H + GAP_Y) - GAP_Y > g.area.height
            &&& g.rows_fit > 1 ==> g.rows_fit * (CARD_H + GAP_Y) - GAP_Y <= g.area.height
        }),
{
    lemma_steps();
    let g = grid_of(body);
    let w = g.area.width as int;
    let cols = columns(w);
    assert(cols == 1 || cols == 2 || cols == 3 || cols == 4);
    let inner = less(w, GAP_X * (cols - 1));
    lemma_fundamental_div_mod(inner, cols);
    lemma_mod_bound(inner, cols);
    lemma_mul_is_distributive_add(cols, inner / cols, 1);
}

/// The first card is at the area's corner; the next one of the same row stands
/// a card and a gap to the right of it, and the one under it a card and a gap
/// below.
pub proof fn law_cards_run_along_the_rows(g: Grid, slot: int)
    requires
        g.wf(),
        0 <= slot,
        slot + 1 < g.cols * g.rows_fit,
    ensures
        g.cell_of(0).x == g.area.x && g.cell_of(0).y == g.area.y,
        g.cell_of(slot).width == g.card_w && g.cell_of(slot).height == CARD_H,
        (slot + 1) % (g.cols as int) != 0 ==> {
            &&& g.cell_of(slot + 1).x == g.cell_of(slot).x + g.card_w + GAP_X
            &&& g.cell_of(slot + 1).y == g.cell_of(slot).y
        },
        (slot + 1) % (g.cols as int) == 0 ==> {
            &&& g.cell_of(slot + 1).x == g.area.x
            &&& g.cell_of(slot + 1).y == g.cell_of(slot).y + CARD_H + GAP_Y
        },
{
    lemma_steps();
    let cols = g.cols as int;
    let step = g.card_w + GAP_X;
    lemma_slot_in_range(g, slot);
    lemma_slot_in_range(g, slot + 1);
    lemma_fundamental_div_mod(slot, cols);
    lemma_mod_bound(slot, cols);
    let (row, col) = (slot / cols, slot % cols);
    lemma_mul_is_commutative(cols, row);
    lemma_mul_nonnegative(col, step);
    lemma_small_mod(0, cols as nat);
    lemma_basic_div(0, cols);
    lemma_mul_basics(step);
    if col + 1 < cols {
        lemma_fundamental_div_mod_converse(slot + 1, cols, row, col + 1);
        lemma_mul_is_distributive_add_other_way(step, col, 1);
    } else {
        lemma_mul_is_distributive_add_other_way(cols, row, 1);
        lemma_fundamental_div_mod_converse(slot + 1, cols, row + 1, 0);
    }
}

/// The window starts at a row's first card, at the top of the list while the
/// cursor is in the rows that fit there, and past that no further down than
/// brings the cursor's row in at the bottom.
pub proof fn law_window_scrolls_by_rows(g: Grid, cursor: usize)
    requires
        g.wf(),
    ensures
        g.window_from(Some(cursor)) % (g.cols as int) == 0,
        cursor < g.cols * g.rows_fit ==> g.window_from(Some(cursor)) == 0,
        cursor >= g.cols * g.rows_fit ==> {
            &&& cursor < g.window_from(Some(cursor)) + g.cols * g.rows_fit
            &&& cursor >= g.window_from(Some(cursor)) + g.cols * (g.rows_fit - 1)
        },
        g.window_from(None) == 0,
{
    let cols = g.cols as int;
    let fit = g.rows_fit as int;
    let row = cursor as int / cols;
    let from = first_shown(row, fit);
    lemma_fundamental_div_mod(cursor as int, cols);
    lemma_mod_bound(cursor as int, cols);
    lemma_mul_is_commutative(cols, row);
    lemma_mul_is_commutative(cols, fit);
    lemma_mod_multiples_basic(from, cols);
    lemma_basic_div(0, cols);
    lemma_mul_basics(cols);
    if cursor < cols * fit {
        if row >= fit {
            lemma_mul_inequality(fit, row, cols);
        }
    } else {
        if row < fit {
            lemma_mul_inequality(row + 1, fit, cols);
            lemma_mul_is_distributive_add_other_way(cols, row, 1);
        }
        assert(from == row + 1 - fit);
        lemma_mul_is_distributive_sub_other_way(cols, row + 1, fit);
        lemma_mul_is_distributive_add_other_way(cols, row, 1);
        lemma_mul_is_distributive_sub(cols, fit, 1);
    }
}

/// The window draws every card from its first on that there is and that ends
/// inside the area: each one drawn does, and where one is left off below, the
/// next one would not have.
pub proof fn law_window_draws_what_ends_inside(
    g: Grid,
    cursor: Option<usize>,
    total: usize,
    slot: int,
)
    requires
        g.wf(),
        0 <= slot,
    ensures
        slot < g.shown_of(cursor, total) ==> {
            &&& g.window_from(cursor) + slot < total
            &&& slot < g.cols * g.rows_fit
            &&& g.cell_of(slot).y + CARD_H <= g.area.y + g.area.height
        },
        slot >= g.shown_of(cursor, total) && slot < g.cols * g.rows_fit ==> {
            ||| g.window_from(cursor) + slot >= total
            ||| g.cell_of(slot).y + CARD_H > g.area.y + g.area.height
        },
{
    let cols = g.cols as int;
    let fit = g.rows_fit as int;
    let whole = whole_rows(g.area.height as int);
    let rows = smaller(fit, whole);
    lemma_whole_slots_bound(g);
    lemma_mul_inequality(rows, fit, cols);
    lemma_mul_is_commutative(cols, fit);
    lemma_fundamental_div_mod(slot, cols);
    lemma_mod_bound(slot, cols);
    let row = slot / cols;
    lemma_mul_is_commutative(cols, row);
    if slot < cols * fit {
        lemma_slot_in_range(g, slot);
    }
    if slot < rows * cols {
        if row >= rows {
            lemma_mul_inequality(rows, row, cols);
        }
    } else {
        if row < rows {
            lemma_mul_inequality(row + 1, rows, cols);
            lemma_mul_is_distributive_add_other_way(cols, row, 1);
        }
    }
}

/// A list is scrolled no further than brings the row under the cursor in: not
/// at all while it is one of the first `height`, and else to where it is the
/// last one shown.
pub proof fn law_list_scrolls_no_further_than_needed(selected: int, height: int)
    requires
        0 <= selected,
        0 < height,
    ensures
        selected < height ==> first_shown(selected, height) == 0,
        selected >= height ==> first_shown(selected, height) + height - 1 == selected,
{
}

/// A step of `dx` along a row lands `dx` cards on where the row has such a
/// card; else on the end of the row it was going to. It goes along the row
/// whatever `dy` is.
pub proof fn law_sideways_goes_that_far(at: usize, dx: int, dy: int, cols: int, len: int)
    requires
        dx != 0,
        cols >= 1,
        at < len,
    ensures
        ({
            let col = at as int % cols;
            let to = stepped(Some(at), dx, dy, cols, len);
            &&& to is Some
            &&& 0 <= col + dx < cols && at + dx < len ==> to->0 == at + dx
            &&& col + dx < 0 ==> to->0 == at - col
            &&& col + dx >= cols && at - col + cols <= len ==> to->0 == at - col + cols - 1
            &&& dx > 0 && at + dx >= len && at - col + cols > len ==> to->0 == len - 1
        }),
{
    lemma_fundamental_div_mod(at as int, cols);
    lemma_mod_bound(at as int, cols);
    lemma_mul_is_commutative(cols, at as int / cols);
}

/// A step of `dy` down a column lands on the card that many rows on, in the
/// same column, where there is one; in a row that is too short for the column,
/// and on a step past the bottom row, on the last card at most; on a step past
/// the top, on the top row's card of the column. From no cursor a step forward
/// lands on the first card and a step back on the last.
pub proof fn law_up_and_down_go_that_far(at: usize, dy: int, cols: int, len: int)
    requires
        cols >= 1,
        at < len,
    ensures
        ({
            let col = at as int % cols;
            let to = stepped(Some(at), 0, dy, cols, len);
            &&& to is Some
            &&& 0 <= at + dy * cols < len ==> to->0 == at + dy * cols
            &&& at + dy * cols < 0 ==> to->0 == col
            &&& at + dy * cols >= len ==> to->0 > len - 1 - cols && (to->0 % cols == col || to->0
                == len - 1)
            &&& at + dy * cols >= len && (at + dy * cols) / cols == (len - 1) / cols ==> to->0
                == len - 1
        }),
        stepped(None, 0, dy, cols, len) == Some(
            if dy >= 0 {
                0int
            } else {
                len - 1
            },
        ),
{
    let row = at as int / cols;
    let col = at as int % cols;
    let last = len - 1;
    lemma_fundamental_div_mod(at as int, cols);
    lemma_fundamental_div_mod(last, cols);
    lemma_mod_bound(at as int, cols);
    lemma_mod_bound(last, cols);
    lemma_mul_is_commutative(cols, row);
    lemma_mul_is_commutative(cols, last / cols);
    lemma_mul_is_distributive_add_other_way(cols, row, dy);
    let r = row + dy;
    assert(at + dy * cols == r * cols + col);
    lemma_fundamental_div_mod_converse(r * cols + col, cols, r, col);
    lemma_mul_basics(cols);
    if r < 0 {
        lemma_mul_inequality(r, -1, cols);
    } else {
        lemma_mul_nonnegative(r, cols);
        if r > last / cols {
            lemma_mul_inequality(last / cols + 1, r, cols);
            lemma_mul_is_distributive_add_other_way(cols, last / cols, 1);
        }
    }
    law_up_and_down_keep_the_column(at, dy, cols, len);
}

} // verus!
