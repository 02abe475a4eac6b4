//! Rows of a rectangle, the rule under a header, and the margins of the view.

use crate::grid::PAD_X;
use crate::layout::{less, smaller, Rect};
use vstd::prelude::*;

verus! {

/// Row `row` of `area`, while it has that many.
pub open spec fn row_of_rect(area: Rect, row: int) -> Option<Rect> {
    if row < area.height {
        Some(Rect { y: (area.y + row) as u16, height: 1, ..area })
    } else {
        None
    }
}

/// Row `row` of `area`, while it has that many.
pub fn row_rect(area: Rect, row: usize) -> (r: Option<Rect>)
    requires
        row < area.height ==> area.y + row <= u16::MAX,
    ensures
        r == row_of_rect(area, row as int),
{
    if row < area.height as usize {
        Some(Rect { y: area.y + row as u16, height: 1, ..area })
    } else {
        None
    }
}

/// What is left of `r` inside the view's margins.
pub open spec fn padded(r: Rect) -> Rect {
    Rect { x: (r.x + PAD_X) as u16, width: less(r.width as int, PAD_X * 2) as u16, ..r }
}

/// The header's own margin, so its text lines up with the cards' left edge
/// rather than hugging the screen.
pub fn pad_x(r: Rect) -> (p: Rect)
    requires
        r.x + PAD_X <= u16::MAX,
    ensures
        p == padded(r),
{
    Rect { x: r.x + PAD_X, width: r.width.saturating_sub(PAD_X * 2), ..r }
}

/// Every cell of the header rows of `area`, inside the view's margins, can be
/// named.
pub open spec fn header_in_range(area: Rect) -> bool {
    area.height > 1 ==> {
        &&& area.x + PAD_X + less(area.width as int, PAD_X * 2) <= u16::MAX
        &&& area.y + smaller(area.height - 1, 2) <= u16::MAX
    }
}

/// The part of `area` under a three-row header.
pub open spec fn under_header(area: Rect) -> Rect {
    Rect { y: (area.y + 3) as u16, height: less(area.height as int, 3) as u16, ..area }
}

/// The part of `area` under a three-row header.
pub fn below_header(area: Rect) -> (r: Rect)
    requires
        area.y + 3 <= u16::MAX,
    ensures
        r == under_header(area),
{
    Rect { y: area.y + 3, height: area.height.saturating_sub(3), ..area }
}

// ---- what holds of it ----

/// The cells of row `row` are those of the area that far below its top, and
/// there is such a row exactly where the area is that tall.
pub proof fn law_row_is_that_far_down(area: Rect, row: int, x: int, y: int)
    requires
        area.in_range(),
        0 <= row,
    ensures
        row_of_rect(area, row) is Some <==> row < area.height,
        row < area.height ==> (row_of_rect(area, row)->0.has(x, y) <==> area.has(x, y) && y
            == area.y + row),
{
}

/// The margins are two columns on either side, and the header is the first
/// three rows.
pub proof fn law_margins_and_header_are_left_out(area: Rect, x: int, y: int)
    requires
        area.x + PAD_X + area.width <= u16::MAX,
        area.y + 3 + area.height <= u16::MAX,
    ensures
        padded(area).has(x, y) <==> area.has(x, y) && area.has(x - 2, y) && area.has(x + 2, y),
        under_header(area).has(x, y) <==> area.has(x, y) && area.has(x, y - 3),
{
}

} // verus!
