//! Rectangles of screen cells.

use vstd::prelude::*;

verus! {

/// A rectangle of cells: the column and row of its top left corner, and its
/// size.
#[derive(Debug, Clone, Copy, PartialEq, Eq, Structural)]
pub struct Rect {
    pub x: u16,
    pub y: u16,
    pub width: u16,
    pub height: u16,
}

impl Default for Rect {
    fn default() -> (r: Self)
        ensures
            r == (Rect { x: 0, y: 0, width: 0, height: 0 }),
    {
        Rect { x: 0, y: 0, width: 0, height: 0 }
    }
}

impl Rect {
    /// The column right of the last.
    pub open spec fn right(self) -> int {
        self.x + self.width
    }

    /// The row below the last.
    pub open spec fn bottom(self) -> int {
        self.y + self.height
    }

    /// Every column and row of it, and the ones just past it, can be named.
    pub open spec fn in_range(self) -> bool {
        self.right() <= u16::MAX && self.bottom() <= u16::MAX
    }

    /// The cell in column `x`, row `y` is one of its cells.
    pub open spec fn has(self, x: int, y: int) -> bool {
        self.x <= x < self.right() && self.y <= y < self.bottom()
    }

    /// No cell outside `other`.
    pub open spec fn within(self, other: Rect) -> bool {
        forall|x: int, y: int| #[trigger] self.has(x, y) ==> other.has(x, y)
    }

    /// No cell in common with `other`.
    pub open spec fn apart(self, other: Rect) -> bool {
        forall|x: int, y: int| #[trigger] self.has(x, y) ==> !other.has(x, y)
    }
}

/// The larger of two numbers.
pub open spec fn larger(a: int, b: int) -> int {
    if a >= b {
        a
    } else {
        b
    }
}

/// The smaller of two numbers.
pub open spec fn smaller(a: int, b: int) -> int {
    if a <= b {
        a
    } else {
        b
    }
}

/// `n` held to at least `lo` and then to at most `hi`.
pub open spec fn held(n: int, lo: int, hi: int) -> int {
    smaller(larger(n, lo), hi)
}

/// What is left of `a` after `b` is taken off; nothing when `b` is more.
pub open spec fn less(a: int, b: int) -> int {
    if a >= b {
        a - b
    } else {
        0
    }
}

pub fn min_u16(a: u16, b: u16) -> (r: u16)
    ensures
        r <= a && r <= b && (r == a || r == b),
        r == smaller(a as int, b as int),
{
    if a <= b {
        a
    } else {
        b
    }
}

pub fn max_u16(a: u16, b: u16) -> (r: u16)
    ensures
        r >= a && r >= b && (r == a || r == b),
        r == larger(a as int, b as int),
{
    if a >= b {
        a
    } else {
        b
    }
}

pub fn min_usize(a: usize, b: usize) -> (r: usize)
    ensures
        r <= a && r <= b && (r == a || r == b),
        r == smaller(a as int, b as int),
{
    if a <= b {
        a
    } else {
        b
    }
}

pub fn max_usize(a: usize, b: usize) -> (r: usize)
    ensures
        r >= a && r >= b && (r == a || r == b),
        r == larger(a as int, b as int),
{
    if a >= b {
        a
    } else {
        b
    }
}

} // verus!
