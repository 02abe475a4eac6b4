//! The PANE beside or under the grid: how large it stands, where the body is
//! cut for it, and the edge it is dragged by.

use crate::grid::{CARD_H, CARD_MIN_W, HEAD_H, PAD_X};
use crate::layout::{held, less, max_u16, min_u16, smaller, Rect};
use crate::text::{is_white_space, same_text, trim, trim_end, trim_start, trimmed};
use vstd::prelude::*;

verus! {

/// Shortest the PANE under the grid is worth drawing: its own three header
/// rows and enough of the session's screen under them that a reply reads as
/// a reply.
pub const PANE_MIN_H: u16 = 12;
/// Share of the body the pane takes once there is room for more than its
/// minimum: a third.
pub const PANE_SHARE: u16 = 3;
/// Narrowest the PANE beside the cards is worth drawing.
pub const PANE_MIN_W: u16 = 40;
/// What the GRID keeps beside a pane: one card and the margins either side
/// of it.
pub const GRID_MIN_W: u16 = CARD_MIN_W + PAD_X * 2;
/// What the GRID keeps above a pane: the header and one row of cards.
pub const GRID_MIN_H: u16 = HEAD_H + CARD_H;

/// How tall a pane under the cards stands: the height asked for, or a third
/// of the body, held between its own minimum and what the cards need. Nothing
/// where the body has no room for both.
pub open spec fn height_of_pane(body: Rect, want: Option<u16>) -> Option<u16> {
    if body.height < GRID_MIN_H + PANE_MIN_H {
        None
    } else {
        let asked = match want {
            Some(w) => w as int,
            None => body.height as int / PANE_SHARE as int,
        };
        Some(held(asked, PANE_MIN_H as int, body.height - GRID_MIN_H) as u16)
    }
}

/// How wide a pane beside the cards stands: the width asked for, or half of
/// the body, held between its own minimum and one column of cards. Nothing
/// where the body has no room for both, or for the pane's own height.
pub open spec fn width_of_pane(body: Rect, want: Option<u16>) -> Option<u16> {
    if body.width < GRID_MIN_W + PANE_MIN_W || body.height < PANE_MIN_H {
        None
    } else {
        let asked = match want {
            Some(w) => w as int,
            None => body.width as int / 2,
        };
        Some(held(asked, PANE_MIN_W as int, body.width - GRID_MIN_W) as u16)
    }
}

/// How tall the PANE stands in `body`: `want` — the height its top edge was
/// last dragged to — or the default third, held to [`PANE_MIN_H`] at the
/// bottom and to what the header and one row of cards need at the top. None
/// for a body with no room for both.
pub fn pane_height(body: Rect, want: Option<u16>) -> (r: Option<u16>)
    ensures
        r == height_of_pane(body, want),
{
    if body.height < GRID_MIN_H + PANE_MIN_H {
        return None;
    }
    let asked: u16 = match want {
        Some(w) => w,
        None => body.height / PANE_SHARE,
    };
    Some(min_u16(max_u16(asked, PANE_MIN_H), body.height - GRID_MIN_H))
}

/// How wide the PANE stands beside the cards: `want` — the width its edge
/// was last dragged to — or half the body, held to [`PANE_MIN_W`] at one end
/// and to one column of cards at the other.
pub fn pane_width(body: Rect, want: Option<u16>) -> (r: Option<u16>)
    ensures
        r == width_of_pane(body, want),
{
    if body.width < GRID_MIN_W + PANE_MIN_W || body.height < PANE_MIN_H {
        return None;
    }
    let asked: u16 = match want {
        Some(w) => w,
        None => body.width / 2,
    };
    Some(min_u16(max_u16(asked, PANE_MIN_W), body.width - GRID_MIN_W))
}

/// Where the PANE sits against the GRID: along the bottom, under the cards,
/// or down the right or the left side of them.
#[derive(Debug, Clone, Copy, PartialEq, Eq, Structural)]
pub enum PaneSide {
    Bottom,
    Right,
    Left,
}

impl Default for PaneSide {
    fn default() -> (r: Self)
        ensures
            r == PaneSide::Bottom,
    {
        PaneSide::Bottom
    }
}

impl PaneSide {
    /// The word a side is stored as.
    pub open spec fn word(self) -> Seq<char> {
        match self {
            PaneSide::Bottom => "bottom"@,
            PaneSide::Right => "right"@,
            PaneSide::Left => "left"@,
        }
    }

    /// The side a stored word stands for.
    pub open spec fn named(word: Seq<char>) -> PaneSide {
        if trim(word) == "right"@ {
            PaneSide::Right
        } else if trim(word) == "left"@ {
            PaneSide::Left
        } else {
            PaneSide::Bottom
        }
    }

    /// The word the configuration stores, and the value the settings row
    /// shows.
    pub fn as_str(self) -> (r: &'static str)
        ensures
            r@ == self.word(),
    {
        match self {
            PaneSide::Bottom => "bottom",
            PaneSide::Right => "right",
            PaneSide::Left => "left",
        }
    }

    /// A stored word read back. Anything else — a typo in a hand edit, a
    /// side a newer build added — is the bottom.
    pub fn parse(word: &str) -> (r: Self)
        ensures
            r == PaneSide::named(word@),
    {
        let word = trimmed(word);
        if same_text(&word, "right") {
            PaneSide::Right
        } else if same_text(&word, "left") {
            PaneSide::Left
        } else {
            PaneSide::Bottom
        }
    }

    /// The pane stands beside the cards rather than under them: its edge
    /// runs down the body, and is dragged sideways.
    pub fn beside(self) -> (r: bool)
        ensures
            r == (self != PaneSide::Bottom),
    {
        self != PaneSide::Bottom
    }

    /// The coordinate a drag of the pane's edge reads off the pointer: its
    /// row for an edge that runs across the body, its column for one that
    /// runs down it.
    pub fn along(self, column: u16, row: u16) -> (r: i32)
        ensures
            r == (if self == PaneSide::Bottom {
                row as int
            } else {
                column as int
            }),
    {
        if self.beside() {
            column as i32
        } else {
            row as i32
        }
    }
}

/// The side the pane is laid out on in `body`: the one `side` asks for,
/// or the bottom when the body is too narrow to stand the pane beside a
/// column of cards.
pub fn fitted_side(body: Rect, side: PaneSide) -> (r: PaneSide)
    ensures
        r == side_that_fits(body, side),
{
    if side.beside() && pane_width(body, None).is_none() {
        PaneSide::Bottom
    } else {
        side
    }
}

/// The side asked for, unless the body has no room for a pane there.
pub open spec fn side_that_fits(body: Rect, side: PaneSide) -> PaneSide {
    if side != PaneSide::Bottom && width_of_pane(body, None) is None {
        PaneSide::Bottom
    } else {
        side
    }
}

/// How many rows or columns the pane takes off the body.
pub open spec fn size_of_pane(body: Rect, side: PaneSide, want: Option<u16>) -> Option<u16> {
    if side == PaneSide::Bottom {
        height_of_pane(body, want)
    } else {
        width_of_pane(body, want)
    }
}

/// The body cut in two: the cards' part and the pane's.
pub open spec fn parts(body: Rect, side: PaneSide, want: Option<u16>) -> (Rect, Option<Rect>) {
    match size_of_pane(body, side, want) {
        None => (body, None),
        Some(n) => match side {
            PaneSide::Bottom => (
                Rect { height: (body.height - n) as u16, ..body },
                Some(Rect { y: (body.bottom() - n) as u16, height: n, ..body }),
            ),
            PaneSide::Right => (
                Rect { width: (body.width - n) as u16, ..body },
                Some(Rect { x: (body.right() - n) as u16, width: n, ..body }),
            ),
            PaneSide::Left => (
                Rect { x: (body.x + n) as u16, width: (body.width - n) as u16, ..body },
                Some(Rect { width: n, ..body }),
            ),
        },
    }
}

/// The corner of the part that does not start at the body's own corner can be
/// named.
pub open spec fn cut_in_range(body: Rect, side: PaneSide, want: Option<u16>) -> bool {
    match size_of_pane(body, side, want) {
        None => true,
        Some(n) => match side {
            PaneSide::Bottom => body.bottom() - n <= u16::MAX,
            PaneSide::Right => body.right() - n <= u16::MAX,
            PaneSide::Left => body.x + n <= u16::MAX,
        },
    }
}

/// The body in two: the view's own area — the PROJECT TABS and the GRID
/// under them — and the PANE along the bottom that reads whichever card the
/// cursor is on, [`pane_height`] tall. None for a body too short to hold
/// both: the grid takes every row of it.
pub fn split(body: Rect, want: Option<u16>) -> (r: (Rect, Option<Rect>))
    requires
        cut_in_range(body, PaneSide::Bottom, want),
    ensures
        r == parts(body, PaneSide::Bottom, want),
{
    let pane_h: u16 = match pane_height(body, want) {
        Some(h) => h,
        None => return (body, None),
    };
    let view = Rect { height: body.height - pane_h, ..body };
    let pane = Rect { y: view.y + view.height, height: pane_h, ..body };
    (view, Some(pane))
}

/// [`split`] for a pane on any side: `want` is the size the pane was last
/// dragged to along the axis `side` splits the body on — rows under the
/// cards, columns beside them. The side is taken as given; falling back to
/// the bottom on a narrow body is [`fitted_side`]'s.
pub fn split_at(body: Rect, side: PaneSide, want: Option<u16>) -> (r: (Rect, Option<Rect>))
    requires
        cut_in_range(body, side, want),
    ensures
        r == parts(body, side, want),
{
    if side == PaneSide::Bottom {
        return split(body, want);
    }
    let pane_w: u16 = match pane_width(body, want) {
        Some(w) => w,
        None => return (body, None),
    };
    let grid_w: u16 = body.width - pane_w;
    if side == PaneSide::Right {
        (
            Rect { width: grid_w, ..body },
            Some(Rect { x: body.x + grid_w, width: pane_w, ..body }),
        )
    } else {
        (
            Rect { x: body.x + pane_w, width: grid_w, ..body },
            Some(Rect { width: pane_w, ..body }),
        )
    }
}

/// Where the edge between the cards and `pane` sits, by the measure
/// [`PaneSide::along`] reads a pointer with: the pane's first row under
/// the cards, its first column right of them, and the grid's first column
/// right of a pane on the left.
pub fn pane_boundary(side: PaneSide, pane: Rect) -> (r: i32)
    ensures
        r == boundary(side, pane),
{
    match side {
        PaneSide::Bottom => pane.y as i32,
        PaneSide::Right => pane.x as i32,
        PaneSide::Left => pane.x as i32 + pane.width as i32,
    }
}

pub open spec fn boundary(side: PaneSide, pane: Rect) -> int {
    match side {
        PaneSide::Bottom => pane.y as int,
        PaneSide::Right => pane.x as int,
        PaneSide::Left => pane.right(),
    }
}

/// The row or column of the pane that faces the cards.
pub open spec fn edge(side: PaneSide, pane: Rect) -> Rect {
    match side {
        PaneSide::Bottom => Rect { height: smaller(pane.height as int, 1) as u16, ..pane },
        PaneSide::Right => Rect { width: smaller(pane.width as int, 1) as u16, ..pane },
        PaneSide::Left => if pane.width == 0 {
            pane
        } else {
            Rect { x: (pane.right() - 1) as u16, width: 1, ..pane }
        },
    }
}

/// The pane's edge facing the cards, one cell deep: the blank row a pane
/// under them opens with, or the column a pane beside them keeps clear on
/// that side ([`pane_content`]). The GRIP is drawn along it.
pub fn pane_edge(side: PaneSide, pane: Rect) -> (r: Rect)
    requires
        side == PaneSide::Left ==> pane.right() - 1 <= u16::MAX,
    ensures
        r == edge(side, pane),
{
    match side {
        PaneSide::Bottom => Rect { height: min_u16(pane.height, 1), ..pane },
        PaneSide::Right => Rect { width: min_u16(pane.width, 1), ..pane },
        PaneSide::Left => Rect {
            x: pane.x + pane.width.saturating_sub(1),
            width: min_u16(pane.width, 1),
            ..pane
        },
    }
}

/// The two rows or columns either side of the line between the cards and the
/// pane.
pub open spec fn grab_zone(side: PaneSide, pane: Rect) -> Rect {
    match side {
        PaneSide::Bottom => Rect {
            y: less(pane.y as int, 1) as u16,
            height: 2,
            ..pane
        },
        PaneSide::Right => Rect {
            x: less(pane.x as int, 1) as u16,
            width: 2,
            ..pane
        },
        PaneSide::Left => Rect { width: 2, ..edge(side, pane) },
    }
}

/// What a press on the pane's edge is caught by: [`pane_edge`] and the
/// grid's row or column next to it, so the pointer has two cells to find
/// rather than one.
pub fn pane_grab_zone(side: PaneSide, pane: Rect) -> (r: Rect)
    requires
        side == PaneSide::Left ==> pane.right() - 1 <= u16::MAX,
    ensures
        r == grab_zone(side, pane),
{
    let edge = pane_edge(side, pane);
    match side {
        PaneSide::Bottom => Rect { y: edge.y.saturating_sub(1), height: 2, ..edge },
        PaneSide::Right => Rect { x: edge.x.saturating_sub(1), width: 2, ..edge },
        PaneSide::Left => Rect { width: 2, ..edge },
    }
}

/// The pane without the column its edge takes.
pub open spec fn content(side: PaneSide, pane: Rect) -> Rect {
    if side == PaneSide::Bottom || pane.width == 0 {
        pane
    } else if side == PaneSide::Right {
        Rect { x: (pane.x + 1) as u16, width: (pane.width - 1) as u16, ..pane }
    } else {
        Rect { width: (pane.width - 1) as u16, ..pane }
    }
}

/// The part of the pane its header and the session's screen draw in: all
/// of it under the cards, whose frame opens on the blank row the grip
/// stands in; beside them, all but [`pane_edge`]'s column, so the screen
/// never runs under the grip.
pub fn pane_content(side: PaneSide, pane: Rect) -> (r: Rect)
    requires
        side == PaneSide::Right && pane.width > 0 ==> pane.x < u16::MAX,
    ensures
        r == content(side, pane),
{
    match side {
        PaneSide::Bottom => pane,
        PaneSide::Right => Rect {
            x: pane.x + min_u16(pane.width, 1),
            width: pane.width.saturating_sub(1),
            ..pane
        },
        PaneSide::Left => Rect { width: pane.width.saturating_sub(1), ..pane },
    }
}

// ---- what holds of it ----

/// A side read back from the word it is stored as is that side.
pub proof fn law_side_reads_back(side: PaneSide)
    ensures
        PaneSide::named(side.word()) == side,
{
    reveal_strlit("bottom");
    reveal_strlit("right");
    reveal_strlit("left");
    let w = side.word();
    assert(!is_white_space(w[0]) && !is_white_space(w.last()));
    assert(trim_start(w) == w && trim_end(w) == w);
    assert("bottom"@.len() == 6 && "right"@.len() == 5 && "left"@.len() == 4);
}

/// The cards' part and the pane's part make up the body: every cell of the
/// body is in exactly one of them, and they hold no other cell.
pub proof fn law_parts_cover_the_body(body: Rect, side: PaneSide, want: Option<u16>)
    requires
        body.in_range(),
    ensures
        cut_in_range(body, side, want),
        match parts(body, side, want) {
            (view, None) => view == body,
            (view, Some(pane)) => {
                &&& view.apart(pane)
                &&& forall|x: int, y: int|
                    #[trigger] body.has(x, y) <==> view.has(x, y) || pane.has(x, y)
            },
        },
{
}

/// A pane that is drawn at all leaves the cards their header and a row of
/// cards, or a column of them, and keeps its own minimum, whatever size was
/// asked for.
pub proof fn law_neither_part_folds_away(body: Rect, side: PaneSide, want: Option<u16>)
    ensures
        match parts(body, side, want) {
            (_, None) => true,
            (view, Some(pane)) => if side == PaneSide::Bottom {
                view.height >= GRID_MIN_H && pane.height >= PANE_MIN_H && pane.width == body.width
            } else {
                view.width >= GRID_MIN_W && pane.width >= PANE_MIN_W && pane.height == body.height
            },
        },
{
}

/// A size the pane has once taken it takes again: running the remembered size
/// back through changes nothing.
pub proof fn law_pane_size_settles(body: Rect, side: PaneSide, want: Option<u16>)
    ensures
        size_of_pane(body, side, size_of_pane(body, side, want)) == size_of_pane(body, side, want),
{
}

/// A pane is drawn on a body, or not, whatever size was asked for.
pub proof fn law_room_ignores_the_size(body: Rect, side: PaneSide, a: Option<u16>, b: Option<u16>)
    ensures
        size_of_pane(body, side, a) is Some <==> size_of_pane(body, side, b) is Some,
{
}

/// On the side that fits, a pane beside the cards always finds its room; a
/// body that is too narrow gets its pane along the bottom.
pub proof fn law_fitted_side_has_room(body: Rect, side: PaneSide, want: Option<u16>)
    ensures
        side_that_fits(body, side) == side || side_that_fits(body, side) == PaneSide::Bottom,
        side_that_fits(body, side) != PaneSide::Bottom ==> size_of_pane(
            body,
            side_that_fits(body, side),
            want,
        ) is Some,
        side_that_fits(body, side_that_fits(body, side)) == side_that_fits(body, side),
{
}

/// The edge is a row or column of the pane, and beside the cards the content
/// and the edge make up the pane without overlapping.
pub proof fn law_content_stays_off_the_edge(side: PaneSide, pane: Rect)
    requires
        pane.in_range(),
    ensures
        edge(side, pane).within(pane),
        content(side, pane).within(pane),
        side != PaneSide::Bottom ==> content(side, pane).apart(edge(side, pane)),
        side != PaneSide::Bottom ==> forall|x: int, y: int| #[trigger]
            pane.has(x, y) ==> content(side, pane).has(x, y) || edge(side, pane).has(x, y),
{
}

/// The pointer that drags the line reads the line where the pane was cut: the
/// boundary is the first row or column of whichever part comes second.
pub proof fn law_boundary_is_the_cut(body: Rect, side: PaneSide, want: Option<u16>)
    requires
        body.in_range(),
    ensures
        match parts(body, side, want) {
            (_, None) => true,
            (view, Some(pane)) => boundary(side, pane) == match side {
                PaneSide::Bottom => view.bottom(),
                PaneSide::Right => view.right(),
                PaneSide::Left => view.x as int,
            },
        },
{
}

/// Of a pane that was cut off a body, the grab zone is the edge and the row
/// or column of the cards beside it, and nothing outside the body.
pub proof fn law_grab_zone_straddles_the_cut(body: Rect, side: PaneSide, want: Option<u16>)
    requires
        body.in_range(),
    ensures
        match parts(body, side, want) {
            (_, None) => true,
            (view, Some(pane)) => {
                let zone = grab_zone(side, pane);
                &&& zone.within(body)
                &&& edge(side, pane).within(zone)
                &&& forall|x: int, y: int| #[trigger]
                    zone.has(x, y) && pane.has(x, y) ==> edge(side, pane).has(x, y)
                &&& body.width > 0 ==> exists|x: int, y: int| #[trigger]
                    zone.has(x, y) && view.has(x, y)
            },
        },
{
    match parts(body, side, want) {
        (_, None) => {},
        (view, Some(pane)) => {
            let zone = grab_zone(side, pane);
            match side {
                PaneSide::Bottom => {
                    if body.width > 0 {
                        assert(zone.has(pane.x as int, pane.y - 1) && view.has(
                            pane.x as int,
                            pane.y - 1,
                        ));
                    }
                },
                PaneSide::Right => {
                    assert(zone.has(pane.x - 1, pane.y as int) && view.has(
                        pane.x - 1,
                        pane.y as int,
                    ));
                },
                PaneSide::Left => {
                    assert(zone.has(view.x as int, pane.y as int) && view.has(
                        view.x as int,
                        pane.y as int,
                    ));
                },
            }
        },
    }
}

/// A pane under the cards is drawn wherever the body has the rows for both, as
/// tall as was asked for between its minimum and what the cards need, and at
/// the stop that was passed where it was passed; with nothing asked for, a
/// third of the body goes through the same stops. It is the last rows of the
/// body, all the way across.
pub proof fn law_pane_below_takes_the_height_asked_for(body: Rect, want: Option<u16>)
    requires
        body.in_range(),
    ensures
        ({
            let (view, pane) = parts(body, PaneSide::Bottom, want);
            let asked = match want {
                Some(w) => w as int,
                None => body.height as int / 3,
            };
            let most = body.height - GRID_MIN_H;
            &&& pane is Some <==> body.height >= GRID_MIN_H + PANE_MIN_H
            &&& pane is None ==> view == body
            &&& pane is Some ==> {
                let pane = pane->0;
                &&& PANE_MIN_H <= asked <= most ==> pane.height == asked
                &&& asked < PANE_MIN_H ==> pane.height == PANE_MIN_H
                &&& asked > most ==> pane.height == most
                &&& pane.x == body.x && pane.width == body.width
                &&& pane.y + pane.height == body.y + body.height
                &&& view.x == body.x && view.y == body.y && view.width == body.width
                &&& view.height + pane.height == body.height
            }
        }),
{
}

/// A pane beside the cards is drawn wherever the body has the columns for both
/// and the rows for the pane, as wide as was asked for between its minimum and
/// what a column of cards needs, and at the stop that was passed where it was
/// passed; with nothing asked for, half of the body goes through the same
/// stops. It is the last columns of the body on the right and the first on the
/// left, from top to bottom.
pub proof fn law_pane_beside_takes_the_width_asked_for(
    body: Rect,
    side: PaneSide,
    want: Option<u16>,
)
    requires
        body.in_range(),
        side != PaneSide::Bottom,
    ensures
        ({
            let (view, pane) = parts(body, side, want);
            let asked = match want {
                Some(w) => w as int,
                None => body.width as int / 2,
            };
            let most = body.width - GRID_MIN_W;
            &&& pane is Some <==> body.width >= GRID_MIN_W + PANE_MIN_W && body.height
                >= PANE_MIN_H
            &&& pane is None ==> view == body
            &&& pane is Some ==> {
                let pane = pane->0;
                &&& PANE_MIN_W <= asked <= most ==> pane.width == asked
                &&& asked < PANE_MIN_W ==> pane.width == PANE_MIN_W
                &&& asked > most ==> pane.width == most
                &&& pane.y == body.y && pane.height == body.height
                &&& view.y == body.y && view.height == body.height
                &&& view.width + pane.width == body.width
                &&& side == PaneSide::Right ==> view.x == body.x && pane.x == body.x + view.width
                &&& side == PaneSide::Left ==> pane.x == body.x && view.x == body.x + pane.width
            }
        }),
{
}

/// The side asked for is kept wherever the body is wide enough for a pane and
/// a column of cards side by side and tall enough for the pane, and given up
/// for the bottom nowhere else.
pub proof fn law_side_is_kept_where_it_fits(body: Rect, side: PaneSide)
    ensures
        body.width >= GRID_MIN_W + PANE_MIN_W && body.height >= PANE_MIN_H ==> side_that_fits(
            body,
            side,
        ) == side,
        body.width < GRID_MIN_W + PANE_MIN_W || body.height < PANE_MIN_H ==> side_that_fits(
            body,
            side,
        ) == PaneSide::Bottom,
{
}

/// A stored word means a side with white space round it as well, and no other
/// word means anything but the bottom.
pub proof fn law_other_words_are_the_bottom(word: Seq<char>)
    ensures
        PaneSide::named(word) == PaneSide::Right <==> trim(word) == "right"@,
        PaneSide::named(word) == PaneSide::Left <==> trim(word) == "left"@,
        trim(word) != "right"@ && trim(word) != "left"@ ==> PaneSide::named(word)
            == PaneSide::Bottom,
{
    reveal_strlit("right");
    reveal_strlit("left");
    assert("right"@.len() == 5 && "left"@.len() == 4);
}

/// The edge is the pane's row or column nearest the cards — the top row of one
/// under them, the first column of one on their right, the last of one on
/// their left — and under the cards the content is all of the pane.
pub proof fn law_edge_faces_the_cards(side: PaneSide, pane: Rect, x: int, y: int)
    requires
        pane.in_range(),
    ensures
        edge(side, pane).has(x, y) <==> pane.has(x, y) && match side {
            PaneSide::Bottom => y == pane.y,
            PaneSide::Right => x == pane.x,
            PaneSide::Left => x == pane.x + pane.width - 1,
        },
        content(side, pane).has(x, y) <==> pane.has(x, y) && match side {
            PaneSide::Bottom => true,
            PaneSide::Right => x > pane.x,
            PaneSide::Left => x < pane.x + pane.width - 1,
        },
{
}

} // verus!
