//! The PROJECT PICKER on screen: where it goes over the box it was opened
//! from, and the rows it lists.

use crate::grid::{first_shown, window_start};
use crate::layout::{held, less, max_u16, min_u16, min_usize, smaller, Rect};
use crate::picker::{Match, PickerProject, ProjectPicker};
use crate::text::{char_count, cut, decimal, decimal_text, joined, truncate};
use crate::view::card::{block_inner, inside};
use crate::view::rows::{row_of_rect, row_rect};
use crate::view::span::{inked, push_piece, push_text, text_piece, Ink, Piece, PieceView, Style};
use crate::views::views;
use vstd::prelude::*;

verus! {

/// Width of the view's prompt box, and its height.
pub const BOX_W: u16 = 92;
pub const BOX_H: u16 = 18;
/// The PROJECT PICKER's width, and the most rows it lists before scrolling.
pub const PICKER_W: u16 = 64;
pub const PICKER_ROWS: u16 = 14;
/// What a modal over the box leaves of it, both sides together.
pub const OVER_BOX_INSET: u16 = 4;
/// The rows of the picker's frame, its query and the list's own margin.
pub const PICKER_FRAME: u16 = 4;

/// A rectangle `w` by `h` in the middle of `area`, no larger than it.
pub open spec fn centered(area: Rect, w: int, h: int) -> Rect {
    let width = smaller(w, area.width as int);
    let height = smaller(h, area.height as int);
    Rect {
        x: (area.x + (area.width - width) / 2) as u16,
        y: (area.y + (area.height - height) / 2) as u16,
        width: width as u16,
        height: height as u16,
    }
}

/// A rectangle `w` by `h` in the middle of `area`, no larger than it.
pub fn centered_rect(area: Rect, w: u16, h: u16) -> (r: Rect)
    requires
        area.in_range(),
    ensures
        r == centered(area, w as int, h as int),
{
    let width: u16 = min_u16(w, area.width);
    let height: u16 = min_u16(h, area.height);
    Rect {
        x: area.x + (area.width - width) / 2,
        y: area.y + (area.height - height) / 2,
        width,
        height,
    }
}

/// Where the prompt box goes.
pub open spec fn box_area(frame: Rect) -> Rect {
    centered(frame, BOX_W as int, BOX_H as int)
}

/// Where the view's prompt box is drawn — one place, so the PROJECT PICKER can
/// float over exactly the rect the box is in.
pub fn box_rect(frame: Rect) -> (r: Rect)
    requires
        frame.in_range(),
    ensures
        r == box_area(frame),
{
    centered_rect(frame, BOX_W, BOX_H)
}

/// Does the PROJECT PICKER float over the box, rather than stand on its own in
/// the middle of the screen? Only when a box was up to come back to.
pub fn picker_over_box(picker: &ProjectPicker) -> (r: bool)
    ensures
        r == picker.back.from_box,
{
    picker.back.from_box
}

/// The rows the picker lists.
pub open spec fn picker_list_rows(over: Option<Rect>, matches: int) -> int {
    let most = match over {
        Some(b) => held(
            less(b.height as int, OVER_BOX_INSET + PICKER_FRAME),
            1,
            PICKER_ROWS as int,
        ),
        None => PICKER_ROWS as int,
    };
    held(matches, 1, most)
}

/// The picker's width.
pub open spec fn picker_width(over: Option<Rect>) -> int {
    match over {
        Some(b) => smaller(PICKER_W as int, less(b.width as int, OVER_BOX_INSET as int)),
        None => PICKER_W as int,
    }
}

/// Where the picker goes: over the box where it fits inside it, else in the
/// middle of the screen.
pub open spec fn picker_area(frame: Rect, over: Option<Rect>, matches: int) -> Rect {
    let w = picker_width(over);
    let h = picker_list_rows(over, matches) + PICKER_FRAME;
    match over {
        Some(b) => if w <= b.width && h <= b.height {
            centered(b, w, h)
        } else {
            centered(frame, w, h)
        },
        None => centered(frame, w, h),
    }
}

/// Where the PROJECT PICKER goes, sized to the list it has to show. Opened
/// from the box, it floats over it: inset inside the box's rect, so the box's
/// frame, its title and its details row stay on screen around the list. With
/// no box under it, it is centered on the screen as any other modal.
pub fn picker_rect(frame: Rect, over: Option<Rect>, matches: usize) -> (r: Rect)
    requires
        frame.in_range(),
        over is Some ==> over->0.in_range(),
    ensures
        r == picker_area(frame, over, matches as int),
{
    let most: u16 = match over {
        Some(b) => min_u16(
            max_u16(b.height.saturating_sub(OVER_BOX_INSET + PICKER_FRAME), 1),
            PICKER_ROWS,
        ),
        None => PICKER_ROWS,
    };
    let rows: u16 = if matches < 1 {
        1
    } else if matches >= most as usize {
        most
    } else {
        matches as u16
    };
    let width: u16 = match over {
        Some(b) => min_u16(PICKER_W, b.width.saturating_sub(OVER_BOX_INSET)),
        None => PICKER_W,
    };
    let height: u16 = rows + PICKER_FRAME;
    match over {
        Some(b) => if width <= b.width && height <= b.height {
            centered_rect(b, width, height)
        } else {
            centered_rect(frame, width, height)
        },
        None => centered_rect(frame, width, height),
    }
}

// ---- the rows ----

/// The mark ahead of a row.
pub const ROW_MARK: &'static str = "▪ ";
/// What the query says with nothing typed yet.
pub const NO_QUERY: &'static str = "type a project name…";

/// One row of the picker: where it is, which row of the list it is, what it
/// draws, and whether the cursor is on it.
#[derive(Debug, PartialEq, Eq)]
pub struct PickerRow {
    pub area: Rect,
    pub row: usize,
    pub pieces: Vec<Piece>,
    pub selected: bool,
}

/// The picker as it is drawn.
#[derive(Debug)]
pub struct DrawnPicker {
    pub area: Rect,
    pub title: String,
    pub inner: Rect,
    pub query: Option<Rect>,
    pub list: Rect,
    /// Nothing matches the query.
    pub nothing: bool,
    pub rows: Vec<PickerRow>,
}

/// What the picker's frame says: how many of the projects match, once
/// something was typed.
pub open spec fn picker_title(picker: ProjectPicker) -> Seq<char> {
    if picker.query.text@.len() == 0 {
        " Project "@
    } else {
        " Project ("@ + decimal(picker.matches@.len()) + "/"@ + decimal(picker.projects@.len())
            + ") "@
    }
}

/// The part of `area` under its first row.
pub open spec fn under_first_row(area: Rect) -> Rect {
    Rect {
        y: (area.y + smaller(area.height as int, 1)) as u16,
        height: less(area.height as int, 1) as u16,
        ..area
    }
}

/// The cursor, held to the rows there are.
pub open spec fn picker_cursor(picker: ProjectPicker) -> int {
    smaller(picker.selected as int, less(picker.matches@.len() as int, 1))
}

/// The columns a row has for a name and a path.
pub open spec fn row_budget(list: Rect) -> int {
    less(list.width as int, 4)
}

/// What follows a name: the path, where the name leaves room for any of it.
pub open spec fn path_after(p: PickerProject, budget: int) -> Option<Seq<char>> {
    let used = cut(p.name@, budget as nat).len() as int;
    if used + 2 < budget {
        Some(cut("  "@ + p.path@, (budget - used) as nat))
    } else {
        None
    }
}

/// How many characters of a name are drawn, the ellipsis of a cut one aside.
pub open spec fn drawn_chars(name: Seq<char>, budget: int) -> int {
    if name.len() <= budget {
        name.len() as int
    } else {
        less(budget, 1)
    }
}

/// The matched places of a name that are drawn.
pub open spec fn lit_in(lit: Seq<usize>, name: Seq<char>, budget: int) -> Seq<usize> {
    lit.filter(|at: usize| at < drawn_chars(name, budget))
}

/// What a row draws: a mark, the name with the letters in it that the query
/// matched lit, and the path, dim, where there is room for any of it.
pub open spec fn row_pieces(p: PickerProject, lit: Seq<usize>, budget: int) -> Seq<PieceView> {
    let named = seq![
        text_piece(ROW_MARK@, inked(Ink::Accent)),
        PieceView::Lit { name: cut(p.name@, budget as nat), lit: lit_in(lit, p.name@, budget) },
    ];
    match path_after(p, budget) {
        Some(t) => named.push(text_piece(t, inked(Ink::Dim))),
        None => named,
    }
}

/// How many rows of the list are drawn.
pub open spec fn rows_drawn(picker: ProjectPicker, list: Rect) -> int {
    let start = first_shown(picker_cursor(picker), list.height as int);
    smaller(less(picker.matches@.len() as int, start), list.height as int)
}

/// `row` is the picker's row in place `k` of the list.
pub open spec fn is_row(picker: ProjectPicker, list: Rect, k: int, row: PickerRow) -> bool {
    let i = first_shown(picker_cursor(picker), list.height as int) + k;
    let p = picker.on_row(i);
    &&& row_of_rect(list, k) == Some(row.area)
    &&& row.row == i
    &&& views(row.pieces@) == row_pieces(p, picker.matches@[i].lit@, row_budget(list))
    &&& row.selected == (i == picker_cursor(picker))
}

fn places_under(places: &Vec<usize>, end: usize) -> (r: Vec<usize>)
    ensures
        r@ == places@.filter(|at: usize| at < end),
{
    let ghost keep = |at: usize| at < end;
    let mut out: Vec<usize> = Vec::new();
    let mut i: usize = 0;
    assert(places@.take(0).filter(keep) =~= Seq::empty());
    while i < places.len()
        invariant
            i <= places@.len(),
            keep == (|at: usize| at < end),
            out@ == places@.take(i as int).filter(keep),
        decreases places@.len() - i,
    {
        let at: usize = places[i];
        proof {
            let seen = places@.take(i as int);
            assert(places@.take(i + 1) =~= seen.push(at));
            reveal(Seq::filter);
            assert(seen.push(at).drop_last() =~= seen);
        }
        if at < end {
            out.push(at);
        }
        i += 1;
    }
    assert(places@.take(i as int) =~= places@);
    out
}

fn one_row(picker: &ProjectPicker, list: Rect, area: Rect, i: usize, selected: bool) -> (r:
    PickerRow)
    requires
        picker.wf(),
        i < picker.matches@.len(),
    ensures
        r.area == area,
        r.row == i,
        r.selected == selected,
        views(r.pieces@) == row_pieces(
            picker.on_row(i as int),
            picker.matches@[i as int].lit@,
            row_budget(list),
        ),
{
    let m: &Match = &picker.matches[i];
    assert(picker.matches@[i as int].project < picker.projects@.len());
    let project = &picker.projects[m.project];
    let budget: usize = (list.width as usize).saturating_sub(4);
    let name = truncate(&project.name, budget);
    let used: usize = char_count(&name);
    let whole: usize = char_count(&project.name);
    let drawn: usize = if whole <= budget {
        whole
    } else {
        budget.saturating_sub(1)
    };
    let lit = places_under(&m.lit, drawn);
    let mut pieces: Vec<Piece> = Vec::new();
    push_text(&mut pieces, ROW_MARK.to_owned(), Style::ink(Ink::Accent));
    push_piece(&mut pieces, Piece::Lit { name, lit });
    if used + 2 < budget {
        let after = truncate(&joined("  ", &project.path), budget - used);
        push_text(&mut pieces, after, Style::ink(Ink::Dim));
    }
    assert(views(pieces@) =~= row_pieces(
        picker.on_row(i as int),
        picker.matches@[i as int].lit@,
        row_budget(list),
    ));
    PickerRow { area, row: i, pieces, selected }
}

/// The PROJECT PICKER: the query on top, the projects under it — the name with
/// the typed letters lit, and the path dim after it. Drawn over the box it was opened from, inset inside
/// it. The picker keeps where it was drawn, for the mouse.
pub fn draw_project_picker(frame: Rect, picker: &mut ProjectPicker) -> (d: DrawnPicker)
    requires
        frame.in_range(),
        old(picker).wf(),
    ensures
        ({
            let p = *old(picker);
            let over = if p.back.from_box {
                Some(box_area(frame))
            } else {
                None
            };
            let area = picker_area(frame, over, p.matches@.len() as int);
            let inner = inside(area);
            let list = under_first_row(inner);
            &&& d.area == area
            &&& d.title@ == picker_title(p)
            &&& d.inner == inner
            &&& d.query == row_of_rect(inner, 0)
            &&& d.list == list
            &&& d.nothing == (p.matches@.len() == 0)
            &&& d.rows@.len() == rows_drawn(p, list)
            &&& forall|k: int| 0 <= k < d.rows@.len() ==> is_row(p, list, k, #[trigger] d.rows@[k])
            &&& *final(picker) == (ProjectPicker {
                area,
                list_area: list,
                selected: picker_cursor(p) as usize,
                ..p
            })
        }),
{
    let ghost p0 = *picker;
    let over: Option<Rect> = if picker_over_box(picker) {
        Some(box_rect(frame))
    } else {
        None
    };
    let area = picker_rect(frame, over, picker.matches.len());
    proof {
        lemma_picker_on_screen(frame, over, picker.matches@.len() as int);
    }
    let title: String = if picker.query.text.as_str().is_empty() {
        " Project ".to_owned()
    } else {
        let mut t = joined(" Project (", &decimal_text(picker.matches.len() as u64));
        t.append("/");
        t.append(&decimal_text(picker.projects.len() as u64));
        t.append(") ");
        t
    };
    let inner = block_inner(area);
    let query = row_rect(inner, 0);
    let list = Rect {
        y: inner.y + min_u16(inner.height, 1),
        height: inner.height.saturating_sub(1),
        ..inner
    };
    let total: usize = picker.matches.len();
    let selected: usize = min_usize(picker.selected, total.saturating_sub(1));
    let start: usize = if total == 0 {
        0
    } else {
        window_start(selected, list.height as usize)
    };
    let mut rows: Vec<PickerRow> = Vec::new();
    let mut k: usize = 0;
    while k < list.height as usize && start < total && k < total - start
        invariant
            *picker == p0,
            p0.wf(),
            list.bottom() <= u16::MAX,
            total == p0.matches@.len(),
            selected == picker_cursor(p0),
            total > 0 ==> start == first_shown(selected as int, list.height as int),
            k <= list.height,
            k <= less(total as int, start as int),
            rows@.len() == k,
            forall|m: int| 0 <= m < k ==> is_row(p0, list, m, #[trigger] rows@[m]),
        decreases list.height - k,
    {
        let i: usize = start + k;
        match row_rect(list, k) {
            Some(r) => {
                let row = one_row(picker, list, r, i, i == selected);
                rows.push(row);
            },
            None => {},
        }
        k += 1;
    }
    picker.area = area;
    picker.list_area = list;
    picker.selected = selected;
    DrawnPicker { area, title, inner, query, list, nothing: total == 0, rows }
}

proof fn lemma_picker_on_screen(frame: Rect, over: Option<Rect>, matches: int)
    requires
        frame.in_range(),
        over is Some ==> over->0.in_range(),
        matches >= 0,
    ensures
        picker_area(frame, over, matches).in_range(),
        inside(picker_area(frame, over, matches)).in_range(),
{
}

// ---- what holds of it ----

/// A picker opened from the box floats strictly inside it on all four sides,
/// however long its list, wherever the box has the room for a frame.
pub proof fn law_picker_floats_inside_the_box(frame: Rect, boxed: Rect, matches: int)
    requires
        frame.in_range(),
        boxed.in_range(),
        boxed.width > OVER_BOX_INSET,
        boxed.height > OVER_BOX_INSET + PICKER_FRAME,
        matches >= 0,
    ensures
        ({
            let area = picker_area(frame, Some(boxed), matches);
            &&& area.x > boxed.x && area.right() < boxed.right()
            &&& area.y > boxed.y && area.bottom() < boxed.bottom()
        }),
{
}

/// However small the screen, the picker is drawn on it, and is no smaller than
/// a cell while the screen has one and the box is wide enough to float in.
pub proof fn law_picker_stays_on_screen(frame: Rect, matches: int)
    requires
        frame.in_range(),
        matches >= 0,
        frame.width > OVER_BOX_INSET,
        frame.height > 0,
    ensures
        ({
            let area = picker_area(frame, Some(box_area(frame)), matches);
            area.width > 0 && area.height > 0 && area.within(frame)
        }),
{
}

/// The row under the cursor is one of those drawn, while the list has a row at
/// all.
pub proof fn law_picker_shows_its_cursor(picker: ProjectPicker, list: Rect)
    requires
        picker.matches@.len() > 0,
        list.height > 0,
    ensures
        ({
            let start = first_shown(picker_cursor(picker), list.height as int);
            start <= picker_cursor(picker) < start + rows_drawn(picker, list)
        }),
{
}

/// A row never runs past the list: the name and what follows it stay inside
/// its columns.
pub proof fn law_picker_row_fits(p: PickerProject, list: Rect)
    ensures
        cut(p.name@, row_budget(list) as nat).len() + match path_after(p, row_budget(list)) {
            Some(t) => t.len() as int,
            None => 0,
        } <= row_budget(list),
{
    reveal_strlit("  ");
}

/// A lit letter is one of those the query matched, and stands in the drawn name
/// where it stands in the project's: an ellipsis is never lit.
pub proof fn law_lit_letters_are_the_matched_ones(
    lit: Seq<usize>,
    name: Seq<char>,
    budget: nat,
    k: int,
)
    requires
        0 <= k < lit_in(lit, name, budget as int).len(),
    ensures
        ({
            let at = lit_in(lit, name, budget as int)[k];
            &&& lit.contains(at)
            &&& at < name.len()
            &&& at < cut(name, budget).len()
            &&& cut(name, budget)[at as int] == name[at as int]
        }),
{
    broadcast use vstd::seq_lib::group_filter_ensures;

    let keep = |at: usize| at < drawn_chars(name, budget as int);
    lit.lemma_filter_contains_rev(keep, lit.filter(keep)[k]);
}

/// What is centered has as much on one side as on the other, to within a cell,
/// and the size it was given where there is room.
pub proof fn law_centered_is_in_the_middle(area: Rect, w: int, h: int)
    requires
        area.in_range(),
        0 <= w,
        0 <= h,
    ensures
        ({
            let c = centered(area, w, h);
            &&& c.width == smaller(w, area.width as int)
            &&& c.height == smaller(h, area.height as int)
            &&& 0 <= (area.right() - c.right()) - (c.x - area.x) <= 1
            &&& 0 <= (area.bottom() - c.bottom()) - (c.y - area.y) <= 1
        }),
{
}

/// The picker has a row for each match, one at least, and no more than it may:
/// fourteen on its own, and over the box what the box leaves of its rows.
pub proof fn law_picker_has_a_row_for_each_match(over: Option<Rect>, matches: int)
    requires
        matches >= 0,
    ensures
        ({
            let rows = picker_list_rows(over, matches);
            let most = match over {
                Some(b) => if b.height < 9 {
                    1
                } else if b.height > 22 {
                    14
                } else {
                    b.height - 8
                },
                None => 14,
            };
            &&& 1 <= matches <= most ==> rows == matches
            &&& matches == 0 ==> rows == 1
            &&& matches > most ==> rows == most
        }),
{
}

/// The frame says how many of the projects match, once something is typed.
pub proof fn law_frame_counts_the_matches(picker: ProjectPicker)
    ensures
        picker.query.text@.len() == 0 ==> picker_title(picker) == " Project "@,
        picker.query.text@.len() > 0 ==> picker_title(picker) == " Project ("@ + decimal(
            picker.matches@.len(),
        ) + "/"@ + decimal(picker.projects@.len()) + ") "@,
{
}

/// The rows drawn are consecutive matches, each on its own row of the list, the
/// one under the cursor marked and no other; as many as the list has room for.
pub proof fn law_picker_rows_follow_the_matches(
    picker: ProjectPicker,
    list: Rect,
    k: int,
    row: PickerRow,
)
    requires
        list.in_range(),
        picker.selected < picker.matches@.len(),
        list.height > 0,
        0 <= k < rows_drawn(picker, list),
        is_row(picker, list, k, row),
    ensures
        ({
            let n = picker.matches@.len() as int;
            let sel = picker.selected as int;
            let from = row.row - k;
            &&& row.area.y == list.y + k
            &&& row.row < n
            &&& sel < list.height ==> from == 0
            &&& sel >= list.height ==> from == sel - list.height + 1
            &&& row.selected <==> row.row == picker.selected
            &&& rows_drawn(picker, list) == smaller(n - from, list.height as int)
        }),
{
}

/// A row is the project's name, cut to the list, and its path behind two blanks
/// wherever the name leaves more than those two columns.
pub proof fn law_path_follows_where_there_is_room(p: PickerProject, lit: Seq<usize>, budget: int)
    requires
        budget >= 0,
    ensures
        ({
            let row = row_pieces(p, lit, budget);
            let name = cut(p.name@, budget as nat);
            &&& row[1] is Lit && row[1]->Lit_name == name
            &&& name.len() + 2 < budget ==> row.len() == 3 && row[2]->Text_0.text == cut(
                "  "@ + p.path@,
                (budget - name.len()) as nat,
            )
            &&& name.len() + 2 >= budget ==> row.len() == 2
        }),
{
}

/// Every letter the query matched is lit, where it is drawn.
pub proof fn law_matched_letters_are_lit(lit: Seq<usize>, name: Seq<char>, budget: nat, i: int)
    requires
        0 <= i < lit.len(),
        lit[i] < name.len(),
        name.len() <= budget || lit[i] + 1 < budget,
    ensures
        lit_in(lit, name, budget as int).contains(lit[i]),
{
    let keep = |at: usize| at < drawn_chars(name, budget as int);
    lit.lemma_filter_contains(keep, i);
}

/// The query is the first row inside the picker's frame and the list all of the
/// rows below it.
pub proof fn law_list_is_below_the_query(inner: Rect, x: int, y: int)
    requires
        inner.in_range(),
    ensures
        under_first_row(inner).has(x, y) <==> inner.has(x, y) && y > inner.y,
{
}

} // verus!
