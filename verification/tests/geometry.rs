use nebula_tui::grid::{
    grid, grid_stepped, window_start, Hidden, CARD_H, CARD_MIN_W, GAP_Y, HEAD_H, MAX_COLS, PAD_X,
};
use nebula_tui::layout::Rect;
use nebula_tui::pane::{
    fitted_side, pane_boundary, pane_content, pane_edge, pane_grab_zone, pane_height, pane_width,
    split, split_at, PaneSide, PANE_MIN_H, PANE_MIN_W, PANE_SHARE,
};

fn rect(x: u16, y: u16, width: u16, height: u16) -> Rect {
    Rect {
        x,
        y,
        width,
        height,
    }
}

/// The cards fill the grid the way the rows are ordered: the first along the
/// top row left to right, then wrapping onto the next — never down a column.
#[test]
fn the_grid_fills_along_the_row_before_it_wraps() {
    let g = grid(rect(0, 0, 130, 40));
    assert_eq!(g.cols, 3);
    let (first, second, third, fourth) = (g.cell(0), g.cell(1), g.cell(2), g.cell(3));
    assert_eq!(
        (first.x, first.y),
        (g.area.x, g.area.y),
        "the first card is the top left"
    );
    assert!(second.x > first.x && second.y == first.y, "then rightwards");
    assert!(third.x > second.x && third.y == second.y);
    assert!(
        fourth.x == first.x && fourth.y > first.y,
        "and the row wraps back to the left: {fourth:?}"
    );
}

#[test]
fn grid_steps_clamp_per_axis_and_start_at_an_end() {
    // 3 columns over 7 cards: rows [0 1 2] [3 4 5] [6].
    let step = |at, dx, dy| grid_stepped(at, dx, dy, 3, 7);
    assert_eq!(step(None, 0, 1), Some(0));
    assert_eq!(step(None, 0, -1), Some(6));
    assert_eq!(grid_stepped(None, 0, 1, 3, 0), None);

    // Along a row, stopping at its ends.
    assert_eq!(step(Some(1), 1, 0), Some(2));
    assert_eq!(step(Some(2), 1, 0), Some(2), "no wrap onto the next row");
    assert_eq!(step(Some(3), -1, 0), Some(3), "nor back onto the last");
    assert_eq!(step(Some(6), 1, 0), Some(6), "a short row ends early");

    // Down a column, stopping at the top and bottom rows.
    assert_eq!(step(Some(1), 0, 1), Some(4));
    assert_eq!(step(Some(1), 0, -1), Some(1), "already on the top row");
    assert_eq!(step(Some(4), 0, 1), Some(6), "the short last row's end");
    assert_eq!(step(Some(6), 0, 1), Some(6), "already on the last row");
    assert_eq!(step(Some(4), 0, 5), Some(6), "a half page clamps");
    assert_eq!(step(Some(4), 0, -5), Some(1), "and so does one back");

    // One column is a plain list.
    assert_eq!(grid_stepped(Some(0), 0, 1, 1, 3), Some(1));
    assert_eq!(grid_stepped(Some(0), 1, 0, 1, 3), Some(0), "nowhere right");
}

#[test]
fn the_column_count_follows_the_width_and_stops_at_four() {
    let cols = |w| grid(rect(0, 0, w, 40)).cols;
    assert_eq!(cols(20), 1, "narrower than one card");
    assert_eq!(cols(60), 1);
    assert_eq!(cols(100), 2);
    assert_eq!(cols(130), 3);
    assert_eq!(cols(200), 4);
    assert_eq!(cols(400), MAX_COLS, "and no more, however wide");

    // The cards share the width the gaps leave, and the last one ends inside
    // the grid.
    let g = grid(rect(0, 0, 130, 40));
    let last = g.cell(g.cols - 1);
    assert!(
        last.x + last.width <= g.area.x + g.area.width,
        "{last:?} outside {:?}",
        g.area
    );
    assert!(g.card_w >= CARD_MIN_W, "{}", g.card_w);
}

#[test]
fn the_pane_takes_the_bottom_of_a_body_with_room_for_it() {
    let body = rect(0, 0, 80, 40);
    let (view, pane) = split(body, None);
    let pane = pane.expect("40 rows has room for a pane");
    assert_eq!(view.height + pane.height, body.height, "the whole body");
    assert_eq!(pane.y, view.y + view.height, "the pane is under the grid");
    assert_eq!((pane.x, pane.width), (body.x, body.width), "full width");
    assert!(pane.height >= PANE_MIN_H, "and worth drawing: {pane:?}");
    assert!(grid(view).rows_fit >= 1, "a row of cards still fits");

    // Too short for a header, a row of cards and a pane worth the name: all
    // grid, and a session is only seen full-screen.
    let short = rect(0, 0, 80, HEAD_H + CARD_H + PANE_MIN_H - 1);
    assert_eq!(split(short, None), (short, None));
}

#[test]
fn the_window_counts_the_cards_it_could_not_draw() {
    // Two columns, two rows of cards on screen: four at a time.
    let body = rect(0, 0, 100, HEAD_H + CARD_H * 2 + GAP_Y);
    let g = grid(body);
    assert_eq!((g.cols, g.rows_fit), (2, 2));

    assert_eq!(g.hidden(Some(0), 4), Hidden::default(), "the lot fits");
    assert_eq!(g.hidden(None, 4), Hidden::default(), "and with no cursor");
    assert_eq!(
        g.hidden(Some(0), 9),
        Hidden { above: 0, below: 5 },
        "from the top, the rest are under the fold"
    );
    // The cursor on the last card: the window has scrolled to it, so what is
    // missing is behind it rather than ahead. Nine cards over two columns is
    // five rows; the last two of them are on screen.
    assert_eq!(g.hidden(Some(8), 9), Hidden { above: 6, below: 0 });
    // And in the middle, both ways at once.
    assert_eq!(g.hidden(Some(5), 12), Hidden { above: 2, below: 6 });
    assert_eq!(g.hidden(Some(5), 12).total(), 8);

    // A body with room for one row of cards hides everything under it — the
    // PANE dragged up to its stop.
    let squeezed = grid(rect(0, 0, 100, HEAD_H + CARD_H));
    assert_eq!(squeezed.rows_fit, 1);
    assert_eq!(squeezed.hidden(Some(0), 9), Hidden { above: 0, below: 7 });
}

#[test]
fn a_tiny_body_still_has_one_cell() {
    let g = grid(rect(0, 0, 10, 4));
    assert_eq!((g.cols, g.rows_fit), (1, 1));
    assert_eq!(g.page(), 1);
}

#[test]
fn a_dragged_pane_keeps_its_height_between_the_two_stops() {
    let body = rect(0, 0, 80, 40);
    assert_eq!(
        pane_height(body, None),
        Some(body.height / PANE_SHARE),
        "never dragged: the default share"
    );
    assert_eq!(pane_height(body, Some(20)), Some(20), "as dragged");
    assert_eq!(
        pane_height(body, Some(1)),
        Some(PANE_MIN_H),
        "the pane's floor"
    );
    assert_eq!(
        pane_height(body, Some(99)),
        Some(body.height - (HEAD_H + CARD_H)),
        "the header and a row of cards are kept"
    );

    let (view, pane) = split(body, Some(20));
    let pane = pane.expect("40 rows has room for a pane");
    assert_eq!(pane.height, 20, "the dragged height, laid out");
    assert_eq!(view.height + pane.height, body.height, "the whole body");
    assert_eq!(pane.y, view.y + view.height, "the pane is under the grid");
    assert!(grid(view).rows_fit >= 1, "a row of cards still fits");

    // A body with no room for a pane has no height to drag it to.
    let short = rect(0, 0, 80, HEAD_H + CARD_H + PANE_MIN_H - 1);
    assert_eq!(pane_height(short, Some(20)), None);
    assert_eq!(split(short, Some(20)), (short, None));
}

#[test]
fn pane_sides_read_back_and_default_to_the_bottom() {
    for side in [PaneSide::Bottom, PaneSide::Right, PaneSide::Left] {
        assert_eq!(PaneSide::parse(side.as_str()), side);
    }
    assert_eq!(PaneSide::parse(" right "), PaneSide::Right);
    assert_eq!(PaneSide::parse("top"), PaneSide::Bottom);
    assert_eq!(PaneSide::parse(""), PaneSide::Bottom);
    assert_eq!(PaneSide::default(), PaneSide::Bottom);
}

#[test]
fn a_side_pane_splits_the_columns() {
    let body = rect(0, 3, 160, 40);

    let (view, pane) = split_at(body, PaneSide::Right, None);
    let pane = pane.expect("160 columns has room beside the cards");
    assert_eq!((pane.y, pane.height), (body.y, body.height), "full height");
    assert_eq!(pane.width, 80, "half the body by default");
    assert_eq!((view.x, view.width), (0, 80), "the grid on the left");
    assert_eq!(pane.x, view.x + view.width, "the pane right of it");
    assert_eq!(pane_boundary(PaneSide::Right, pane), 80);
    assert_eq!(pane_edge(PaneSide::Right, pane).x, 80);
    assert_eq!(
        pane_grab_zone(PaneSide::Right, pane),
        rect(79, 3, 2, 40),
        "the grid's last column and the pane's first"
    );
    let content = pane_content(PaneSide::Right, pane);
    assert_eq!((content.x, content.width), (81, 79), "clear of the grip");

    let (view, pane) = split_at(body, PaneSide::Left, Some(50));
    let pane = pane.expect("room on the left too");
    assert_eq!((pane.x, pane.width), (0, 50), "as dragged");
    assert_eq!((view.x, view.width), (50, 110), "the grid right of it");
    assert_eq!(pane_boundary(PaneSide::Left, pane), 50);
    assert_eq!(pane_edge(PaneSide::Left, pane).x, 49);
    assert_eq!(
        pane_grab_zone(PaneSide::Left, pane),
        rect(49, 3, 2, 40),
        "the pane's last column and the grid's first"
    );
    let content = pane_content(PaneSide::Left, pane);
    assert_eq!((content.x, content.width), (0, 49), "clear of the grip");

    // The bottom is `split` itself, and its edge the pane's first row.
    let (_, pane) = split_at(body, PaneSide::Bottom, None);
    let pane = pane.expect("40 rows has room under the cards");
    assert_eq!(Some(pane), split(body, None).1);
    assert_eq!(pane_boundary(PaneSide::Bottom, pane), i32::from(pane.y));
    assert_eq!(pane_content(PaneSide::Bottom, pane), pane);
}

#[test]
fn a_side_pane_is_clamped_and_falls_back_to_the_bottom() {
    let body = rect(0, 0, 160, 40);
    assert_eq!(pane_width(body, Some(1)), Some(PANE_MIN_W), "its floor");
    assert_eq!(
        pane_width(body, Some(999)),
        Some(160 - CARD_MIN_W - PAD_X * 2),
        "one column of cards kept"
    );
    assert_eq!(fitted_side(body, PaneSide::Left), PaneSide::Left);

    let narrow = rect(0, 0, CARD_MIN_W + PAD_X * 2 + PANE_MIN_W - 1, 40);
    assert_eq!(pane_width(narrow, None), None);
    assert_eq!(fitted_side(narrow, PaneSide::Right), PaneSide::Bottom);
    assert_eq!(fitted_side(narrow, PaneSide::Bottom), PaneSide::Bottom);
}

#[test]
fn a_pointer_is_read_along_the_axis_of_the_edge() {
    assert_eq!(PaneSide::Bottom.along(7, 9), 9);
    assert_eq!(PaneSide::Right.along(7, 9), 7);
    assert_eq!(PaneSide::Left.along(7, 9), 7);
    assert!(!PaneSide::Bottom.beside());
    assert!(PaneSide::Right.beside() && PaneSide::Left.beside());
}

#[test]
fn the_two_parts_make_up_the_body_on_every_side() {
    let body = rect(3, 5, 120, 50);
    for side in [PaneSide::Bottom, PaneSide::Right, PaneSide::Left] {
        for want in [None, Some(1u16), Some(25), Some(500)] {
            let (view, pane) = split_at(body, side, want);
            let pane = pane.expect("room for both");
            let cells = |r: Rect| u32::from(r.width) * u32::from(r.height);
            assert_eq!(cells(view) + cells(pane), cells(body), "{side:?} {want:?}");
            // The size that was taken is taken again.
            let size = if side.beside() { pane.width } else { pane.height };
            assert_eq!(split_at(body, side, Some(size)), (view, Some(pane)));
        }
    }
}

#[test]
fn an_empty_pane_has_no_edge() {
    let none = rect(4, 4, 0, 0);
    assert_eq!(pane_edge(PaneSide::Bottom, none).height, 0);
    assert_eq!(pane_edge(PaneSide::Right, none).width, 0);
    assert_eq!(pane_edge(PaneSide::Left, none), none);
    assert_eq!(pane_content(PaneSide::Right, none), none);
    assert_eq!(pane_grab_zone(PaneSide::Bottom, rect(0, 0, 9, 5)), rect(0, 0, 9, 2));
}

#[test]
fn a_list_scrolls_once_the_cursor_leaves_its_first_screen() {
    assert_eq!(window_start(0, 2), 0);
    assert_eq!(window_start(1, 2), 0);
    assert_eq!(window_start(2, 2), 1);
    assert_eq!(window_start(4, 2), 3);
    assert_eq!(window_start(4, 10), 0);
}

#[test]
fn the_window_holds_the_cursors_row() {
    let g = grid(rect(0, 0, 100, 21));
    assert_eq!((g.cols, g.rows_fit), (2, 2));
    for total in 1..30usize {
        for at in 0..total {
            let (start, shown) = g.window(Some(at), total);
            assert!(start <= at && at < start + shown, "{at} of {total}");
            let hidden = g.hidden(Some(at), total);
            assert_eq!(hidden.above + shown + hidden.below, total);
        }
    }
    // Too short for one whole card: nothing is drawn, and all of it counted.
    let short = grid(rect(0, 0, 100, 9));
    assert_eq!(short.window(Some(3), 5).1, 0);
    assert_eq!(short.hidden(Some(0), 5).total(), 5);
}
