//! The full-screen session's own header: a breadcrumb back to the grid.

use crate::grid::PAD_X;
use crate::launcher::{row, row_named, LauncherRow};
use crate::layout::{larger, max_usize, Rect};
use crate::model::SessionRef;
use crate::state::{hovers, App, Focus, Hit, HitTarget, HitView};
use crate::text::{char_count, cut, joined, truncate};
use crate::view::card::{harness_line, harness_text};
use crate::view::rows::{below_header, pad_x, padded, row_of_rect, row_rect, under_header};
use crate::view::span::{
    bold, inked, push_piece, push_span, push_text, span, text_piece, Ink, Piece, PieceView, Span,
    SpanView, Style,
};
use crate::view::strip::push_hit;
use crate::views::{opt, views};
use vstd::prelude::*;

verus! {

/// What the back button says.
pub const CRUMB: &'static str = "‹ sessions";

/// The row of the session that is attached.
pub open spec fn attached_row<'a>(app: &'a App) -> Option<LauncherRow<'a>> {
    match app.attached {
        Some(SessionRef::Agent(id)) => row_named(app, id@),
        _ => None,
    }
}

/// The left of the crumb: the way back, and the session it leads out of.
pub open spec fn crumb_left(app: App, width: int) -> Seq<PieceView> {
    let back = seq![
        text_piece(
            CRUMB@,
            Style {
                underlined: opt(app.screen.hover_crumb) == Some(HitView::LauncherCrumb),
                ..bold(Ink::Accent)
            },
        ),
    ];
    match attached_row(&app) {
        Some(row) => back.push(text_piece(" / "@, inked(Ink::Dim))).push(
            PieceView::Dot {
                status: Some(row.agent.status),
                unseen: row.agent.unseen,
                dimmed: false,
            },
        ).push(
            text_piece(cut(row.agent.name@, larger(width / 2, 8) as nat), bold(Ink::Text)),
        ),
        None => back,
    }
}

/// The right of the crumb: the harness and its effort, and where it runs.
pub open spec fn crumb_right(row: LauncherRow) -> Seq<SpanView> {
    let harness = seq![span(harness_text(*row.agent), inked(Ink::Muted))];
    let with_effort = match row.agent.effort {
        Some(e) => if e@.len() > 0 {
            harness.push(span(" "@ + e@, inked(Ink::Dim)))
        } else {
            harness
        },
        None => harness,
    };
    with_effort.push(span(" · "@, inked(Ink::Dim))).push(
        span(cut(row.project@, 20) + " / "@ + cut(row.branch@, 24), inked(Ink::Dim)),
    )
}

/// The crumb as it is drawn.
#[derive(Debug)]
pub struct DrawnCrumb {
    pub row: Option<CrumbRow>,
    pub rule: Option<Rect>,
    pub rule_ink: Ink,
    pub inner: Rect,
}

/// The row of the crumb; the right side is right-aligned.
#[derive(Debug)]
pub struct CrumbRow {
    pub area: Rect,
    pub left: Vec<Piece>,
    pub right: Vec<Span>,
}

/// The back button: only the crumb itself, so a click anywhere else on the
/// header row belongs to the pane.
pub open spec fn crumb_hit(r: Rect) -> (Rect, HitView) {
    (Rect { width: CRUMB@.len() as u16, height: 1, ..r }, HitView::LauncherCrumb)
}

fn left_side(app: &App, row: &Option<LauncherRow>, width: u16) -> (left: Vec<Piece>)
    requires
        *row == attached_row(app),
    ensures
        views(left@) == crumb_left(*app, width as int),
{
    let mut left: Vec<Piece> = Vec::new();
    let style = Style {
        fg: Some(Ink::Accent),
        bg: None,
        bold: true,
        underlined: hovers(&app.screen.hover_crumb, &HitTarget::LauncherCrumb),
    };
    push_text(&mut left, CRUMB.to_owned(), style);
    if let Some(row) = row {
        push_text(&mut left, " / ".to_owned(), Style::ink(Ink::Dim));
        push_piece(
            &mut left,
            Piece::Dot { status: Some(row.agent.status), unseen: row.agent.unseen, dimmed: false },
        );
        let most: usize = max_usize((width / 2) as usize, 8);
        push_text(&mut left, truncate(&row.agent.name, most), Style::bold(Ink::Text));
    }
    assert(views(left@) =~= crumb_left(*app, width as int));
    left
}

fn right_side(row: &LauncherRow) -> (right: Vec<Span>)
    ensures
        views(right@) == crumb_right(*row),
{
    let mut right: Vec<Span> = Vec::new();
    push_span(&mut right, Span::styled(harness_line(row.agent), Style::ink(Ink::Muted)));
    if let Some(effort) = &row.agent.effort {
        if !effort.as_str().is_empty() {
            push_span(&mut right, Span::styled(joined(" ", effort), Style::ink(Ink::Dim)));
        }
    }
    push_span(&mut right, Span::of(" · ", Style::ink(Ink::Dim)));
    let place = joined(
        &joined(&truncate(&row.project, 20), " / "),
        &truncate(&row.branch, 24),
    );
    push_span(&mut right, Span::styled(place, Style::ink(Ink::Dim)));
    assert(views(right@) =~= crumb_right(*row));
    right
}

/// The full-screen session's own header: a breadcrumb back to the grid — the
/// way back is a button, the session's name the crumb it leads out of — with
/// the harness it runs on and where, right-aligned. With it, the rect the
/// session's screen draws in.
pub fn crumb_frame(app: &App, area: Rect, hits: &mut Vec<Hit>) -> (crumb: DrawnCrumb)
    requires
        area.height > 1 ==> area.x + PAD_X <= u16::MAX,
        area.y + 3 <= u16::MAX,
    ensures
        crumb.rule == row_of_rect(area, 2),
        crumb.rule_ink == (if app.focus == Focus::Terminal {
            Ink::Accent
        } else {
            Ink::Edge
        }),
        crumb.inner == under_header(area),
        match row_of_rect(area, 1) {
            None => crumb.row is None && final(hits)@ == old(hits)@,
            Some(line) => {
                let r = padded(line);
                &&& views(final(hits)@) == views(old(hits)@).push(crumb_hit(r))
                &&& crumb.row is Some
                &&& crumb.row->0.area == r
                &&& views(crumb.row->0.left@) == crumb_left(*app, r.width as int)
                &&& views(crumb.row->0.right@) == match attached_row(app) {
                    Some(row) => crumb_right(row),
                    None => Seq::empty(),
                }
            },
        },
{
    let rule = row_rect(area, 2);
    let rule_ink = if app.focus == Focus::Terminal {
        Ink::Accent
    } else {
        Ink::Edge
    };
    let inner = below_header(area);
    let drawn: Option<CrumbRow> = match row_rect(area, 1) {
        Some(line) => {
            let r = pad_x(line);
            proof {
                reveal_strlit("‹ sessions");
            }
            push_hit(
                hits,
                Hit {
                    rect: Rect { width: char_count(CRUMB) as u16, height: 1, ..r },
                    target: HitTarget::LauncherCrumb,
                },
            );
            let found: Option<LauncherRow> = match &app.attached {
                Some(SessionRef::Agent(id)) => row(app, id),
                _ => None,
            };
            let left = left_side(app, &found, r.width);
            let right: Vec<Span> = match &found {
                Some(row) => right_side(row),
                None => {
                    let none: Vec<Span> = Vec::new();
                    assert(views(none@) =~= Seq::empty());
                    none
                },
            };
            Some(CrumbRow { area: r, left, right })
        },
        None => None,
    };
    DrawnCrumb { row: drawn, rule, rule_ink, inner }
}

// ---- what holds of it ----

/// The crumb names the session it leads out of, with its status, behind the way
/// back; on the right stand what it runs on, its effort where it has one, and
/// the project and branch it runs in. With no session attached it is the way
/// back alone.
pub proof fn law_crumb_names_the_session(app: App, width: int)
    ensures
        ({
            let left = crumb_left(app, width);
            let row = attached_row(&app);
            &&& left[0]->Text_0.text == CRUMB@
            &&& left[0]->Text_0.style.underlined <==> app.screen.hover_crumb is Some
                && app.screen.hover_crumb->0@ == HitView::LauncherCrumb
            &&& row is None ==> left.len() == 1
            &&& row is Some ==> {
                let a = row->0.agent;
                let right = crumb_right(row->0);
                let n = right.len() as int;
                let effort = a.effort is Some && a.effort->0@.len() > 0;
                &&& left.len() == 4
                &&& left[2]->Dot_status == Some(a.status) && left[2]->Dot_unseen == a.unseen
                &&& left[3]->Text_0.text == cut(a.name@, larger(width / 2, 8) as nat)
                &&& right[0].text == harness_text(*a)
                &&& effort ==> n == 4 && right[1].text == " "@ + a.effort->0@
                &&& !effort ==> n == 3
                &&& right[n - 1].text == cut(row->0.project@, 20) + " / "@ + cut(
                    row->0.branch@,
                    24,
                )
            }
        }),
{
}

/// The session the crumb is of is the one attached, where that is a session
/// the tree has.
pub proof fn law_crumb_is_of_the_attached_session(app: App, k: int)
    requires
        0 <= k < app.tree.agents@.len(),
        crate::model::distinct_ids(crate::state::agent_ids(app.tree.agents@)),
        app.attached is Some,
    ensures
        app.attached->0 is Terminal ==> attached_row(&app) is None,
        app.attached->0 is Agent && app.attached->0->Agent_0@ == app.tree.agents@[k].id@
            && attached_row(&app) is Some ==> *attached_row(&app)->0.agent
            == app.tree.agents@[k],
{
    crate::launcher::law_row_asked_for_is_its_own(app, k);
}

} // verus!
