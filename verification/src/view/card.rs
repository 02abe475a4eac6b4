//! One session's card: its name and how long since it last moved, where it
//! runs and with what, its pull request, and the last thing it was asked to
//! do.

use crate::grid::{CARD_HEAD_H, CARD_TEXT_H, PROMPT_LINES};
use crate::launcher::{asked, last_prompt, LauncherRow, RowPr};
use crate::layout::{less, smaller, Rect};
use crate::model::{Agent, AgentStatus, LineChanges, Worktree};
use crate::state::{find_worktree, the_worktree, App};
use crate::text::{
    char_count, chars_of, cut, decimal, decimal_text, joined, text_between, trim_start, truncate,
    white_space,
};
use crate::view::count::{ending, plural};
use crate::view::rows::{row_of_rect, row_rect};
use crate::view::span::{
    bare, bold, inked, push_piece, push_text, repeat, repeated, text_piece, Ink, Piece, PieceView,
    Span, SpanView, Style, Sweep,
};
use crate::views::{group_views, views};
use vstd::prelude::*;

verus! {

/// Below this there is no room to name a checkout's directory usefully, so
/// the card says nothing rather than showing two letters of it.
pub const DIR_LABEL_MIN: usize = 6;
/// What an ARCHIVED card wears where a live one wears its STATUS DOT. Two
/// columns wide like the dot it stands in for, so the name behind it starts in
/// the same column on both grids.
pub const ARCHIVED_MARK: &'static str = "▪ ";
/// What the last prompt opens with.
pub const PROMPT_MARK: &'static str = "› ";

// ---- the frame ----

/// The color a card's status gives its frame.
pub open spec fn status_edge(a: Agent, quiet: bool) -> Option<Ink> {
    if quiet {
        None
    } else {
        match a.status {
            AgentStatus::NeedsFeedback => Some(Ink::Alarm),
            AgentStatus::Finished => if a.unseen {
                Some(Ink::Done)
            } else {
                None
            },
            AgentStatus::Running => Some(Ink::WarnEdge),
            _ => None,
        }
    }
}

/// A card's frame color when its status wants one: red for a turn waiting on
/// you, blue for one finished and unread, a faint yellow for one still
/// running. A read finish, a fresh or terminated session and a `quiet` card
/// keep the plain edge.
pub fn card_edge(a: &Agent, quiet: bool) -> (r: Option<Ink>)
    ensures
        r == status_edge(*a, quiet),
{
    if quiet {
        return None;
    }
    match a.status {
        AgentStatus::NeedsFeedback => Some(Ink::Alarm),
        AgentStatus::Finished => if a.unseen {
            Some(Ink::Done)
        } else {
            None
        },
        AgentStatus::Running => Some(Ink::WarnEdge),
        _ => None,
    }
}

/// The session's process is not running anywhere.
pub open spec fn is_cold(a: Agent) -> bool {
    !a.alive && !a.cloud
}

/// The color of a card's frame: the accent on the card the keys are on, else
/// what its status wants, else a step brighter on the cursor's card.
pub open spec fn border_ink(a: Agent, selected: bool, focused: bool) -> Ink {
    if selected && focused {
        Ink::Accent
    } else {
        match status_edge(a, a.archived || a.pending || is_cold(a)) {
            Some(ink) => ink,
            None => if selected {
                Ink::Muted
            } else {
                Ink::Edge
            },
        }
    }
}

/// What a frame around `area` leaves inside it.
pub open spec fn inside(area: Rect) -> Rect {
    Rect {
        x: smaller(smaller(area.x + 1, area.right()), u16::MAX as int) as u16,
        y: smaller(smaller(area.y + 1, area.bottom()), u16::MAX as int) as u16,
        width: less(area.width as int, 2) as u16,
        height: less(area.height as int, 2) as u16,
    }
}

/// `ratatui::widgets::Block::inner` of a block with a border on every side,
/// no title and no padding: a column or row in on each side, and nothing
/// where there is no room for both.
#[verifier::external_body]
pub(crate) fn block_inner(area: Rect) -> (r: Rect)
    ensures
        r == inside(area),
{
    let outer = ratatui::layout::Rect {
        x: area.x,
        y: area.y,
        width: area.width,
        height: area.height,
    };
    let inner = ratatui::widgets::Block::bordered().inner(outer);
    Rect { x: inner.x, y: inner.y, width: inner.width, height: inner.height }
}

// ---- changes ----

/// The long and the short word for a count of changed files.
pub open spec fn files_long(files: int) -> Seq<char> {
    " +"@ + decimal(files as nat) + " file"@ + ending(files)
}

pub open spec fn files_short(files: int) -> Seq<char> {
    " +"@ + decimal(files as nat)
}

/// The words for lines added and removed.
pub open spec fn lines_words(l: LineChanges) -> (Seq<char>, Seq<char>) {
    (" +"@ + decimal(l.added as nat), " -"@ + decimal(l.removed as nat))
}

/// What a card says about changes beside a branch `branch` characters long in
/// `room`: the file count and the lines behind it. The word yields first, then
/// the lines, and only then does the branch give up a letter.
pub open spec fn labels(files: int, lines: Option<LineChanges>, branch: int, room: int) -> (
    Seq<char>,
    Option<(Seq<char>, Seq<char>)>,
) {
    let long = files_long(files);
    let short = files_short(files);
    let tail = match lines {
        Some(l) => (lines_words(l).0.len() + lines_words(l).1.len()) as int,
        None => 0,
    };
    if lines is Some && branch + long.len() + tail <= room {
        (long, Some(lines_words(lines->0)))
    } else if lines is Some && branch + short.len() + tail <= room {
        (short, Some(lines_words(lines->0)))
    } else if branch + long.len() <= room {
        (long, None)
    } else {
        (short, None)
    }
}

/// What a card's branch row says about its checkout's uncommitted changes,
/// beside a branch `branch` characters long in `room`: the file count —
/// ` +3 files`, or ` +3` — and, with `lines` counted, the lines behind it,
/// ` +120` and ` -45`.
pub fn change_labels(files: usize, lines: Option<LineChanges>, branch: usize, room: usize) -> (r: (
    String,
    Option<(String, String)>,
))
    ensures
        r.0@ == labels(files as int, lines, branch as int, room as int).0,
        match r.1 {
            Some((added, removed)) => labels(files as int, lines, branch as int, room as int).1
                == Some((added@, removed@)),
            None => labels(files as int, lines, branch as int, room as int).1 is None,
        },
{
    let short = joined(" +", &decimal_text(files as u64));
    let long = joined(&joined(&short, " file"), plural(files));
    proof {
        reveal_strlit(" +");
        reveal_strlit(" -");
        reveal_strlit(" file");
        reveal_strlit("");
        reveal_strlit("s");
        crate::text::lemma_decimal_len(files as nat);
        assert(long@ =~= files_long(files as int));
    }
    let long_w: usize = char_count(&long);
    let short_w: usize = char_count(&short);
    if let Some(l) = lines {
        let added = joined(" +", &decimal_text(l.added));
        let removed = joined(" -", &decimal_text(l.removed));
        proof {
            crate::text::lemma_decimal_len(l.added as nat);
            crate::text::lemma_decimal_len(l.removed as nat);
        }
        let tail: usize = char_count(&added) + char_count(&removed);
        if branch <= room && room - branch >= long_w + tail {
            return (long, Some((added, removed)));
        }
        if branch <= room && room - branch >= short_w + tail {
            return (short, Some((added, removed)));
        }
    }
    if branch <= room && room - branch >= long_w {
        (long, None)
    } else {
        (short, None)
    }
}

// ---- the harness ----

/// The harness and the model a session runs on.
pub open spec fn harness_text(a: Agent) -> Seq<char> {
    if a.cloud {
        "cloud"@
    } else {
        match a.model {
            Some(m) => if m@.len() > 0 {
                a.harness@ + " "@ + m@
            } else {
                a.harness@
            },
            None => a.harness@,
        }
    }
}

/// The harness (and model) a session runs on, as its card names it: `codex
/// large`. A cloud row says `cloud` — the sandbox is the harness that matters
/// there.
pub fn harness_line(a: &Agent) -> (r: String)
    ensures
        r@ == harness_text(*a),
{
    if a.cloud {
        return "cloud".to_owned();
    }
    let mut out = a.harness.clone();
    if let Some(model) = &a.model {
        if !model.as_str().is_empty() {
            out.append(" ");
            out.append(model);
        }
    }
    out
}

// ---- the last prompt ----

/// One row of the prompt block.
pub open spec fn prompt_row(wrapped: Seq<Seq<char>>, i: int, body: nat, mark: Ink, text: Ink) -> Seq<
    PieceView,
> {
    let line = if i + 1 == PROMPT_LINES && wrapped.len() > PROMPT_LINES {
        cut(wrapped[i].push('…'), body)
    } else {
        wrapped[i]
    };
    seq![
        if i == 0 {
            text_piece(PROMPT_MARK@, inked(mark))
        } else {
            text_piece("  "@, bare())
        },
        text_piece(line, inked(text)),
    ]
}

/// The prompt block: the wrapped prompt over at most [`PROMPT_LINES`] rows,
/// the mark on the first, the rest indented to the same column, the last cut
/// with an ellipsis where there was more. Nothing for an empty prompt, or
/// where the mark leaves no room.
pub open spec fn prompt_rows(
    prompt: Seq<char>,
    wrapped: Seq<Seq<char>>,
    width: int,
    mark: Ink,
    text: Ink,
) -> Seq<Seq<PieceView>> {
    if prompt.len() == 0 || width <= 2 {
        Seq::empty()
    } else {
        Seq::new(
            smaller(wrapped.len() as int, PROMPT_LINES as int) as nat,
            |i: int| prompt_row(wrapped, i, (width - 2) as nat, mark, text),
        )
    }
}

/// Rows of pieces by what they hold.
pub open spec fn row_views(rows: Seq<Vec<Piece>>) -> Seq<Seq<PieceView>> {
    Seq::new(rows.len(), |i: int| views(rows[i]@))
}

fn push_row(rows: &mut Vec<Vec<Piece>>, row: Vec<Piece>)
    ensures
        row_views(final(rows)@) == row_views(old(rows)@).push(views(row@)),
{
    rows.push(row);
    assert(row_views(rows@) =~= row_views(old(rows)@).push(views(row@)));
}

/// The columns a prompt is wrapped to on a card `width` columns wide inside.
pub fn prompt_width(width: usize) -> (r: usize)
    ensures
        r == less(width as int, 2),
{
    width.saturating_sub(2)
}

/// The prompt block at the foot of a card: the `›` on its first row and the
/// sentence under it, indented to the same column, over at most
/// [`PROMPT_LINES`] rows — so a card is a fixed height whatever it was asked
/// to do. `wrapped` is the prompt wrapped to [`prompt_width`]. A prompt longer
/// than that is cut on the last row with an ellipsis; an empty one draws
/// nothing.
pub fn prompt_lines(prompt: &str, wrapped: &Vec<String>, width: usize, mark: Ink, text: Ink) -> (r:
    Vec<Vec<Piece>>)
    ensures
        row_views(r@) == prompt_rows(prompt@, views(wrapped@), width as int, mark, text),
{
    let mut out: Vec<Vec<Piece>> = Vec::new();
    let body: usize = prompt_width(width);
    if prompt.is_empty() || body == 0 {
        assert(row_views(out@) =~= Seq::empty());
        return out;
    }
    let ghost lines = views(wrapped@);
    let ghost all = prompt_rows(prompt@, lines, width as int, mark, text);
    let mut i: usize = 0;
    assert(row_views(out@) =~= all.take(0));
    while i < wrapped.len() && i < PROMPT_LINES
        invariant
            i <= wrapped@.len(),
            i <= PROMPT_LINES,
            lines == views(wrapped@),
            body == width - 2,
            prompt@.len() > 0,
            width > 2,
            all == prompt_rows(prompt@, lines, width as int, mark, text),
            row_views(out@) == all.take(i as int),
        decreases wrapped@.len() - i,
    {
        let mut line: String = wrapped[i].clone();
        if i + 1 == PROMPT_LINES && wrapped.len() > PROMPT_LINES {
            line.push('…');
            line = truncate(&line, body);
        }
        let mut row: Vec<Piece> = Vec::new();
        if i == 0 {
            push_text(&mut row, PROMPT_MARK.to_owned(), Style::ink(mark));
        } else {
            push_text(&mut row, "  ".to_owned(), Style::raw());
        }
        push_text(&mut row, line, Style::ink(text));
        assert(views(row@) =~= prompt_row(lines, i as int, body as nat, mark, text));
        push_row(&mut out, row);
        i += 1;
        assert(row_views(out@) =~= all.take(i as int));
    }
    assert(all.take(i as int) =~= all);
    out
}

// ---- the rows ----

/// How long ago, in the words the panels use: since a session was archived,
/// since it last moved, and what one still being created says.
#[derive(Debug)]
pub struct AgoWords {
    pub filed: String,
    pub moved: String,
    pub pending: String,
}

/// What a card says of how long ago.
pub open spec fn ago_of(a: Agent, words: AgoWords) -> Seq<char> {
    if a.archived {
        words.filed@
    } else if a.pending {
        words.pending@
    } else if a.unseen {
        " done"@
    } else {
        words.moved@
    }
}

/// What a card says of how long ago: when it was filed, on an archived card,
/// rather than when its turn last moved; that it is done, while its finish is
/// unread.
pub fn card_ago(a: &Agent, words: &AgoWords) -> (r: String)
    ensures
        r@ == ago_of(*a, *words),
{
    if a.archived {
        words.filed.clone()
    } else if a.pending {
        words.pending.clone()
    } else if a.unseen {
        " done".to_owned()
    } else {
        words.moved.clone()
    }
}

/// What is quiet on an archived card: a step brighter on the cursor's.
pub open spec fn quiet_ink(selected: bool) -> Ink {
    if selected {
        Ink::Muted
    } else {
        Ink::Dim
    }
}

/// A color of a live card; the quiet one on an archived card.
pub open spec fn live_ink(a: Agent, selected: bool, live: Ink) -> Ink {
    if a.archived {
        quiet_ink(selected)
    } else {
        live
    }
}

/// The dot in front of the name: the status the panels' rows read, dimmed
/// where the session is cold, none on one still being created, and a square in
/// its place on an archived card.
pub open spec fn dot_piece(a: Agent, selected: bool) -> PieceView {
    if a.archived {
        text_piece(ARCHIVED_MARK@, inked(quiet_ink(selected)))
    } else if a.pending {
        PieceView::Dot { status: None, unseen: false, dimmed: false }
    } else if is_cold(a) {
        PieceView::Dot { status: Some(a.status), unseen: false, dimmed: true }
    } else {
        PieceView::Dot { status: Some(a.status), unseen: a.unseen, dimmed: false }
    }
}

/// The name: bold, and in motion while the session is live; an archived one
/// gives up both.
pub open spec fn name_piece(a: Agent, selected: bool, name_max: int, phase: usize) -> PieceView {
    PieceView::Text(
        SpanView {
            text: cut(a.name@, less(name_max, 2) as nat),
            style: if a.archived {
                inked(
                    if selected {
                        Ink::Text
                    } else {
                        Ink::Muted
                    },
                )
            } else {
                bold(Ink::Text)
            },
            sweep: if a.pending || is_cold(a) || a.archived {
                None
            } else {
                Some(Sweep::Card { status: a.status, fresh_done: a.fresh_done, phase })
            },
        },
    )
}

/// The color of how long ago.
pub open spec fn ago_ink(a: Agent, selected: bool) -> Ink {
    if a.archived {
        quiet_ink(selected)
    } else if a.unseen && !a.pending {
        Ink::Done
    } else {
        Ink::Dim
    }
}

/// The card's first row: the dot, the name, and how long ago at the right
/// edge.
pub open spec fn first_row(
    a: Agent,
    selected: bool,
    width: int,
    ago: Seq<char>,
    name_max: int,
    phase: usize,
) -> Seq<PieceView> {
    let head = seq![dot_piece(a, selected), name_piece(a, selected, name_max, phase)];
    if ago.len() == 0 {
        head
    } else {
        let word = trim_start(ago);
        let used = cut(a.name@, less(name_max, 2) as nat).len() + 2;
        head.push(
            text_piece(repeated(' ', less(width, (used + word.len()) as int) as nat), bare()),
        ).push(text_piece(word, inked(ago_ink(a, selected))))
    }
}

/// The glyph of a checkout's scope.
pub open spec fn scope_glyph(is_main: bool) -> Seq<char> {
    if is_main {
        "⌂ "@
    } else {
        "↳ "@
    }
}

/// The columns the branch row leaves for the branch and what rides behind it.
pub open spec fn branch_room(a: Agent, is_main: bool, width: int) -> int {
    less(less(width, harness_text(a).len() as int + 3), scope_glyph(is_main).len() as int)
}

/// What the branch row says of the checkout's changes: nothing for a clean
/// one.
pub open spec fn changes_of(w: Option<Worktree>, branch: int, room: int) -> Option<
    (Seq<char>, Option<(Seq<char>, Seq<char>)>),
> {
    match w {
        Some(w) => match w.changes {
            Some(n) => if n > 0 {
                Some(labels(n as int, w.lines, branch, room))
            } else {
                None
            },
            None => None,
        },
        None => None,
    }
}

/// The columns the changes take.
pub open spec fn changes_width(changes: Option<(Seq<char>, Option<(Seq<char>, Seq<char>)>)>) -> int {
    match changes {
        Some((files, lines)) => files.len() + match lines {
            Some((added, removed)) => (added.len() + removed.len()) as int,
            None => 0,
        },
        None => 0,
    }
}

/// The changes as they are drawn.
pub open spec fn changes_pieces(
    a: Agent,
    selected: bool,
    changes: Option<(Seq<char>, Option<(Seq<char>, Seq<char>)>)>,
) -> Seq<PieceView> {
    match changes {
        Some((files, lines)) => {
            let count = seq![text_piece(files, inked(live_ink(a, selected, Ink::Warn)))];
            match lines {
                Some((added, removed)) => count.push(
                    text_piece(added, inked(live_ink(a, selected, Ink::Good))),
                ).push(text_piece(removed, inked(live_ink(a, selected, Ink::Alarm)))),
                None => count,
            }
        },
        None => Seq::empty(),
    }
}

/// The directory in brackets, where it is not the one the branch implies and
/// there is room to say it.
pub open spec fn dir_pieces(a: Agent, selected: bool, w: Option<Worktree>, spare: int) -> Seq<
    PieceView,
> {
    match w {
        Some(w) => match w.dir_label {
            Some(dir) => if spare >= DIR_LABEL_MIN + 3 {
                seq![
                    text_piece(
                        " ["@ + cut(dir@, (spare - 3) as nat) + "]"@,
                        inked(live_ink(a, selected, Ink::Dim)),
                    ),
                ]
            } else {
                Seq::empty()
            },
            None => Seq::empty(),
        },
        None => Seq::empty(),
    }
}

/// What rides at the end of the branch row: the split guard's verdict, and the
/// harness.
pub open spec fn tail_pieces(a: Agent, selected: bool, w: Option<Worktree>) -> Seq<PieceView> {
    let split = if w is Some && w->0.split {
        seq![text_piece(" ⚠ split"@, inked(live_ink(a, selected, Ink::Alarm)))]
    } else {
        Seq::empty()
    };
    let dim = inked(live_ink(a, selected, Ink::Dim));
    if harness_text(a).len() > 0 {
        split.push(text_piece(" · "@, dim)).push(text_piece(harness_text(a), dim))
    } else {
        split
    }
}

/// The card's second row: the checkout in the color of its scope, what is
/// changed in it, its directory, the split guard's verdict, and the harness.
/// The glyph never yields: a long branch truncates around it.
pub open spec fn second_row(
    a: Agent,
    selected: bool,
    is_main: bool,
    branch: Seq<char>,
    w: Option<Worktree>,
    width: int,
) -> Seq<PieceView> {
    let scope = inked(
        live_ink(
            a,
            selected,
            if is_main {
                Ink::Root
            } else {
                Ink::Worktree
            },
        ),
    );
    let room = branch_room(a, is_main, width);
    let changes = changes_of(w, branch.len() as int, room);
    let taken = changes_width(changes);
    let drawn = cut(branch, less(room, taken) as nat);
    seq![text_piece(scope_glyph(is_main), scope), text_piece(drawn, scope)] + changes_pieces(
        a,
        selected,
        changes,
    ) + dir_pieces(a, selected, w, less(room, taken + drawn.len())) + tail_pieces(a, selected, w)
}

/// The label of a pull request: its number, and its title where it has one.
pub open spec fn pr_label(pr: RowPr) -> Seq<char> {
    if pr.title@.len() == 0 {
        "#"@ + decimal(pr.number as nat)
    } else {
        "#"@ + decimal(pr.number as nat) + " "@ + pr.title@
    }
}

/// The card's third row: its pull request, faded on an archived card; a
/// session with none leaves the row blank.
pub open spec fn third_row(a: Agent, selected: bool, pr: Option<RowPr>, width: usize) -> Seq<
    PieceView,
> {
    match pr {
        Some(pr) => seq![
            PieceView::PullRequest {
                label: pr_label(pr),
                badge: " "@ + pr.word(),
                standing: pr.standing,
                trouble: pr.trouble,
                faded: if a.archived {
                    Some(quiet_ink(selected))
                } else {
                    None
                },
                width,
            },
        ],
        None => Seq::empty(),
    }
}

/// What a card is drawn with besides its row: how long ago, how long its name
/// may be, and its last prompt wrapped.
#[derive(Debug)]
pub struct CardText {
    pub ago: String,
    pub name_max: usize,
    pub wrapped: Vec<String>,
}

/// The rows of a card `width` columns wide inside.
pub open spec fn card_rows(
    app: App,
    row: LauncherRow,
    selected: bool,
    width: usize,
    text: CardText,
) -> Seq<Seq<PieceView>> {
    let a = *row.agent;
    let w = the_worktree(app.tree.worktrees@, a.worktree_id@);
    seq![
        first_row(
            a,
            selected,
            width as int,
            text.ago@,
            text.name_max as int,
            app.screen.sweep_phase,
        ),
        second_row(a, selected, row.is_main, row.branch@, w, width as int),
        third_row(a, selected, row.pr, width),
    ] + prompt_rows(
        asked(a),
        views(text.wrapped@),
        width as int,
        live_ink(a, selected, Ink::Dim),
        live_ink(a, selected, Ink::Muted),
    )
}

fn quiet(selected: bool) -> (r: Ink)
    ensures
        r == quiet_ink(selected),
{
    if selected {
        Ink::Muted
    } else {
        Ink::Dim
    }
}

fn quiet_or(a: &Agent, selected: bool, live: Ink) -> (r: Ink)
    ensures
        r == live_ink(*a, selected, live),
{
    if a.archived {
        quiet(selected)
    } else {
        live
    }
}

/// `s` without the white space it opens with.
fn trimmed_start(s: &str) -> (r: String)
    ensures
        r@ == trim_start(s@),
{
    let chars = chars_of(s);
    let mut lo: usize = 0;
    assert(chars@.subrange(0, chars@.len() as int) =~= chars@);
    while lo < chars.len() && white_space(chars[lo])
        invariant
            lo <= chars@.len(),
            trim_start(chars@) == trim_start(chars@.subrange(lo as int, chars@.len() as int)),
        decreases chars@.len() - lo,
    {
        assert(chars@.subrange(lo as int, chars@.len() as int).drop_first() =~= chars@.subrange(
            lo + 1,
            chars@.len() as int,
        ));
        lo += 1;
    }
    text_between(&chars, lo, chars.len())
}

fn name_row(app: &App, a: &Agent, selected: bool, width: usize, ago: &str, name_max: usize) -> (r:
    Vec<Piece>)
    ensures
        views(r@) == first_row(
            *a,
            selected,
            width as int,
            ago@,
            name_max as int,
            app.screen.sweep_phase,
        ),
{
    let cold: bool = !a.alive && !a.cloud;
    let mut row: Vec<Piece> = Vec::new();
    let dot: Piece = if a.archived {
        Piece::Text(Span::of(ARCHIVED_MARK, Style::ink(quiet(selected))))
    } else if a.pending {
        Piece::Dot { status: None, unseen: false, dimmed: false }
    } else if cold {
        Piece::Dot { status: Some(a.status), unseen: false, dimmed: true }
    } else {
        Piece::Dot { status: Some(a.status), unseen: a.unseen, dimmed: false }
    };
    push_piece(&mut row, dot);
    let name = truncate(&a.name, name_max.saturating_sub(2));
    let name_w: usize = char_count(&name);
    let style: Style = if a.archived {
        Style::ink(
            if selected {
                Ink::Text
            } else {
                Ink::Muted
            },
        )
    } else {
        Style::bold(Ink::Text)
    };
    let sweep: Option<Sweep> = if a.pending || cold || a.archived {
        None
    } else {
        Some(
            Sweep::Card { status: a.status, fresh_done: a.fresh_done, phase: app.screen.sweep_phase },
        )
    };
    push_piece(&mut row, Piece::Text(Span { text: name, style, sweep }));
    if !ago.is_empty() {
        let word = trimmed_start(ago);
        let pad: usize = width.saturating_sub(2).saturating_sub(name_w).saturating_sub(
            char_count(&word),
        );
        push_text(&mut row, repeat(' ', pad), Style::raw());
        let ink: Ink = if a.archived {
            quiet(selected)
        } else if a.unseen && !a.pending {
            Ink::Done
        } else {
            Ink::Dim
        };
        push_text(&mut row, word, Style::ink(ink));
    }
    assert(views(row@) =~= first_row(
        *a,
        selected,
        width as int,
        ago@,
        name_max as int,
        app.screen.sweep_phase,
    ));
    row
}

fn worktree_of_card<'a>(app: &'a App, a: &Agent) -> (r: Option<&'a Worktree>)
    ensures
        match r {
            Some(w) => the_worktree(app.tree.worktrees@, a.worktree_id@) == Some(*w),
            None => the_worktree(app.tree.worktrees@, a.worktree_id@) is None,
        },
{
    match find_worktree(&app.tree.worktrees, &a.worktree_id) {
        Some(i) => Some(&app.tree.worktrees[i]),
        None => None,
    }
}

/// The changes behind the branch, and the columns they take.
fn push_changes(
    row: &mut Vec<Piece>,
    a: &Agent,
    selected: bool,
    changes: Option<(String, Option<(String, String)>)>,
)
    ensures
        views(final(row)@) == views(old(row)@) + changes_pieces(*a, selected, texts_of(changes)),
{
    let ghost before = views(row@);
    let ghost texts = texts_of(changes);
    if let Some((files, lines)) = changes {
        push_text(row, files, Style::ink(quiet_or(a, selected, Ink::Warn)));
        if let Some((added, removed)) = lines {
            push_text(row, added, Style::ink(quiet_or(a, selected, Ink::Good)));
            push_text(row, removed, Style::ink(quiet_or(a, selected, Ink::Alarm)));
        }
    }
    assert(views(row@) =~= before + changes_pieces(*a, selected, texts));
}

/// The texts of a card's changes.
pub open spec fn texts_of(changes: Option<(String, Option<(String, String)>)>) -> Option<
    (Seq<char>, Option<(Seq<char>, Seq<char>)>),
> {
    match changes {
        Some((files, lines)) => Some(
            (
                files@,
                match lines {
                    Some((added, removed)) => Some((added@, removed@)),
                    None => None,
                },
            ),
        ),
        None => None,
    }
}

fn changes_text(w: Option<&Worktree>, branch: usize, room: usize) -> (r: Option<
    (String, Option<(String, String)>),
>)
    ensures
        texts_of(r) == changes_of(
            match w {
                Some(w) => Some(*w),
                None => None,
            },
            branch as int,
            room as int,
        ),
{
    if let Some(w) = w {
        if let Some(n) = w.changes {
            if n > 0 {
                return Some(change_labels(n, w.lines, branch, room));
            }
        }
    }
    None
}

fn changes_chars(changes: &Option<(String, Option<(String, String)>)>, room: usize) -> (r: usize)
    ensures
        r == less(room as int, changes_width(texts_of(*changes))),
{
    let mut left: usize = room;
    if let Some((files, lines)) = changes {
        left = left.saturating_sub(char_count(files));
        if let Some((added, removed)) = lines {
            left = left.saturating_sub(char_count(added)).saturating_sub(char_count(removed));
        }
    }
    left
}

fn push_dir(row: &mut Vec<Piece>, a: &Agent, selected: bool, w: Option<&Worktree>, spare: usize)
    ensures
        views(final(row)@) == views(old(row)@) + dir_pieces(
            *a,
            selected,
            match w {
                Some(w) => Some(*w),
                None => None,
            },
            spare as int,
        ),
{
    let ghost before = views(row@);
    if let Some(w) = w {
        if let Some(dir) = &w.dir_label {
            if spare >= DIR_LABEL_MIN + 3 {
                let text = joined(&joined(" [", &truncate(dir, spare - 3)), "]");
                push_text(row, text, Style::ink(quiet_or(a, selected, Ink::Dim)));
            }
        }
    }
    let ghost wt: Option<Worktree> = match w {
        Some(w) => Some(*w),
        None => None,
    };
    assert(views(row@) =~= before + dir_pieces(*a, selected, wt, spare as int));
}

fn push_tail(
    row: &mut Vec<Piece>,
    a: &Agent,
    selected: bool,
    w: Option<&Worktree>,
    harness: String,
)
    requires
        harness@ == harness_text(*a),
    ensures
        views(final(row)@) == views(old(row)@) + tail_pieces(
            *a,
            selected,
            match w {
                Some(w) => Some(*w),
                None => None,
            },
        ),
{
    let ghost before = views(row@);
    if let Some(w) = w {
        if w.split {
            push_text(
                row,
                " ⚠ split".to_owned(),
                Style::ink(quiet_or(a, selected, Ink::Alarm)),
            );
        }
    }
    if !harness.as_str().is_empty() {
        let dim = Style::ink(quiet_or(a, selected, Ink::Dim));
        push_text(row, " · ".to_owned(), dim);
        push_text(row, harness, dim);
    }
    let ghost wt: Option<Worktree> = match w {
        Some(w) => Some(*w),
        None => None,
    };
    assert(views(row@) =~= before + tail_pieces(*a, selected, wt));
}

fn place_row(
    a: &Agent,
    selected: bool,
    is_main: bool,
    branch: &str,
    w: Option<&Worktree>,
    width: usize,
) -> (r: Vec<Piece>)
    ensures
        views(r@) == second_row(
            *a,
            selected,
            is_main,
            branch@,
            match w {
                Some(w) => Some(*w),
                None => None,
            },
            width as int,
        ),
{
    let ghost wt: Option<Worktree> = match w {
        Some(w) => Some(*w),
        None => None,
    };
    let glyph: &str = if is_main {
        "⌂ "
    } else {
        "↳ "
    };
    let scope = Style::ink(
        quiet_or(
            a,
            selected,
            if is_main {
                Ink::Root
            } else {
                Ink::Worktree
            },
        ),
    );
    let harness = harness_line(a);
    let room: usize = width.saturating_sub(3).saturating_sub(char_count(&harness)).saturating_sub(
        char_count(glyph),
    );
    assert(room == branch_room(*a, is_main, width as int));
    let changes = changes_text(w, char_count(branch), room);
    let ghost texts = texts_of(changes);
    let left: usize = changes_chars(&changes, room);
    let drawn = truncate(branch, left);
    let spare: usize = left.saturating_sub(char_count(&drawn));
    let ghost shown = drawn@;
    assert(spare == less(room as int, changes_width(texts) + shown.len()));
    let mut row: Vec<Piece> = Vec::new();
    push_text(&mut row, glyph.to_owned(), scope);
    push_text(&mut row, drawn, scope);
    let ghost head = views(row@);
    assert(head =~= seq![text_piece(scope_glyph(is_main), scope), text_piece(shown, scope)]);
    push_changes(&mut row, a, selected, changes);
    let ghost with_changes = views(row@);
    push_dir(&mut row, a, selected, w, spare);
    assert(views(row@) == with_changes + dir_pieces(*a, selected, wt, spare as int));
    push_tail(&mut row, a, selected, w, harness);
    row
}

fn pr_row(a: &Agent, selected: bool, pr: &Option<RowPr>, width: usize) -> (r: Vec<Piece>)
    ensures
        views(r@) == third_row(*a, selected, *pr, width),
{
    let mut row: Vec<Piece> = Vec::new();
    if let Some(pr) = pr {
        let mut label = joined("#", &decimal_text(pr.number));
        if !pr.title.as_str().is_empty() {
            label.append(" ");
            label.append(&pr.title);
        }
        assert(label@ =~= pr_label(*pr));
        let faded: Option<Ink> = if a.archived {
            Some(quiet(selected))
        } else {
            None
        };
        push_piece(
            &mut row,
            Piece::PullRequest {
                label,
                badge: joined(" ", pr.badge()),
                standing: pr.standing,
                trouble: pr.trouble,
                faded,
                width,
            },
        );
    }
    assert(views(row@) =~= third_row(*a, selected, *pr, width));
    row
}

/// The rows a card draws, `width` columns wide.
pub fn card_lines(app: &App, row: &LauncherRow, selected: bool, width: usize, text: &CardText) -> (r:
    Vec<Vec<Piece>>)
    ensures
        row_views(r@) == card_rows(*app, *row, selected, width, *text),
{
    let a: &Agent = row.agent;
    let mut lines: Vec<Vec<Piece>> = Vec::new();
    push_row(&mut lines, name_row(app, a, selected, width, &text.ago, text.name_max));
    push_row(
        &mut lines,
        place_row(a, selected, row.is_main, &row.branch, worktree_of_card(app, a), width),
    );
    push_row(&mut lines, pr_row(a, selected, &row.pr, width));
    let prompt: &str = match last_prompt(a) {
        Some(p) => p,
        None => {
            proof {
                reveal_strlit("");
            }
            ""
        },
    };
    assert(prompt@ =~= asked(*a));
    let mut foot = prompt_lines(
        prompt,
        &text.wrapped,
        width,
        quiet_or(a, selected, Ink::Dim),
        quiet_or(a, selected, Ink::Muted),
    );
    let ghost head = lines@;
    let ghost tail = foot@;
    lines.append(&mut foot);
    assert(row_views(lines@) =~= row_views(head) + row_views(tail));
    assert(row_views(lines@) =~= card_rows(*app, *row, selected, width, *text));
    lines
}

// ---- the card ----

/// A row of a card where it is drawn.
#[derive(Debug)]
pub struct CardRow {
    pub area: Rect,
    pub pieces: Vec<Piece>,
}

impl View for CardRow {
    type V = (Rect, Seq<PieceView>);

    open spec fn view(&self) -> (Rect, Seq<PieceView>) {
        (self.area, views(self.pieces@))
    }
}

/// A card as it is drawn: its frame, square on an archived card and round on a
/// live one, the wash behind it while it has the keys, and its rows.
#[derive(Debug)]
pub struct Card {
    pub area: Rect,
    pub border: Ink,
    pub square: bool,
    pub tint: Option<Ink>,
    pub rows: Vec<CardRow>,
}

/// Where the text of a card in `area` goes: inside its frame, with a cell of
/// air either side.
pub open spec fn text_area(area: Rect) -> Rect {
    let inner = inside(area);
    Rect { x: (inner.x + 1) as u16, width: less(inner.width as int, 2) as u16, ..inner }
}

/// Every cell a card in `area` draws its text on can be named.
pub open spec fn card_in_range(area: Rect) -> bool {
    let inner = inside(area);
    &&& inner.x < u16::MAX
    &&& inner.height > 0 ==> inner.y + smaller(inner.height as int, CARD_TEXT_H as int) - 1
        <= u16::MAX
}

/// The first `n` rows of a card where they are drawn: each on its own row of
/// the area, the empty ones and those past its end left out.
pub open spec fn placed(rows: Seq<Seq<PieceView>>, area: Rect, n: int) -> Seq<
    (Rect, Seq<PieceView>),
>
    decreases n,
{
    if n <= 0 {
        Seq::empty()
    } else {
        let before = placed(rows, area, n - 1);
        match row_of_rect(area, n - 1) {
            Some(r) => if rows[n - 1].len() > 0 {
                before.push((r, rows[n - 1]))
            } else {
                before
            },
            None => before,
        }
    }
}

/// The columns a card in `area` has for its text.
pub fn card_width(area: Rect) -> (r: usize)
    ensures
        r == less(inside(area).width as int, 2),
{
    block_inner(area).width.saturating_sub(2) as usize
}

/// What a card draws in `area`, given its rows.
pub open spec fn placed_in(rows: Seq<Seq<PieceView>>, area: Rect) -> Seq<(Rect, Seq<PieceView>)> {
    if text_area(area).width == 0 {
        Seq::empty()
    } else {
        placed(rows, text_area(area), rows.len() as int)
    }
}

/// One session's card: its name and how long since it last moved, where it
/// runs — with that checkout's uncommitted file count — and with what, its
/// pull request, and the last thing it was asked to do. The cursor's card
/// takes an accent border, and — while the grid has the keys — a wash behind
/// it; every other card's frame answers to its status.
pub fn draw_card(
    app: &App,
    area: Rect,
    row: &LauncherRow,
    selected: bool,
    focused: bool,
    text: &CardText,
) -> (card: Card)
    requires
        card_in_range(area),
    ensures
        card.area == area,
        card.border == border_ink(*row.agent, selected, focused),
        card.square == row.agent.archived,
        card.tint == (if selected && focused && app.screen.focus_tint {
            Some(Ink::FocusTint)
        } else {
            None
        }),
        views(card.rows@) == placed_in(
            card_rows(*app, *row, selected, text_area(area).width as usize, *text),
            area,
        ),
{
    let a: &Agent = row.agent;
    let cold: bool = !a.alive && !a.cloud;
    let border: Ink = if selected && focused {
        Ink::Accent
    } else {
        match card_edge(a, a.archived || a.pending || cold) {
            Some(edge) => edge,
            None => if selected {
                Ink::Muted
            } else {
                Ink::Edge
            },
        }
    };
    let tint: Option<Ink> = if selected && focused && app.screen.focus_tint {
        Some(Ink::FocusTint)
    } else {
        None
    };
    let inner = block_inner(area);
    let inner = Rect { x: inner.x + 1, width: inner.width.saturating_sub(2), ..inner };
    let mut rows: Vec<CardRow> = Vec::new();
    assert(views(rows@) =~= Seq::empty());
    let width: usize = inner.width as usize;
    let ghost drawn = card_rows(*app, *row, selected, width, *text);
    if width > 0 {
        let lines = card_lines(app, row, selected, width, text);
        proof {
            law_card_height_is_fixed(*app, *row, selected, width, *text);
            assert(row_views(lines@).len() == lines@.len());
        }
        rows = place_rows(lines, inner);
    }
    Card { area, border, square: a.archived, tint, rows }
}

fn place_rows(lines: Vec<Vec<Piece>>, area: Rect) -> (r: Vec<CardRow>)
    requires
        area.height > 0 && lines@.len() > 0 ==> area.y + smaller(
            area.height as int,
            lines@.len() as int,
        ) - 1 <= u16::MAX,
    ensures
        views(r@) == placed(row_views(lines@), area, lines@.len() as int),
{
    broadcast use group_views;

    let ghost all = row_views(lines@);
    let mut out: Vec<CardRow> = Vec::new();
    let count: usize = lines.len();
    let mut i: usize = 0;
    assert(views(out@) =~= Seq::empty());
    for line in it: lines
        invariant
            it.seq() == lines@,
            all == row_views(lines@),
            area.height > 0 && lines@.len() > 0 ==> area.y + smaller(
                area.height as int,
                lines@.len() as int,
            ) - 1 <= u16::MAX,
            i == it.index(),
            i <= count,
            count == lines@.len(),
            views(out@) == placed(all, area, it.index()),
    {
        let ghost n = it.index();
        let ghost shown = views(line@);
        assert(all[n] == shown);
        if line.len() > 0 {
            if let Some(r) = row_rect(area, i) {
                push_card_row(&mut out, CardRow { area: r, pieces: line });
            }
        }
        i += 1;
    }
    out
}

fn push_card_row(rows: &mut Vec<CardRow>, row: CardRow)
    ensures
        views(final(rows)@) == views(old(rows)@).push(row@),
{
    broadcast use group_views;

    rows.push(row);
}

// ---- what holds of it ----

/// The branch gives up a letter only once everything else has yielded: a label
/// that leaves it too little room is the bare file count.
pub proof fn law_branch_yields_last(files: int, lines: Option<LineChanges>, branch: int, room: int)
    requires
        files >= 0,
        branch + changes_width(Some(labels(files, lines, branch, room))) > room,
    ensures
        labels(files, lines, branch, room) == (
            files_short(files),
            None::<(Seq<char>, Seq<char>)>,
        ),
{
}

/// The word for files yields before the lines do: the short count with the
/// lines is only drawn where the long one with them has no room, and the long
/// one alone only where the lines have none at all.
pub proof fn law_word_yields_before_lines(
    files: int,
    lines: LineChanges,
    branch: int,
    room: int,
)
    requires
        files >= 0,
        branch + files_short(files).len() + lines_words(lines).0.len() + lines_words(lines).1.len()
            <= room,
    ensures
        labels(files, Some(lines), branch, room).1 == Some(lines_words(lines)),
{
    reveal_strlit(" file");
}

/// An archived card carries no color of a live one: every frame, mark and word
/// of it is in the quiet colors.
pub proof fn law_archived_card_is_quiet(a: Agent, selected: bool, live: Ink)
    requires
        a.archived,
    ensures
        border_ink(a, selected, false) == Ink::Muted || border_ink(a, selected, false) == Ink::Edge,
        live_ink(a, selected, live) == quiet_ink(selected),
        ago_ink(a, selected) == quiet_ink(selected),
        dot_piece(a, selected) is Text,
{
}

/// A card is a fixed height whatever it was asked to do.
pub proof fn law_card_height_is_fixed(
    app: App,
    row: LauncherRow,
    selected: bool,
    width: usize,
    text: CardText,
)
    ensures
        CARD_HEAD_H <= card_rows(app, row, selected, width, text).len() <= CARD_TEXT_H,
{
}

/// A prompt row never runs past the card: with the prompt wrapped to the
/// room its mark leaves, mark and text together fit the width.
pub proof fn law_prompt_stays_inside(
    prompt: Seq<char>,
    wrapped: Seq<Seq<char>>,
    width: int,
    mark: Ink,
    text: Ink,
    i: int,
)
    requires
        forall|k: int| 0 <= k < wrapped.len() ==> (#[trigger] wrapped[k]).len() <= width - 2,
        0 <= i < prompt_rows(prompt, wrapped, width, mark, text).len(),
    ensures
        ({
            let row = prompt_rows(prompt, wrapped, width, mark, text)[i];
            row.len() == 2 && row[0]->Text_0.text.len() + row[1]->Text_0.text.len() <= width
        }),
{
    reveal_strlit("› ");
    reveal_strlit("  ");
}

/// What a card's frame says. The card the keys are on is in the accent. Of the
/// others, one that is archived, still being created or not running anywhere
/// keeps the plain edge; one waiting on you, one finished unread and one
/// running have a color each, on the cursor's card too; and the rest keep the
/// plain edge, a step brighter under the cursor.
pub proof fn law_frame_follows_the_status(a: Agent, selected: bool, focused: bool)
    ensures
        ({
            let ink = border_ink(a, selected, focused);
            let plain = if selected {
                Ink::Muted
            } else {
                Ink::Edge
            };
            let on = selected && focused;
            let still = a.archived || a.pending || (!a.alive && !a.cloud);
            &&& on ==> ink == Ink::Accent
            &&& !on && still ==> ink == plain
            &&& !on && !still && a.status == AgentStatus::NeedsFeedback ==> ink == Ink::Alarm
            &&& !on && !still && a.status == AgentStatus::Running ==> ink == Ink::WarnEdge
            &&& !on && !still && a.status == AgentStatus::Finished && a.unseen ==> ink
                == Ink::Done
            &&& !on && !still && a.status == AgentStatus::Finished && !a.unseen ==> ink == plain
            &&& !on && (a.status == AgentStatus::Fresh || a.status == AgentStatus::Terminated)
                ==> ink == plain
        }),
{
}

/// What the changes of a checkout are said in, by the room there is: the files
/// in words with the lines behind them; where that does not fit the bare number
/// with the lines; where that does not either, or no lines were counted, the
/// files in words; and where not even that fits the bare number.
pub proof fn law_changes_say_as_much_as_fits(
    files: int,
    lines: Option<LineChanges>,
    branch: int,
    room: int,
)
    requires
        files >= 0,
    ensures
        ({
            let said = labels(files, lines, branch, room);
            let short = " +"@ + decimal(files as nat);
            let long = short + " file"@ + (if files == 1 {
                ""@
            } else {
                "s"@
            });
            let added = " +"@ + decimal(lines->0.added as nat);
            let removed = " -"@ + decimal(lines->0.removed as nat);
            let both = added.len() + removed.len();
            &&& lines is Some && branch + long.len() + both <= room ==> said == (
                long,
                Some((added, removed)),
            )
            &&& lines is Some && branch + long.len() + both > room && branch + short.len() + both
                <= room ==> said == (short, Some((added, removed)))
            &&& lines is Some && branch + short.len() + both > room && branch + long.len() <= room
                ==> said == (long, None::<(Seq<char>, Seq<char>)>)
            &&& lines is None && branch + long.len() <= room ==> said == (
                long,
                None::<(Seq<char>, Seq<char>)>,
            )
            &&& branch + long.len() > room && (lines is None || branch + short.len() + both > room)
                ==> said == (short, None::<(Seq<char>, Seq<char>)>)
        }),
{
    reveal_strlit(" file");
}

/// What a session runs on: `cloud` for a cloud session, and else its harness,
/// with the model behind it where one is named.
pub proof fn law_harness_is_named_with_its_model(a: Agent)
    ensures
        a.cloud ==> harness_text(a) == "cloud"@,
        !a.cloud && a.model is Some && a.model->0@.len() > 0 ==> harness_text(a) == a.harness@
            + " "@ + a.model->0@,
        !a.cloud && (a.model is None || a.model->0@.len() == 0) ==> harness_text(a) == a.harness@,
{
}

/// What a card says of how long ago: of an archived one since it was filed, of
/// one being created that it is, of an unread finish that it is done, and else
/// since it last moved; an unread finish in its own color.
pub proof fn law_card_says_how_long_ago(a: Agent, words: AgoWords, selected: bool)
    ensures
        a.archived ==> ago_of(a, words) == words.filed@,
        !a.archived && a.pending ==> ago_of(a, words) == words.pending@,
        !a.archived && !a.pending && a.unseen ==> ago_of(a, words) == " done"@ && ago_ink(
            a,
            selected,
        ) == Ink::Done,
        !a.archived && !a.pending && !a.unseen ==> ago_of(a, words) == words.moved@,
        !a.archived && (a.pending || !a.unseen) ==> ago_ink(a, selected) == Ink::Dim,
{
}

/// The dot of a live card is the session's own status; of one whose process is
/// gone dimmed and never unread; of one being created there is none yet. The
/// name of a session that runs is in motion by that status, and holds still on
/// every other card.
pub proof fn law_dot_and_name_follow_the_session(
    a: Agent,
    selected: bool,
    name_max: int,
    phase: usize,
)
    requires
        !a.archived,
    ensures
        ({
            let d = dot_piece(a, selected);
            let name = name_piece(a, selected, name_max, phase)->Text_0;
            let runs = a.alive || a.cloud;
            &&& d is Dot
            &&& a.pending ==> d->Dot_status is None
            &&& !a.pending ==> d->Dot_status == Some(a.status)
            &&& !a.pending && runs ==> d->Dot_unseen == a.unseen && !d->Dot_dimmed
            &&& !a.pending && !runs ==> d->Dot_dimmed && !d->Dot_unseen
            &&& !a.pending && runs ==> name.sweep == Some(
                Sweep::Card { status: a.status, fresh_done: a.fresh_done, phase },
            )
            &&& a.pending || !runs ==> name.sweep is None
            &&& name.style.bold
        }),
{
}

/// The first row is the dot, the name and how long ago, which ends at the right
/// edge of the card wherever the three fit side by side.
pub proof fn law_ago_stands_at_the_right_edge(
    a: Agent,
    selected: bool,
    width: int,
    ago: Seq<char>,
    name_max: int,
    phase: usize,
)
    ensures
        ({
            let row = first_row(a, selected, width, ago, name_max, phase);
            let name = row[1]->Text_0.text;
            let word = trim_start(ago);
            &&& name == cut(a.name@, less(name_max, 2) as nat)
            &&& ago.len() == 0 ==> row.len() == 2
            &&& ago.len() > 0 ==> row.len() == 4 && row[3]->Text_0.text == word
            &&& ago.len() > 0 && 2 + name.len() + word.len() <= width ==> 2 + name.len()
                + row[2]->Text_0.text.len() + word.len() == width
        }),
{
}

/// The second row: the checkout's own glyph and branch, in the color of a root
/// or of a worktree; its changes where it has any; the guard's mark exactly
/// where it asks for a split; and the harness at the end.
pub proof fn law_second_row_says_where(
    a: Agent,
    selected: bool,
    is_main: bool,
    branch: Seq<char>,
    w: Worktree,
    width: int,
)
    requires
        !a.archived,
    ensures
        ({
            let row = second_row(a, selected, is_main, branch, Some(w), width);
            let n = row.len() as int;
            let room = less(less(width, harness_text(a).len() as int + 3), 2);
            let changed = w.changes is Some && w.changes->0 > 0;
            let said = row[2]->Text_0;
            let tail = if harness_text(a).len() > 0 {
                2int
            } else {
                0
            };
            &&& n >= 2 + tail
            &&& is_main ==> row[0] == text_piece("⌂ "@, inked(Ink::Root))
            &&& !is_main ==> row[0] == text_piece("↳ "@, inked(Ink::Worktree))
            &&& row[1]->Text_0.style.fg == row[0]->Text_0.style.fg
            &&& !changed && branch.len() <= room ==> row[1]->Text_0.text == branch
            &&& changed ==> n > 2 && said.style.fg == Some(Ink::Warn) && said.text == labels(
                w.changes->0 as int,
                w.lines,
                branch.len() as int,
                room,
            ).0
            &&& tail == 2 ==> row[n - 1]->Text_0.text == harness_text(a)
            &&& w.split ==> row[n - 1 - tail] == text_piece(" ⚠ split"@, inked(Ink::Alarm))
            &&& !w.split && !changed && w.dir_label is None ==> n == 2 + tail
        }),
{
    reveal_strlit("⌂ ");
    reveal_strlit("↳ ");
    if branch.len() <= less(less(width, harness_text(a).len() as int + 3), 2) {
        crate::text::law_cut_keeps_the_beginning(
            branch,
            less(less(width, harness_text(a).len() as int + 3), 2) as nat,
        );
    }
}

/// The third row names the pull request by its number, and its title where it
/// has one; a session with none has nothing there.
pub proof fn law_third_row_names_the_pull_request(
    a: Agent,
    selected: bool,
    pr: RowPr,
    width: usize,
)
    ensures
        third_row(a, selected, None, width).len() == 0,
        ({
            let row = third_row(a, selected, Some(pr), width);
            &&& row.len() == 1 && row[0] is PullRequest
            &&& pr.title@.len() > 0 ==> row[0]->PullRequest_label == "#"@ + decimal(
                pr.number as nat,
            ) + " "@ + pr.title@
            &&& pr.title@.len() == 0 ==> row[0]->PullRequest_label == "#"@ + decimal(
                pr.number as nat,
            )
            &&& row[0]->PullRequest_standing == pr.standing
            &&& row[0]->PullRequest_trouble == pr.trouble
            &&& a.archived <==> row[0]->PullRequest_faded is Some
        }),
{
}

/// The prompt's lines come in order over three rows at most, the first behind
/// the mark and the others indented; each is the line itself, but for the third
/// where there are more, which ends in an ellipsis.
pub proof fn law_prompt_rows_are_its_lines(
    prompt: Seq<char>,
    wrapped: Seq<Seq<char>>,
    width: int,
    mark: Ink,
    text: Ink,
    i: int,
)
    requires
        prompt.len() > 0,
        width > 2,
    ensures
        ({
            let rows = prompt_rows(prompt, wrapped, width, mark, text);
            &&& rows.len() == if wrapped.len() < 3 {
                wrapped.len()
            } else {
                3
            }
            &&& 0 <= i < rows.len() && (i < 2 || wrapped.len() == 3) ==> rows[i][1]->Text_0.text
                == wrapped[i]
            &&& i == 2 && wrapped.len() > 3 ==> rows[i][1]->Text_0.text == cut(
                wrapped[2].push('…'),
                (width - 2) as nat,
            )
            &&& 0 < rows.len() ==> rows[0][0]->Text_0.text == "› "@
            &&& 0 < i < rows.len() ==> rows[i][0]->Text_0.text == "  "@
        }),
{
}

/// Row `k` of a card is drawn on row `k` of its text, where there is one and it
/// says anything; nothing else is drawn.
pub proof fn law_card_rows_are_drawn_in_place(
    rows: Seq<Seq<PieceView>>,
    area: Rect,
    n: int,
    k: int,
)
    requires
        area.in_range(),
        0 <= k < n <= rows.len(),
    ensures
        ({
            let drawn = placed(rows, area, n);
            &&& rows[k].len() > 0 && k < area.height ==> exists|i: int|
                0 <= i < drawn.len() && (#[trigger] drawn[i]).1 == rows[k] && drawn[i].0.y
                    == area.y + k && drawn[i].0.x == area.x && drawn[i].0.width == area.width
                    && drawn[i].0.height == 1
            &&& drawn.len() <= n
        }),
    decreases n,
{
    let drawn = placed(rows, area, n);
    let before = placed(rows, area, n - 1);
    if n - 1 > 0 {
        law_card_rows_are_drawn_in_place(
            rows,
            area,
            n - 1,
            if k < n - 1 {
                k
            } else {
                0
            },
        );
    }
    if rows[k].len() > 0 && k < area.height {
        if k < n - 1 {
            let i = choose|i: int|
                0 <= i < before.len() && (#[trigger] before[i]).1 == rows[k] && before[i].0.y
                    == area.y + k && before[i].0.x == area.x && before[i].0.width == area.width
                    && before[i].0.height == 1;
            assert(drawn[i] == before[i]);
        } else {
            assert(drawn[drawn.len() - 1].1 == rows[k]);
        }
    }
}

/// The directory is named in brackets where it is not the one the branch
/// implies and there is room to say enough of it; and what is quiet on an
/// archived card is a step brighter under the cursor.
pub proof fn law_directory_is_named_where_there_is_room(
    a: Agent,
    selected: bool,
    w: Worktree,
    spare: int,
)
    ensures
        ({
            let d = dir_pieces(a, selected, Some(w), spare);
            &&& w.dir_label is None ==> d.len() == 0
            &&& w.dir_label is Some && spare < DIR_LABEL_MIN + 3 ==> d.len() == 0
            &&& w.dir_label is Some && spare >= DIR_LABEL_MIN + 3 ==> d.len() == 1
                && d[0]->Text_0.text == " ["@ + cut(w.dir_label->0@, (spare - 3) as nat) + "]"@
            &&& selected ==> quiet_ink(selected) == Ink::Muted
            &&& !selected ==> quiet_ink(selected) == Ink::Dim
        }),
{
}

} // verus!
