use nebula_tui::grid::{grid, Hidden, CARD_H, GAP_Y, HEAD_H};
use nebula_tui::launcher::{rows, BoxField, LauncherRow, ProjectTab, RowPr, Tally};
use nebula_tui::layout::Rect;
use nebula_tui::model::{
    Agent, AgentId, AgentStatus, IssueRef, LineChanges, PrRef, Project, ProjectId, QuickLaunch,
    QuickReturn, QuickTarget, SessionRef, Standing, TerminalId, TerminalTab, TextInput, Worktree,
    WorktreeId,
};
use nebula_tui::order::Recency;
use nebula_tui::picker::{Match, PickerProject, ProjectPicker};
use nebula_tui::state::{App, Focus, Hit, HitTarget, Overlay};
use nebula_tui::view::board::{
    draw, draw_empty, draw_list_empty, fitting_cell, place_welcome, wearing, Below, DrawnView, NO_ARCHIVED,
};
use nebula_tui::view::card::{
    card_ago, card_edge, card_width, change_labels, draw_card, harness_line, prompt_lines,
    AgoWords, Card, CardText,
};
use nebula_tui::view::count::{
    draw_head, head_count, hidden_mark, lay_parts, plural, CountsBadge, HeadSpan,
};
use nebula_tui::view::crumb::crumb_frame;
use nebula_tui::view::details::{
    box_hint, box_title, detail_line, form_in, target_line, target_row, DetailLine, Details,
    FieldWidths, Form, TargetLine,
};
use nebula_tui::view::header::{head_tabs, project_strip, tab_dots, tab_ramp};
use nebula_tui::view::pane_strip::{pane_frame, pane_tabs};
use nebula_tui::view::picker_view::{
    box_rect, centered_rect, draw_project_picker, picker_rect, BOX_H, BOX_W, PICKER_ROWS, PICKER_W,
};
use nebula_tui::view::rows::row_rect;
use nebula_tui::view::span::{line_width, Ink, Piece, Ramp, Span, Style, Sweep};
use nebula_tui::view::strip::{room_for, PaneTab};

// ---- fixtures ----

fn rect(x: u16, y: u16, width: u16, height: u16) -> Rect {
    Rect {
        x,
        y,
        width,
        height,
    }
}

fn rest() -> Recency {
    Recency {
        interacted: 0,
        stamped: 0,
    }
}

fn project(id: &str, name: &str) -> Project {
    Project {
        id: ProjectId(id.to_string()),
        name: name.to_string(),
        repo_path: format!("/tmp/{name}"),
        root_hidden: false,
        recency: rest(),
    }
}

fn checkout(id: &str, project: &str, branch: &str, is_main: bool) -> Worktree {
    Worktree {
        id: WorktreeId(id.to_string()),
        project_id: ProjectId(project.to_string()),
        branch: branch.to_string(),
        is_main,
        placeholder: false,
        running: false,
        recency: rest(),
        changes: None,
        lines: None,
        dir_label: None,
        split: false,
    }
}

fn session(id: &str, worktree: &str, name: &str) -> Agent {
    Agent {
        id: AgentId(id.to_string()),
        worktree_id: WorktreeId(worktree.to_string()),
        name: name.to_string(),
        harness: "gemini".to_string(),
        model: None,
        effort: None,
        status: AgentStatus::Finished,
        unseen: false,
        alive: true,
        cloud: false,
        archived: false,
        archived_at: 0,
        status_changed_at: 0,
        pending: false,
        fresh_done: false,
        recent_prompts: Vec::new(),
    }
}

/// Two projects, one session in each: `api` with a `feat` checkout, `web` with
/// one of its own. Both sessions start idle.
fn a_tree() -> App {
    let mut app = App::new();
    app.tree.projects = vec![project("p0", "api"), project("p1", "web")];
    app.tree.worktrees = vec![
        checkout("w0", "p0", "feat", false),
        checkout("w1", "p1", "feat", false),
    ];
    app.tree.agents = vec![session("a0", "w0", "s0"), session("a1", "w1", "s1")];
    app.facts.terminal_key = "t".to_string();
    app.facts.prompt_key = "p".to_string();
    app
}

/// `a_tree` with `count` sessions in `api` instead of one.
fn a_crowded_tree(count: usize) -> App {
    let mut app = a_tree();
    app.tree.agents = (0..count)
        .map(|i| session(&format!("api{i}"), "w0", &format!("session {i}")))
        .collect();
    app
}

fn aim_at(app: &mut App, id: &str) {
    app.sel_session = Some(SessionRef::Agent(AgentId(id.to_string())));
}

fn select(app: &mut App, name: &str) {
    let id = app
        .tree
        .projects
        .iter()
        .find(|p| p.name == name)
        .map(|p| p.id.clone())
        .expect("a row for the project");
    app.sel_project = Some(id);
}

fn row_text(spans: &[Span]) -> String {
    spans.iter().map(|s| s.text.as_str()).collect()
}

fn a_launch() -> QuickLaunch {
    QuickLaunch {
        target: QuickTarget::Worktree(WorktreeId("w".to_string())),
        kind: "gemini".to_string(),
        custom: None,
        model: None,
        effort: None,
        cloud: false,
        issue: None,
        pr: None,
        preset: None,
    }
}

fn head_text(view: &DrawnView, width: u16) -> String {
    // The row as it lands on screen: the tabs from the left, the count up to
    // the right edge of the padded row.
    let row = view.head.row.as_ref().expect("a header row");
    let mut cells: Vec<char> = vec![' '; width as usize];
    let left: Vec<char> = row_text(&row.tabs).chars().collect();
    let right: Vec<char> = row_text(&row.right).chars().collect();
    for (i, c) in left.iter().enumerate() {
        cells[row.area.x as usize + i] = *c;
    }
    let end = (row.area.x + row.area.width) as usize;
    let from = end.saturating_sub(right.len());
    for (i, c) in right.iter().enumerate() {
        cells[from + i] = *c;
    }
    cells.into_iter().collect()
}

fn drawn(app: &App, body: Rect) -> DrawnView {
    let mut hits: Vec<Hit> = Vec::new();
    draw(app, body, None, &mut hits)
}

// ---- the grid ----

#[test]
fn a_body_too_short_for_its_cards_counts_them_in_the_header() {
    let mut app = a_crowded_tree(9);
    select(&mut app, "api");
    // The cursor on the grid's first card, the way a project opens:
    // everything missing is under the fold.
    let first = rows(&app)[0].agent.id.0.clone();
    aim_at(&mut app, &first);
    // One column, room for two rows of cards: seven of the nine are under the
    // fold.
    let body = rect(0, 0, 60, HEAD_H + CARD_H * 2 + 1);
    let view = drawn(&app, body);
    let head = head_text(&view, body.width);
    assert!(head.contains("9 sessions"), "{head:?}");
    assert!(head.contains("↓ 7 hidden"), "{head:?}");

    // And the grid really did draw two of them.
    match view.below {
        Below::Grid(g) => assert_eq!(g.cards.len(), 2, "two cards on screen, seven hidden"),
        _ => panic!("a grid of cards"),
    }
}

#[test]
fn a_grid_that_fits_says_nothing_about_hiding() {
    let mut app = a_crowded_tree(2);
    select(&mut app, "api");
    let body = rect(0, 0, 60, HEAD_H + CARD_H * 2 + 1);
    let head = head_text(&drawn(&app, body), body.width);
    assert!(head.contains("2 sessions"), "{head:?}");
    assert!(!head.contains("hidden"), "{head:?}");
}

#[test]
fn the_air_under_the_cards_says_how_many_more_are_below() {
    let mut app = a_crowded_tree(9);
    select(&mut app, "api");
    let ids: Vec<String> = rows(&app)
        .iter()
        .map(|row| row.agent.id.0.clone())
        .collect();
    aim_at(&mut app, &ids[0]);
    // One column, two rows of cards and four rows of air under them.
    let cards_end = HEAD_H + CARD_H * 2 + GAP_Y;
    let body = rect(0, 0, 60, cards_end + 4);
    match drawn(&app, body).below {
        Below::Grid(g) => {
            let cue = g.more.expect("a cue");
            assert_eq!(cue.line.text, "↓ 7 more sessions below");
            assert_eq!(cue.line.style, Style::ink(Ink::Muted));
            assert!(cue.area.y >= cards_end, "under the cards: {:?}", cue.area);
            assert!(cue.area.y < body.height);
        }
        _ => panic!("a grid of cards"),
    }

    // Walked to the last card, nothing is left below to point at.
    aim_at(&mut app, &ids[8]);
    match drawn(&app, body).below {
        Below::Grid(g) => assert!(g.more.is_none()),
        _ => panic!("a grid of cards"),
    }
}

#[test]
fn a_grid_that_fits_leaves_its_air_empty() {
    let mut app = a_crowded_tree(2);
    select(&mut app, "api");
    let body = rect(0, 0, 60, HEAD_H + CARD_H * 2 + 6);
    match drawn(&app, body).below {
        Below::Grid(g) => assert!(g.more.is_none()),
        _ => panic!("a grid of cards"),
    }
}

#[test]
fn one_card_wears_the_cursor_and_none_once_it_is_let_go() {
    let mut app = a_crowded_tree(5);
    select(&mut app, "api");
    aim_at(&mut app, "api2");
    let body = rect(0, 0, 120, 40);
    let marked = |app: &App| -> Vec<usize> {
        match drawn(app, body).below {
            Below::Grid(g) => g
                .cards
                .iter()
                .filter(|c| c.selected)
                .map(|c| c.index)
                .collect(),
            _ => panic!("a grid of cards"),
        }
    };
    assert_eq!(marked(&app), [2]);
    app.launcher_unaimed = true;
    assert!(marked(&app).is_empty());
    assert_eq!(wearing(&app, Some(2)), None);
}

#[test]
fn a_click_on_a_card_is_the_cards_and_the_air_the_grids() {
    let mut app = a_crowded_tree(3);
    select(&mut app, "api");
    let mut hits: Vec<Hit> = Vec::new();
    draw(&app, rect(0, 0, 120, 30), None, &mut hits);
    let grid_hits: Vec<&HitTarget> = hits
        .iter()
        .map(|h| &h.target)
        .filter(|t| matches!(t, HitTarget::LauncherRow(_) | HitTarget::PanelBg(_)))
        .collect();
    assert_eq!(
        grid_hits,
        [
            &HitTarget::LauncherRow(0),
            &HitTarget::LauncherRow(1),
            &HitTarget::LauncherRow(2),
            &HitTarget::PanelBg(Focus::Sessions),
        ]
    );
}

#[test]
fn a_view_in_the_last_corner_of_the_screen_is_drawn() {
    let mut app = a_crowded_tree(3);
    select(&mut app, "api");
    let body = rect(65535 - 60, 65535 - 30, 60, 30);
    match drawn(&app, body).below {
        Below::Grid(g) => {
            assert_eq!(g.cards.len(), 3);
            let last = g.cards[2].cell;
            assert_eq!(last.y + last.height, body.y + HEAD_H + 3 * CARD_H + 2 * GAP_Y);
        }
        other => panic!("expected the grid, got {other:?}"),
    }
    app.tree.agents.clear();
    match drawn(&app, body).below {
        Below::Welcome(w) => assert!(w.expect("a welcome").areas.clear.is_some()),
        other => panic!("expected the welcome, got {other:?}"),
    }
    let mut hits: Vec<Hit> = Vec::new();
    let pane = pane_frame(&app, body, &None, false, &mut hits);
    assert_eq!(pane.inner, rect(body.x, body.y + 3, 60, 27));
}

#[test]
fn a_cell_that_does_not_fit_whole_is_none() {
    let g = grid(rect(0, 0, 60, HEAD_H + CARD_H));
    assert_eq!(fitting_cell(&g, 0), Some(g.cell(0)));
    let g = grid(rect(0, 0, 60, HEAD_H + CARD_H - 1));
    assert_eq!(fitting_cell(&g, 0), None);
}

#[test]
fn the_keys_are_on_the_cards_only_while_nothing_else_has_them() {
    let mut app = a_crowded_tree(1);
    select(&mut app, "api");
    let focused = |app: &App| match drawn(app, rect(0, 0, 60, 30)).below {
        Below::Grid(g) => g.focused,
        _ => panic!("a grid of cards"),
    };
    assert!(focused(&app));
    app.focus = Focus::Terminal;
    assert!(!focused(&app));
    app.focus = Focus::Sessions;
    app.launcher_tab_cursor = Some(ProjectId("p0".to_string()));
    assert!(!focused(&app));
}

// ---- nothing to draw ----

#[test]
fn an_empty_archived_view_says_the_way_back() {
    let mut app = a_tree();
    select(&mut app, "api");
    app.show_archived = true;
    match drawn(&app, rect(0, 0, 60, 30)).below {
        Below::Archived(Some(empty)) => {
            assert_eq!(empty.line.text, NO_ARCHIVED);
            assert_eq!(empty.line.style, Style::ink(Ink::Dim));
            assert_eq!((empty.area.y, empty.area.height), (4, 1));
        }
        _ => panic!("the archived line"),
    }
    app.overlay = Some(Overlay::Other);
    let mut hits: Vec<Hit> = Vec::new();
    assert!(draw_list_empty(&app, rect(0, 0, 40, 10), "x", &mut hits).is_none());
    assert_eq!(hits.len(), 1);
}

#[test]
fn the_welcome_stands_a_little_under_the_middle_of_its_sky() {
    let mut app = a_tree();
    let mut hits: Vec<Hit> = Vec::new();
    let area = rect(2, 3, 80, 30);
    let w = draw_empty(&app, area, &mut hits).expect("a welcome");
    // "press  p  to prompt" is 19 columns, the name's line 17.
    let text = w.areas.text;
    assert_eq!(text, rect(2 + (80 - 19) / 2, 3 + 18 - 1, 19, 3));
    assert_eq!(w.areas.clear, Some(rect(text.x - 4, text.y, 27, 3)));
    assert_eq!(w.areas.key_row, rect(text.x, text.y + 2, 19, 1));
    assert_eq!(row_text(&w.name), "Welcome to nebula");
    assert_eq!(w.name[0].style, Style::ink(Ink::Text));
    assert_eq!(w.name[1].sweep, Some(Sweep::Wordmark));
    assert_eq!(row_text(&w.prompt), "press  p  to prompt");
    assert_eq!(w.prompt[1].style.bg, Some(Ink::Accent), "the key is a key cap");
    assert_eq!(w.prompt[1].style.fg, Some(Ink::OnAccent));
    assert!(w.prompt.iter().all(|s| !s.style.underlined));
    assert_eq!(
        hits.iter().map(|h| h.target.clone()).collect::<Vec<_>>(),
        [
            HitTarget::LauncherWelcomePrompt,
            HitTarget::PanelBg(Focus::Sessions)
        ]
    );

    // No room for a sky: just centered.
    let small = draw_empty(&app, rect(0, 0, 20, 9), &mut hits).expect("a welcome");
    assert_eq!(small.areas.clear, None);
    assert_eq!(small.areas.text, rect(0, 3, 19, 3));

    // Cut off at the bottom, the button is only what is left on the grid.
    let low = draw_empty(&app, rect(0, 0, 20, 2), &mut hits).expect("a welcome");
    assert_eq!(low.areas.key_row.height, 0);

    app.screen.hover_crumb = Some(HitTarget::LauncherWelcomePrompt);
    let hovered = draw_empty(&app, area, &mut hits).expect("a welcome");
    let underlined: Vec<bool> = hovered.prompt.iter().map(|s| s.style.underlined).collect();
    assert_eq!(underlined, [true, false, true]);
    assert_eq!(
        place_welcome(area, 17, 40).text,
        rect(2 + 20, text.y, 40, 3),
        "as wide as the wider line"
    );
    app.overlay = Some(Overlay::Other);
    assert!(draw_empty(&app, area, &mut hits).is_none());
}

// ---- the pane's strip ----

fn strip_text(app: &App, room: usize) -> String {
    pane_tabs(app, room)
        .iter()
        .flat_map(|tab| tab.spans.iter())
        .map(|s| s.text.as_str())
        .collect()
}

fn a_tree_with_terminals(count: usize) -> App {
    let mut app = a_tree();
    select(&mut app, "api");
    aim_at(&mut app, "a0");
    app.records.pane_terminals = (1..=count)
        .map(|i| TerminalTab {
            id: TerminalId(format!("t{i}")),
            name: format!("shell-{i}"),
            alive: true,
            run_command: None,
        })
        .collect();
    app
}

#[test]
fn a_narrow_strip_counts_the_tabs_it_cannot_draw() {
    let app = a_tree_with_terminals(6);
    let width = |room| {
        pane_tabs(&app, room)
            .iter()
            .map(PaneTab::width)
            .sum::<usize>()
    };

    let wide = strip_text(&app, 140);
    assert!(wide.contains("shell-6"), "all six fit: {wide:?}");
    assert!(!wide.contains('+'), "so nothing is counted: {wide:?}");

    let tight = strip_text(&app, 60);
    assert!(tight.contains("SESSION"), "{tight:?}");
    assert!(
        tight.contains("feat"),
        "the checkout never gives way: {tight:?}"
    );
    assert!(
        tight.contains('+'),
        "what did not fit is counted: {tight:?}"
    );
    assert!(
        !tight.contains("shell-6"),
        "and is not also drawn: {tight:?}"
    );
    assert!(width(60) <= 60, "the strip fits its room: {tight:?}");
}

#[test]
fn the_strip_keeps_the_tab_it_is_reading_on_screen() {
    let mut app = a_tree_with_terminals(6);
    // Narrow enough that the last terminals fall off the end.
    let room = 60;
    let drawn = |app: &App| -> Vec<usize> {
        pane_tabs(app, room)
            .iter()
            .filter_map(|tab| match tab.hit {
                Some(HitTarget::LauncherPaneTerminal(i)) => Some(i),
                _ => None,
            })
            .collect()
    };
    assert!(
        !drawn(&app).contains(&5),
        "the last tab is off the end to begin with: {:?}",
        drawn(&app)
    );

    app.launcher_terminal = Some(TerminalId("t6".to_string()));
    assert!(
        drawn(&app).contains(&5),
        "reading it pulls the strip to it: {:?}",
        drawn(&app)
    );
    let text = strip_text(&app, room);
    assert!(text.contains("shell-6"), "and draws it: {text:?}");
    assert!(
        text.contains('+'),
        "with what is behind it counted: {text:?}"
    );
    assert!(
        pane_tabs(&app, room)
            .iter()
            .map(PaneTab::width)
            .sum::<usize>()
            <= room,
        "and still fits: {text:?}"
    );
}

#[test]
fn an_empty_checkout_says_which_key_opens_a_terminal() {
    let app = a_tree_with_terminals(0);
    let text = strip_text(&app, 120);
    assert!(text.contains("SESSION"), "{text:?}");
    assert!(text.contains('│'), "the divider is still drawn: {text:?}");
    assert!(text.contains("opens a terminal here"), "{text:?}");
    assert_eq!(text, "SESSION · s0  ↳ feat  │  t opens a terminal here");
}

#[test]
fn a_terminals_glyph_and_cross_say_what_it_is() {
    let mut app = a_tree_with_terminals(2);
    app.records.pane_terminals[1].run_command = Some("make".to_string());
    app.records.pane_terminals[1].alive = false;
    app.launcher_terminal = Some(TerminalId("t1".to_string()));
    let tabs = pane_tabs(&app, 140);
    let find = |hit: HitTarget| {
        tabs.iter()
            .find(|t| t.hit == Some(hit.clone()))
            .expect("a tab")
    };
    let first = find(HitTarget::LauncherPaneTerminal(0));
    assert_eq!(row_text(&first.spans), "❯ shell-1");
    assert_eq!(first.spans[0].style, Style::ink(Ink::Good));
    assert_eq!(first.spans[1].style, Style::bold(Ink::Accent));
    let second = find(HitTarget::LauncherPaneTerminal(1));
    assert_eq!(row_text(&second.spans), "▶ shell-2");
    assert_eq!(second.spans[0].style, Style::ink(Ink::Dim));
    assert_eq!(second.spans[1].style, Style::ink(Ink::Dim));
    let cross = find(HitTarget::LauncherPaneCloseTerminal(0));
    assert_eq!(cross.spans[0].style, Style::ink(Ink::Muted));
    assert_eq!(row_text(&cross.spans), " ×");
    let session = find(HitTarget::LauncherPaneSession);
    assert_eq!(session.spans[0].style, Style::ink(Ink::Muted));
}

#[test]
fn the_panes_frame_keeps_the_close_button_at_its_end() {
    let mut app = a_tree_with_terminals(1);
    let mut hits: Vec<Hit> = Vec::new();
    let tag = Some(Span::of("scroll 4", Style::ink(Ink::Dim)));
    let pane = pane_frame(&app, rect(0, 10, 80, 20), &tag, true, &mut hits);
    assert_eq!(pane.inner, rect(0, 13, 80, 17));
    assert_eq!(pane.rule, Some(rect(0, 12, 80, 1)));
    assert_eq!(pane.rule_ink, Ink::Accent);
    let row = pane.row.expect("a row");
    assert_eq!(row.area, rect(2, 11, 76, 1));
    assert_eq!(row.tag_area, rect(2, 11, 73, 1));
    assert_eq!(row.close, Some((rect(75, 11, 3, 1), Ink::Muted)));
    assert_eq!(
        hits.last().map(|h| (h.rect, h.target.clone())),
        Some((rect(75, 11, 3, 1), HitTarget::LauncherPaneClose))
    );
    assert_eq!(hits[0].target, HitTarget::LauncherPaneSession);
    assert_eq!(hits[0].rect, rect(2, 11, 12, 1));

    app.screen.hover_crumb = Some(HitTarget::LauncherPaneClose);
    let pane = pane_frame(&app, rect(0, 10, 80, 20), &None, false, &mut hits);
    assert_eq!(pane.rule_ink, Ink::Edge);
    assert_eq!(
        pane.row.expect("a row").close,
        Some((rect(75, 11, 3, 1), Ink::Alarm))
    );

    // A pane of one row has no strip, and one too narrow no button.
    let pane = pane_frame(&app, rect(0, 0, 80, 1), &None, false, &mut hits);
    assert!(pane.row.is_none());
    let pane = pane_frame(&app, rect(0, 0, 6, 5), &None, false, &mut hits);
    assert_eq!(pane.row.expect("a row").close, None);
}

// ---- the crumb ----

#[test]
fn the_crumb_leads_back_to_the_grid() {
    let mut app = a_tree();
    app.attached = Some(SessionRef::Agent(AgentId("a0".to_string())));
    app.tree.agents[0].model = Some("large".to_string());
    app.tree.agents[0].effort = Some("high".to_string());
    app.focus = Focus::Terminal;
    let mut hits: Vec<Hit> = Vec::new();
    let crumb = crumb_frame(&app, rect(0, 0, 80, 24), &mut hits);
    assert_eq!(crumb.rule_ink, Ink::Accent);
    assert_eq!(crumb.inner, rect(0, 3, 80, 21));
    assert_eq!(hits.len(), 1);
    assert_eq!(hits[0].rect, rect(2, 1, 10, 1), "only the crumb itself");
    assert_eq!(hits[0].target, HitTarget::LauncherCrumb);
    let row = crumb.row.expect("a row");
    assert_eq!(row_text(&row.right), "gemini large high · api / feat");
    assert_eq!(pieces_text(&row.left), "‹ sessions / ● s0");

    app.attached = None;
    let crumb = crumb_frame(&app, rect(0, 0, 80, 24), &mut hits);
    let row = crumb.row.expect("a row");
    assert!(row.right.is_empty());
    assert_eq!(pieces_text(&row.left), "‹ sessions");
    assert!(!piece_span(&row.left[0]).style.underlined);

    app.screen.hover_crumb = Some(HitTarget::LauncherCrumb);
    let crumb = crumb_frame(&app, rect(0, 0, 80, 24), &mut hits);
    assert!(piece_span(&crumb.row.expect("a row").left[0]).style.underlined);
    assert!(crumb_frame(&app, rect(0, 0, 80, 1), &mut hits).row.is_none());
}

fn piece_span(p: &Piece) -> &Span {
    match p {
        Piece::Text(s) => s,
        _ => panic!("text"),
    }
}

fn pieces_text(pieces: &[Piece]) -> String {
    pieces
        .iter()
        .map(|p| match p {
            Piece::Text(s) => s.text.clone(),
            Piece::Dot { .. } => "● ".to_string(),
            Piece::PullRequest { label, badge, .. } => format!("{label}{badge}"),
            Piece::Lit { name, .. } => name.clone(),
        })
        .collect()
}

// ---- the header's count ----

fn count_text(app: &App, count: usize, hidden: Hidden, width: usize) -> String {
    head_count(app, count, hidden, width, None)
        .iter()
        .map(|p| p.span.text.as_str())
        .collect()
}

#[test]
fn the_header_says_how_many_cards_it_could_not_fit() {
    let app = App::new();
    let mark = |hidden| count_text(&app, 9, hidden, 80);

    assert_eq!(mark(Hidden::default()), "9 sessions", "nothing is missing");
    assert_eq!(
        mark(Hidden { above: 0, below: 5 }),
        "9 sessions  ↓ 5 hidden",
        "under the fold: step down to them"
    );
    assert_eq!(
        mark(Hidden { above: 4, below: 0 }),
        "9 sessions  ↑ 4 hidden"
    );
    assert_eq!(
        mark(Hidden { above: 2, below: 3 }),
        "9 sessions  ↑↓ 5 hidden",
        "both ways at once, counted together"
    );
}

fn a_badge() -> CountsBadge {
    CountsBadge {
        parts: vec![
            HeadSpan {
                span: Span::of("  2 PRs", Style::ink(Ink::Muted)),
                hit: Some(HitTarget::LauncherPullRequests),
            },
            HeadSpan {
                span: Span::of(" · ", Style::ink(Ink::Dim)),
                hit: None,
            },
            HeadSpan {
                span: Span::of("3 issues", Style::ink(Ink::Muted)),
                hit: Some(HitTarget::LauncherIssues),
            },
        ],
        width: 18,
    }
}

#[test]
fn the_hidden_marker_outlasts_the_counts_beside_it() {
    let mut app = a_tree();
    select(&mut app, "api");
    let hidden = Hidden { above: 0, below: 5 };
    for width in 10..=120usize {
        let spans = head_count(&app, 9, hidden, width, Some(a_badge()));
        let text: String = spans.iter().map(|p| p.span.text.as_str()).collect();
        assert!(text.contains("5 hidden"), "{width}: {text:?}");
        let used: usize = text.chars().count();
        if used > width {
            // Only the count itself and the marker are left; nothing else was
            // there to drop.
            assert_eq!(text, "9 sessions  ↓ 5 hidden", "{width}: {text:?}");
        }
        assert_eq!(text.contains("2 PRs"), width >= 10 + 18 + 12, "{width}: {text:?}");
    }
}

#[test]
fn the_counts_are_buttons_where_the_row_lands_them() {
    let mut app = a_tree();
    select(&mut app, "api");
    app.launcher_tabs = vec![ProjectId("p0".to_string())];
    app.screen.hover_crumb = Some(HitTarget::LauncherIssues);
    let mut hits: Vec<Hit> = Vec::new();
    let head = draw_head(
        &app,
        rect(0, 0, 80, 20),
        1,
        Hidden::default(),
        Some(a_badge()),
        &mut hits,
    );
    let row = head.row.expect("a row");
    assert_eq!(row.area, rect(2, 1, 76, 1));
    assert_eq!(head.rule, Some(rect(0, 2, 80, 1)));
    assert_eq!(row_text(&row.right), "1 session  2 PRs · 3 issues");
    assert!(row.right[3].style.underlined, "the one under the pointer");
    assert!(!row.right[1].style.underlined);
    let right = row.area.x + row.area.width;
    let find = |what: HitTarget| {
        hits.iter()
            .find(|h| h.target == what)
            .map(|h| h.rect)
            .expect("a hit")
    };
    assert_eq!(find(HitTarget::LauncherIssues), rect(right - 8, 1, 8, 1));
    assert_eq!(
        find(HitTarget::LauncherPullRequests),
        rect(right - 18, 1, 7, 1)
    );

    // With no project in front of you there is nothing to count.
    app.sel_project = None;
    let text: String = head_count(&app, 1, Hidden::default(), 80, Some(a_badge()))
        .iter()
        .map(|p| p.span.text.clone())
        .collect();
    assert_eq!(text, "1 session");
    app.show_archived = true;
    assert_eq!(count_text(&app, 2, Hidden::default(), 80), "2 archived sessions");
}

#[test]
fn the_counts_are_laid_out_by_their_measured_widths() {
    let mut hits: Vec<Hit> = Vec::new();
    let spans = lay_parts(a_badge().parts, &vec![7, 3, 10], 20, rect(5, 1, 50, 1), &mut hits);
    assert_eq!(spans.len(), 3);
    let at: Vec<Rect> = hits.iter().map(|h| h.rect).collect();
    assert_eq!(at, [rect(35, 1, 7, 1), rect(45, 1, 10, 1)]);
}

#[test]
fn one_of_a_thing_takes_no_ending() {
    assert_eq!(plural(1), "");
    assert_eq!(plural(0), "s");
    assert_eq!(plural(12), "s");
    assert!(hidden_mark(Hidden::default()).is_empty());
}

// ---- the project tabs ----

fn a_tabbed_tree() -> App {
    let mut app = a_tree();
    select(&mut app, "api");
    app.launcher_tabs = vec![ProjectId("p1".to_string()), ProjectId("p0".to_string())];
    app
}

fn tabs_of(app: &App, r: Rect) -> (Vec<Span>, Vec<Hit>) {
    let mut hits: Vec<Hit> = Vec::new();
    let spans = head_tabs(app, r, 0, &mut hits);
    (spans, hits)
}

#[test]
fn the_header_is_the_open_projects_as_tabs() {
    let r = rect(0, 0, 80, 1);
    let mut app = a_tabbed_tree();
    let (spans, hits) = tabs_of(&app, r);
    let text = row_text(&spans);
    assert_eq!(text, " +   web ×   api × ");
    let (web, api) = (ProjectId("p1".to_string()), ProjectId("p0".to_string()));
    assert_eq!(
        hits.iter().map(|h| h.target.clone()).collect::<Vec<_>>(),
        vec![
            HitTarget::LauncherTabAdd,
            HitTarget::LauncherTab(web.clone()),
            HitTarget::LauncherTabClose(web),
            HitTarget::LauncherTab(api.clone()),
            HitTarget::LauncherTabClose(api.clone()),
        ]
    );
    // Each tab's rect is its own name and never the `×` beside it.
    let rect = hits
        .iter()
        .find(|h| h.target == HitTarget::LauncherTab(api.clone()))
        .map(|h| h.rect)
        .expect("api's tab");
    let cells: Vec<char> = text.chars().collect();
    let tab: String = cells[rect.x as usize..(rect.x + rect.width) as usize]
        .iter()
        .collect();
    assert_eq!(tab, " api", "the name, and never the × beside it");

    let lit = spans.iter().find(|s| s.text == "api").expect("api");
    assert_eq!(lit.style.fg, Some(Ink::Accent));
    assert_eq!(lit.style.bg, Some(Ink::SelBg), "the lit tab is a chip");
    let flat = spans.iter().find(|s| s.text == "web").expect("web");
    assert_eq!(flat.style.fg, Some(Ink::Muted));
    assert_eq!(flat.style.bg, None);

    // With nothing open, the `+` says what it does.
    app.launcher_tabs.clear();
    let (spans, hits) = tabs_of(&app, r);
    assert_eq!(row_text(&spans), " + open a project ");
    assert_eq!(
        hits.iter().map(|h| h.target.clone()).collect::<Vec<_>>(),
        vec![HitTarget::LauncherTabAdd]
    );
}

#[test]
fn a_tab_carries_its_projects_status_dots() {
    let r = rect(0, 0, 80, 1);
    let mut app = a_tabbed_tree();
    // api: one asking, one mid-turn; web: one finished unread.
    let mut asking = session("a9", "w0", "s0");
    asking.status = AgentStatus::NeedsFeedback;
    app.tree.agents.push(asking);
    app.tree.agents[0].status = AgentStatus::Running;
    app.tree.agents[1].unseen = true;
    let (spans, _) = tabs_of(&app, r);
    assert_eq!(row_text(&spans), " +   web ●1 ×   api ●1 ●1 × ");
    let dots: Vec<(String, Option<Ink>)> = spans
        .iter()
        .filter(|s| s.text.contains('●'))
        .map(|s| (s.text.clone(), s.style.fg))
        .collect();
    assert_eq!(
        dots,
        vec![
            (" ●1".to_string(), Some(Ink::Done)),
            (" ●1".to_string(), Some(Ink::Alarm)),
            (" ●1".to_string(), Some(Ink::Warn)),
        ]
    );
}

#[test]
fn a_lone_tab_has_no_cross() {
    let r = rect(0, 0, 80, 1);
    let mut app = a_tabbed_tree();
    app.launcher_tabs = vec![ProjectId("p0".to_string())];
    let (spans, hits) = tabs_of(&app, r);
    assert_eq!(row_text(&spans), " +   api ");
    assert!(!hits
        .iter()
        .any(|h| matches!(h.target, HitTarget::LauncherTabClose(_))));

    let app = a_tabbed_tree();
    let (spans, _) = tabs_of(&app, r);
    assert_eq!(row_text(&spans), " +   web ×   api × ");
}

#[test]
fn the_tabs_sweep_in_place_whatever_is_running() {
    let r = rect(0, 0, 80, 1);
    let mut app = a_tabbed_tree();
    app.screen.animations = true;
    app.screen.sweep_phase = 7;
    let (_, quiet) = tabs_of(&app, r);
    for a in &mut app.tree.agents {
        a.status = AgentStatus::Running;
    }
    let (busy, busy_hits) = tabs_of(&app, r);
    assert!(row_text(&busy).contains(" web"), "{:?}", row_text(&busy));
    assert!(
        busy.iter()
            .filter(|s| s.text == "web" || s.text == "api")
            .all(|s| s.sweep
                == Some(Sweep::Tab {
                    ramp: Ramp::Warn,
                    phase: 7
                })),
        "swept a cell at a time"
    );
    let first_tab = |hits: &[Hit]| {
        hits.iter()
            .find(|h| matches!(h.target, HitTarget::LauncherTab(_)))
            .map(|h| (h.rect.x, h.target.clone()))
    };
    assert_eq!(
        first_tab(&quiet),
        first_tab(&busy_hits),
        "the first tab starts where it did"
    );
    app.screen.animations = false;
    let (still, _) = tabs_of(&app, r);
    assert!(still.iter().all(|s| s.sweep.is_none()));
}

#[test]
fn a_tabs_ramp_is_the_loudest_state_under_it() {
    let tally = |needs_you, running, done| Tally {
        needs_you,
        done,
        running,
    };
    assert_eq!(tab_ramp(tally(1, 3, 2)), Some(Ramp::Alarm));
    assert_eq!(tab_ramp(tally(0, 1, 2)), Some(Ramp::Warn));
    assert_eq!(tab_ramp(tally(0, 0, 2)), Some(Ramp::Done));
    assert_eq!(tab_ramp(tally(0, 0, 0)), None);
}

#[test]
fn dots_count_in_decimal() {
    let texts: Vec<String> = tab_dots(Tally {
        needs_you: 10,
        done: 0,
        running: 1234,
    })
    .into_iter()
    .map(|s| s.text)
    .collect();
    assert_eq!(texts, [" ●10", " ●1234"]);
}

#[test]
fn the_pointer_marks_the_tab_it_rests_on() {
    let r = rect(0, 0, 80, 1);
    let mut app = a_tabbed_tree();
    let web = ProjectId("p1".to_string());
    let underlined = |app: &App| -> Vec<String> {
        tabs_of(app, r)
            .0
            .iter()
            .filter(|s| s.style.underlined)
            .map(|s| s.text.clone())
            .collect()
    };
    assert!(underlined(&app).is_empty());

    app.screen.hover_crumb = Some(HitTarget::LauncherTab(web.clone()));
    assert_eq!(underlined(&app), ["web"]);

    app.screen.hover_crumb = Some(HitTarget::LauncherTabAdd);
    assert_eq!(underlined(&app), ["+"]);

    app.screen.hover_crumb = Some(HitTarget::LauncherTabClose(web));
    assert!(underlined(&app).is_empty());
    let (spans, _) = tabs_of(&app, r);
    let crosses: Vec<Option<Ink>> = spans
        .iter()
        .filter(|s| s.text.contains('×'))
        .map(|s| s.style.fg)
        .collect();
    assert_eq!(
        crosses,
        [Some(Ink::Alarm), Some(Ink::Muted)],
        "web's is red"
    );
}

#[test]
fn tabs_that_do_not_fit_are_counted_at_the_edge() {
    let mut app = a_tree();
    for i in 2..9 {
        let mut p = project(&format!("p{i}"), &format!("project-number-{i}"));
        p.repo_path = format!("/tmp/p{i}");
        app.tree.projects.push(p);
    }
    // Every project open, `api` — the oldest opened — last.
    app.launcher_tabs = (0..9)
        .rev()
        .map(|i| ProjectId(format!("p{i}")))
        .collect();
    select(&mut app, "api");
    for width in 5..=160u16 {
        let r = rect(0, 0, width, 1);
        let (spans, _) = tabs_of(&app, r);
        let text = row_text(&spans);
        let used: usize = spans.iter().map(|s| s.text.chars().count()).sum();
        assert!(used + 2 <= width as usize, "{width}: {text:?} overruns");
        assert!(text.contains('+'), "{width}: the + went: {text:?}");
        if width >= 24 {
            assert!(text.contains("api"), "{width}: the lit tab went: {text:?}");
            assert!(text.contains('‹'), "{width}: {text:?}");
        }
    }
    // Wide enough for all of them, nothing is counted.
    let (spans, _) = tabs_of(&app, rect(0, 0, 400, 1));
    let text = row_text(&spans);
    assert!(!text.contains('‹') && !text.contains('›'), "{text:?}");
}

#[test]
fn thousands_of_tabs_never_overrun_the_header() {
    let tabs: Vec<ProjectTab> = (0..1200)
        .map(|i| ProjectTab {
            id: ProjectId(format!("p{i}")),
            name: format!("project-{i}"),
            tally: Tally::default(),
            active: i == 1100,
            focused: false,
        })
        .collect();
    for budget in 0..80usize {
        let strip = project_strip(&tabs, &None, None, budget);
        let used: usize = strip.iter().map(|t| t.width()).sum();
        assert!(used <= budget, "{budget}: {used}");
    }
    let strip = project_strip(&tabs, &None, None, 40);
    let text: String = strip.iter().map(|t| row_text(&t.spans)).collect();
    assert!(text.starts_with("‹1100 "), "{text:?}");
    assert!(text.contains("project-1100"), "{text:?}");
}

#[test]
fn a_strip_keeps_room_for_the_digits_of_a_count() {
    assert_eq!(room_for(2, 0), 0);
    assert_eq!(room_for(2, 999), 5);
    assert_eq!(room_for(2, 1000), 6);
    assert_eq!(room_for(3, 99), 5);
    assert_eq!(room_for(3, 100), 6);
}

#[test]
fn the_folder_is_named_only_with_more_than_one() {
    let mut app = a_tabbed_tree();
    app.tree.projects[1].repo_path = "/tmp/elsewhere/web".to_string();
    let (spans, _) = tabs_of(&app, rect(0, 0, 80, 1));
    assert_eq!(row_text(&spans), " tmp │ +   api ");
    app.tree.projects[0].repo_path = "/a-very-long-folder-name/api".to_string();
    let (spans, _) = tabs_of(&app, rect(0, 0, 80, 1));
    assert_eq!(row_text(&spans), " a-very-long-folde… │ +   api ");
}

#[test]
fn the_headers_own_cursor_is_a_solid_block() {
    let mut app = a_tabbed_tree();
    app.screen.animations = true;
    app.tree.agents[1].status = AgentStatus::Running;
    app.launcher_tab_cursor = Some(ProjectId("p1".to_string()));
    let (spans, _) = tabs_of(&app, rect(0, 0, 80, 1));
    let web = spans.iter().find(|s| s.text == "web").expect("web");
    assert_eq!(web.style.bg, Some(Ink::Accent));
    assert_eq!(web.style.fg, Some(Ink::OnAccent));
    assert!(web.style.bold);
    assert_eq!(web.sweep, None, "it holds still");
}

// ---- the picker ----

#[test]
fn the_picker_floats_inside_the_box_it_was_opened_from() {
    let frame = rect(0, 0, 130, 34);
    let boxed = box_rect(frame);
    for matches in [0usize, 1, 3, 200] {
        let area = picker_rect(frame, Some(boxed), matches);
        assert!(
            area.x > boxed.x && area.x + area.width < boxed.x + boxed.width,
            "{matches}: {area:?} is not inside {boxed:?} sideways"
        );
        assert!(
            area.y > boxed.y && area.y + area.height < boxed.y + boxed.height,
            "{matches}: {area:?} is not inside {boxed:?} top to bottom"
        );
    }
    // Long list, no box: the screen's middle and the full height.
    let loose = picker_rect(frame, None, 200);
    assert_eq!(loose.height, PICKER_ROWS + 4);
    assert_eq!(loose, centered_rect(frame, PICKER_W, PICKER_ROWS + 4));
    assert_eq!((boxed.width, boxed.height), (BOX_W, BOX_H));
}

#[test]
fn a_tiny_screen_still_draws_the_picker() {
    for (w, h) in [(20u16, 6u16), (30, 9), (60, 12)] {
        let frame = rect(0, 0, w, h);
        let area = picker_rect(frame, Some(box_rect(frame)), 50);
        assert!(area.width > 0 && area.height > 0, "{w}x{h}: {area:?}");
        assert!(
            area.x + area.width <= frame.width && area.y + area.height <= frame.height,
            "{w}x{h}: {area:?} runs off {frame:?}"
        );
    }
}

fn a_picker(names: &[&str], from_box: bool) -> ProjectPicker {
    ProjectPicker {
        back: QuickReturn {
            launch: a_launch(),
            text: String::new(),
            from_box,
        },
        query: TextInput {
            text: String::new(),
            caret: 0,
        },
        projects: names
            .iter()
            .map(|n| PickerProject {
                id: ProjectId(n.to_string()),
                name: n.to_string(),
                path: format!("~/{n}"),
            })
            .collect(),
        matches: (0..names.len())
            .map(|i| Match {
                project: i,
                lit: Vec::new(),
            })
            .collect(),
        selected: 0,
        area: Rect::default(),
        list_area: Rect::default(),
    }
}

#[test]
fn the_picker_lists_names_with_their_paths_dim_after_them() {
    let mut picker = a_picker(&["api", "web"], true);
    picker.selected = 9;
    let d = draw_project_picker(rect(0, 0, 130, 34), &mut picker);
    assert_eq!(d.title, " Project ");
    assert_eq!(d.rows.len(), 2);
    assert_eq!(pieces_text(&d.rows[0].pieces), "▪ api  ~/api");
    assert_eq!(piece_span(&d.rows[0].pieces[0]).style, Style::ink(Ink::Accent));
    assert_eq!(piece_span(&d.rows[0].pieces[2]).style, Style::ink(Ink::Dim));
    assert!(!d.rows[0].selected && d.rows[1].selected);
    assert_eq!(picker.selected, 1, "held to the rows there are");
    assert_eq!(picker.area, d.area);
    assert_eq!(picker.list_area, d.list);
    assert_eq!(d.inner, rect(d.area.x + 1, d.area.y + 1, d.area.width - 2, d.area.height - 2));
    assert_eq!(d.query, row_rect(d.inner, 0));
    assert_eq!(d.list.y, d.inner.y + 1);

    picker.query.text = "w".to_string();
    picker.matches.remove(0);
    let d = draw_project_picker(rect(0, 0, 130, 34), &mut picker);
    assert_eq!(d.title, " Project (1/2) ");
    assert_eq!(pieces_text(&d.rows[0].pieces), "▪ web  ~/web");
    picker.matches.clear();
    let d = draw_project_picker(rect(0, 0, 130, 34), &mut picker);
    assert!(d.nothing && d.rows.is_empty());
}

#[test]
fn a_long_list_scrolls_to_its_cursor() {
    let names: Vec<String> = (0..40).map(|i| format!("project {i}")).collect();
    let refs: Vec<&str> = names.iter().map(|s| s.as_str()).collect();
    let mut picker = a_picker(&refs, false);
    picker.selected = 30;
    let d = draw_project_picker(rect(0, 0, 100, 40), &mut picker);
    assert_eq!(d.list.height, 15);
    assert_eq!(d.rows.len(), 15);
    assert_eq!(d.rows[14].row, 30);
    assert!(d.rows[14].selected);
}

fn lit_name(pieces: &[Piece]) -> (String, Vec<usize>) {
    match &pieces[1] {
        Piece::Lit { name, lit } => (name.clone(), lit.clone()),
        other => panic!("expected the name, got {other:?}"),
    }
}

#[test]
fn the_picker_lights_the_letters_that_were_typed() {
    let mut picker = a_picker(&["web", &"x".repeat(80)], false);
    picker.matches[0].lit = vec![0, 2];
    let d = draw_project_picker(rect(0, 0, 130, 34), &mut picker);
    assert_eq!(lit_name(&d.rows[0].pieces), ("web".to_string(), vec![0, 2]));

    // A name cut short lights neither its ellipsis nor what it hides.
    let name = lit_name(&d.rows[1].pieces).0;
    let drawn = name.chars().count();
    assert!(name.ends_with('…'));
    picker.matches[1].lit = vec![3, drawn - 2, drawn - 1, drawn, 79];
    let d = draw_project_picker(rect(0, 0, 130, 34), &mut picker);
    assert_eq!(lit_name(&d.rows[1].pieces).1, [3, drawn - 2]);
}

// ---- the box ----

#[test]
fn every_box_hint_fits_its_border() {
    for width in 11..=120u16 {
        let hint = box_hint(width);
        assert!(
            hint.chars().count() + 2 <= width as usize,
            "{width}: {hint:?}"
        );
    }
    // The chords the box used to repeat along its border now live beside what
    // they change, so the hint must not name them again.
    for width in 11..=120u16 {
        let hint = box_hint(width);
        for chord in ["^P", "^O", "^N", "Tab agent"] {
            assert!(
                !hint.contains(chord),
                "{width}: {hint:?} still says {chord}"
            );
        }
    }
    // And the box at its own size names every key it has.
    let full = box_hint(BOX_W);
    for key in ["Enter launch", "⇧Enter newline", "⇧Tab preset"] {
        assert!(full.contains(key), "{full:?} lost {key}");
    }
}

#[test]
fn the_box_title_is_what_the_box_is_for() {
    let mut launch = a_launch();
    launch.model = None;
    launch.effort = None;
    assert_eq!(box_title(&launch, "Cloud"), "New session");
    launch.model = Some("opus".to_string());
    launch.effort = Some("high".to_string());
    assert_eq!(box_title(&launch, "Cloud"), "New session");

    launch.issue = Some(IssueRef {
        number: 12,
        title: "t".to_string(),
    });
    launch.pr = Some(PrRef {
        number: 7,
        head: "h".to_string(),
    });
    launch.preset = Some("tidier".to_string());
    launch.cloud = true;
    assert_eq!(
        box_title(&launch, "Cloud"),
        "New session · issue #12 · PR #7 · tidier · Cloud"
    );
}

#[test]
fn the_details_row_carries_every_chord() {
    let app = App::new();
    let mut launch = a_launch();
    launch.model = None;
    launch.effort = None;
    let inner = BOX_W - 4;
    let line = detail_line(&app, &launch, inner).line;
    let text = row_text(&line);
    for want in [
        "project ", "^P", "worktree ", "▾", "harness ", "gemini", "Tab", "model ", "default", "^O",
    ] {
        assert!(text.contains(want), "{text:?} is missing {want:?}");
    }
    assert!(line_width(&line) <= inner as usize, "{text:?}");

    launch.model = Some("opus".to_string());
    launch.effort = Some("high".to_string());
    assert!(
        row_text(&detail_line(&app, &launch, inner).line).contains("opus high"),
        "the effort belongs on the model"
    );

    // One column short of the airy form: the gaps tighten and every name stays
    // whole, rather than one name losing its last letter.
    let airy = line_width(&detail_line(&app, &launch, 400).line) as u16;
    let text = row_text(&detail_line(&app, &launch, airy - 1).line);
    assert!(!text.contains('…'), "{text:?}");
    assert!(text.contains(" · worktree "), "{text:?}");
}

#[test]
fn every_drawn_detail_hands_back_its_own_columns() {
    let app = App::new();
    let mut launch = a_launch();
    launch.model = Some("opus".to_string());
    launch.effort = Some("high".to_string());
    for width in 10..=120u16 {
        let DetailLine {
            line, fields: hits, ..
        } = detail_line(&app, &launch, width);
        let text: Vec<char> = row_text(&line).chars().collect();
        assert!(
            hits.iter().any(|h| h.field == BoxField::Project),
            "{width}: the project is never dropped"
        );
        for hit in &hits {
            let field = hit.field;
            let (x, w) = (hit.x as usize, hit.width as usize);
            assert!(x + w <= text.len(), "{width}: {field:?} runs past the row");
            let cut: String = text[x..x + w].iter().collect();
            let chord = match field {
                BoxField::Project => "^P",
                BoxField::Worktree => "▾",
                BoxField::Agent => "Tab",
                BoxField::Model => "^O",
            };
            assert!(
                cut.ends_with(chord),
                "{width}: {field:?} is {cut:?}, which does not end in {chord}"
            );
            assert!(
                !cut.starts_with(' ') && !cut.contains('·'),
                "{width}: {field:?} is {cut:?}, which reaches into the air beside it"
            );
        }
    }
}

#[test]
fn the_details_row_fits_every_width() {
    let app = App::new();
    let mut launch = a_launch();
    launch.model = Some("opus".to_string());
    launch.effort = Some("high".to_string());
    for width in 10..=120u16 {
        let line = detail_line(&app, &launch, width).line;
        let text = row_text(&line);
        assert!(line_width(&line) <= width as usize, "{width}: {text:?}");
        assert!(text.contains("^P"), "{width}: {text:?}");
    }
}

#[test]
fn a_row_of_details_is_laid_out_by_its_measured_widths() {
    let mut launch = a_launch();
    launch.model = Some("opus".to_string());
    let details = Details::of(&App::new(), &launch);
    let widths: Vec<FieldWidths> = (0..4)
        .map(|i| FieldWidths {
            label: 10 + i,
            value: 20 + i,
            key: 3,
        })
        .collect();
    let line = details.laid_out(2, true, " | ", 5, &widths);
    let at: Vec<(BoxField, u16, u16)> =
        line.fields.iter().map(|f| (f.field, f.x, f.width)).collect();
    assert_eq!(
        at,
        [(BoxField::Project, 0, 33), (BoxField::Worktree, 38, 35)]
    );
    assert_eq!(line.branch, Some((49, 24)));

    // What becomes of a form too wide for its row.
    assert!(matches!(form_in(&details, 40, 40, 4, true), Form::Whole));
    assert!(matches!(form_in(&details, 41, 40, 4, false), Form::Dropped));
    match form_in(&details, 41, 40, 4, true) {
        Form::Cut(cut) => assert_eq!(
            cut.project.chars().count() + cut.branch.chars().count() + 1,
            details.project.chars().count() + details.branch.chars().count()
        ),
        other => panic!("expected a cut, got {other:?}"),
    }
}

#[test]
fn the_box_header_goes_by_what_its_right_side_measured() {
    let launch = a_launch();
    let row = target_row(&launch, "Prompt", 30, 22);
    assert_eq!(row.toggle, Some((8, 22)));
    assert_eq!(row_text(&row.line), "Prompt  [ ] new worktree ^N");
    let row = target_row(&launch, "Prompt", 30, 30);
    assert_eq!(row.toggle, None);
    assert_eq!(row.line.len(), 1);
}

#[test]
fn the_prompt_header_never_drops_the_toggle() {
    let launch = a_launch();
    let label = "what should the agent do?";
    for width in 40..=120u16 {
        let TargetLine { line, toggle } = target_line(&launch, label, width);
        let text = row_text(&line);
        assert!(line_width(&line) <= width as usize, "{width}: {text:?}");
        assert!(text.contains("new worktree"), "{width}: {text:?}");
        assert!(
            !text.contains(" / ") && !text.contains('▾'),
            "{width}: the header carries no checkout crumb: {text:?}"
        );
        let (x, w) = toggle.expect("a worktree launch has a toggle to click");
        assert_eq!(usize::from(x + w), line_width(&line), "{width}: {text:?}");
    }
    let mut fresh = a_launch();
    fresh.target = QuickTarget::NewWorktree {
        project: ProjectId("p".to_string()),
        branch: "b".to_string(),
    };
    let TargetLine { line, toggle } = target_line(&fresh, label, 60);
    assert!(row_text(&line).contains("[✓] new worktree ^N"));
    assert_eq!(toggle, Some((41, 19)));
    let mut pr = a_launch();
    pr.pr = Some(PrRef {
        number: 7,
        head: "fix".to_string(),
    });
    let TargetLine { line, toggle } = target_line(&pr, label, 60);
    assert!(row_text(&line).ends_with("reused or cut on Enter"));
    assert_eq!(toggle, None, "there is nothing to flip");
    let TargetLine { line, toggle } = target_line(&a_launch(), label, 10);
    assert_eq!((row_text(&line).as_str(), toggle), ("", None), "no room for it");
}

#[test]
fn the_details_row_hands_back_the_branch_button() {
    let app = App::new();
    let mut seen = 0;
    for width in 10..=120u16 {
        let details = detail_line(&app, &a_launch(), width);
        let text: Vec<char> = row_text(&details.line).chars().collect();
        let field = details
            .fields
            .iter()
            .find(|h| h.field == BoxField::Worktree);
        let Some((x, w)) = details.branch else {
            assert!(!text.contains(&'▾'), "{width}: no button, no ▾");
            assert!(field.is_none(), "{width}: no branch, no field");
            continue;
        };
        seen += 1;
        let under: String = text[usize::from(x)..usize::from(x + w)].iter().collect();
        assert!(
            under.starts_with("(worktree") && under.ends_with(" ▾"),
            "{width}: {under:?}"
        );
        let hit = field.expect("a drawn branch is a field");
        assert!(
            hit.x <= x && x + w <= hit.x + hit.width,
            "{width}: the branch sits inside its field"
        );
    }
    assert!(seen > 0, "some width has room for the branch");

    let mut pr = a_launch();
    pr.pr = Some(PrRef {
        number: 7,
        head: "fix-nav".to_string(),
    });
    let details = detail_line(&app, &pr, 120);
    let text = row_text(&details.line);
    assert!(text.contains("worktree fix-nav"), "{text:?}");
    assert!(!text.contains('▾'), "{text:?}");
    assert_eq!(details.branch, None);
    assert!(
        !details.fields.iter().any(|h| h.field == BoxField::Worktree),
        "{text:?}"
    );
}

#[test]
fn a_fresh_worktree_branch_is_green_and_cut_first() {
    let app = App::new();
    let mut launch = a_launch();
    launch.target = QuickTarget::NewWorktree {
        project: ProjectId("p".to_string()),
        branch: "yellow-fox-jumps-over-the-lazy-dog".to_string(),
    };
    let wide = detail_line(&app, &launch, 400).line;
    let branch = wide
        .iter()
        .find(|s| s.text == "yellow-fox-jumps-over-the-lazy-dog")
        .expect("the branch, whole, on a wide row");
    assert_eq!(branch.style.fg, Some(Ink::Good));

    // Five columns short of the tight form — the airy one gave up whole, as it
    // does — so something has to be cut.
    let tight = detail_line(&app, &launch, line_width(&wide) as u16 - 1).line;
    let short = line_width(&tight) as u16 - 5;
    let text = row_text(&detail_line(&app, &launch, short).line);
    assert!(
        text.contains("(project gone)"),
        "the project kept whole: {text:?}"
    );
    assert!(text.contains("yellow-fox-"), "the branch cut: {text:?}");
    assert!(!text.contains("lazy-dog"), "the branch cut: {text:?}");
}

#[test]
fn details_say_where_and_with_what() {
    let mut app = a_tree();
    select(&mut app, "web");
    let mut launch = a_launch();
    launch.target = QuickTarget::Worktree(WorktreeId("w0".to_string()));
    launch.custom = Some("house".to_string());
    launch.cloud = true;
    launch.model = Some("large".to_string());
    let d = Details::of(&app, &launch);
    assert_eq!(
        (d.project.as_str(), d.branch.as_str()),
        ("api", "feat")
    );
    assert_eq!(d.harness, "house · cloud");
    assert_eq!(d.model, "large");
    assert!(d.pickable && !d.fresh && d.background);
    assert!(d.cut(100, 4).is_none(), "not enough of either name to give");
    let c = Details {
        project: "a-project-of-some-length".to_string(),
        branch: "a-branch-of-some-length".to_string(),
        ..Details::of(&app, &launch)
    }
    .cut(13, 4)
    .expect("eleven off the branch, two off the project");
    assert_eq!(c.branch, "a-branch-of…");
    assert_eq!(c.project, "a-project-of-some-len…");
}

#[test]
fn the_marks_of_the_header_and_the_box_take_a_column_each() {
    for mark in ["·", "…", "▾", "✓", "↑", "↓"] {
        let line = vec![Span::of(mark, Style::raw())];
        assert_eq!(line_width(&line), 1, "{mark}");
        let line = vec![Span::of(&format!(" {mark}a{mark}"), Style::raw())];
        assert_eq!(line_width(&line), 4, "{mark}");
    }
    let all = vec![Span::of("·…▾✓↑↓", Style::raw())];
    assert_eq!(line_width(&all), 6);
}

#[test]
fn wide_characters_are_measured_by_their_columns() {
    let mut app = a_tree();
    select(&mut app, "api");
    app.tree.projects[0].name = "日本語".to_string();
    let mut launch = a_launch();
    launch.target = QuickTarget::Worktree(WorktreeId("w0".to_string()));
    let d = detail_line(&app, &launch, 200);
    let first = d.fields[0];
    assert_eq!(first.width, 8 + 6 + 3, "two columns each");
}

// ---- cards ----

fn a_row<'a>(agent: &'a Agent, is_main: bool, branch: &str) -> LauncherRow<'a> {
    LauncherRow {
        agent,
        project: "nebula".to_string(),
        branch: branch.to_string(),
        is_main,
        pr: None,
    }
}

fn plain_text(width: usize) -> CardText {
    CardText {
        ago: String::new(),
        name_max: width,
        wrapped: Vec::new(),
    }
}

fn card(app: &App, area: Rect, row: &LauncherRow, selected: bool, focused: bool) -> Card {
    draw_card(
        app,
        area,
        row,
        selected,
        focused,
        &plain_text(card_width(area)),
    )
}

/// The pieces of the card's row on screen row `y`.
fn pieces_at(card: &Card, y: u16) -> &[Piece] {
    card.rows
        .iter()
        .find(|r| r.area.y == y)
        .map(|r| r.pieces.as_slice())
        .unwrap_or(&[])
}

fn painted(card: &Card, y: u16, ink: Ink) -> String {
    pieces_at(card, y)
        .iter()
        .map(|p| match p {
            Piece::Text(s) if s.style.fg == Some(ink) => s.text.as_str(),
            _ => "",
        })
        .collect()
}

#[test]
fn a_card_paints_its_checkout_in_the_scope_color() {
    let app = App::new();
    let mut agent = session("a1", "w1", "fix login");
    agent.status = AgentStatus::Finished;
    let area = rect(0, 0, 44, CARD_H);
    let root = card(&app, area, &a_row(&agent, true, "main"), false, true);
    let worktree = card(&app, area, &a_row(&agent, false, "feat-x"), false, true);
    assert_eq!(painted(&root, 2, Ink::Root), "⌂ main");
    assert_eq!(painted(&worktree, 2, Ink::Worktree), "↳ feat-x");
    // And neither wears the other's color anywhere on that row.
    assert_eq!(painted(&root, 2, Ink::Worktree), "");
    assert_eq!(painted(&worktree, 2, Ink::Root), "");
}

#[test]
fn a_card_counts_its_checkouts_changes_behind_the_branch() {
    let mut app = App::new();
    app.tree.worktrees = vec![checkout("w1", "p", "feat-x", false)];
    app.tree.worktrees[0].changes = Some(3);
    let agent = session("a1", "w1", "fix login");
    let second_row = |width: u16| -> (String, String) {
        let c = card(
            &app,
            rect(0, 0, width, CARD_H),
            &a_row(&agent, false, "feat-x"),
            false,
            true,
        );
        (pieces_text(pieces_at(&c, 2)), painted(&c, 2, Ink::Warn))
    };
    let (text, warn) = second_row(44);
    assert!(text.contains("↳ feat-x +3 files · gemini"), "{text:?}");
    assert_eq!(warn.trim(), "+3 files");

    let (text, warn) = second_row(22);
    assert_eq!(warn.trim(), "+3", "narrow: {text:?}");
    assert!(text.contains("· gemini"), "{text:?}");
}

#[test]
fn a_cards_frame_answers_to_its_status_under_the_focus() {
    let app = App::new();
    let frame = |agent: &Agent, selected: bool, focused: bool| {
        card(
            &app,
            rect(0, 0, 40, CARD_H),
            &a_row(agent, false, "feat-x"),
            selected,
            focused,
        )
        .border
    };
    let with = |status: AgentStatus, unseen: bool| {
        let mut a = session("a1", "w1", "fix login");
        a.status = status;
        a.unseen = unseen;
        a
    };

    assert_eq!(
        frame(&with(AgentStatus::NeedsFeedback, false), false, true),
        Ink::Alarm
    );
    assert_eq!(
        frame(&with(AgentStatus::Finished, true), false, true),
        Ink::Done
    );
    assert_eq!(
        frame(&with(AgentStatus::Running, false), false, true),
        Ink::WarnEdge
    );
    assert_eq!(
        frame(&with(AgentStatus::Finished, false), false, true),
        Ink::Edge
    );
    assert_eq!(
        frame(&with(AgentStatus::Fresh, false), false, true),
        Ink::Edge
    );
    let mut cold = with(AgentStatus::Running, false);
    cold.alive = false;
    assert_eq!(frame(&cold, false, true), Ink::Edge);
    let mut archived = with(AgentStatus::NeedsFeedback, false);
    archived.archived = true;
    assert_eq!(frame(&archived, false, true), Ink::Edge);

    // The focus wins over every status; off the grid, the cursor's card shows
    // its status like any other.
    assert_eq!(
        frame(&with(AgentStatus::Running, false), true, true),
        Ink::Accent
    );
    assert_eq!(
        frame(&with(AgentStatus::NeedsFeedback, false), true, true),
        Ink::Accent
    );
    assert_eq!(
        frame(&with(AgentStatus::Running, false), true, false),
        Ink::WarnEdge
    );
    assert_eq!(
        frame(&with(AgentStatus::Finished, false), true, false),
        Ink::Muted
    );
    assert_ne!(Ink::WarnEdge, Ink::Accent);
    assert_eq!(card_edge(&with(AgentStatus::Running, false), true), None);
}

#[test]
fn only_the_focused_card_wears_the_focus_tint() {
    let mut app = App::new();
    let agent = session("a1", "w1", "fix login");
    let fill = |app: &App, selected: bool, focused: bool| {
        card(
            app,
            rect(0, 0, 40, CARD_H),
            &a_row(&agent, false, "feat-x"),
            selected,
            focused,
        )
        .tint
    };
    assert_eq!(fill(&app, true, true), Some(Ink::FocusTint));
    assert_eq!(fill(&app, true, false), None);
    assert_eq!(fill(&app, false, true), None);
    app.screen.focus_tint = false;
    assert_eq!(fill(&app, true, true), None);
}

#[test]
fn card_line_counts_follow_the_file_count_in_green_and_red() {
    let mut app = App::new();
    app.tree.worktrees = vec![checkout("w1", "p", "feat-x", false)];
    app.tree.worktrees[0].changes = Some(3);
    let agent = session("a1", "w1", "fix login");
    let second_row = |app: &App, width: u16| -> (String, String, String, String) {
        let c = card(
            app,
            rect(0, 0, width, CARD_H),
            &a_row(&agent, false, "feat-x"),
            false,
            true,
        );
        (
            pieces_text(pieces_at(&c, 2)),
            painted(&c, 2, Ink::Warn),
            painted(&c, 2, Ink::Good),
            painted(&c, 2, Ink::Alarm),
        )
    };

    let (text, _, added, removed) = second_row(&app, 60);
    assert!(!text.contains("+120"), "off: {text:?}");
    assert_eq!((added.trim(), removed.trim()), ("", ""));

    app.tree.worktrees[0].lines = Some(LineChanges {
        added: 120,
        removed: 45,
    });
    let (text, warn, added, removed) = second_row(&app, 60);
    assert!(
        text.contains("↳ feat-x +3 files +120 -45 · gemini"),
        "{text:?}"
    );
    assert_eq!(warn.trim(), "+3 files");
    assert_eq!(added.trim(), "+120");
    assert_eq!(removed.trim(), "-45");

    let (text, warn, added, _) = second_row(&app, 36);
    assert!(text.contains("↳ feat-x +3 +120 -45 · gemini"), "{text:?}");
    assert_eq!((warn.trim(), added.trim()), ("+3", "+120"));

    let (text, warn, added, _) = second_row(&app, 24);
    assert_eq!(warn.trim(), "+3", "narrowest: {text:?}");
    assert_eq!(added.trim(), "", "the lines go before the branch does");
}

#[test]
fn an_archived_card_is_the_live_card_put_away() {
    let app = App::new();
    let area = rect(0, 0, 44, CARD_H);
    let mut agent = session("a1", "w1", "fix login");
    // Filed two hours ago, last turn a minute ago: the two badges cannot be
    // mistaken for one another.
    let words = AgoWords {
        filed: " 2h ago".to_string(),
        moved: " 1m ago".to_string(),
        pending: " starting".to_string(),
    };
    let drawn = |agent: &Agent| {
        let text = CardText {
            ago: card_ago(agent, &words),
            name_max: card_width(area) - 7,
            wrapped: Vec::new(),
        };
        draw_card(&app, area, &a_row(agent, true, "main"), false, true, &text)
    };
    let live = drawn(&agent);
    agent.archived = true;
    let gone = drawn(&agent);

    // The frame: round corners live, square once filed.
    assert!(!live.square);
    assert!(gone.square);

    // The mark stands where the dot stood, the name behind it starting in the
    // same column on both.
    let line = |c: &Card| pieces_text(pieces_at(c, 1));
    assert!(line(&live).starts_with("● fix login"), "{:?}", line(&live));
    assert!(line(&gone).starts_with("▪ fix login"), "{:?}", line(&gone));

    // The archived name is muted, never the live card's text color.
    assert_eq!(painted(&gone, 1, Ink::Muted), "fix login");
    assert_eq!(painted(&gone, 1, Ink::Text), "");

    // The badge counts from the archiving, not from the last turn.
    assert!(line(&live).ends_with("1m ago"), "{:?}", line(&live));
    assert!(line(&gone).ends_with("2h ago"), "{:?}", line(&gone));
    assert_eq!(line(&gone).chars().count(), card_width(area), "at the edge");

    // And the SCOPE COLOR goes with the rest of the color, the glyph left to
    // tell the two checkouts apart.
    assert_eq!(painted(&live, 2, Ink::Root), "⌂ main");
    assert_eq!(painted(&gone, 2, Ink::Root), "");
    assert_eq!(painted(&gone, 2, Ink::Dim), "⌂ main · gemini");
}

#[test]
fn how_long_ago_is_the_word_for_what_the_card_is() {
    let words = AgoWords {
        filed: " 2h ago".to_string(),
        moved: " 1m ago".to_string(),
        pending: " starting".to_string(),
    };
    let mut a = session("a1", "w1", "n");
    assert_eq!(card_ago(&a, &words), " 1m ago");
    a.unseen = true;
    assert_eq!(card_ago(&a, &words), " done");
    a.pending = true;
    assert_eq!(card_ago(&a, &words), " starting");
    a.archived = true;
    assert_eq!(card_ago(&a, &words), " 2h ago");
}

#[test]
fn a_dot_is_dimmed_on_a_cold_card_and_bare_on_one_being_created() {
    let app = App::new();
    let area = rect(0, 0, 44, CARD_H);
    let mut a = session("a1", "w1", "n");
    a.status = AgentStatus::Running;
    let first = |a: &Agent| {
        let c = card(&app, area, &a_row(a, false, "b"), false, true);
        match &pieces_at(&c, 1)[0] {
            Piece::Dot {
                status,
                unseen,
                dimmed,
            } => (*status, *unseen, *dimmed),
            _ => panic!("a dot"),
        }
    };
    assert_eq!(first(&a), (Some(AgentStatus::Running), false, false));
    a.unseen = true;
    assert_eq!(first(&a), (Some(AgentStatus::Running), true, false));
    a.alive = false;
    assert_eq!(first(&a), (Some(AgentStatus::Running), false, true));
    a.cloud = true;
    assert_eq!(first(&a), (Some(AgentStatus::Running), true, false));
    a.pending = true;
    assert_eq!(first(&a), (None, false, false));
}

#[test]
fn a_card_says_its_directory_and_the_guards_verdict() {
    let mut app = App::new();
    app.tree.worktrees = vec![checkout("w1", "p", "feat", false)];
    app.tree.worktrees[0].dir_label = Some("ticket-12".to_string());
    app.tree.worktrees[0].split = true;
    let a = session("a1", "w1", "n");
    let c = card(&app, rect(0, 0, 60, CARD_H), &a_row(&a, false, "feat"), false, true);
    assert_eq!(
        pieces_text(pieces_at(&c, 2)),
        "↳ feat [ticket-12] ⚠ split · gemini"
    );
    // No room to name the directory usefully: nothing rather than two letters.
    let c = card(&app, rect(0, 0, 26, CARD_H), &a_row(&a, false, "feat"), false, true);
    assert!(!pieces_text(pieces_at(&c, 2)).contains('['));
}

#[test]
fn a_card_names_its_pull_request_on_the_third_row() {
    let app = App::new();
    let area = rect(0, 0, 60, CARD_H);
    let mut a = session("a1", "w1", "n");
    let pr = |title: &str| {
        Some(RowPr {
            number: 42,
            title: title.to_string(),
            url: String::new(),
            standing: Standing::Draft,
            trouble: None,
        })
    };
    let third = |a: &Agent, title: &str| {
        let mut row = a_row(a, false, "b");
        row.pr = pr(title);
        let c = card(&app, area, &row, false, true);
        match &pieces_at(&c, 3)[0] {
            Piece::PullRequest {
                label,
                badge,
                faded,
                width,
                ..
            } => (label.clone(), badge.clone(), *faded, *width),
            _ => panic!("a pull request"),
        }
    };
    assert_eq!(
        third(&a, "Add search"),
        ("#42 Add search".to_string(), " draft".to_string(), None, 56)
    );
    assert_eq!(third(&a, "").0, "#42");
    a.archived = true;
    assert_eq!(third(&a, "").2, Some(Ink::Dim), "history is faded");
    let c = card(&app, area, &a_row(&a, false, "b"), false, true);
    assert!(pieces_at(&c, 3).is_empty(), "none leaves the row blank");
}

#[test]
fn a_long_prompt_is_cut_on_its_last_row() {
    let wrapped: Vec<String> = ["one line", "another", "the third", "more"]
        .iter()
        .map(|s| s.to_string())
        .collect();
    let rows = prompt_lines("x", &wrapped, 14, Ink::Dim, Ink::Muted);
    let texts: Vec<String> = rows.iter().map(|r| pieces_text(r)).collect();
    assert_eq!(texts, ["› one line", "  another", "  the third…"]);
    let rows = prompt_lines("x", &wrapped, 11, Ink::Dim, Ink::Muted);
    assert_eq!(pieces_text(&rows[2]), "  the thir…");
    let rows = prompt_lines("x", &wrapped[..2].to_vec(), 14, Ink::Dim, Ink::Muted);
    assert_eq!(rows.len(), 2);
    assert!(prompt_lines("", &wrapped, 14, Ink::Dim, Ink::Muted).is_empty());
    assert!(prompt_lines("x", &wrapped, 2, Ink::Dim, Ink::Muted).is_empty());
}

#[test]
fn the_prompt_stands_at_the_foot_of_its_card() {
    let app = App::new();
    let mut a = session("a1", "w1", "n");
    a.recent_prompts = vec!["fix the login".to_string()];
    let text = CardText {
        ago: String::new(),
        name_max: 20,
        wrapped: vec!["fix the login".to_string()],
    };
    let area = rect(0, 0, 44, CARD_H);
    let c = draw_card(&app, area, &a_row(&a, false, "b"), false, true, &text);
    assert_eq!(pieces_text(pieces_at(&c, 4)), "› fix the login");
    // A card too short for it draws what fits, and one too narrow nothing.
    let c = draw_card(&app, rect(0, 0, 44, 4), &a_row(&a, false, "b"), false, true, &text);
    assert_eq!(c.rows.len(), 2);
    let c = draw_card(&app, rect(0, 0, 4, CARD_H), &a_row(&a, false, "b"), false, true, &text);
    assert!(c.rows.is_empty());
}

#[test]
fn changes_yield_before_the_branch_does() {
    let lines = Some(LineChanges {
        added: 120,
        removed: 45,
    });
    let got = |lines, branch, room| {
        let (files, tail) = change_labels(3, lines, branch, room);
        match tail {
            Some((a, r)) => format!("{files}{a}{r}"),
            None => files,
        }
    };
    assert_eq!(got(lines, 6, 24), " +3 files +120 -45");
    assert_eq!(got(lines, 6, 23), " +3 +120 -45");
    assert_eq!(got(lines, 6, 18), " +3 +120 -45");
    assert_eq!(got(lines, 6, 17), " +3 files");
    assert_eq!(got(lines, 6, 14), " +3");
    assert_eq!(got(None, 6, 15), " +3 files");
    assert_eq!(change_labels(1, None, 0, 20).0, " +1 file");
}

#[test]
fn a_harness_is_named_with_its_model() {
    let mut a = session("a1", "w1", "n");
    assert_eq!(harness_line(&a), "gemini");
    a.model = Some("large".to_string());
    assert_eq!(harness_line(&a), "gemini large");
    a.model = Some(String::new());
    assert_eq!(harness_line(&a), "gemini");
    a.cloud = true;
    assert_eq!(harness_line(&a), "cloud");
}
