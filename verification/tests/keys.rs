use nebula_tui::keys::action::{escape, handle_action, Action};
use nebula_tui::keys::aim::{
    clear_aim, fold_key, select, toggle_pane, ARCHIVED_VIEW, BACK_TO_CARD, LIVE_VIEW,
    NO_ARCHIVED_SESSIONS, NO_SESSIONS, PANE_HIDDEN, PANE_SHOWN, UNAIMED,
};
use nebula_tui::keys::boxes::{
    click_box_field, click_new_worktree, click_picker_row, handle_box_key, handle_picker_key,
    open_box, open_box_field, open_worktree_picker, pick_launch_worktree, reopen,
    toggle_new_worktree, KeyCode, KeyPress, NO_PROJECT, NO_ROOT, PR_CHECKOUT,
};
use nebula_tui::keys::cards::{
    click_row, cursor_entry, has_pane, keep_cursor, select_row, NO_CARD_FOR_PR,
};
use nebula_tui::keys::menus::{
    open_project_menu, project_menu, tab_menu, NO_PROJECTS, OPEN_FOLDER,
};
use nebula_tui::keys::projects::{open_project, settle_project_tabs, PROJECT_GONE};
use nebula_tui::keys::strip_keys::{
    click_pane_tab, close_pane_tab, show_pane_tab, tab_after, NO_TERMINALS,
};
use nebula_tui::keys::tabs::{
    click_tab, close_tab, crumb_anchor, LAST_TAB, NO_TABS, ONE_FOLDER, ONE_TAB,
};
use nebula_tui::launcher::{cursor, last_prompt, project_of, row, rows, BoxField};
use nebula_tui::layout::Rect;
use nebula_tui::model::{
    Agent, AgentId, AgentStatus, IssueRef, LastSession, LastWorktree, Lookup, PrRef, Project, ProjectId,
    PullRequest, QuickLaunch, QuickReturn, QuickTarget, SessionRef, Standing, TerminalId,
    TerminalTab, TextInput, Worktree, WorktreeId,
};
use nebula_tui::order::Recency;
use nebula_tui::pane::{fitted_side, pane_edge, pane_grab_zone, pane_height, split, PaneSide};
use nebula_tui::picker::Match;
use nebula_tui::state::{
    App, Effect, Focus, Hit, HitTarget, Landing, MenuAction, Overlay, PromptDialog, PromptKind,
};
use nebula_tui::view::board::{draw, Below};
use nebula_tui::view::card::{draw_card, prompt_lines, CardText};
use nebula_tui::view::count::{CountsBadge, HeadSpan};
use nebula_tui::view::crumb::crumb_frame;
use nebula_tui::view::details::{box_hint, detail_line, target_line};
use nebula_tui::view::pane_strip::pane_frame;
use nebula_tui::view::span::{Ink, Piece, Ramp, Span, Style, Sweep};

// ---- a screen to press keys at ----

/// The state, and a small program around it: it does what the view asks for,
/// keeps the terminals of every checkout, and remembers where each project and
/// each checkout was left.
struct Desk {
    app: App,
    /// The key that arms a double tap, while it is armed.
    armed: Option<Action>,
    /// The terminals there are, each with its checkout.
    terminals: Vec<(String, String, String)>,
    /// The box under a list the view does not draw itself.
    under: Option<QuickReturn>,
}

fn rest() -> Recency {
    Recency {
        interacted: 0,
        stamped: 0,
    }
}

fn project(id: &str, name: &str) -> Project {
    Project {
        id: ProjectId(id.to_string()),
        name: name.to_string(),
        repo_path: format!("/tmp/{name}"),
        root_hidden: false,
        recency: rest(),
    }
}

fn checkout(id: &str, project: &str, branch: &str, is_main: bool) -> Worktree {
    Worktree {
        id: WorktreeId(id.to_string()),
        project_id: ProjectId(project.to_string()),
        branch: branch.to_string(),
        is_main,
        placeholder: false,
        running: false,
        recency: rest(),
        changes: None,
        lines: None,
        dir_label: None,
        split: false,
    }
}

fn running(id: &str, worktree: &str, name: &str) -> Agent {
    Agent {
        id: AgentId(id.to_string()),
        worktree_id: WorktreeId(worktree.to_string()),
        name: name.to_string(),
        harness: "codex".to_string(),
        model: None,
        effort: None,
        status: AgentStatus::Running,
        unseen: false,
        alive: true,
        cloud: false,
        archived: false,
        archived_at: 0,
        status_changed_at: 0,
        pending: false,
        fresh_done: false,
        recent_prompts: Vec::new(),
    }
}

fn pid(id: &str) -> ProjectId {
    ProjectId(id.to_string())
}

fn aid(id: &str) -> AgentId {
    AgentId(id.to_string())
}

fn wid(id: &str) -> WorktreeId {
    WorktreeId(id.to_string())
}

fn tid(id: &str) -> TerminalId {
    TerminalId(id.to_string())
}

fn agent_ref(id: &str) -> Option<SessionRef> {
    Some(SessionRef::Agent(aid(id)))
}

fn term_ref(id: &str) -> Option<SessionRef> {
    Some(SessionRef::Terminal(tid(id)))
}

/// `demo` with its root `main`, running `agent-1`, and a second checkout,
/// `feat`, running `polish-nav`; beside it `web`, whose root runs `tidy-css`.
fn two_sessions() -> Desk {
    let mut app = App::new();
    app.tree.projects = vec![project("p1", "demo"), project("p2", "web")];
    app.tree.worktrees = vec![
        checkout("w1", "p1", "main", true),
        checkout("w2", "p1", "feat", false),
        checkout("w2root", "p2", "main", true),
    ];
    app.tree.agents = vec![
        running("a1", "w1", "agent-1"),
        running("a2", "w2", "polish-nav"),
        running("a3", "w2root", "tidy-css"),
    ];
    app.records.project_rows = vec![0, 1];
    app.sel_project = Some(pid("p1"));
    app.sel_worktree = Some(wid("w1"));
    app.sel_session = agent_ref("a1");
    app.facts.fresh_branch = "nebula/quiet-comet".to_string();
    app.facts.issue_branch = "issue-7".to_string();
    app.facts.harness_label = "Codex".to_string();
    app.facts.archived_word = "archived — u unarchives it".to_string();
    app.facts.prompt_key = "p".to_string();
    app.facts.terminal_key = "t".to_string();
    app.facts.picker_context = Some(wid("w1"));
    app.facts.menu_anchor = (4, 5);
    Desk {
        app,
        armed: None,
        terminals: Vec::new(),
        under: None,
    }
}

/// [`two_sessions`] and `ship-docs`, in `demo`'s root beside `agent-1`.
fn three_sessions() -> Desk {
    let mut desk = two_sessions();
    desk.app.tree.agents.push(running("a9", "w1", "ship-docs"));
    desk
}

/// A third project, `docs`, with a checkout and no sessions in it.
fn seed_empty_project(desk: &mut Desk) {
    desk.app.tree.projects.push(project("p3", "docs"));
    desk.app
        .tree
        .worktrees
        .push(checkout("w3root", "p3", "main", true));
    desk.app.records.project_rows.push(2);
}

/// Both projects open, `web` opened last, so its tab leads, and the grid on
/// `demo`.
fn two_tabs() -> Desk {
    let mut desk = two_sessions();
    desk.draw();
    desk.app.launcher_tabs = vec![pid("p2"), pid("p1")];
    desk.draw();
    desk
}

fn default_launch(target: QuickTarget) -> QuickLaunch {
    QuickLaunch {
        target,
        kind: "codex".to_string(),
        custom: None,
        model: None,
        effort: None,
        cloud: false,
        issue: None,
        pr: None,
        preset: None,
    }
}

fn typed(text: &str) -> TextInput {
    TextInput {
        text: text.to_string(),
        caret: text.chars().count(),
    }
}

fn plain(c: char) -> KeyPress {
    KeyPress {
        code: KeyCode::Char(c),
        ctrl: false,
    }
}

fn ctrl(c: char) -> KeyPress {
    KeyPress {
        code: KeyCode::Char(c),
        ctrl: true,
    }
}

fn bare(code: KeyCode) -> KeyPress {
    KeyPress { code, ctrl: false }
}

/// Whether the letters of `query` come in `name` in that order, and where.
fn lit(name: &str, query: &str) -> Option<Vec<usize>> {
    let letters: Vec<char> = name.chars().collect();
    let mut from: usize = 0;
    let mut at: Vec<usize> = Vec::new();
    for c in query.chars() {
        let i = (from..letters.len()).find(|i| letters[*i] == c)?;
        at.push(i);
        from = i + 1;
    }
    Some(at)
}

impl Desk {
    fn seed_terminal(&mut self, id: &str, worktree: &str, name: &str) {
        self.terminals
            .push((worktree.to_string(), id.to_string(), name.to_string()));
        self.list_terminals();
    }

    /// The terminals of the checkout selected; a pin that names none of them
    /// is let go of.
    fn list_terminals(&mut self) {
        let here = self.app.sel_worktree.clone();
        self.app.records.pane_terminals = self
            .terminals
            .iter()
            .filter(|(w, _, _)| here.as_ref().is_some_and(|h| h.0 == *w))
            .map(|(_, id, name)| TerminalTab {
                id: tid(id),
                name: name.clone(),
                alive: true,
                run_command: None,
            })
            .collect();
        let kept = self.app.launcher_terminal.as_ref().is_some_and(|t| {
            self.app
                .records
                .pane_terminals
                .iter()
                .any(|tab| tab.id == *t)
        });
        if !kept {
            self.app.launcher_terminal = None;
        }
    }

    fn remember(&mut self) {
        if let (Some(p), Some(w)) = (&self.app.sel_project, &self.app.sel_worktree) {
            let (p, w) = (p.clone(), w.clone());
            self.app
                .records
                .last_worktree_for_project
                .retain(|l| l.project != p);
            self.app
                .records
                .last_worktree_for_project
                .push(LastWorktree {
                    project: p,
                    worktree: w.clone(),
                });
            if let Some(s) = &self.app.sel_session {
                let s = s.clone();
                self.app
                    .records
                    .last_session_for_worktree
                    .retain(|l| l.worktree != w);
                self.app
                    .records
                    .last_session_for_worktree
                    .push(LastSession {
                        worktree: w,
                        session: s,
                    });
            }
        }
    }

    fn into_pane(&mut self) {
        self.app.focus = Focus::Terminal;
        self.app.term_locked = true;
    }

    /// Do what the view asked for, in order.
    fn perform(&mut self, effects: &[Effect], by: Option<Action>) {
        for effect in effects {
            match effect {
                Effect::Jump { session, .. } => {
                    self.list_terminals();
                    self.remember();
                    if self.app.launcher_terminal.is_none() {
                        self.app.attached = Some(SessionRef::Agent(session.clone()));
                    }
                }
                Effect::AttachNow(what) => self.app.attached = Some(what.clone()),
                Effect::PreviewSelected => self.app.attached = self.app.sel_session.clone(),
                Effect::EnterPane => self.into_pane(),
                Effect::EnterPaneIfAttached => {
                    if self.app.attached.is_some() {
                        self.into_pane();
                    }
                }
                Effect::ZoomPane => {
                    self.app.launcher_grid = false;
                    self.into_pane();
                }
                Effect::ZoomIfAttached => {
                    if self.app.attached.is_some() {
                        self.app.launcher_grid = false;
                        self.into_pane();
                    }
                }
                Effect::LeavePane => {}
                Effect::RestoreCursors(_) => self.list_terminals(),
                Effect::ArmTap(what) => {
                    self.app.flash = Some(format!("again: {what}"));
                    self.armed = by;
                }
                Effect::OpenLink(url) => {
                    let shown = url.trim_start_matches("https://");
                    self.app.flash = Some(format!("opened {shown}"));
                }
                Effect::OpenFollowUp(id) => {
                    self.app.follow_up = Some(id.clone());
                    self.app.overlay = Some(Overlay::Prompt(PromptDialog {
                        kind: PromptKind::Other,
                        input: typed(""),
                    }));
                }
                Effect::OpenBoxFor(target) => {
                    self.app.overlay = Some(Overlay::Prompt(PromptDialog {
                        kind: PromptKind::QuickPrompt(default_launch(target.clone())),
                        input: typed(""),
                    }));
                }
                Effect::OpenBox(launch) => {
                    self.app.overlay = Some(Overlay::Prompt(PromptDialog {
                        kind: PromptKind::QuickPrompt(launch.clone()),
                        input: typed(""),
                    }));
                }
                Effect::OpenLaunchPicker(back) => {
                    self.under = Some(back.clone());
                    self.app.overlay = Some(Overlay::Other);
                }
                Effect::OpenModels { back, .. } => {
                    self.under = Some(back.clone());
                    self.app.overlay = Some(Overlay::Other);
                }
            }
        }
    }

    /// A key on the grid, or up on its tabs; whether the view took it.
    fn press(&mut self, action: Action) -> bool {
        let before = cursor_entry(&self.app);
        self.app.facts.tapped = self.armed == Some(action);
        self.armed = None;
        let mut out = Vec::new();
        let taken = handle_action(&mut self.app, action, &mut out);
        self.perform(&out, Some(action));
        self.keep(before);
        taken
    }

    fn presses(&mut self, actions: &[Action]) {
        for action in actions {
            self.press(*action);
        }
    }

    fn keep(&mut self, before: Option<nebula_tui::keys::cards::CursorCard>) {
        if let Some(card) = before {
            let mut out = Vec::new();
            keep_cursor(&mut self.app, card, &mut out);
            self.perform(&out, None);
        }
    }

    fn archive(&mut self, id: &str) {
        let before = cursor_entry(&self.app);
        for a in self.app.tree.agents.iter_mut().filter(|a| a.id.0 == id) {
            a.archived = true;
        }
        self.keep(before);
    }

    fn click_card(&mut self, index: usize, double: bool) {
        self.app.launcher_tab_cursor = None;
        let mut out = Vec::new();
        click_row(&mut self.app, index, double, &mut out);
        self.perform(&out, None);
    }

    fn click_on_tab(&mut self, id: &str) {
        let mut out = Vec::new();
        click_tab(&mut self.app, &pid(id), &mut out);
        self.perform(&out, None);
    }

    fn click_cross(&mut self, id: &str) {
        let mut out = Vec::new();
        close_tab(&mut self.app, &pid(id), &mut out);
        self.perform(&out, None);
    }

    fn put_cursor(&mut self, id: &str) {
        let mut out = Vec::new();
        select(&mut self.app, aid(id), &mut out);
        self.perform(&out, None);
    }

    fn open(&mut self, id: &str) {
        let mut out = Vec::new();
        open_project(&mut self.app, &pid(id), &mut out);
        self.perform(&out, None);
    }

    /// A row of the menu that is up, picked.
    fn pick_row(&mut self, index: usize) {
        let menu = match self.app.overlay.take() {
            Some(Overlay::Menu(menu)) => menu,
            other => panic!("expected a menu, got {other:?}"),
        };
        match menu.items[index].action.clone() {
            MenuAction::OpenProject(id) => self.open(&id.0),
            MenuAction::PickLaunchWorktree { target, back } => {
                pick_launch_worktree(&mut self.app, target, back)
            }
            other => panic!("a row for the program: {other:?}"),
        }
    }

    /// A key in the box that is up.
    fn box_key(&mut self, key: KeyPress) {
        let (launch, input) = match &self.app.overlay {
            Some(Overlay::Prompt(PromptDialog {
                kind: PromptKind::QuickPrompt(launch),
                input,
            })) => (launch.clone(), input.clone()),
            other => panic!("expected the box, got {other:?}"),
        };
        let mut out = Vec::new();
        let taken = handle_box_key(&mut self.app, key, &launch, &input, &mut out);
        assert_eq!(taken, key.ctrl, "only the chords are taken");
        self.perform(&out, None);
    }

    fn type_in_box(&mut self, text: &str) {
        match &mut self.app.overlay {
            Some(Overlay::Prompt(p)) => p.input = typed(&format!("{}{text}", p.input.text)),
            other => panic!("expected the box, got {other:?}"),
        }
    }

    /// A key in the project picker that is up.
    fn picker_key(&mut self, key: KeyPress) {
        let picker = match &self.app.overlay {
            Some(Overlay::ProjectPicker(p)) => p,
            other => panic!("expected the project picker, got {other:?}"),
        };
        let mut edited = picker.query.clone();
        if let (KeyCode::Char(c), false) = (key.code, key.ctrl) {
            edited = typed(&format!("{}{c}", edited.text));
        }
        let ranked: Vec<Match> = picker
            .projects
            .iter()
            .enumerate()
            .filter_map(|(project, p)| lit(&p.name, &edited.text).map(|lit| Match { project, lit }))
            .collect();
        let mut out = Vec::new();
        handle_picker_key(&mut self.app, key, edited, ranked, &mut out);
        self.perform(&out, None);
    }

    /// Esc in a list the view does not draw itself.
    fn leave_list(&mut self) {
        let back = self.under.take().expect("the box under the list");
        reopen(&mut self.app, back.launch, back.text);
    }

    /// Wide enough for three cards a row.
    fn draw(&mut self) {
        self.draw_at(130, 34);
    }

    /// One card a row.
    fn draw_narrow(&mut self) {
        self.draw_at(44, 34);
    }

    /// A frame: the body over a footer row, the cards and the pane in it, or
    /// the session full-screen.
    fn draw_at(&mut self, width: u16, height: u16) {
        settle_project_tabs(&mut self.app);
        let body = Rect {
            x: 0,
            y: 0,
            width,
            height: height - 1,
        };
        let mut hits: Vec<Hit> = Vec::new();
        self.app.screen.launcher_body = body;
        if self.app.launcher_grid {
            let (cards, pane) = self.app.launcher_split(body);
            self.app.screen.body_area = cards;
            draw(&self.app, cards, None, &mut hits);
            if let Some(pane) = pane {
                hits.push(Hit {
                    rect: pane_grab_zone(fitted_side(body, self.app.screen.pane_side), pane),
                    target: HitTarget::LauncherPaneSplitter,
                });
                let on = self.app.focus == Focus::Terminal;
                pane_frame(&self.app, pane, &None, on, &mut hits);
            }
        } else {
            self.app.screen.body_area = body;
            crumb_frame(&self.app, body, &mut hits);
        }
        self.app.screen.hits = hits;
    }

    fn hit(&self, target: HitTarget) -> Option<Rect> {
        self.app
            .screen
            .hits
            .iter()
            .find(|h| h.target == target)
            .map(|h| h.rect)
    }

    fn tabs_drawn(&self) -> Vec<String> {
        self.app
            .screen
            .hits
            .iter()
            .filter_map(|h| match &h.target {
                HitTarget::LauncherTab(id) => self
                    .app
                    .tree
                    .projects
                    .iter()
                    .find(|p| p.id == *id)
                    .map(|p| p.name.clone()),
                _ => None,
            })
            .collect()
    }

    fn selected(&self) -> Option<&str> {
        self.app.selected_session().map(|a| a.id.0.as_str())
    }

    fn on_project(&self) -> Option<&str> {
        self.app.selected_project().map(|p| p.name.as_str())
    }

    fn flash(&self) -> Option<&str> {
        self.app.flash.as_deref()
    }

    fn cards(&self) -> Vec<String> {
        rows(&self.app)
            .iter()
            .map(|r| r.agent.id.0.clone())
            .collect()
    }

    fn card_at(&self, name: &str) -> usize {
        rows(&self.app)
            .iter()
            .position(|r| r.agent.name == name)
            .unwrap_or_else(|| panic!("no card for {name}"))
    }

    /// What a tab switch or a close moves: the project, the card and the tabs.
    fn tab_state(&self) -> (Option<String>, Option<String>, Vec<String>) {
        (
            self.on_project().map(String::from),
            self.selected().map(String::from),
            self.app.launcher_tabs.iter().map(|t| t.0.clone()).collect(),
        )
    }

    fn launch(&self) -> (QuickLaunch, String) {
        match &self.app.overlay {
            Some(Overlay::Prompt(PromptDialog {
                kind: PromptKind::QuickPrompt(launch),
                input,
            })) => (launch.clone(), input.text.clone()),
            other => panic!("expected the box, got {other:?}"),
        }
    }

    fn menu_labels(&self) -> Vec<String> {
        match &self.app.overlay {
            Some(Overlay::Menu(menu)) => menu.items.iter().map(|i| i.label.clone()).collect(),
            other => panic!("expected a menu, got {other:?}"),
        }
    }

    fn menu_hover(&self) -> usize {
        match &self.app.overlay {
            Some(Overlay::Menu(menu)) => menu.hover,
            other => panic!("expected a menu, got {other:?}"),
        }
    }

    fn menu_at(&self) -> Option<(u16, u16)> {
        match &self.app.overlay {
            Some(Overlay::Menu(menu)) => menu.at,
            other => panic!("expected a menu, got {other:?}"),
        }
    }

    fn in_pane(&self) -> bool {
        self.app.focus == Focus::Terminal && self.app.term_locked
    }
}

fn new_worktree(setting: bool) -> Desk {
    let mut desk = two_sessions();
    desk.app.facts.new_worktree = setting;
    desk
}

// ---- the pane's edge ----

#[test]
fn the_panes_top_edge_drags_the_grid_and_the_pane() {
    let mut desk = two_sessions();
    desk.draw();
    let zone = desk
        .hit(HitTarget::LauncherPaneSplitter)
        .expect("the pane's edge was registered");
    let body = desk.app.screen.launcher_body;
    let pane_h = pane_height(body, None).expect("34 rows fits a pane");
    let boundary = body.y + body.height - pane_h;
    assert_eq!(
        (zone.y, zone.height),
        (boundary - 1, 2),
        "the zone is the pane's opening row and the grid row over it"
    );

    // Pulled up four rows: the pane takes them off the cards.
    desk.app.screen.pane_rows = Some(pane_h + 4);
    desk.draw();
    assert_eq!(
        desk.hit(HitTarget::LauncherPaneSplitter)
            .expect("still draggable")
            .y,
        zone.y - 4,
        "the edge moved up with the drag"
    );
}

#[test]
fn a_side_panes_edge_drags_sideways() {
    for side in [PaneSide::Right, PaneSide::Left] {
        let mut desk = two_sessions();
        desk.app.screen.pane_side = side;
        desk.draw();
        let body = desk.app.screen.launcher_body;
        let pane = desk
            .app
            .launcher_split(body)
            .1
            .expect("130 columns fits a pane beside the cards");
        assert_eq!(fitted_side(body, desk.app.screen.pane_side), side);
        assert_eq!((pane.y, pane.height), (body.y, body.height), "{side:?}");
        let zone = desk
            .hit(HitTarget::LauncherPaneSplitter)
            .expect("the pane's edge was registered");
        let grip_x = pane_edge(side, pane).x;
        assert!(zone.x <= grip_x && grip_x < zone.x + zone.width);
        assert_eq!(zone.height, pane.height, "the whole edge is grabbable");

        // Four columns toward the cards: the pane takes them.
        desk.app.screen.pane_cols = Some(pane.width + 4);
        desk.draw();
        let moved = desk.app.launcher_split(body).1.expect("still a pane");
        assert_eq!(moved.width, pane.width + 4);
        let to = if side == PaneSide::Right {
            grip_x - 4
        } else {
            grip_x + 4
        };
        assert_eq!(pane_edge(side, moved).x, to);
        assert_eq!(
            desk.app.screen.pane_rows, None,
            "the bottom's height untouched"
        );
    }
}

#[test]
fn a_side_pane_on_a_narrow_window_lies_along_the_bottom() {
    let mut desk = two_sessions();
    desk.app.screen.pane_side = PaneSide::Right;
    desk.draw_at(70, 34);
    let body = desk.app.screen.launcher_body;
    assert_eq!(
        fitted_side(body, desk.app.screen.pane_side),
        PaneSide::Bottom
    );
    let pane = desk
        .app
        .launcher_split(body)
        .1
        .expect("a pane under the cards");
    assert_eq!((pane.x, pane.width), (body.x, body.width), "full width");
    assert_eq!(
        pane.y + pane.height,
        body.y + body.height,
        "at the bottom"
    );
}

// ---- the cards ----

#[test]
fn hjkl_walk_the_grid_and_the_pane_follows() {
    let mut desk = two_sessions();
    desk.draw();
    assert_eq!(desk.app.focus, Focus::Sessions, "the grid has the keys");
    assert_eq!(
        desk.selected(),
        Some("a1"),
        "the cursor starts on the selected session — the older, card 2"
    );

    desk.press(Action::FocusLeft);
    assert_eq!(desk.selected(), Some("a2"), "the newest first");
    assert_eq!(
        desk.app.attached,
        agent_ref("a2"),
        "the card walked onto is what the pane reads"
    );
    assert_eq!(
        desk.on_project(),
        Some("demo"),
        "the walk stays inside the project the level is scoped to"
    );
    desk.press(Action::FocusLeft);
    assert_eq!(desk.selected(), Some("a2"), "the first card stays");

    desk.press(Action::FocusRight);
    assert_eq!(desk.selected(), Some("a1"));
    assert_eq!(
        desk.app.attached,
        agent_ref("a1"),
        "and swaps with the cursor"
    );
    assert_eq!(desk.on_project(), Some("demo"));
    desk.press(Action::FocusRight);
    assert_eq!(desk.selected(), Some("a1"), "the last card stays");
    // Both cards are on one row here, so the column keys have nowhere to go.
    desk.press(Action::MoveUp);
    assert_eq!(desk.selected(), Some("a1"));
    assert_eq!(desk.app.focus, Focus::Sessions);

    // One card a row, and up and down are the walk instead.
    let mut desk = two_sessions();
    desk.draw_narrow();
    desk.press(Action::MoveUp);
    assert_eq!(desk.selected(), Some("a2"));
    desk.press(Action::MoveDown);
    assert_eq!(desk.selected(), Some("a1"));
}

#[test]
fn a_half_page_is_two_rows_of_cards() {
    let mut desk = two_sessions();
    for i in 0..4 {
        desk.app
            .tree
            .agents
            .push(running(&format!("b{i}"), "w1", &format!("more-{i}")));
    }
    desk.draw_narrow();
    assert_eq!(desk.cards(), ["b3", "b2", "b1", "b0", "a2", "a1"]);
    desk.put_cursor("b3");
    desk.press(Action::HalfPageDown);
    assert_eq!(desk.selected(), Some("b1"));
    desk.press(Action::HalfPageDown);
    assert_eq!(desk.selected(), Some("a2"));
    desk.press(Action::HalfPageUp);
    assert_eq!(desk.selected(), Some("b1"));
}

#[test]
fn enter_crosses_into_the_pane_and_the_hatch_returns_to_the_cards() {
    let mut desk = two_sessions();
    desk.draw();
    desk.press(Action::FocusLeft);
    desk.press(Action::Activate);
    assert!(desk.in_pane());
    assert!(
        desk.app.launcher_grid,
        "the pane under the grid, not full-screen"
    );
    desk.draw();
    assert_eq!(
        desk.tabs_drawn(),
        ["demo"],
        "the grid is still up over the pane"
    );
    assert_eq!(desk.app.attached, agent_ref("a2"));
    assert_eq!(desk.selected(), Some("a2"));
}

#[test]
fn z_full_screens_the_session_and_the_hatch_returns_to_the_grid() {
    let mut desk = two_sessions();
    desk.draw();
    desk.press(Action::FocusLeft);
    desk.press(Action::Zoom);
    assert!(desk.in_pane());
    assert!(
        !desk.app.launcher_grid,
        "full-screen, not a pane beside the grid"
    );
    desk.draw();
    assert!(desk.hit(HitTarget::LauncherCrumb).is_some());
    assert!(desk.tabs_drawn().is_empty(), "the grid's header is gone");

    desk.app.launcher_grid = true;
    desk.app.focus = Focus::Sessions;
    desk.app.term_locked = false;
    desk.draw();
    assert_eq!(desk.selected(), Some("a2"));
    assert_eq!(desk.tabs_drawn(), ["demo"], "the grid, not the panels");
}

#[test]
fn enter_brings_up_the_cursors_session_first() {
    let mut desk = two_sessions();
    desk.draw();
    assert_eq!(desk.app.attached, None);
    desk.press(Action::Activate);
    assert_eq!(desk.app.attached, agent_ref("a1"));
    assert!(desk.in_pane());
    assert!(
        desk.app.launcher_grid,
        "the pane under the grid, not full-screen"
    );
}

#[test]
fn enter_asks_for_the_card_and_then_for_the_pane() {
    let mut desk = two_sessions();
    desk.draw();
    for action in [Action::Activate, Action::FocusNext, Action::FocusTerminal] {
        let mut out = Vec::new();
        assert!(handle_action(&mut desk.app, action, &mut out));
        assert_eq!(
            out,
            vec![
                Effect::Jump {
                    session: aid("a1"),
                    landing: Landing::Attach,
                },
                Effect::EnterPaneIfAttached,
            ],
            "{action:?}"
        );
    }
}

#[test]
fn enter_full_screens_a_session_when_the_body_has_no_pane() {
    let mut desk = two_sessions();
    desk.draw_at(130, 20);
    assert!(
        split(desk.app.screen.launcher_body, desk.app.screen.pane_rows)
            .1
            .is_none(),
        "too short for a pane"
    );
    desk.press(Action::Activate);
    assert!(desk.in_pane());
    assert!(
        !desk.app.launcher_grid,
        "full-screen: there is no pane to step into"
    );
}

#[test]
fn k_on_the_top_row_stays_put() {
    let mut desk = two_sessions();
    desk.draw();
    let before = desk.tab_state();
    desk.press(Action::MoveUp);
    desk.press(Action::MoveUp);
    assert_eq!(desk.tab_state().0, before.0);
    assert_eq!(desk.tab_state().1, before.1);
    assert!(desk.app.overlay.is_none(), "{:?}", desk.app.overlay);
}

#[test]
fn archiving_the_first_card_takes_the_card_that_slides_up() {
    let mut desk = two_sessions();
    desk.draw();
    desk.press(Action::FocusLeft);
    assert_eq!(desk.selected(), Some("a2"));
    desk.archive("a2");
    assert_eq!(desk.selected(), Some("a1"));
    assert_eq!(desk.app.focus, Focus::Sessions);
}

#[test]
fn archiving_a_card_lands_on_the_card_before_it() {
    let mut desk = three_sessions();
    desk.draw();
    assert_eq!(desk.cards(), ["a9", "a2", "a1"], "newest first");
    desk.click_card(1, false);
    assert_eq!(desk.selected(), Some("a2"), "the middle card");

    desk.archive("a2");
    assert_eq!(desk.cards(), ["a9", "a1"]);
    assert_eq!(
        desk.selected(),
        Some("a9"),
        "the card before it, not the one that slid up"
    );
    assert_eq!(desk.app.attached, agent_ref("a9"), "and the pane reads it");
    assert_eq!(desk.app.focus, Focus::Sessions);
}

#[test]
fn archiving_a_card_ignores_the_panels_own_neighbor() {
    let mut desk = three_sessions();
    desk.draw();
    desk.click_card(0, false);
    assert_eq!(desk.selected(), Some("a9"), "the first card");
    assert_eq!(
        desk.app.selected_worktree().map(|w| w.id.0.as_str()),
        Some("w1"),
        "whose checkout also holds the LAST card's session",
    );

    desk.archive("a9");
    assert_eq!(desk.cards(), ["a2", "a1"]);
    assert_eq!(
        desk.selected(),
        Some("a2"),
        "the slot the archived card left — not w1's own next row, a1"
    );
}

#[test]
fn a_list_that_moves_under_the_archive_still_lands_on_the_card_before() {
    let mut desk = three_sessions();
    desk.draw();
    assert_eq!(desk.cards(), ["a9", "a2", "a1"], "newest first");
    desk.put_cursor("a1");

    // What the input event opens with: the cursor on the last card.
    let before = cursor_entry(&desk.app).expect("a card under the cursor");
    // ...and in the same breath a newer session leads the grid.
    desk.app.tree.agents.push(running("az", "w1", "fresh-one"));
    assert_eq!(
        desk.cards(),
        ["az", "a9", "a2", "a1"],
        "the newcomer leads"
    );

    for a in desk.app.tree.agents.iter_mut().filter(|a| a.id.0 == "a1") {
        a.archived = true;
    }
    let mut out = Vec::new();
    keep_cursor(&mut desk.app, before, &mut out);
    assert_eq!(desk.cards(), ["az", "a9", "a2"]);
    assert_eq!(
        desk.selected(),
        Some("a2"),
        "the card that was before it, not the one a shifted index points at"
    );
}

#[test]
fn archiving_the_last_card_lands_on_the_card_before_it() {
    let mut desk = three_sessions();
    desk.draw();
    assert_eq!(desk.cards(), ["a9", "a2", "a1"], "newest first");
    desk.click_card(2, false);
    assert_eq!(desk.selected(), Some("a1"), "the last card");

    desk.archive("a1");
    assert_eq!(desk.cards(), ["a9", "a2"]);
    assert_eq!(desk.selected(), Some("a2"), "the card before it");
}

#[test]
fn the_last_card_leaving_folds_the_pane_away() {
    // Archived, and deleted.
    for deleted in [false, true] {
        let mut desk = two_sessions();
        desk.open("p2");
        desk.draw();
        assert_eq!(desk.cards(), ["a3"], "web's one card");
        assert!(has_pane(&desk.app), "the pane reads it");

        if deleted {
            let before = cursor_entry(&desk.app);
            desk.app.tree.agents.retain(|a| a.id.0 != "a3");
            desk.keep(before);
        } else {
            desk.archive("a3");
        }
        assert!(desk.cards().is_empty(), "the card left");
        assert!(desk.app.launcher_unaimed, "nothing left to aim at");
        assert!(!has_pane(&desk.app), "and the pane folded");
        assert_eq!(desk.flash(), Some(NO_SESSIONS));
        desk.draw();
        assert!(
            desk.hit(HitTarget::LauncherWelcomePrompt).is_some(),
            "the empty grid says what starts one"
        );
    }
}

#[test]
fn the_cursor_is_left_alone_while_a_session_is_being_created() {
    let mut desk = three_sessions();
    desk.put_cursor("a2");
    let before = cursor_entry(&desk.app).expect("a card under the cursor");
    desk.app.tree.agents.retain(|a| a.id.0 != "a2");
    desk.app.select_when_seen = true;
    let mut out = Vec::new();
    keep_cursor(&mut desk.app, before, &mut out);
    assert_eq!(desk.app.sel_session, agent_ref("a2"));
    assert!(out.is_empty());
}

#[test]
fn a_click_on_a_card_is_the_keys_that_walk_to_it() {
    let mut by_key = two_sessions();
    by_key.draw();
    by_key.press(Action::FocusLeft);

    let mut by_click = two_sessions();
    by_click.draw();
    by_click.click_card(0, false);

    assert_eq!(by_click.selected(), by_key.selected());
    assert_eq!(by_click.app.attached, by_key.app.attached);
    assert_eq!(by_click.app.focus, by_key.app.focus);
    assert_eq!(by_click.app.sel_project, by_key.app.sel_project);

    by_key.press(Action::Activate);
    by_click.click_card(0, true);
    assert_eq!(
        by_click.app.focus,
        Focus::Terminal,
        "the second click is Enter"
    );
    assert_eq!(by_click.app.term_locked, by_key.app.term_locked);
    assert_eq!(
        by_click.app.launcher_grid, by_key.app.launcher_grid,
        "the pane under the grid either way"
    );
    assert!(by_click.app.launcher_grid, "not full-screen: that is `z`");
}

#[test]
fn a_click_on_a_card_unfolds_the_pane_rather_than_full_screening() {
    let mut by_key = two_sessions();
    by_key.draw();
    by_key.press(Action::ToggleLauncherPane);
    assert!(by_key.app.launcher_pane_hidden, "the pane folded away");
    by_key.press(Action::FocusLeft);
    by_key.press(Action::Activate);
    assert!(
        !by_key.app.launcher_pane_hidden,
        "Enter brought the pane back"
    );
    assert!(
        by_key.app.launcher_grid,
        "the pane under the grid, not full-screen"
    );
    assert_eq!(
        by_key.app.focus,
        Focus::Terminal,
        "and the keys are in it"
    );

    let mut by_click = two_sessions();
    by_click.draw();
    by_click.press(Action::ToggleLauncherPane);
    assert!(by_click.app.launcher_pane_hidden);
    by_click.click_card(0, false);
    assert!(
        !by_click.app.launcher_pane_hidden,
        "one click on a card always brings the folded pane back"
    );
    assert_eq!(by_click.flash(), Some(PANE_SHOWN));
    assert!(!by_click.app.launcher_unaimed, "on the card clicked");
    assert_eq!(
        by_click.app.focus,
        Focus::Sessions,
        "and the keys stay on the cards until the second click"
    );
    by_click.click_card(0, true);
    assert!(!by_click.app.launcher_pane_hidden);
    assert_eq!(by_click.app.launcher_grid, by_key.app.launcher_grid);
    assert!(by_click.app.launcher_grid, "not full-screen: that is `z`");
    assert_eq!(
        by_click.app.focus, by_key.app.focus,
        "and the keys are in it"
    );
    assert_eq!(by_click.app.attached, by_key.app.attached);
    by_click.draw();
    assert_eq!(
        by_click.tabs_drawn(),
        ["demo"],
        "the grid is still up over the pane"
    );

    // Again, with the keys already there: nothing moves.
    by_click.click_card(0, true);
    by_click.click_card(0, true);
    assert!(!by_click.app.launcher_pane_hidden, "the pane stayed");
    assert!(
        by_click.app.launcher_grid,
        "and never took the whole screen"
    );
    assert_eq!(by_click.app.focus, Focus::Terminal);
}

#[test]
fn a_right_click_on_a_card_unfolds_the_pane_as_a_left_click_does() {
    let mut by_left = two_sessions();
    let mut by_right = two_sessions();
    for desk in [&mut by_left, &mut by_right] {
        desk.draw();
        desk.press(Action::ToggleLauncherPane);
        desk.press(Action::FocusLeft);
        assert!(
            desk.app.launcher_pane_hidden,
            "a key walking the cards leaves the fold be"
        );
        desk.draw();
    }
    by_left.click_card(0, false);
    let mut out = Vec::new();
    let at = nebula_tui::keys::cards::point_at(&mut by_right.app, 0, &mut out);
    by_right.perform(&out, None);

    for desk in [&by_left, &by_right] {
        assert!(
            !desk.app.launcher_pane_hidden,
            "the click brought the pane back"
        );
        assert!(!desk.app.launcher_unaimed, "on the card clicked");
        assert_eq!(
            desk.app.focus,
            Focus::Sessions,
            "the keys stay on the cards"
        );
    }
    assert_eq!(
        by_right.selected(),
        by_left.selected(),
        "both buttons land on the same card"
    );
    assert_eq!(at, Some(aid("a2")), "and the right one says whose menu");
}

#[test]
fn a_click_past_the_last_card_moves_nothing() {
    let mut desk = two_sessions();
    desk.draw();
    let mut out = Vec::new();
    click_row(&mut desk.app, 2, true, &mut out);
    assert!(out.is_empty());
    assert!(!select_row(&mut desk.app, 2, &mut out));
    assert!(select_row(&mut desk.app, 0, &mut out));
    assert_eq!(
        out,
        vec![Effect::Jump {
            session: aid("a2"),
            landing: Landing::FocusOnly,
        }]
    );
}

#[test]
fn space_opens_the_follow_up_modal_over_the_grid() {
    let mut desk = two_sessions();
    desk.draw();
    let (reading, focus) = (desk.app.attached.clone(), desk.app.focus);
    assert!(desk.press(Action::FollowUp));
    assert_eq!(
        desk.app.follow_up,
        Some(aid("a1")),
        "the box is aimed at the card under the cursor"
    );
    desk.draw();
    assert_eq!(
        desk.app.attached, reading,
        "the pane went on reading the same thing"
    );
    assert_eq!(desk.app.focus, focus, "the keys never left the cards");
}

#[test]
fn a_cloud_card_says_what_it_takes_instead() {
    let mut desk = two_sessions();
    desk.draw();
    desk.app.facts.no_follow_up = Some(
        "cloud sessions take a queued message — m, then Send to cloud session".to_string(),
    );
    desk.press(Action::FollowUp);
    assert!(desk.app.overlay.is_none(), "no box over a cloud session");
    assert_eq!(
        desk.flash(),
        Some("cloud sessions take a queued message — m, then Send to cloud session"),
    );

    // And with nothing selected, that there is nothing to prompt.
    desk.app.facts.no_follow_up = None;
    desk.app.sel_session = None;
    desk.press(Action::FollowUp);
    assert_eq!(desk.flash(), Some(NO_SESSIONS));
}

#[test]
fn an_open_pane_is_left_on_the_tab_it_was_reading() {
    let mut desk = two_sessions();
    desk.seed_terminal("t1", "w2", "shell-1");
    desk.draw();
    desk.press(Action::FocusLeft);
    desk.press(Action::PaneTabs);
    let reading = desk.app.attached.clone();
    assert!(
        desk.app.launcher_terminal.is_some(),
        "the pane is on a terminal"
    );

    desk.press(Action::FollowUp);
    assert!(
        desk.app.launcher_terminal.is_some(),
        "still on the terminal tab"
    );
    assert_eq!(desk.app.attached, reading, "and still reading it");
}

// ---- the card let go ----

#[test]
fn the_first_esc_lets_the_card_go_and_a_click_on_the_air_does_not() {
    let mut desk = two_sessions();
    desk.draw();
    let air = desk
        .hit(HitTarget::PanelBg(Focus::Sessions))
        .expect("the grid registered its background");
    assert!(air.width > 0, "a click on the air is the grid's own");

    desk.app.flash = None;
    escape(&mut desk.app);
    assert!(desk.app.launcher_unaimed, "Esc left the grid aimed");
    assert_eq!(desk.flash(), Some(UNAIMED));
}

#[test]
fn the_unselected_card_stops_wearing_the_cursor() {
    let mut desk = two_sessions();
    desk.draw();
    let at = cursor(&desk.app, &rows(&desk.app)).expect("a card under the cursor");
    let worn = |desk: &Desk| -> Vec<usize> {
        let mut hits = Vec::new();
        match draw(&desk.app, desk.app.screen.body_area, None, &mut hits).below {
            Below::Grid(g) => g
                .cards
                .iter()
                .filter(|c| c.selected)
                .map(|c| c.index)
                .collect(),
            other => panic!("expected the grid, got {other:?}"),
        }
    };
    assert_eq!(worn(&desk), [at]);

    escape(&mut desk.app);
    desk.draw();
    assert!(
        worn(&desk).is_empty(),
        "no card wears the cursor once the aim is let go of"
    );
    assert!(
        cursor(&desk.app, &rows(&desk.app)).is_some(),
        "the grid still knows where the cursor was — it is let go of, not forgotten"
    );

    desk.click_card(at, false);
    assert!(!desk.app.launcher_unaimed, "the click re-aimed the grid");
    desk.draw();
    assert_eq!(worn(&desk), [at]);
}

#[test]
fn a_click_opens_the_pane_and_esc_collapses_it() {
    let mut desk = two_sessions();
    desk.draw();
    let pane_h = pane_height(desk.app.screen.launcher_body, desk.app.screen.pane_rows)
        .expect("34 rows fits a pane");
    let grid_with_pane = desk.app.screen.body_area.height;
    assert!(has_pane(&desk.app) && !desk.app.launcher_unaimed);

    // The card let go of: the pane goes with it and the cards take its rows.
    escape(&mut desk.app);
    desk.draw();
    assert!(desk.app.launcher_unaimed);
    assert!(!has_pane(&desk.app), "nothing selected, no pane");
    assert!(desk.hit(HitTarget::LauncherPaneSplitter).is_none());
    assert_eq!(desk.app.screen.body_area.height, grid_with_pane + pane_h);

    // A click on a card opens it again — and only opens it.
    desk.click_card(0, false);
    assert!(
        !desk.app.launcher_unaimed,
        "the click aimed the grid again"
    );
    assert_eq!(
        desk.app.focus,
        Focus::Sessions,
        "one click opens the pane, it does not enter it"
    );
    assert!(!desk.app.term_locked, "and nothing is being typed into");
    desk.draw();
    assert!(has_pane(&desk.app), "the pane came back under the cards");
    assert_eq!(desk.app.screen.body_area.height, grid_with_pane);

    // The second click on the same card is Enter, into the pane.
    desk.click_card(0, true);
    assert_eq!(
        desk.app.focus,
        Focus::Terminal,
        "the second click is Enter"
    );
    assert!(
        desk.app.launcher_grid,
        "the pane under the grid: full-screen is `z`"
    );

    clear_aim(&mut desk.app);
    desk.draw();
    assert!(!has_pane(&desk.app), "the pane collapsed");
}

#[test]
fn folding_the_pane_away_lets_the_card_go_too() {
    let mut desk = two_sessions();
    desk.draw();
    let pane_h = pane_height(desk.app.screen.launcher_body, desk.app.screen.pane_rows)
        .expect("34 rows fits a pane");
    let grid_was = desk.app.screen.body_area.height;
    assert!(has_pane(&desk.app) && !desk.app.launcher_unaimed);

    desk.press(Action::ToggleLauncherPane);
    assert!(desk.app.launcher_pane_hidden, "the pane folded away");
    assert!(
        desk.app.launcher_unaimed,
        "folding the pane away let the card under the cursor go"
    );
    assert_eq!(desk.flash(), Some(PANE_HIDDEN));
    desk.draw();
    assert!(
        desk.hit(HitTarget::LauncherPaneSplitter).is_none(),
        "a folded pane leaves no edge under the pointer to drag"
    );
    assert_eq!(
        desk.app.screen.body_area.height,
        grid_was + pane_h,
        "the cards took the rows the pane was drawn over"
    );

    // The same key back.
    desk.press(Action::ToggleLauncherPane);
    assert!(!desk.app.launcher_pane_hidden);
    assert!(
        !desk.app.launcher_unaimed,
        "the pane came back without the card it reads"
    );
    assert_eq!(desk.flash(), Some(PANE_SHOWN));
    desk.draw();
    assert!(has_pane(&desk.app));
    assert_eq!(
        desk.app.screen.body_area.height, grid_was,
        "the pane took its rows back"
    );

    // The other key that folds it.
    let folded = desk.app.launcher_pane_hidden;
    desk.press(Action::ToggleSidebars);
    assert_ne!(desk.app.launcher_pane_hidden, folded);
}

#[test]
fn ctrl_backtick_steps_out_to_the_card_then_folds_the_pane() {
    let mut desk = two_sessions();
    desk.draw();
    desk.press(Action::FocusLeft);
    desk.press(Action::Activate);
    assert!(desk.in_pane() && desk.app.launcher_grid);

    let card = cursor(&desk.app, &rows(&desk.app));
    let mut out = Vec::new();
    assert_eq!(fold_key(&mut desk.app, &mut out), BACK_TO_CARD);
    assert_eq!(out, vec![Effect::LeavePane]);
    assert_eq!(
        desk.app.focus,
        Focus::Sessions,
        "the keys are the grid's"
    );
    assert!(!desk.app.term_locked);
    assert!(
        !desk.app.launcher_pane_hidden,
        "the first press left the pane up"
    );
    assert!(
        !desk.app.launcher_unaimed,
        "and the card it reads selected"
    );
    assert_eq!(
        cursor(&desk.app, &rows(&desk.app)),
        card,
        "the cursor stayed on it"
    );

    // Again, from the cards: the pane folds away.
    assert_eq!(fold_key(&mut desk.app, &mut out), "Hide the pane");
    assert!(
        desk.app.launcher_pane_hidden,
        "the second press folded the pane"
    );
    assert_eq!(desk.app.focus, Focus::Sessions);

    // And once more brings it back.
    assert_eq!(fold_key(&mut desk.app, &mut out), "Show the pane");
    assert!(!desk.app.launcher_pane_hidden);
}

#[test]
fn the_close_button_on_the_pane_folds_it_like_the_key() {
    let locked = || {
        let mut desk = two_sessions();
        desk.draw();
        desk.press(Action::FocusLeft);
        desk.press(Action::Activate);
        assert!(desk.app.term_locked, "Enter put the keys in the pane");
        desk.draw();
        desk
    };
    let mut by_click = locked();
    let close = by_click
        .hit(HitTarget::LauncherPaneClose)
        .expect("the close button was drawn");
    let body = by_click.app.screen.launcher_body;
    assert!(
        close.x + close.width <= body.x + body.width,
        "the close button ends the row"
    );
    by_click.press(Action::ToggleSidebars);

    let mut by_key = locked();
    by_key.press(Action::ToggleLauncherPane);
    by_key.press(Action::ToggleLauncherPane);

    for desk in [&by_click, &by_key] {
        assert!(desk.app.launcher_pane_hidden, "the pane folded away");
        assert_eq!(
            desk.app.focus,
            Focus::Sessions,
            "the keys are the cards'"
        );
        assert!(!desk.app.term_locked);
    }
    assert_eq!(by_click.app.launcher_unaimed, by_key.app.launcher_unaimed);
    assert_eq!(by_click.app.flash, by_key.app.flash);
}

#[test]
fn esc_lets_the_card_go_and_goes_no_further() {
    let mut desk = two_sessions();
    desk.draw();
    escape(&mut desk.app);
    assert!(desk.app.launcher_unaimed);
    let project = desk.on_project().map(String::from);

    desk.app.flash = None;
    escape(&mut desk.app);
    assert!(desk.app.launcher_unaimed);
    assert_eq!(desk.on_project().map(String::from), project);
    assert_eq!(desk.app.flash, None, "nothing moved, nothing said");

    desk.press(Action::FocusLeft);
    assert!(!desk.app.launcher_unaimed, "a step re-aimed the grid");
}

#[test]
fn folding_twice_is_the_pane_as_it_was() {
    let mut desk = two_sessions();
    desk.draw();
    let before = desk.app.launcher_split(desk.app.screen.launcher_body);
    toggle_pane(&mut desk.app);
    assert_eq!(desk.app.focus, Focus::Sessions);
    toggle_pane(&mut desk.app);
    assert_eq!(
        desk.app.launcher_split(desk.app.screen.launcher_body),
        before
    );
}

// ---- the pane's strip ----

#[test]
fn the_pane_header_lists_the_checkouts_terminals_after_the_session_tab() {
    let mut desk = two_sessions();
    desk.seed_terminal("t1", "w2", "shell-1");
    desk.seed_terminal("t2", "w2", "shell-2");
    desk.draw();
    // Onto the `feat` card, so `feat` is the strip's checkout and its two
    // terminals are the tabs.
    desk.press(Action::FocusLeft);
    desk.draw();
    let body = desk.app.screen.launcher_body;
    let pane = desk.app.launcher_split(body).1.expect("a pane");
    let mut hits = Vec::new();
    let drawn = pane_frame(&desk.app, pane, &None, false, &mut hits);
    let row = drawn.row.expect("the strip's row");
    let head: String = row.strip.iter().map(|s| s.text.as_str()).collect();
    let at = |needle: &str| {
        let byte = head
            .find(needle)
            .unwrap_or_else(|| panic!("{head:?} is missing {needle:?}"));
        usize::from(row.area.x) + head[..byte].chars().count()
    };
    assert!(
        at("SESSION") < at("feat"),
        "the checkout comes after the tab it scopes: {head:?}"
    );
    assert!(
        at("feat") < at("│"),
        "the divider closes the session side off: {head:?}"
    );
    assert!(
        at("│") < at("shell-1") && at("shell-1") < at("shell-2"),
        "the terminals follow the divider, in tree order: {head:?}"
    );

    let session = desk.hit(HitTarget::LauncherPaneSession).expect("SESSION");
    let second = desk
        .hit(HitTarget::LauncherPaneTerminal(1))
        .expect("the second terminal");
    assert_eq!(session.y, second.y, "one row, all of it");
    assert_eq!(
        usize::from(session.x),
        at("SESSION"),
        "the SESSION button is where the word is"
    );
    assert_eq!(
        usize::from(second.x),
        at("shell-2") - 2,
        "a terminal's button takes its glyph as well as its name"
    );
}

#[test]
fn the_key_and_a_click_walk_the_same_tab_strip() {
    let mut desk = two_sessions();
    desk.seed_terminal("t1", "w2", "shell-1");
    desk.seed_terminal("t2", "w2", "shell-2");
    desk.draw();
    desk.press(Action::FocusLeft);
    desk.draw();

    desk.press(Action::PaneTabs);
    assert_eq!(
        desk.app.attached,
        term_ref("t1"),
        "the first tab past SESSION"
    );
    desk.press(Action::PaneTabs);
    assert_eq!(desk.app.attached, term_ref("t2"));
    desk.press(Action::PaneTabs);
    assert_eq!(
        desk.app.attached,
        agent_ref("a2"),
        "past the last tab is back to the card"
    );

    // The pointer lands in exactly the states the key does.
    let mut out = Vec::new();
    click_pane_tab(&mut desk.app, 1, &mut out);
    desk.perform(&out, None);
    assert_eq!(
        desk.app.attached,
        term_ref("t2"),
        "a click reads that terminal"
    );
    let mut out = Vec::new();
    show_pane_tab(&mut desk.app, None, &mut out);
    desk.perform(&out, None);
    assert_eq!(
        desk.app.attached,
        agent_ref("a2"),
        "and SESSION hands the pane back to the card"
    );

    // A click on a tab that is gone reads nothing else.
    let mut out = Vec::new();
    click_pane_tab(&mut desk.app, 2, &mut out);
    assert!(out.is_empty());
}

#[test]
fn a_terminal_stays_up_inside_its_checkout_and_is_dropped_leaving_it() {
    let mut desk = two_sessions();
    desk.app.tree.agents.push(running("a4", "w2", "more-feat"));
    desk.seed_terminal("t1", "w2", "shell-1");
    desk.draw();

    let feat = desk.card_at("polish-nav");
    let mut out = Vec::new();
    select_row(&mut desk.app, feat, &mut out);
    desk.perform(&out, None);
    desk.press(Action::PaneTabs);
    assert_eq!(desk.app.attached, term_ref("t1"));

    // Another card in the same checkout: the terminal is still up.
    let sibling = desk.card_at("more-feat");
    let mut out = Vec::new();
    select_row(&mut desk.app, sibling, &mut out);
    assert_eq!(
        desk.app.launcher_terminal,
        Some(tid("t1")),
        "walking inside the checkout must not swap the terminal out"
    );
    desk.perform(&out, None);
    assert_eq!(desk.app.attached, term_ref("t1"));

    // A card in the root checkout: different terminals.
    let root = desk.card_at("agent-1");
    let mut out = Vec::new();
    select_row(&mut desk.app, root, &mut out);
    desk.perform(&out, None);
    assert_eq!(desk.app.launcher_terminal, None, "the pin was let go of");
    assert_eq!(
        desk.app.attached,
        agent_ref("a1"),
        "the pane is the card's again"
    );
}

#[test]
fn the_cross_on_a_tab_closes_that_terminal_and_the_strip_moves_on() {
    let mut desk = two_sessions();
    desk.seed_terminal("t1", "w2", "shell-1");
    desk.seed_terminal("t2", "w2", "shell-2");
    desk.draw();
    desk.press(Action::FocusLeft);
    desk.press(Action::PaneTabs);
    assert_eq!(desk.app.attached, term_ref("t1"));
    desk.draw();

    let close = |desk: &mut Desk, id: &str| {
        assert!(desk.hit(HitTarget::LauncherPaneCloseTerminal(0)).is_some());
        close_pane_tab(&mut desk.app, 0);
        match desk.app.overlay.take() {
            Some(Overlay::ConfirmClose { terminal, .. }) => assert_eq!(terminal, tid(id)),
            other => panic!("the cross asks first: {other:?}"),
        }
        let next = tab_after(&desk.app, &tid(id)).expect("the strip was on it");
        desk.terminals.retain(|(_, t, _)| t != id);
        desk.list_terminals();
        let mut out = Vec::new();
        show_pane_tab(&mut desk.app, next, &mut out);
        desk.perform(&out, None);
        desk.draw();
    };
    close(&mut desk, "t1");
    assert_eq!(
        desk.app.attached,
        term_ref("t2"),
        "and the strip lands on the tab beside it"
    );

    // Closing the last one hands the pane back to the card.
    close(&mut desk, "t2");
    assert_eq!(
        desk.app.launcher_terminal, None,
        "no tab is pinned any more"
    );
    assert_eq!(
        desk.app.attached,
        agent_ref("a2"),
        "the pane is the card's again"
    );
    assert_eq!(
        tab_after(&desk.app, &tid("t2")),
        None,
        "a strip that was not on it is left alone"
    );
}

#[test]
fn d_closes_the_terminal_the_strip_is_on_and_the_card_otherwise() {
    let mut desk = two_sessions();
    desk.seed_terminal("t1", "w2", "shell-1");
    desk.draw();
    desk.press(Action::FocusLeft);

    // On SESSION, it is still the card's, and left to the panels.
    assert!(!desk.press(Action::Delete));
    assert!(desk.app.overlay.is_none());

    // On the terminal it is the terminal's.
    desk.press(Action::PaneTabs);
    assert!(desk.press(Action::Delete));
    match &desk.app.overlay {
        Some(Overlay::ConfirmClose { name, terminal }) => {
            assert_eq!(name, "shell-1");
            assert_eq!(terminal, &tid("t1"));
        }
        other => panic!("the terminal's close: {other:?}"),
    }
}

#[test]
fn the_strip_says_why_there_is_nothing_to_walk() {
    let mut desk = two_sessions();
    desk.draw();
    desk.press(Action::PaneTabs);
    assert_eq!(desk.flash(), Some(NO_TERMINALS));
    assert_eq!(desk.app.launcher_terminal, None);
}

// ---- the project tabs ----

#[test]
fn the_digits_open_the_project_tabs() {
    let mut by_key = two_tabs();
    by_key.press(Action::SelectProjectTab(1));
    let mut by_click = two_tabs();
    by_click.click_on_tab("p2");
    assert_eq!(by_key.tab_state(), by_click.tab_state());
    assert_eq!(by_key.on_project(), Some("web"));

    by_key.press(Action::SelectProjectTab(2));
    assert_eq!(by_key.on_project(), Some("demo"));

    by_key.press(Action::SelectProjectTab(9));
    assert_eq!(by_key.on_project(), Some("demo"));
    assert!(
        by_key
            .flash()
            .is_some_and(|f| f.contains("no project tab 9")),
        "{:?}",
        by_key.flash()
    );

    let before = by_key.tab_state();
    assert!(!by_key.press(Action::Other), "left to the panels");
    assert!(by_key.app.overlay.is_none());
    assert_eq!(by_key.tab_state(), before);
}

#[test]
fn the_header_is_the_project_tabs_and_nothing_else() {
    let mut desk = two_sessions();
    desk.draw();
    let head: Vec<HitTarget> = desk
        .app
        .screen
        .hits
        .iter()
        .filter(|h| {
            h.rect.y == 1
                && matches!(
                    h.target,
                    HitTarget::LauncherTab(_)
                        | HitTarget::LauncherTabClose(_)
                        | HitTarget::LauncherTabAdd
                )
        })
        .map(|h| h.target.clone())
        .collect();
    assert_eq!(
        head,
        vec![
            HitTarget::LauncherTabAdd,
            HitTarget::LauncherTab(pid("p1"))
        ]
    );
}

#[test]
fn a_jump_into_another_project_adds_a_tab() {
    let mut desk = two_sessions();
    desk.draw();
    assert_eq!(desk.tabs_drawn(), ["demo"]);

    desk.put_cursor("a3");
    assert_eq!(desk.on_project(), Some("web"));
    desk.draw();
    assert_eq!(desk.tabs_drawn(), ["web", "demo"]);

    desk.click_on_tab("p1");
    assert_eq!(desk.on_project(), Some("demo"));
    desk.draw();
    assert_eq!(desk.tabs_drawn(), ["web", "demo"], "no tab moved");

    desk.press(Action::PrevProjectTab);
    assert_eq!(desk.on_project(), Some("web"));
}

#[test]
fn a_click_on_a_tab_is_the_key_that_walks_to_it() {
    let mut by_key = two_tabs();
    by_key.press(Action::PrevProjectTab);
    let mut by_click = two_tabs();
    by_click.click_on_tab("p2");

    assert_eq!(by_key.tab_state(), by_click.tab_state());
    assert_eq!(by_key.app.attached, by_click.app.attached);
    assert_eq!(
        by_key.on_project(),
        Some("web"),
        "from the right-hand tab it is the one on its left"
    );
    assert_eq!(by_key.selected(), Some("a3"), "web's session");
    assert_eq!(by_key.tab_state().2, ["p2", "p1"], "no tab moved");

    // Neither end wraps round.
    let mut desk = two_tabs();
    let before = desk.tab_state();
    desk.press(Action::NextProjectTab);
    assert_eq!(desk.tab_state(), before, "on the last tab");
    assert_eq!(desk.app.flash, None);
    desk.press(Action::PrevProjectTab);
    assert_eq!(desk.on_project(), Some("web"));
    let first = desk.tab_state();
    desk.press(Action::PrevProjectTab);
    assert_eq!(desk.tab_state(), first, "on the first tab");
    assert_eq!(desk.app.flash, None);
    desk.press(Action::NextProjectTab);
    assert_eq!(desk.on_project(), Some("demo"));

    // A click on the lit tab changes nothing.
    desk.press(Action::FocusRight);
    let before = desk.tab_state();
    desk.draw();
    desk.click_on_tab("p1");
    assert_eq!(desk.tab_state(), before);
}

#[test]
fn a_tab_comes_back_on_the_card_it_was_left_on() {
    let mut desk = two_tabs();
    desk.presses(&[Action::FocusLeft, Action::FocusLeft, Action::FocusRight]);
    assert_eq!(desk.selected(), Some("a1"), "demo's second card");

    desk.presses(&[Action::PrevProjectTab, Action::NextProjectTab]);
    assert_eq!(desk.on_project(), Some("demo"));
    assert_eq!(desk.selected(), Some("a1"), "by the steps");
    assert_eq!(desk.app.attached, agent_ref("a1"));

    desk.presses(&[Action::SelectProjectTab(1), Action::SelectProjectTab(2)]);
    assert_eq!(desk.selected(), Some("a1"), "by the digits");

    desk.press(Action::PrevProjectTab);
    desk.draw();
    desk.click_on_tab("p1");
    assert_eq!(desk.selected(), Some("a1"), "by a click");

    // Gone from the cards since: the first card instead.
    desk.press(Action::PrevProjectTab);
    for a in desk.app.tree.agents.iter_mut().filter(|a| a.id.0 == "a1") {
        a.archived = true;
    }
    desk.press(Action::NextProjectTab);
    assert_eq!(desk.on_project(), Some("demo"));
    assert_eq!(desk.selected(), Some("a2"), "the first card");
}

#[test]
fn closing_the_lit_tab_lands_on_the_one_beside_it() {
    let mut by_key = two_tabs();
    by_key.press(Action::CloseProjectTab);
    let mut by_click = two_tabs();
    assert!(by_click
        .hit(HitTarget::LauncherTabClose(pid("p1")))
        .is_some());
    by_click.click_cross("p1");

    assert_eq!(by_key.tab_state(), by_click.tab_state());
    assert_eq!(
        by_key.tab_state(),
        (
            Some("web".to_string()),
            Some("a3".to_string()),
            vec!["p2".to_string()]
        )
    );
    assert!(by_key.app.tree.projects.iter().any(|p| p.name == "demo"));

    let before = by_key.tab_state();
    by_key.press(Action::CloseProjectTab);
    assert_eq!(by_key.tab_state(), before, "the last tab stays");
    assert_eq!(by_key.flash(), Some(LAST_TAB));
    by_key.draw();
    assert_eq!(by_key.tabs_drawn(), ["web"]);
}

#[test]
fn closing_another_tab_moves_nothing() {
    let mut desk = two_tabs();
    let before = desk.tab_state();
    let pane_before = desk.app.attached.clone();
    desk.click_cross("p2");
    let after = desk.tab_state();
    assert_eq!((&after.0, &after.1), (&before.0, &before.1));
    assert_eq!(after.2, ["p1"]);
    assert_eq!(desk.app.attached, pane_before);
    desk.draw();
    assert_eq!(desk.tabs_drawn(), ["demo"]);
}

#[test]
fn the_tabs_say_why_there_is_nowhere_to_step() {
    let mut desk = two_sessions();
    desk.draw();
    desk.press(Action::NextProjectTab);
    assert_eq!(desk.flash(), Some(ONE_TAB));

    let mut desk = two_sessions();
    desk.app.tree.projects.clear();
    desk.app.sel_project = None;
    desk.draw();
    desk.press(Action::NextProjectTab);
    assert_eq!(desk.flash(), Some(NO_TABS));
}

#[test]
fn the_folder_keys_step_between_folders_of_repos() {
    let mut desk = two_tabs();
    desk.press(Action::NextFolder);
    assert_eq!(desk.flash(), Some(ONE_FOLDER));
    assert_eq!(desk.on_project(), Some("demo"));

    desk.app.tree.projects[1].repo_path = "/srv/web".to_string();
    desk.press(Action::NextFolder);
    assert_eq!(desk.on_project(), Some("web"));
    desk.press(Action::PrevFolder);
    assert_eq!(desk.on_project(), Some("demo"));
}

#[test]
fn a_project_that_is_gone_is_said_to_be() {
    let mut desk = two_sessions();
    let before = desk.tab_state();
    desk.open("p8");
    assert_eq!(desk.flash(), Some(PROJECT_GONE));
    assert_eq!(desk.tab_state(), before);
}

#[test]
fn k_k_on_the_top_row_walks_up_into_the_project_tabs() {
    let mut desk = two_tabs();
    desk.presses(&[Action::FocusLeft, Action::FocusLeft]);
    assert_eq!(desk.selected(), Some("a2"), "the first card");
    let before = desk.tab_state();

    desk.press(Action::MoveUp);
    assert_eq!(desk.app.launcher_tab_cursor, None, "one press stays put");
    assert!(
        desk.flash()
            .is_some_and(|f| f.ends_with("again: project tabs")),
        "{:?}",
        desk.flash()
    );
    desk.press(Action::MoveUp);
    assert_eq!(
        desk.app.launcher_tab_cursor,
        Some(pid("p1")),
        "on the lit tab"
    );
    assert_eq!(desk.tab_state(), before, "nothing opened");

    desk.press(Action::FocusLeft);
    assert_eq!(desk.app.launcher_tab_cursor, Some(pid("p2")));
    let on_web = (
        Some("web".to_string()),
        Some("a3".to_string()),
        before.2.clone(),
    );
    assert_eq!(desk.tab_state(), on_web, "the grid comes with the cursor");
    assert_eq!(
        desk.app.attached,
        agent_ref("a3"),
        "and the pane reads web's session"
    );
    desk.press(Action::FocusLeft);
    assert_eq!(
        desk.app.launcher_tab_cursor,
        Some(pid("p2")),
        "left of the first tab stays on it"
    );
    desk.presses(&[Action::FocusRight, Action::FocusRight]);
    assert_eq!(
        desk.app.launcher_tab_cursor,
        Some(pid("p1")),
        "past the last tab stays on it"
    );
    assert_eq!(
        desk.tab_state(),
        before,
        "demo, on the card it was left on"
    );
    desk.press(Action::PrevProjectTab);
    assert_eq!(
        desk.app.launcher_tab_cursor,
        Some(pid("p2")),
        "the step key walks the cursor too"
    );
    assert_eq!(desk.tab_state(), on_web);

    desk.press(Action::Activate);
    assert_eq!(
        desk.app.launcher_tab_cursor, None,
        "the keys are the cards' again"
    );
    assert_eq!(
        desk.tab_state(),
        (
            Some("web".to_string()),
            Some("a3".to_string()),
            vec!["p2".to_string(), "p1".to_string()]
        )
    );
    assert_eq!(desk.app.focus, Focus::Sessions);
}

#[test]
fn k_below_the_top_row_is_a_step_up_the_grid() {
    let mut desk = two_tabs();
    desk.draw_narrow();
    desk.presses(&[Action::MoveUp, Action::MoveUp]);
    assert_eq!(desk.app.launcher_tab_cursor, None);
    desk.press(Action::MoveDown);
    assert_eq!(desk.selected(), Some("a1"), "the second row");

    desk.press(Action::MoveUp);
    assert_eq!(desk.selected(), Some("a2"), "a row up");
    assert_eq!(
        desk.app.launcher_tab_cursor, None,
        "and not armed by the step"
    );
    desk.press(Action::MoveUp);
    assert_eq!(
        desk.app.launcher_tab_cursor, None,
        "the top row's first press"
    );
    desk.press(Action::MoveUp);
    assert_eq!(desk.app.launcher_tab_cursor, Some(pid("p1")));
}

#[test]
fn j_j_from_the_tabs_goes_back_down_to_the_card_left() {
    let mut desk = two_tabs();
    desk.presses(&[Action::FocusLeft, Action::FocusLeft, Action::FocusRight]);
    assert_eq!(desk.selected(), Some("a1"), "the second card");
    desk.presses(&[Action::MoveUp, Action::MoveUp]);

    desk.press(Action::MoveDown);
    assert_eq!(desk.app.launcher_tab_cursor, Some(pid("p1")));
    assert!(
        desk.flash().is_some_and(|f| f.ends_with("again: into demo")),
        "{:?}",
        desk.flash()
    );
    desk.press(Action::MoveDown);
    assert_eq!(desk.app.launcher_tab_cursor, None);
    assert_eq!(desk.on_project(), Some("demo"));
    assert_eq!(desk.selected(), Some("a1"), "the card it was on");

    // And down into the tab the cursor was walked onto.
    desk.presses(&[
        Action::MoveUp,
        Action::MoveUp,
        Action::FocusLeft,
        Action::MoveDown,
        Action::MoveDown,
    ]);
    assert_eq!(desk.app.launcher_tab_cursor, None);
    assert_eq!(desk.on_project(), Some("web"));
    assert_eq!(desk.selected(), Some("a3"));

    // And back up and over to demo, on the card it was left on.
    desk.presses(&[Action::MoveUp, Action::MoveUp, Action::FocusRight]);
    assert_eq!(desk.on_project(), Some("demo"));
    assert_eq!(desk.selected(), Some("a1"));
}

#[test]
fn esc_or_another_key_hands_the_keys_back_to_the_cards() {
    let mut desk = two_tabs();
    desk.presses(&[Action::FocusLeft, Action::FocusLeft, Action::FocusRight]);
    desk.presses(&[Action::MoveUp, Action::MoveUp, Action::FocusLeft]);
    assert!(desk.app.launcher_tab_cursor.is_some());
    let walked = desk.tab_state();
    assert_eq!(walked.0.as_deref(), Some("web"));

    escape(&mut desk.app);
    assert_eq!(desk.app.launcher_tab_cursor, None);
    assert_eq!(
        desk.tab_state(),
        walked,
        "still on the project walked to"
    );
    assert!(
        !desk.app.launcher_unaimed,
        "and the card is still selected"
    );

    desk.presses(&[Action::MoveUp, Action::MoveUp, Action::QuickPrompt]);
    assert_eq!(desk.app.launcher_tab_cursor, None);
    desk.launch();
}

#[test]
fn a_click_on_a_tab_from_the_header_is_enter_on_it() {
    let up = [
        Action::FocusLeft,
        Action::FocusLeft,
        Action::FocusRight,
        Action::MoveUp,
        Action::MoveUp,
    ];
    let mut by_key = two_tabs();
    by_key.presses(&up);
    by_key.press(Action::Activate);
    let mut by_click = two_tabs();
    by_click.presses(&up);
    by_click.click_on_tab("p1");

    assert_eq!(by_key.tab_state(), by_click.tab_state());
    assert_eq!(by_key.app.attached, by_click.app.attached);
    assert_eq!(
        by_key.app.launcher_tab_cursor,
        by_click.app.launcher_tab_cursor
    );
    assert_eq!(by_key.selected(), Some("a1"), "the card left");

    // Onto the other tab: the walk and Enter, or a click on it.
    let mut by_key = two_tabs();
    by_key.presses(&up);
    by_key.presses(&[Action::FocusLeft, Action::Activate]);
    let mut by_click = two_tabs();
    by_click.presses(&up);
    by_click.click_on_tab("p2");

    assert_eq!(by_key.tab_state(), by_click.tab_state());
    assert_eq!(by_key.app.attached, by_click.app.attached);
    assert_eq!(
        by_key.app.launcher_tab_cursor,
        by_click.app.launcher_tab_cursor
    );
    assert_eq!(by_key.on_project(), Some("web"));
}

#[test]
fn x_in_the_header_closes_the_tab_under_its_cursor() {
    let mut desk = two_tabs();
    desk.presses(&[Action::FocusLeft, Action::FocusLeft]);
    let before = desk.tab_state();
    desk.presses(&[
        Action::MoveUp,
        Action::MoveUp,
        Action::FocusLeft,
        Action::CloseProjectTab,
    ]);
    assert_eq!(desk.app.launcher_tabs, [pid("p1")], "web's tab went");
    let after = desk.tab_state();
    assert_eq!(
        (after.0, after.1),
        (before.0, before.1),
        "the grid back on demo, on its card"
    );
    assert_eq!(desk.app.launcher_tab_cursor, Some(pid("p1")));
}

// ---- menus ----

#[test]
fn the_plus_drops_the_projects_under_it() {
    let mut desk = two_sessions();
    desk.draw();
    let plus = desk.hit(HitTarget::LauncherTabAdd).expect("the +");
    assert!(desk.press(Action::ProjectDropdown));
    assert_eq!(
        desk.menu_at(),
        Some((plus.x, plus.y + 1)),
        "it hangs off the +"
    );
    assert_eq!(
        desk.menu_labels(),
        vec!["demo  (2) ✓", "web  (1)", OPEN_FOLDER]
    );
    assert_eq!(
        desk.menu_hover(),
        0,
        "the cursor starts on the open project"
    );
    assert_eq!(
        desk.on_project(),
        Some("demo"),
        "the grid stays put until a row is picked"
    );

    desk.pick_row(1);
    assert!(desk.app.overlay.is_none(), "the list closes");
    assert_eq!(desk.on_project(), Some("web"));
    desk.draw();
    assert_eq!(
        desk.tabs_drawn(),
        ["web", "demo"],
        "the project just opened leads the tabs"
    );
}

#[test]
fn switching_to_an_empty_project_opens_no_box() {
    let mut desk = two_sessions();
    seed_empty_project(&mut desk);
    desk.draw();
    open_project_menu(&mut desk.app);
    assert_eq!(
        desk.menu_labels(),
        vec!["demo  (2) ✓", "web  (1)", "docs  (0)", OPEN_FOLDER]
    );
    desk.pick_row(2);
    assert!(
        desk.app.overlay.is_none(),
        "switching projects put a modal up"
    );
    assert_eq!(desk.on_project(), Some("docs"));
    assert!(
        desk.app.launcher_unaimed,
        "no card to aim at, so the pane folds"
    );
    assert_eq!(desk.flash(), Some(NO_SESSIONS));
    desk.draw();
    assert_eq!(desk.tabs_drawn(), ["docs", "demo"]);
    assert!(
        desk.hit(HitTarget::LauncherWelcomePrompt).is_some(),
        "the grid says what starts one"
    );
}

#[test]
fn with_no_projects_the_dropdown_says_how_to_open_one() {
    let mut desk = two_sessions();
    desk.app.tree.projects.clear();
    desk.app.records.project_rows.clear();
    open_project_menu(&mut desk.app);
    assert_eq!(desk.flash(), Some(NO_PROJECTS));
}

#[test]
fn the_empty_grid_welcomes_you_and_its_key_cap_is_the_key() {
    let empty = || {
        let mut desk = two_sessions();
        seed_empty_project(&mut desk);
        desk.open("p3");
        desk.draw();
        desk
    };
    let mut by_click = empty();
    assert!(by_click.hit(HitTarget::LauncherWelcomePrompt).is_some());
    let mut out = Vec::new();
    open_box(&mut by_click.app, &mut out);
    by_click.perform(&out, None);
    let mut by_key = empty();
    by_key.press(Action::QuickPrompt);
    assert_eq!(by_click.launch(), by_key.launch());
    assert_eq!(
        by_key.launch().0.target,
        QuickTarget::Worktree(wid("w3root"))
    );
}

#[test]
fn a_right_click_on_a_tab_opens_its_projects_menu() {
    let mut desk = two_tabs();
    let tab = desk
        .hit(HitTarget::LauncherTab(pid("p2")))
        .expect("web's tab");
    let mut out = Vec::new();
    tab_menu(&mut desk.app, &pid("p2"), &mut out);
    desk.perform(&out, None);
    assert_eq!(desk.on_project(), Some("web"), "the tab opened");
    let labels = desk.menu_labels();
    for want in ["New worktree", "Rename", "Remove from list"] {
        assert!(
            labels.iter().any(|l| l == want),
            "{want} in {labels:?}"
        );
    }
    assert_eq!(
        desk.menu_at().map(|(_, row)| row),
        Some(tab.y + 1),
        "under the tab"
    );
}

#[test]
fn m_with_nothing_selected_is_the_projects_menu() {
    let mut desk = two_sessions();
    desk.draw();
    assert!(
        !desk.press(Action::ContextMenu),
        "a card's menu is the card's"
    );
    assert!(desk.app.overlay.is_none());

    escape(&mut desk.app);
    assert!(desk.press(Action::ContextMenu));
    let labels = desk.menu_labels();
    assert!(labels.iter().any(|l| l == "Rename"), "{labels:?}");
    assert!(
        labels.iter().any(|l| l == "Remove from list"),
        "{labels:?}"
    );
    assert_eq!(desk.menu_at(), Some((4, 5)));
}

#[test]
fn the_projects_menu_never_deletes_the_root() {
    let mut desk = two_sessions();
    desk.put_cursor("a1");
    project_menu(&mut desk.app, (1, 2));
    let root = match desk.app.overlay.take() {
        Some(Overlay::Menu(menu)) => menu,
        other => panic!("expected a menu, got {other:?}"),
    };
    assert!(!root
        .items
        .iter()
        .any(|i| matches!(i.action, MenuAction::DeleteWorktree(_))));

    desk.put_cursor("a2");
    project_menu(&mut desk.app, (1, 2));
    let feat = match desk.app.overlay.take() {
        Some(Overlay::Menu(menu)) => menu,
        other => panic!("expected a menu, got {other:?}"),
    };
    assert!(feat
        .items
        .iter()
        .any(|i| i.action == MenuAction::DeleteWorktree(wid("w2")) && i.destructive));
}

#[test]
fn a_menu_hangs_from_the_crumb_it_was_opened_on() {
    let mut desk = two_tabs();
    let tab = desk
        .hit(HitTarget::LauncherTab(pid("p1")))
        .expect("demo's tab");
    assert_eq!(
        crumb_anchor(&desk.app, &HitTarget::LauncherTab(pid("p1"))),
        (tab.x, tab.y + 1)
    );
    desk.app.screen.hits.clear();
    assert_eq!(
        crumb_anchor(&desk.app, &HitTarget::LauncherTabAdd),
        (4, 5),
        "with no such crumb drawn, from the keyboard's anchor"
    );
}

// ---- the archived view ----

#[test]
fn shift_a_swaps_the_grid_for_the_archived_sessions_and_back() {
    let mut desk = two_sessions();
    for a in desk.app.tree.agents.iter_mut().filter(|a| a.id.0 == "a2") {
        a.archived = true;
    }
    desk.draw();
    assert_eq!(desk.cards(), ["a1"], "the live grid");

    desk.press(Action::ToggleArchived);
    assert!(desk.app.show_archived, "the archived view is on");
    assert_eq!(desk.flash(), Some(ARCHIVED_VIEW));
    assert_eq!(desk.cards(), ["a2"], "the archived card, and only that one");
    assert_eq!(
        desk.selected(),
        Some("a2"),
        "the cursor lands on the first card of the list that arrived"
    );

    // Enter has no session to step into there.
    desk.app.flash = None;
    desk.press(Action::Activate);
    assert_eq!(desk.flash(), Some("archived — u unarchives it"));
    assert_eq!(desk.app.focus, Focus::Sessions);

    // And the key again is the live grid.
    desk.press(Action::ToggleArchived);
    assert!(!desk.app.show_archived);
    assert_eq!(desk.flash(), Some(LIVE_VIEW));
    assert_eq!(desk.cards(), ["a1"]);
}

#[test]
fn an_empty_archived_view_names_the_way_back() {
    let mut desk = two_sessions();
    desk.press(Action::ToggleArchived);
    assert_eq!(desk.flash(), Some(NO_ARCHIVED_SESSIONS));
    desk.draw();
    assert!(desk.app.launcher_unaimed);
    assert!(
        desk.hit(HitTarget::LauncherWelcomePrompt).is_none(),
        "not the first-run hero"
    );
    desk.press(Action::Activate);
    assert_eq!(desk.flash(), Some(NO_ARCHIVED_SESSIONS));
}

// ---- a card's pull request ----

fn card_on_a_pull_request() -> Desk {
    let mut desk = two_sessions();
    desk.draw();
    desk.app.records.pull_requests.push(Lookup {
        worktree: wid("w1"),
        found: Some(PullRequest {
            number: 42,
            title: "Polish the nav".to_string(),
            url: "https://github.com/o/demo/pull/42".to_string(),
            head: "main".to_string(),
            standing: Standing::Ready,
            trouble: None,
        }),
    });
    desk
}

#[test]
fn shift_p_opens_the_cards_pull_request_as_its_menu_row_does() {
    let mut desk = card_on_a_pull_request();
    let mut out = Vec::new();
    assert!(handle_action(
        &mut desk.app,
        Action::OpenPullRequest,
        &mut out
    ));
    assert_eq!(
        out,
        vec![Effect::OpenLink(
            "https://github.com/o/demo/pull/42".to_string()
        )]
    );
    desk.perform(&out, None);
    assert!(desk.app.overlay.is_none());
    assert_eq!(desk.flash(), Some("opened github.com/o/demo/pull/42"));
}

#[test]
fn shift_p_on_a_card_with_no_pull_request_says_so() {
    let mut desk = two_sessions();
    desk.draw();
    let branch = row(&desk.app, &aid("a1")).expect("the card's row").branch;
    let mut out = Vec::new();
    handle_action(&mut desk.app, Action::OpenPullRequest, &mut out);
    assert!(out.is_empty());
    assert_eq!(
        desk.app.flash,
        Some(format!(
            "no pull request on {branch} yet — ⇧R asks GitHub again"
        ))
    );
}

#[test]
fn shift_p_with_no_card_selected_opens_nothing() {
    let mut desk = card_on_a_pull_request();
    escape(&mut desk.app);
    assert!(desk.app.launcher_unaimed);
    let mut out = Vec::new();
    handle_action(&mut desk.app, Action::OpenPullRequest, &mut out);
    assert!(out.is_empty());
    assert_eq!(desk.flash(), Some(NO_CARD_FOR_PR));
}

// ---- the box ----

#[test]
fn no_modal_opens_at_boot() {
    let mut desk = two_sessions();
    assert!(desk.app.overlay.is_none());
    desk.press(Action::QuickPrompt);
    let (launch, text) = desk.launch();
    assert!(text.is_empty());
    assert!(matches!(launch.target, QuickTarget::Worktree(_)));
    assert_eq!(project_of(&desk.app, &launch.target), Some(pid("p1")));
    assert_eq!(launch.kind, "codex", "the settings' harness");
}

#[test]
fn a_box_with_no_project_to_aim_at_says_so() {
    let mut desk = Desk {
        app: App::new(),
        armed: None,
        terminals: Vec::new(),
        under: None,
    };
    desk.press(Action::New);
    assert_eq!(desk.flash(), Some(NO_PROJECT));
    assert!(desk.app.overlay.is_none());
}

#[test]
fn clicking_the_worktree_toggle_flips_it_as_ctrl_n_does() {
    let mut desk = two_sessions();
    desk.press(Action::QuickPrompt);
    let fresh = |desk: &Desk| desk.launch().0.is_new_worktree();
    let start = fresh(&desk);

    desk.box_key(ctrl('n'));
    assert_eq!(fresh(&desk), !start, "^N flips it");
    click_new_worktree(&mut desk.app);
    assert_eq!(fresh(&desk), start, "a click flips it back");
    click_new_worktree(&mut desk.app);
    assert_eq!(fresh(&desk), !start, "and back again");
}

/// What is up, in enough detail to tell two pickers apart.
fn shape(desk: &Desk) -> String {
    match &desk.app.overlay {
        Some(Overlay::ProjectPicker(picker)) => format!(
            "projects[{}]: {}",
            picker.selected,
            picker
                .projects
                .iter()
                .map(|p| p.name.as_str())
                .collect::<Vec<_>>()
                .join(",")
        ),
        Some(Overlay::Menu(menu)) => format!(
            "menu {:?}: {}",
            menu.title,
            menu.items
                .iter()
                .map(|i| i.label.as_str())
                .collect::<Vec<_>>()
                .join(",")
        ),
        Some(Overlay::Prompt(_)) => format!("box: {:?}", desk.app.flash),
        Some(Overlay::Other) => format!("list over {:?}", desk.under),
        other => panic!("expected a picker or the box, got {other:?}"),
    }
}

#[test]
fn clicking_a_box_detail_opens_the_picker_its_chord_does() {
    let opened = || {
        let mut desk = two_sessions();
        desk.press(Action::QuickPrompt);
        desk.type_in_box("ship it");
        assert_eq!(desk.launch().1, "ship it");
        desk
    };
    for field in [BoxField::Project, BoxField::Agent, BoxField::Model] {
        let mut by_key = opened();
        match field {
            BoxField::Project => by_key.box_key(ctrl('p')),
            BoxField::Model => by_key.box_key(ctrl('o')),
            _ => {
                let (launch, text) = by_key.launch();
                let back = QuickReturn {
                    launch,
                    text,
                    from_box: true,
                };
                let mut out = Vec::new();
                open_box_field(&mut by_key.app, field, back, &mut out);
                by_key.perform(&out, None);
            }
        }

        let mut by_click = opened();
        let mut out = Vec::new();
        click_box_field(&mut by_click.app, field, &mut out);
        by_click.perform(&out, None);
        assert_eq!(
            shape(&by_click),
            shape(&by_key),
            "{field:?}: the click opened something other than the chord does"
        );

        // And the trip back: the box returns with what was typed.
        match field {
            BoxField::Project => by_click.picker_key(bare(KeyCode::Esc)),
            _ => by_click.leave_list(),
        }
        assert_eq!(
            by_click.launch().1,
            "ship it",
            "{field:?}: the click lost the text on the way there"
        );
    }
}

#[test]
fn a_harness_with_no_models_says_so_in_the_box() {
    let mut desk = two_sessions();
    desk.press(Action::QuickPrompt);
    desk.type_in_box("hi");
    desk.app.facts.has_models = false;
    desk.box_key(ctrl('o'));
    assert_eq!(desk.launch().1, "hi", "the box stays up");
    let said = desk.flash().expect("and says why").to_string();
    assert!(said.contains("Codex"), "{said}");
}

#[test]
fn clicking_the_branch_picks_the_worktree_the_launch_runs_in() {
    let mut desk = two_sessions();
    desk.press(Action::QuickPrompt);
    desk.type_in_box("fix the nav");
    let (start, _) = desk.launch();
    assert_eq!(
        start.target,
        QuickTarget::Worktree(wid("w1")),
        "the box opens on the root"
    );

    let click_branch = |desk: &mut Desk| {
        let mut out = Vec::new();
        click_box_field(&mut desk.app, BoxField::Worktree, &mut out);
        desk.perform(&out, None);
    };
    click_branch(&mut desk);
    let rows = desk.menu_labels();
    assert!(rows[0].starts_with("+ new worktree  "), "{rows:?}");
    assert!(!rows[0].ends_with(" ✓"), "{rows:?}");
    assert_eq!(rows[1..], ["main  (root) ✓", "feat"], "{rows:?}");
    assert_eq!(desk.menu_hover(), 1, "the cursor starts on the ✓");

    desk.pick_row(2);
    let (after, text) = desk.launch();
    assert_eq!(after.target, QuickTarget::Worktree(wid("w2")));
    assert_eq!(text, "fix the nav", "the task survives the trip");
    assert_eq!(
        (&after.kind, &after.model, &after.effort),
        (&start.kind, &start.model, &start.effort),
        "the harness is not the picker's to change"
    );
    assert!(
        desk.app
            .tree
            .worktrees
            .iter()
            .any(|w| w.id.0 == "w2" && w.branch == "feat"),
        "the checkout keeps its branch"
    );

    // Opened again it ticks the checkout.
    click_branch(&mut desk);
    let rows = desk.menu_labels();
    assert_eq!(rows[desk.menu_hover()], "feat ✓");

    desk.app.overlay = None;
    desk.perform(&[Effect::OpenBox(after.clone())], None);
    desk.type_in_box("fix the nav");

    // A fresh branch named by the tick alone is still not the row aimed at.
    desk.app.facts.fresh_branch = "✓".to_string();
    click_branch(&mut desk);
    let rows = desk.menu_labels();
    assert!(rows[0].ends_with(" ✓"), "{rows:?}");
    assert_eq!(rows[desk.menu_hover()], "feat ✓");

    // And the fresh row cuts a worktree again.
    desk.pick_row(0);
    let (fresh, text) = desk.launch();
    assert!(
        matches!(&fresh.target, QuickTarget::NewWorktree { project, .. } if project.0 == "p1"),
        "{:?}",
        fresh.target
    );
    assert_eq!(text, "fix the nav");
}

#[test]
fn ctrl_p_picks_the_project_by_typing_and_keeps_the_task() {
    let mut desk = new_worktree(true);
    desk.draw();
    desk.press(Action::QuickPrompt);
    desk.type_in_box("fix it");
    desk.box_key(ctrl('p'));
    match &desk.app.overlay {
        Some(Overlay::ProjectPicker(picker)) => assert_eq!(picker.matches.len(), 2),
        other => panic!("expected the project picker, got {other:?}"),
    }

    desk.picker_key(plain('w'));
    desk.picker_key(plain('e'));
    desk.picker_key(bare(KeyCode::Enter));
    let (launch, text) = desk.launch();
    assert_eq!(text, "fix it", "the task survives the trip");
    assert!(matches!(
        &launch.target,
        QuickTarget::NewWorktree { project, .. } if project.0 == "p2"
    ));

    // Esc from the picker hands the box back as it was.
    desk.box_key(ctrl('p'));
    desk.picker_key(bare(KeyCode::Esc));
    let (after, text) = desk.launch();
    assert_eq!(text, "fix it");
    assert_eq!(after.target, launch.target);
}

#[test]
fn esc_in_the_picker_clears_what_was_typed_first() {
    let mut desk = two_sessions();
    desk.press(Action::QuickPrompt);
    desk.type_in_box("hi");
    desk.box_key(ctrl('p'));
    desk.picker_key(plain('w'));
    match &desk.app.overlay {
        Some(Overlay::ProjectPicker(p)) => {
            assert_eq!(p.query.text, "w");
            assert_eq!(p.matches.len(), 1);
        }
        other => panic!("expected the project picker, got {other:?}"),
    }
    desk.picker_key(bare(KeyCode::Esc));
    match &desk.app.overlay {
        Some(Overlay::ProjectPicker(p)) => {
            assert_eq!(p.query.text, "");
            assert_eq!(p.matches.len(), 2);
        }
        other => panic!("expected the project picker, got {other:?}"),
    }
    desk.picker_key(bare(KeyCode::Down));
    match &desk.app.overlay {
        Some(Overlay::ProjectPicker(p)) => assert_eq!(p.selected, 1),
        other => panic!("expected the project picker, got {other:?}"),
    }
    desk.picker_key(ctrl('k'));
    match &desk.app.overlay {
        Some(Overlay::ProjectPicker(p)) => assert_eq!(p.selected, 0),
        other => panic!("expected the project picker, got {other:?}"),
    }
    desk.picker_key(bare(KeyCode::Esc));
    assert_eq!(desk.launch().1, "hi");
}

#[test]
fn a_click_on_a_picker_row_is_enter_on_it() {
    let mut desk = two_sessions();
    desk.press(Action::QuickPrompt);
    desk.box_key(ctrl('p'));
    let mut out = Vec::new();
    click_picker_row(&mut desk.app, 1, &mut out);
    desk.perform(&out, None);
    assert_eq!(
        desk.launch().0.target,
        QuickTarget::Worktree(wid("w2root"))
    );

    // A click under the last row is none of them.
    desk.box_key(ctrl('p'));
    let mut out = Vec::new();
    click_picker_row(&mut desk.app, 2, &mut out);
    assert!(matches!(desk.app.overlay, Some(Overlay::ProjectPicker(_))));
}

#[test]
fn picking_another_project_in_the_box_leaves_the_grid_where_it_is() {
    let mut desk = two_sessions();
    desk.app.tree.projects.push(project("p3", "away"));
    desk.app.records.project_rows.push(2);
    desk.draw();
    let tabs = desk.tab_state().2;

    desk.press(Action::QuickPrompt);
    desk.box_key(ctrl('p'));
    for c in "away".chars() {
        desk.picker_key(plain(c));
    }
    desk.picker_key(bare(KeyCode::Enter));
    let (launch, _) = desk.launch();
    assert_eq!(
        project_of(&desk.app, &launch.target),
        Some(pid("p3")),
        "the box is aimed at it"
    );
    assert_eq!(desk.tab_state().2, tabs, "no tab was added");
    assert_eq!(desk.on_project(), Some("demo"));
}

#[test]
fn ctrl_o_picks_the_model_and_comes_back_to_the_box() {
    let mut desk = two_sessions();
    desk.draw();
    desk.press(Action::QuickPrompt);
    desk.type_in_box("hi");
    let (launch, _) = desk.launch();
    let mut out = Vec::new();
    let taken = handle_box_key(
        &mut desk.app,
        ctrl('o'),
        &launch,
        &typed("hi"),
        &mut out,
    );
    assert!(taken);
    assert_eq!(
        out,
        vec![Effect::OpenModels {
            worktree: wid("w1"),
            back: QuickReturn {
                launch: launch.clone(),
                text: "hi".to_string(),
                from_box: true,
            },
        }]
    );
    desk.perform(&out, None);
    let back = desk.under.take().expect("the box under the list");
    let picked = QuickLaunch {
        model: Some("o3".to_string()),
        ..back.launch
    };
    reopen(&mut desk.app, picked, back.text);
    let (after, text) = desk.launch();
    assert_eq!(text, "hi");
    assert_eq!(after.model.as_deref(), Some("o3"));
}

#[test]
fn ctrl_n_flips_one_box_and_the_next_starts_from_the_setting() {
    let mut desk = new_worktree(true);
    desk.draw();
    desk.press(Action::QuickPrompt);
    assert!(desk.launch().0.is_new_worktree(), "the setting is on");
    desk.box_key(ctrl('n'));
    let (launch, _) = desk.launch();
    let QuickTarget::Worktree(worktree) = &launch.target else {
        panic!("expected an existing checkout, got {:?}", launch.target);
    };
    assert_eq!(
        project_of(&desk.app, &launch.target),
        desk.app.selected_project().map(|p| p.id.clone())
    );
    assert!(desk.app.tree.worktrees.iter().any(|w| &w.id == worktree));

    desk.app.overlay = None;
    desk.press(Action::QuickPrompt);
    assert!(
        desk.launch().0.is_new_worktree(),
        "the next box follows the setting"
    );
}

#[test]
fn p_opens_the_box_on_the_root_branch_whatever_card_is_selected() {
    let mut desk = two_sessions();
    desk.draw();
    let root = QuickTarget::Worktree(wid("w1"));

    // On polish-nav, whose card runs in the `feat` worktree.
    desk.put_cursor("a2");
    assert_eq!(
        desk.app.selected_worktree().map(|w| w.branch.as_str()),
        Some("feat")
    );
    desk.press(Action::QuickPrompt);
    assert_eq!(
        desk.launch().0.target,
        root,
        "the box took the selected card's checkout"
    );
    desk.app.overlay = None;
    desk.press(Action::New);
    assert_eq!(desk.launch().0.target, root, "the other key");
    desk.app.overlay = None;

    // Let the aim go with the first Esc.
    escape(&mut desk.app);
    assert!(desk.app.launcher_unaimed);
    desk.press(Action::QuickPrompt);
    assert_eq!(
        desk.launch().0.target,
        root,
        "the box did not land on demo's root branch"
    );

    // The toggle flips it onto a fresh worktree and back onto the root.
    desk.box_key(ctrl('n'));
    assert!(desk.launch().0.is_new_worktree());
    desk.box_key(ctrl('n'));
    assert_eq!(desk.launch().0.target, root, "came back off the root");
}

#[test]
fn the_new_worktree_setting_starts_every_box_on_a_fresh_worktree() {
    let mut desk = new_worktree(true);
    desk.draw();
    for agent in ["a1", "a2"] {
        desk.put_cursor(agent);
        desk.press(Action::QuickPrompt);
        assert!(
            matches!(
                &desk.launch().0.target,
                QuickTarget::NewWorktree { project, .. } if project.0 == "p1"
            ),
            "{agent}"
        );
        desk.app.overlay = None;
    }
}

fn box_up(desk: &mut Desk, launch: &QuickLaunch) {
    desk.perform(&[Effect::OpenBox(launch.clone())], None);
    desk.type_in_box("hi");
}

#[test]
fn the_toggle_says_when_it_cannot_flip() {
    // A pull request's session runs in the pull request's own checkout.
    let mut desk = two_sessions();
    let mut launch = default_launch(QuickTarget::Worktree(wid("w1")));
    launch.pr = Some(PrRef {
        number: 42,
        head: "feat".to_string(),
    });
    box_up(&mut desk, &launch);
    toggle_new_worktree(&mut desk.app, launch.clone(), typed("hi"));
    assert_eq!(desk.flash(), Some(PR_CHECKOUT));
    assert_eq!(desk.launch(), (launch, "hi".to_string()));

    // No root to go back to.
    let mut desk = two_sessions();
    desk.app.tree.worktrees.clear();
    let fresh = default_launch(QuickTarget::NewWorktree {
        project: pid("p1"),
        branch: "x".to_string(),
    });
    box_up(&mut desk, &fresh);
    toggle_new_worktree(&mut desk.app, fresh.clone(), typed("hi"));
    assert_eq!(desk.flash(), Some(NO_ROOT));
    assert_eq!(desk.launch(), (fresh, "hi".to_string()));

    // A checkout that is gone names no project.
    let mut desk = two_sessions();
    let gone = default_launch(QuickTarget::Worktree(wid("w8")));
    box_up(&mut desk, &gone);
    toggle_new_worktree(&mut desk.app, gone, typed("hi"));
    assert_eq!(desk.flash(), Some(PROJECT_GONE));
}

#[test]
fn the_worktree_picker_is_not_for_a_pull_requests_box() {
    let mut desk = two_sessions();
    let mut launch = default_launch(QuickTarget::Worktree(wid("w1")));
    launch.pr = Some(PrRef {
        number: 42,
        head: "feat".to_string(),
    });
    box_up(&mut desk, &launch);
    let back = QuickReturn {
        launch,
        text: "hi".to_string(),
        from_box: true,
    };
    open_worktree_picker(&mut desk.app, back);
    assert_eq!(desk.flash(), Some(PR_CHECKOUT));
    assert_eq!(desk.launch().1, "hi", "the box stays up");
}

#[test]
fn a_box_for_an_issue_is_cut_on_the_issues_branch() {
    let mut desk = two_sessions();
    let mut launch = default_launch(QuickTarget::Worktree(wid("w1")));
    launch.issue = Some(IssueRef {
        number: 7,
        title: "Crash on boot".to_string(),
    });
    box_up(&mut desk, &launch);
    click_new_worktree(&mut desk.app);
    assert_eq!(
        desk.launch().0.target,
        QuickTarget::NewWorktree {
            project: pid("p1"),
            branch: "issue-7".to_string(),
        }
    );
    launch.issue = None;
    box_up(&mut desk, &launch);
    click_new_worktree(&mut desk.app);
    assert_eq!(
        desk.launch().0.target,
        QuickTarget::NewWorktree {
            project: pid("p1"),
            branch: "nebula/quiet-comet".to_string(),
        }
    );
}

#[test]
fn the_unaimed_box_can_still_be_re_aimed_with_the_picker() {
    let mut desk = two_sessions();
    desk.draw();
    escape(&mut desk.app);
    desk.press(Action::QuickPrompt);

    desk.box_key(ctrl('p'));
    let to = match &desk.app.overlay {
        Some(Overlay::ProjectPicker(picker)) => {
            assert!(picker.back.from_box, "the box under it was forgotten");
            picker
                .matches
                .iter()
                .position(|m| picker.projects[m.project].name == "web")
                .expect("web is on the list")
        }
        other => panic!("expected the project picker, got {other:?}"),
    };
    for _ in 0..to {
        desk.picker_key(bare(KeyCode::Down));
    }
    desk.picker_key(bare(KeyCode::Enter));
    let (launch, _) = desk.launch();
    assert_eq!(
        project_of(&desk.app, &launch.target),
        Some(pid("p2")),
        "the pick is what re-aimed the box"
    );
}

#[test]
fn the_dropdowns_last_row_opens_a_folder() {
    let mut desk = two_sessions();
    desk.draw();
    desk.press(Action::ProjectDropdown);
    match &desk.app.overlay {
        Some(Overlay::Menu(menu)) => {
            let last = menu.items.last().expect("rows");
            assert_eq!(last.label, OPEN_FOLDER);
            assert_eq!(last.action, MenuAction::AddProject);
        }
        other => panic!("expected the dropdown, got {other:?}"),
    }
}

#[test]
fn cmd_p_drops_the_project_dropdown_from_the_cards_and_the_pane() {
    let mut by_click = two_sessions();
    by_click.draw();
    open_project_menu(&mut by_click.app);
    let mut by_key = two_sessions();
    by_key.draw();
    by_key.press(Action::ProjectDropdown);
    assert_eq!(by_key.menu_labels(), by_click.menu_labels());
    assert_eq!(by_key.menu_at(), by_click.menu_at());
    assert_eq!(by_key.menu_hover(), by_click.menu_hover());

    // Inside the pane under the cards.
    let mut desk = two_sessions();
    desk.draw();
    desk.press(Action::Activate);
    assert!(desk.in_pane() && desk.app.launcher_grid);
    desk.draw();
    desk.press(Action::ProjectDropdown);
    assert_eq!(desk.menu_at(), by_click.menu_at(), "off the same +");
    assert_eq!(
        desk.app.focus,
        Focus::Terminal,
        "the keys are the pane's again once it closes"
    );

    // A project picked from over the pane lands on its cards.
    desk.pick_row(1);
    assert!(desk.app.overlay.is_none());
    assert_eq!(desk.on_project(), Some("web"));
    assert_eq!(desk.app.focus, Focus::Sessions);
}

// ---- what a frame shows ----

fn head_spans(desk: &Desk, badge: Option<CountsBadge>) -> (Vec<Span>, Vec<Span>) {
    let mut hits = Vec::new();
    let view = draw(&desk.app, desk.app.screen.body_area, badge, &mut hits);
    let row = view.head.row.expect("the header row");
    (row.tabs, row.right)
}

fn text_of(spans: &[Span]) -> String {
    spans.iter().map(|s| s.text.as_str()).collect()
}

#[test]
fn the_header_cursor_is_drawn_on_its_tab() {
    let blocked = |desk: &Desk| -> String {
        head_spans(desk, None)
            .0
            .iter()
            .filter(|s| s.style.bg == Some(Ink::Accent))
            .map(|s| s.text.as_str())
            .collect::<String>()
            .trim()
            .to_string()
    };
    let mut desk = two_tabs();
    desk.presses(&[Action::FocusLeft, Action::FocusLeft]);
    desk.draw();
    assert_eq!(blocked(&desk), "");

    desk.presses(&[Action::MoveUp, Action::MoveUp]);
    desk.draw();
    assert!(blocked(&desk).starts_with("demo"), "{:?}", blocked(&desk));
    desk.press(Action::FocusLeft);
    desk.draw();
    assert!(blocked(&desk).starts_with("web"), "{:?}", blocked(&desk));

    escape(&mut desk.app);
    desk.draw();
    assert_eq!(blocked(&desk), "");
}

#[test]
fn the_pointer_underlines_the_tab_it_rests_on() {
    let underlined = |desk: &Desk| -> String {
        let (tabs, right) = head_spans(desk, None);
        tabs.iter()
            .chain(right.iter())
            .filter(|s| s.style.underlined)
            .map(|s| s.text.as_str())
            .collect()
    };
    let mut desk = two_sessions();
    desk.draw();
    assert_eq!(underlined(&desk), "", "nothing is under the pointer yet");

    desk.app.screen.hover_crumb = Some(HitTarget::LauncherTab(pid("p1")));
    assert_eq!(underlined(&desk), "demo");
    desk.app.screen.hover_crumb = Some(HitTarget::LauncherTabAdd);
    assert_eq!(underlined(&desk), "+");
    desk.app.screen.hover_crumb = None;
    assert_eq!(underlined(&desk), "");

    // The hatch out of a full-screen session wears the same underline.
    desk.press(Action::Zoom);
    desk.app.screen.hover_crumb = Some(HitTarget::LauncherCrumb);
    let mut hits = Vec::new();
    let crumb = crumb_frame(&desk.app, desk.app.screen.launcher_body, &mut hits);
    let marked: String = crumb
        .row
        .expect("the crumb's row")
        .left
        .iter()
        .filter_map(|p| match p {
            Piece::Text(s) if s.style.underlined => Some(s.text.as_str()),
            _ => None,
        })
        .collect();
    assert_eq!(marked, "‹ sessions");
}

#[test]
fn the_header_counts_the_projects_open_prs_and_issues() {
    let mut desk = two_sessions();
    desk.draw();
    let badge = CountsBadge {
        parts: vec![
            HeadSpan {
                span: Span::of(" · ", Style::ink(Ink::Dim)),
                hit: None,
            },
            HeadSpan {
                span: Span::of("2 prs", Style::ink(Ink::Muted)),
                hit: Some(HitTarget::LauncherPullRequests),
            },
            HeadSpan {
                span: Span::of(" · ", Style::ink(Ink::Dim)),
                hit: None,
            },
            HeadSpan {
                span: Span::of("1 issue", Style::ink(Ink::Muted)),
                hit: Some(HitTarget::LauncherIssues),
            },
        ],
        width: 18,
    };
    let (_, right) = head_spans(&desk, Some(badge));
    let text = text_of(&right);
    assert!(text.contains("2 sessions"), "{text}");
    assert!(text.contains("2 prs"), "{text}");
    assert!(text.contains("1 issue"), "{text}");
}

#[test]
fn the_header_counts_the_sessions_waiting_on_you() {
    let red = |desk: &Desk| -> Vec<String> {
        head_spans(desk, None)
            .0
            .iter()
            .filter(|s| s.text.contains('●') && s.style.fg == Some(Ink::Alarm))
            .map(|s| s.text.trim().to_string())
            .collect()
    };
    let mut desk = two_sessions();
    desk.draw();
    assert!(red(&desk).is_empty(), "nobody is waiting yet");
    for a in desk.app.tree.agents.iter_mut().filter(|a| a.id.0 == "a2") {
        a.status = AgentStatus::NeedsFeedback;
    }
    assert_eq!(red(&desk), ["●1"], "one red dot, carrying its count");
    let (tabs, right) = head_spans(&desk, None);
    assert!(!text_of(&tabs).contains("needs you") && !text_of(&right).contains("needs you"));
}

#[test]
fn a_project_tabs_name_sweeps_the_loudest_status_under_it() {
    let name = |desk: &Desk, name: &str| -> (Option<Ramp>, Option<Ink>) {
        let (tabs, _) = head_spans(desk, None);
        let span = tabs.iter().find(|s| s.text == name).expect("the tab");
        let ramp = match span.sweep {
            Some(Sweep::Tab { ramp, .. }) => Some(ramp),
            _ => None,
        };
        (ramp, span.style.fg)
    };
    let set = |desk: &mut Desk, id: &str, status: AgentStatus, unseen: bool| {
        for a in desk.app.tree.agents.iter_mut().filter(|a| a.id.0 == id) {
            a.status = status;
            a.unseen = unseen;
        }
    };
    let mut desk = two_sessions();
    desk.app.screen.animations = true;
    desk.app.launcher_tabs.push(pid("p2"));
    desk.draw();
    assert_eq!(name(&desk, "demo").0, Some(Ramp::Warn), "polish-nav runs");
    assert_eq!(name(&desk, "web").0, Some(Ramp::Warn), "the tab not lit too");

    set(&mut desk, "a1", AgentStatus::NeedsFeedback, false);
    assert_eq!(
        name(&desk, "demo").0,
        Some(Ramp::Alarm),
        "red outranks the one still running"
    );
    set(&mut desk, "a1", AgentStatus::Finished, true);
    assert_eq!(
        name(&desk, "demo").0,
        Some(Ramp::Warn),
        "a finish is not the project done while another runs"
    );
    set(&mut desk, "a2", AgentStatus::Finished, true);
    set(&mut desk, "a3", AgentStatus::Finished, false);
    assert_eq!(name(&desk, "demo").0, Some(Ramp::Done), "all done: blue");
    assert_eq!(name(&desk, "web"), (None, Some(Ink::Muted)), "web is quiet");

    set(&mut desk, "a1", AgentStatus::Finished, false);
    set(&mut desk, "a2", AgentStatus::Finished, false);
    assert_eq!(name(&desk, "demo"), (None, Some(Ink::Accent)), "read: still");

    set(&mut desk, "a2", AgentStatus::Running, false);
    desk.app.screen.animations = false;
    assert_eq!(
        name(&desk, "demo"),
        (None, Some(Ink::Accent)),
        "animations off"
    );
}

#[test]
fn the_header_never_overprints_its_count() {
    let mut desk = two_sessions();
    // Below this the count itself no longer fits the row.
    for width in 24..=130u16 {
        desk.draw_at(width, 34);
        let (tabs, right) = head_spans(&desk, None);
        assert!(text_of(&right).contains("2 sessions"), "{width}");
        assert!(text_of(&tabs).contains('+'), "{width}");
        // The tabs end before the count begins, with real air between them.
        let row = usize::from(width) - 4;
        let used = text_of(&tabs).trim_end().chars().count();
        let count = text_of(&right).chars().count();
        assert!(used + 2 + count <= row, "{width}: {:?}", text_of(&tabs));
    }
    desk.draw_at(130, 34);
    assert_eq!(desk.tabs_drawn(), ["demo"]);
}

#[test]
fn the_grid_names_each_sessions_place_and_pull_request() {
    let mut desk = two_sessions();
    desk.app.records.pull_requests.push(Lookup {
        worktree: wid("w2"),
        found: Some(PullRequest {
            number: 42,
            title: "Polish the nav".to_string(),
            url: "https://github.com/o/web/pull/42".to_string(),
            head: "feat".to_string(),
            standing: Standing::Ready,
            trouble: None,
        }),
    });
    desk.draw();
    desk.press(Action::FocusLeft);
    desk.draw();
    assert_eq!(desk.tabs_drawn(), ["demo"], "the header's tabs");
    assert!(text_of(&head_spans(&desk, None).1).contains("2 sessions"));

    let list = rows(&desk.app);
    assert_eq!(list.len(), 2, "the project beside it is not in this grid");
    let area = Rect {
        x: 0,
        y: 0,
        width: 44,
        height: 8,
    };
    let drawn = |i: usize| -> Vec<String> {
        let text = CardText {
            ago: String::new(),
            name_max: 40,
            wrapped: Vec::new(),
        };
        draw_card(&desk.app, area, &list[i], false, true, &text)
            .rows
            .iter()
            .map(|r| {
                r.pieces
                    .iter()
                    .map(|p| match p {
                        Piece::Text(s) => s.text.clone(),
                        Piece::PullRequest { label, .. } => label.clone(),
                        _ => String::new(),
                    })
                    .collect::<String>()
            })
            .collect()
    };
    let feat = drawn(0).join("\n");
    assert!(feat.contains("polish-nav"), "{feat}");
    assert!(feat.contains("↳ feat · codex"), "{feat}");
    assert!(!feat.contains("demo ▸"), "{feat}");
    assert!(feat.contains("#42 Polish the nav"), "{feat}");
    let root = drawn(1).join("\n");
    assert!(root.contains("⌂ main · codex"), "{root}");
}

#[test]
fn a_card_says_what_its_session_was_last_asked() {
    let mut desk = two_sessions();
    for a in desk.app.tree.agents.iter_mut().filter(|a| a.id.0 == "a2") {
        a.recent_prompts = vec![
            "first pass at the nav".to_string(),
            "now make it sticky".to_string(),
        ];
    }
    let list = rows(&desk.app);
    assert_eq!(last_prompt(list[0].agent), Some("now make it sticky"));
    assert_eq!(last_prompt(list[1].agent), None);
    let drawn = prompt_lines(
        last_prompt(list[0].agent).unwrap_or_default(),
        &vec!["now make it sticky".to_string()],
        40,
        Ink::Dim,
        Ink::Muted,
    );
    let text: String = drawn[0]
        .iter()
        .map(|p| match p {
            Piece::Text(s) => s.text.as_str(),
            _ => "",
        })
        .collect();
    assert_eq!(text, "› now make it sticky", "the newest");
}

#[test]
fn the_pane_along_the_bottom_reads_the_card_under_the_cursor() {
    let strip = |desk: &Desk| -> String {
        let body = desk.app.screen.launcher_body;
        let pane = desk.app.launcher_split(body).1.expect("a pane");
        let mut hits = Vec::new();
        text_of(
            &pane_frame(&desk.app, pane, &None, false, &mut hits)
                .row
                .expect("the strip's row")
                .strip,
        )
    };
    let mut desk = two_sessions();
    desk.draw();
    desk.press(Action::FocusLeft);
    desk.draw();
    assert!(
        strip(&desk).contains("SESSION · polish-nav"),
        "{}",
        strip(&desk)
    );
    assert_eq!(desk.tabs_drawn(), ["demo"], "the grid is still up over it");
    let below = desk
        .app
        .screen
        .hits
        .iter()
        .filter(|h| matches!(h.target, HitTarget::LauncherRow(_)))
        .map(|h| h.rect.y + h.rect.height)
        .max()
        .expect("the grid drew cards");
    let pane = desk
        .app
        .launcher_split(desk.app.screen.launcher_body)
        .1
        .expect("a pane");
    assert!(pane.y >= below, "under the cards, not beside them");

    desk.press(Action::FocusRight);
    desk.draw();
    assert!(
        strip(&desk).contains("SESSION · agent-1"),
        "{}",
        strip(&desk)
    );
}

#[test]
fn the_box_names_its_details_and_its_keys() {
    let mut desk = two_sessions();
    desk.draw();
    desk.press(Action::QuickPrompt);
    let (launch, _) = desk.launch();
    let details = text_of(&detail_line(&desk.app, &launch, 100).line);
    let target = text_of(&target_line(&launch, "Prompt", 100).line);
    assert!(details.contains("project demo ^P"), "{details}");
    assert!(details.contains("harness codex Tab"), "{details}");
    assert!(details.contains("model default ^O"), "{details}");
    assert!(details.contains("worktree main ▾"), "{details}");
    assert!(target.contains("new worktree ^N"), "{target}");
    assert!(!details.contains("(demo / "), "not twice over: {details}");
    let hint = box_hint(100);
    assert!(!hint.contains("^P project"), "not twice over: {hint}");
    assert!(!hint.contains("^O model"), "not twice over: {hint}");
}
