use nebula_tui::folders::{folder_text, folders, last_part_text, project_in_folder_step};
use nebula_tui::keys::projects::settle_project_tabs;
use nebula_tui::launcher::{
    agent_at, checkout_for, cursor, is_background, last_prompt, needs_you, project_cards,
    project_name, project_of, project_tabs, project_tally, root_checkout, row, rows, target_for,
    LauncherRow, Tally,
};
use nebula_tui::model::{
    Agent, AgentId, AgentStatus, LastWorktree, Lookup, OpenPrs, Project, ProjectId, PullRequest,
    QuickLaunch, QuickReturn, QuickTarget, SessionRef, Standing, Trouble, Worktree, WorktreeId,
};
use nebula_tui::order::Recency;
use nebula_tui::picker::{home_relative, Match, ProjectPicker};
use nebula_tui::state::App;

const NOW: i64 = 1_700_000_000_000;

fn project(id: &str, name: &str) -> Project {
    Project {
        id: ProjectId(id.to_string()),
        name: name.to_string(),
        repo_path: format!("/tmp/{name}"),
        root_hidden: false,
        recency: Recency {
            interacted: 0,
            stamped: 0,
        },
    }
}

fn worktree(id: &str, project: &str, branch: &str, is_main: bool) -> Worktree {
    Worktree {
        id: WorktreeId(id.to_string()),
        project_id: ProjectId(project.to_string()),
        branch: branch.to_string(),
        is_main,
        placeholder: false,
        running: false,
        recency: Recency {
            interacted: 0,
            stamped: 0,
        },
        changes: None,
        lines: None,
        dir_label: None,
        split: false,
    }
}

fn agent(id: &str, worktree: &str, name: &str) -> Agent {
    Agent {
        id: AgentId(id.to_string()),
        worktree_id: WorktreeId(worktree.to_string()),
        name: name.to_string(),
        harness: "codex".to_string(),
        model: None,
        effort: None,
        status: AgentStatus::Running,
        unseen: false,
        alive: true,
        cloud: false,
        archived: false,
        archived_at: 0,
        status_changed_at: 0,
        pending: false,
        fresh_done: false,
        recent_prompts: Vec::new(),
    }
}

/// Three projects: `api` with its root and a `feat` checkout, `web` and `ops`
/// with their roots. Sessions a1 (api root), a2 (api feat), a3 (web root), a4
/// (ops root), created in that order.
fn app() -> App {
    let mut app = App::new();
    app.facts.now = NOW;
    app.facts.fresh_branch = "brave-otter".to_string();
    app.tree.projects = vec![
        project("p1", "api"),
        project("p2", "web"),
        project("p3", "ops"),
    ];
    app.tree.worktrees = vec![
        worktree("w1", "p1", "main", true),
        worktree("w2", "p1", "feat", false),
        worktree("w3", "p2", "main", true),
        worktree("w4", "p3", "main", true),
    ];
    app.tree.agents = vec![
        agent("a1", "w1", "fix-login"),
        agent("a2", "w2", "add-search"),
        agent("a3", "w3", "tidy-css"),
        agent("a4", "w4", "rotate-keys"),
    ];
    app.records.project_rows = vec![0, 1, 2];
    app.sel_project = Some(ProjectId("p1".to_string()));
    app
}

fn on(app: &mut App, id: &str) {
    app.sel_project = Some(ProjectId(id.to_string()));
}

fn hide_roots(app: &mut App) {
    for p in &mut app.tree.projects {
        p.root_hidden = true;
    }
}

fn names(rows: &[LauncherRow]) -> Vec<String> {
    rows.iter().map(|r| r.agent.name.clone()).collect()
}

fn listed(app: &App) -> Vec<String> {
    names(&rows(app))
}

fn launch(target: QuickTarget) -> QuickLaunch {
    QuickLaunch {
        target,
        kind: "codex".to_string(),
        custom: None,
        model: None,
        effort: None,
        cloud: false,
        issue: None,
        pr: None,
        preset: None,
    }
}

#[test]
fn rows_list_the_selected_projects_sessions() {
    let mut app = app();
    assert_eq!(
        app.selected_project().map(|p| p.name.as_str()),
        Some("api"),
        "the cursor opens on the first project"
    );
    {
        let rows = rows(&app);
        assert_eq!(names(&rows), ["add-search", "fix-login"]);
        assert_eq!(
            (
                rows[0].project.as_str(),
                rows[0].branch.as_str(),
                rows[0].is_main
            ),
            ("api", "feat", false)
        );
        assert_eq!(
            (
                rows[1].project.as_str(),
                rows[1].branch.as_str(),
                rows[1].is_main
            ),
            ("api", "main", true)
        );
    }

    // Switched to `web`, and the list is its one session instead — the same
    // cursor, one tab over.
    on(&mut app, "p2");
    assert_eq!(listed(&app), ["tidy-css"]);

    app.tree.agents[2].archived = true;
    assert!(listed(&app).is_empty(), "and an archived one is left out");
}

#[test]
fn rows_are_ordered_the_way_the_sessions_panel_orders_them() {
    let mut app = app();
    app.tree.agents.push(agent("a5", "w2", "poll-ci"));
    let now = NOW;
    // Nothing is running: each session is only as recent as its stamp, and the
    // oldest-created one moved most recently.
    for a in &mut app.tree.agents {
        a.status = AgentStatus::Finished;
    }
    app.tree.agents[0].status_changed_at = now - 60_000; // fix-login: 1m
    app.tree.agents[1].status_changed_at = now - 1_800_000; // add-search: 30m
    app.tree.agents[4].status_changed_at = now - 600_000; // poll-ci: 10m
    assert_eq!(listed(&app), ["fix-login", "poll-ci", "add-search"]);

    // A turn starting in the stalest session puts it on top.
    app.tree.agents[1].status = AgentStatus::Running;
    assert_eq!(listed(&app), ["add-search", "fix-login", "poll-ci"]);

    // Every one working means every one interacting now, so the raw stamp
    // decides among them: the newest turn leads.
    for a in &mut app.tree.agents {
        a.status = AgentStatus::Running;
    }
    assert_eq!(listed(&app), ["fix-login", "poll-ci", "add-search"]);

    // Rows that are equally recent — never run, all stamping 0 — fall back to
    // newest created.
    for a in &mut app.tree.agents {
        a.status = AgentStatus::Fresh;
        a.status_changed_at = 0;
    }
    assert_eq!(listed(&app), ["poll-ci", "add-search", "fix-login"]);
}

#[test]
fn a_just_launched_session_leads_the_grid() {
    let mut app = app();
    let now = NOW;
    for a in &mut app.tree.agents {
        a.status = AgentStatus::Running;
        a.status_changed_at = now - 600_000;
    }
    // The row as the DAEMON's create makes it: `fresh`, stamped now.
    app.tree.agents.push(agent("a5", "w2", "poll-ci"));
    let new_row = app.tree.agents.len() - 1;
    app.tree.agents[new_row].status = AgentStatus::Fresh;
    app.tree.agents[new_row].status_changed_at = now - 5;
    assert_eq!(
        listed(&app),
        ["add-search", "fix-login", "poll-ci"],
        "its own stamp puts it under every working session"
    );

    app.records.just_launched = Some(AgentId("a5".to_string()));
    assert_eq!(listed(&app)[0], "poll-ci", "the launch leads");

    // Its first turn starts: the stamp holds it there on its own, so the card
    // does not move as the flag is dropped.
    app.records.just_launched = None;
    app.tree.agents[new_row].status = AgentStatus::Running;
    app.tree.agents[new_row].status_changed_at = now;
    assert_eq!(listed(&app)[0], "poll-ci", "and keeps leading");
}

#[test]
fn a_hidden_root_keeps_its_sessions_off_the_list() {
    let mut app = app();
    hide_roots(&mut app);
    assert_eq!(listed(&app), ["add-search"]);
}

#[test]
fn a_rows_pull_request_comes_from_its_branch() {
    let mut app = app();
    assert!(rows(&app).iter().all(|r| r.pr.is_none()));

    app.records.pull_requests.push(Lookup {
        worktree: WorktreeId("w2".to_string()),
        found: Some(PullRequest {
            number: 42,
            url: "https://github.com/o/api/pull/42".to_string(),
            title: "Add search".to_string(),
            head: "feat".to_string(),
            standing: Standing::Merged,
            trouble: None,
        }),
    });
    {
        let rows = rows(&app);
        let pr = rows[0].pr.as_ref().expect("a2's checkout has a PR");
        assert_eq!((pr.number, pr.standing), (42, Standing::Merged));
        assert_eq!(pr.badge(), "merged");
    }

    let mut app = self::app();
    // The open list is `web`'s, so the level has to be in `web` to hold a row
    // that reads it.
    on(&mut app, "p2");
    app.records.open_prs.push(OpenPrs {
        project: ProjectId("p2".to_string()),
        list: vec![PullRequest {
            number: 7,
            title: "Tidy".to_string(),
            url: "https://github.com/o/web/pull/7".to_string(),
            head: "main".to_string(),
            standing: Standing::Draft,
            trouble: None,
        }],
    });
    let rows = rows(&app);
    let pr = rows[0]
        .pr
        .as_ref()
        .expect("the open list names web's branch");
    assert_eq!((pr.number, pr.standing), (7, Standing::Draft));
}

#[test]
fn a_launch_into_existing_work_lands_on_the_root_branch() {
    let mut app = app();
    let api = ProjectId("p1".to_string());
    let root = QuickTarget::Worktree(WorktreeId("w1".to_string()));
    app.records.last_worktree_for_project.push(LastWorktree {
        project: api.clone(),
        worktree: WorktreeId("w2".to_string()),
    });
    assert_eq!(
        target_for(&app, &api, false),
        root,
        "not the remembered one"
    );
    // The cursor on api's other checkout: still the root.
    app.sel_worktree = Some(WorktreeId("w2".to_string()));
    assert_eq!(
        app.selected_worktree().map(|w| w.id.0.as_str()),
        Some("w2")
    );
    assert_eq!(
        target_for(&app, &api, false),
        root,
        "not the checkout under the cursor"
    );
    assert!(matches!(
        target_for(&app, &api, true),
        QuickTarget::NewWorktree { ref project, .. } if *project == api
    ));

    hide_roots(&mut app);
    assert!(
        matches!(
            target_for(&app, &api, false),
            QuickTarget::NewWorktree { .. }
        ),
        "a hidden root is never the target"
    );
}

#[test]
fn project_cards_put_what_wants_a_human_first() {
    let mut app = app();
    // Everything idle: the cards keep the panel's order, api first.
    for a in &mut app.tree.agents {
        a.status = AgentStatus::Finished;
    }
    {
        let cards = project_cards(&app);
        assert_eq!(
            cards.iter().map(|c| c.name.as_str()).collect::<Vec<_>>(),
            ["api", "web", "ops"],
            "every project"
        );
        assert_eq!(cards[0].sessions.len(), 2, "api's two");
    }

    // web's session blocks on a human and its card comes first, with the
    // status to match.
    app.tree.agents[2].status = AgentStatus::NeedsFeedback;
    {
        let cards = project_cards(&app);
        assert_eq!(
            cards.iter().map(|c| c.name.as_str()).collect::<Vec<_>>(),
            ["web", "api", "ops"]
        );
        assert_eq!(cards[0].status, Some(AgentStatus::NeedsFeedback));
    }

    // Inside a card the same order holds: api's blocked session leads its
    // running one, whatever their stamps say.
    app.tree.agents[0].status = AgentStatus::NeedsFeedback; // fix-login
    app.tree.agents[1].status = AgentStatus::Running; // add-search
    {
        let cards = project_cards(&app);
        let api = cards.iter().find(|c| c.name == "api").expect("api");
        assert_eq!(
            api.sessions
                .iter()
                .map(|a| a.name.as_str())
                .collect::<Vec<_>>(),
            ["fix-login", "add-search"]
        );
    }

    // A project whose only checkout is a hidden root has no sessions to count,
    // as its grid has none to list.
    hide_roots(&mut app);
    let cards = project_cards(&app);
    let web = cards.iter().find(|c| c.name == "web").expect("web");
    assert!(web.sessions.is_empty());
    assert_eq!(web.status, None, "and no dot to wear");
}

#[test]
fn a_project_tally_counts_each_session_under_its_status() {
    let mut app = app();
    let api = ProjectId("p1".to_string());
    // Both api sessions are mid-turn (the fixture's default).
    assert_eq!(
        project_tally(&app, &api),
        Tally {
            running: 2,
            ..Tally::default()
        }
    );

    app.tree.agents[1].status = AgentStatus::NeedsFeedback;
    app.tree.agents[0].status = AgentStatus::Finished;
    app.tree.agents[0].unseen = true;
    assert_eq!(
        project_tally(&app, &api),
        Tally {
            needs_you: 1,
            done: 1,
            running: 0,
        }
    );

    // Read, the finish is at rest; archived, the question is off the grid —
    // and so off the tab.
    app.tree.agents[0].unseen = false;
    app.tree.agents[1].archived = true;
    assert_eq!(project_tally(&app, &api), Tally::default());

    // Another project's sessions are its own tab's business.
    assert_eq!(
        project_tally(&app, &ProjectId("p2".to_string())),
        Tally {
            running: 1,
            ..Tally::default()
        }
    );
}

#[test]
fn a_project_gets_a_tab_when_it_is_opened() {
    let mut app = app();
    let ids =
        |app: &App| -> Vec<String> { project_tabs(app).into_iter().map(|t| t.name).collect() };
    settle_project_tabs(&mut app);
    assert_eq!(ids(&app), ["api"], "the project the view opened on");

    on(&mut app, "p2");
    settle_project_tabs(&mut app);
    assert_eq!(ids(&app), ["web", "api"], "the newest opened leads");

    // Back to `api`: it is already open, so nothing moves — only which tab is
    // lit.
    on(&mut app, "p1");
    settle_project_tabs(&mut app);
    let tabs = project_tabs(&app);
    assert_eq!(ids(&app), ["web", "api"]);
    assert_eq!(
        tabs.iter().map(|t| t.active).collect::<Vec<_>>(),
        [false, true]
    );

    // Removed from the tree, `web` is removed from the header.
    app.tree.projects.retain(|p| p.id.0 != "p2");
    settle_project_tabs(&mut app);
    assert_eq!(ids(&app), ["api"]);
}

#[test]
fn the_project_picker_lists_every_project_and_filters_by_name() {
    let app = app();
    let back = QuickReturn {
        launch: launch(QuickTarget::Worktree(WorktreeId("w3".to_string()))),
        text: "hello".to_string(),
        from_box: true,
    };
    let mut picker = ProjectPicker::new(&app, back, None);
    let listed: Vec<(&str, &str)> = picker
        .matches
        .iter()
        .map(|m| {
            let p = &picker.projects[m.project];
            (p.name.as_str(), p.path.as_str())
        })
        .collect();
    assert_eq!(listed.len(), 3);
    assert_eq!(listed[2], ("ops", "/tmp/ops"));
    assert_eq!(
        picker.selected_project().map(|p| p.name.as_str()),
        Some("web"),
        "the box's own project"
    );

    picker.query.text = "op".to_string();
    picker.apply_filter(vec![Match {
        project: 2,
        lit: vec![0, 1],
    }]);
    assert_eq!(
        picker.selected_project().map(|p| p.name.as_str()),
        Some("ops")
    );
    picker.select(5);
    assert_eq!(picker.selected, picker.matches.len() - 1);

    // Cleared, it lists every project again, in its own order.
    picker.query.text = String::new();
    picker.apply_filter(Vec::new());
    assert_eq!(picker.matches.len(), 3);
    assert_eq!(picker.selected, 0);
    picker.select(-3);
    assert_eq!(picker.selected, 0);
    picker.select(i64::MAX);
    assert_eq!(picker.selected, 2);
    assert_eq!(picker.window_start(2), 1);
}

fn two_folders() -> App {
    let mut app = app();
    app.tree.projects = vec![project("p1", "api"), project("p2", "web"), project("p3", "side")];
    app.tree.projects[0].repo_path = "/w/Digitalzone/api".to_string();
    app.tree.projects[1].repo_path = "/w/Digitalzone/web".to_string();
    app.tree.projects[2].repo_path = "/w/nofakha/side".to_string();
    app
}

#[test]
fn the_tab_strip_is_scoped_to_the_folder_the_project_sits_in() {
    let mut app = two_folders();
    app.launcher_tabs = vec![
        ProjectId("p1".to_string()),
        ProjectId("p2".to_string()),
        ProjectId("p3".to_string()),
    ];
    let names =
        |app: &App| -> Vec<String> { project_tabs(app).into_iter().map(|t| t.name).collect() };
    assert_eq!(names(&app), ["api", "web"], "the side project is elsewhere");

    // Standing in the other folder shows that folder's strip instead.
    on(&mut app, "p3");
    assert_eq!(names(&app), ["side"]);
}

#[test]
fn folder_steps_wrap_and_do_nothing_with_a_single_folder() {
    // The fixture's projects all sit in /tmp: one folder, no move.
    let mut app = app();
    assert_eq!(folders(&app).len(), 1);
    assert_eq!(project_in_folder_step(&app, true), None, "nowhere to go");

    app = two_folders();
    assert_eq!(folders(&app).len(), 2);
    // Forward lands on the other folder's first project, and wraps back to
    // this folder's first — not to the project we started on.
    assert_eq!(
        project_in_folder_step(&app, true),
        Some(ProjectId("p3".to_string()))
    );
    assert_eq!(
        project_in_folder_step(&app, false),
        Some(ProjectId("p3".to_string()))
    );
    on(&mut app, "p3");
    assert_eq!(
        project_in_folder_step(&app, true),
        Some(ProjectId("p1".to_string()))
    );
    app.sel_project = None;
    assert_eq!(project_in_folder_step(&app, true), None);
}

#[test]
fn a_folder_is_the_directory_a_repo_sits_in() {
    assert_eq!(folder_text("/w/Digitalzone/api"), "/w/Digitalzone");
    assert_eq!(last_part_text("/w/Digitalzone"), "Digitalzone");
    assert_eq!(folder_text("/api"), "/");
    assert_eq!(folder_text("api"), "");
    assert_eq!(last_part_text("api"), "api");
}

#[test]
fn a_badge_is_the_trouble_before_the_state() {
    let app = {
        let mut app = app();
        for (i, (standing, trouble)) in [
            (Standing::Ready, None),
            (Standing::Closed, None),
            (Standing::Draft, Some(Trouble::Conflicts)),
            (Standing::Merged, Some(Trouble::Failing)),
        ]
        .into_iter()
        .enumerate()
        {
            app.records.pull_requests.push(Lookup {
                worktree: WorktreeId(format!("w{}", i + 1)),
                found: Some(PullRequest {
                    number: i as u64,
                    url: String::new(),
                    title: String::new(),
                    head: String::new(),
                    standing,
                    trouble,
                }),
            });
        }
        app
    };
    let badge = |id: &str| {
        row(&app, &AgentId(id.to_string()))
            .and_then(|r| r.pr)
            .map(|pr| pr.badge())
    };
    assert_eq!(badge("a1"), Some("ready"));
    assert_eq!(badge("a2"), Some("closed"));
    assert_eq!(badge("a3"), Some("conflicts"));
    assert_eq!(badge("a4"), Some("failing"));
}

#[test]
fn a_lookup_that_found_nothing_falls_back_to_the_open_list() {
    let mut app = app();
    app.records.pull_requests.push(Lookup {
        worktree: WorktreeId("w2".to_string()),
        found: None,
    });
    app.records.open_prs.push(OpenPrs {
        project: ProjectId("p1".to_string()),
        list: vec![PullRequest {
            number: 9,
            title: "t".to_string(),
            url: "u".to_string(),
            head: "feat".to_string(),
            standing: Standing::Ready,
            trouble: None,
        }],
    });
    let rows = rows(&app);
    assert_eq!(rows[0].pr.as_ref().map(|p| p.number), Some(9));
    assert!(rows[1].pr.is_none(), "main is no head of the list");
}

#[test]
fn a_named_row_is_read_whatever_list_it_is_on() {
    let mut app = app();
    app.tree.agents[2].archived = true;
    let r = row(&app, &AgentId("a3".to_string())).expect("another project's, archived");
    assert_eq!((r.project.as_str(), r.branch.as_str()), ("web", "main"));
    assert!(row(&app, &AgentId("nobody".to_string())).is_none());
    app.tree.worktrees.retain(|w| w.id.0 != "w3");
    assert!(row(&app, &AgentId("a3".to_string())).is_none(), "no checkout");
}

#[test]
fn the_archived_view_is_the_grid_swapped() {
    let mut app = app();
    app.tree.agents[0].archived = true;
    assert_eq!(listed(&app), ["add-search"]);
    app.show_archived = true;
    assert_eq!(listed(&app), ["fix-login"]);
}

#[test]
fn the_cursor_is_the_selected_sessions_row() {
    let mut app = app();
    {
        let list = rows(&app);
        assert_eq!(cursor(&app, &list), None, "nothing selected");
    }
    app.sel_session = Some(SessionRef::Agent(AgentId("a1".to_string())));
    {
        let list = rows(&app);
        assert_eq!(cursor(&app, &list), Some(1));
    }
    app.sel_session = Some(SessionRef::Agent(AgentId("a3".to_string())));
    {
        let list = rows(&app);
        assert_eq!(cursor(&app, &list), None, "another project's");
    }
    assert_eq!(agent_at(&app, 0), Some(AgentId("a2".to_string())));
    assert_eq!(agent_at(&app, 2), None);
}

#[test]
fn what_waits_on_you_is_counted() {
    let mut app = app();
    assert_eq!(needs_you(&rows(&app)), 0);
    app.tree.agents[0].status = AgentStatus::NeedsFeedback;
    assert_eq!(needs_you(&rows(&app)), 1);
}

#[test]
fn the_last_prompt_is_the_newest_that_says_anything() {
    let mut a = agent("a", "w", "n");
    assert_eq!(last_prompt(&a), None);
    a.recent_prompts = vec!["first".to_string(), "second".to_string()];
    assert_eq!(last_prompt(&a), Some("second"));
    a.recent_prompts.push(String::new());
    assert_eq!(last_prompt(&a), None);
}

#[test]
fn a_menu_acts_on_the_checkout_the_panels_would_restore() {
    let mut app = app();
    let api = ProjectId("p1".to_string());
    let got = |app: &App| checkout_for(app, &api).map(|w| w.0);
    assert_eq!(got(&app), Some("w1".to_string()), "the root");
    app.records.last_worktree_for_project.push(LastWorktree {
        project: api.clone(),
        worktree: WorktreeId("w2".to_string()),
    });
    assert_eq!(got(&app), Some("w2".to_string()), "where it was left");
    app.sel_worktree = Some(WorktreeId("w1".to_string()));
    assert_eq!(got(&app), Some("w1".to_string()), "the selected one");
    hide_roots(&mut app);
    assert_eq!(got(&app), Some("w2".to_string()), "never a hidden root");
    app.tree.worktrees[1].placeholder = true;
    assert_eq!(got(&app), None, "nor a stand-in");
    assert_eq!(checkout_for(&app, &ProjectId("gone".to_string())), None);
}

#[test]
fn a_root_still_being_cut_is_no_target() {
    let mut app = app();
    let api = ProjectId("p1".to_string());
    assert_eq!(
        root_checkout(&app, &api),
        Some(WorktreeId("w1".to_string()))
    );
    app.tree.worktrees[0].placeholder = true;
    assert_eq!(root_checkout(&app, &api), None);
    assert_eq!(
        target_for(&app, &api, false),
        QuickTarget::NewWorktree {
            project: api.clone(),
            branch: "brave-otter".to_string()
        }
    );
    assert_eq!(root_checkout(&app, &ProjectId("gone".to_string())), None);
}

#[test]
fn a_target_is_in_its_project() {
    let app = app();
    let fresh = QuickTarget::NewWorktree {
        project: ProjectId("p2".to_string()),
        branch: "b".to_string(),
    };
    assert_eq!(project_of(&app, &fresh), Some(ProjectId("p2".to_string())));
    let there = QuickTarget::Worktree(WorktreeId("w4".to_string()));
    assert_eq!(project_of(&app, &there), Some(ProjectId("p3".to_string())));
    let gone = QuickTarget::Worktree(WorktreeId("w9".to_string()));
    assert_eq!(project_of(&app, &gone), None);
    assert_eq!(
        project_name(&app, &ProjectId("p3".to_string())),
        Some("ops".to_string())
    );
    assert_eq!(project_name(&app, &ProjectId("p9".to_string())), None);
}

#[test]
fn a_launch_elsewhere_is_a_background_one() {
    let mut app = app();
    assert!(is_background(&app, &ProjectId("p2".to_string())));
    assert!(!is_background(&app, &ProjectId("p1".to_string())));
    app.launcher_active = false;
    assert!(!is_background(&app, &ProjectId("p2".to_string())));
}

#[test]
fn recency_orders_projects_of_the_same_standing() {
    let mut app = app();
    for a in &mut app.tree.agents {
        a.status = AgentStatus::Fresh;
    }
    app.tree.projects[2].recency = Recency {
        interacted: 10,
        stamped: 1,
    };
    app.tree.projects[1].recency = Recency {
        interacted: 10,
        stamped: 5,
    };
    let names: Vec<String> = project_cards(&app).into_iter().map(|c| c.name).collect();
    assert_eq!(names, ["web", "ops", "api"]);
}

#[test]
fn home_is_spelled_as_a_shell_prompt_spells_it() {
    assert_eq!(home_relative("/home/me/api", Some("/home/me")), "~/api");
    assert_eq!(home_relative("/home/me", Some("/home/me")), "~");
    assert_eq!(home_relative("/home/me/api", Some("/home/me/")), "~/api");
    assert_eq!(home_relative("/home/me", Some("/home/me//")), "~");
    assert_eq!(home_relative("/home//me/./api", Some("/home/me")), "~/api");
    assert_eq!(home_relative("/home/me/api", Some("/home/me/api/x")), "/home/me/api");
    assert_eq!(home_relative("me/api", Some("/me")), "me/api");
    assert_eq!(home_relative("me/api", Some("me")), "~/api");
    assert_eq!(home_relative("/home/men/api", Some("/home/me")), "/home/men/api");
    assert_eq!(home_relative("/srv/api", Some("/home/me")), "/srv/api");
    assert_eq!(home_relative("/srv/api", None), "/srv/api");
    assert_eq!(home_relative("/home/me/a/b", Some("/home/me")), "~/a/b");
}
