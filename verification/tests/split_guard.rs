use nebula_tui::split_guard::{
    changed_paths, classify, listed_paths, match_here, verdict, GitOutput, Verdict,
};

const MIGRATIONS: &str = "prisma/migrations";

fn texts(list: &[&str]) -> Vec<String> {
    list.iter().map(|s| s.to_string()).collect()
}

fn committed(success: bool, stdout: &str) -> Result<GitOutput, String> {
    Ok(GitOutput {
        success,
        stdout: stdout.as_bytes().to_vec(),
    })
}

#[test]
fn a_bare_prefix_matches_the_directory_and_everything_under_it() {
    assert!(nebula_tui::split_guard::matches(
        MIGRATIONS,
        "prisma/migrations/20240101_x/migration.sql"
    ));
    assert!(nebula_tui::split_guard::matches(MIGRATIONS, "prisma/migrations"));
    assert!(nebula_tui::split_guard::matches("prisma/migrations/", "prisma/migrations/a.sql"));
    assert!(!nebula_tui::split_guard::matches(MIGRATIONS, "prisma/schema.prisma"));
    // A sibling whose name merely starts the same is not under it.
    assert!(!nebula_tui::split_guard::matches(MIGRATIONS, "prisma/migrations-old/a.sql"));
}

#[test]
fn star_spans_one_segment_and_doublestar_spans_many() {
    assert!(nebula_tui::split_guard::matches(
        "prisma/migrations/**",
        "prisma/migrations/a/b/c.sql"
    ));
    assert!(nebula_tui::split_guard::matches("**/*.sql", "prisma/migrations/a/up.sql"));
    assert!(nebula_tui::split_guard::matches("**/*.sql", "up.sql"), "**/ also matches the root");
    assert!(nebula_tui::split_guard::matches("src/*.ts", "src/main.ts"));
    assert!(!nebula_tui::split_guard::matches("src/*.ts", "src/deep/main.ts"), "* stops at /");
    assert!(!nebula_tui::split_guard::matches("**/*.sql", "prisma/schema.prisma"));
    assert!(!nebula_tui::split_guard::matches("", "anything"));
}

#[test]
fn classify_splits_the_named_paths_from_the_rest() {
    let patterns = vec![MIGRATIONS.to_string()];
    let v = classify(
        vec![
            "prisma/migrations/1/migration.sql".to_string(),
            "src/orders/orders.service.ts".to_string(),
        ],
        &patterns,
    );
    assert_eq!(v.isolated, ["prisma/migrations/1/migration.sql"]);
    assert_eq!(v.other, ["src/orders/orders.service.ts"]);
    assert!(v.is_split());
}

#[test]
fn a_change_of_only_isolated_paths_is_not_a_split() {
    let patterns = vec![MIGRATIONS.to_string()];
    let v = classify(vec!["prisma/migrations/1/migration.sql".to_string()], &patterns);
    assert!(
        !v.is_split(),
        "a migration alone is exactly what the rule wants"
    );
    let v = classify(vec!["src/a.ts".to_string()], &patterns);
    assert!(!v.is_split(), "code alone is fine too");
}

#[test]
fn doublestar_slash_names_whole_segments() {
    let is_match = nebula_tui::split_guard::matches;
    assert!(!is_match("**/up.sql", "db/backup.sql"));
    assert!(!is_match("**/up.sql", "backup.sql"));
    assert!(is_match("**/up.sql", "up.sql"));
    assert!(is_match("**/up.sql", "db/1/up.sql"));
    assert!(is_match("db/**/up.sql", "db/up.sql"));
    assert!(is_match("db/**/up.sql", "db/a/b/up.sql"));
    assert!(!is_match("db/**/up.sql", "db/a/backup.sql"));
    assert!(is_match("**/migrations/**", "prisma/migrations/1/up.sql"));
    assert!(!is_match("**/migrations/**", "prisma/old-migrations/1/up.sql"));
    assert!(is_match("**.sql", "db/backup.sql"), "with no slash, any bytes");
    assert!(match_here(b"**/x", b"a/x"));
    assert!(!match_here(b"**/x", b"ax"));
}

/// What the branch committed counts, with what is dirty on top.
#[test]
fn committed_branch_work_counts_not_the_bases_own_commits() {
    let patterns = vec![MIGRATIONS.to_string()];
    let v = verdict(
        committed(true, "prisma/migrations/1/migration.sql\n"),
        Ok(Vec::new()),
        &patterns,
    )
    .unwrap();
    assert!(v.base_known);
    assert_eq!(v.isolated, ["prisma/migrations/1/migration.sql"]);
    assert!(
        v.other.is_empty(),
        "main's own commit is not ours: {:?}",
        v.other
    );
    assert!(!v.is_split());

    // Now the code lands on the branch, uncommitted: that is the split.
    let v = verdict(
        committed(true, "prisma/migrations/1/migration.sql\n"),
        Ok(texts(&["src/orders.service.ts"])),
        &patterns,
    )
    .unwrap();
    assert!(v.is_split(), "committed migration + dirty code: {v:?}");
    assert_eq!(v.other, ["src/orders.service.ts"]);
}

/// No patterns, no read: a project that never asked for the guard is never
/// badged.
#[test]
fn no_patterns_means_no_verdict() {
    let v = verdict(committed(true, "a\nb\n"), Ok(texts(&["c"])), &[]).unwrap();
    let none = Verdict::default();
    assert_eq!(v.isolated, none.isolated);
    assert_eq!(v.other, none.other);
    assert_eq!(v.base_known, none.base_known);
    assert!(!v.is_split());
    assert!(
        verdict(Err("no git".to_string()), Err("no tree".to_string()), &[]).is_ok(),
        "and what git said goes unread"
    );
}

/// An unresolvable base still reads the working tree, and says the branch half
/// is missing rather than claiming the checkout is clean.
#[test]
fn an_unknown_base_falls_back_to_the_working_tree() {
    let patterns = vec![MIGRATIONS.to_string()];
    let v = verdict(
        committed(false, "fatal: bad revision\n"),
        Ok(texts(&["prisma/migrations/1/migration.sql", "src/a.ts"])),
        &patterns,
    )
    .unwrap();
    assert!(!v.base_known, "the base did not resolve");
    assert!(v.is_split(), "the working tree alone already shows it");
}

#[test]
fn each_side_comes_sorted_and_without_repeats() {
    let v = classify(
        texts(&["b.ts", "m/2", "a.ts", "m/1", "b.ts", "m/2", "Z.ts", "é.ts"]),
        &texts(&["m"]),
    );
    assert_eq!(v.isolated, ["m/1", "m/2"]);
    assert_eq!(v.other, ["Z.ts", "a.ts", "b.ts", "é.ts"]);
}

#[test]
fn the_first_failure_is_the_one_told() {
    let err = changed_paths(Err("no git".to_string()), Err("no tree".to_string())).unwrap_err();
    assert_eq!(err, "no git");
    let err = changed_paths(committed(true, "a\n"), Err("no tree".to_string())).unwrap_err();
    assert_eq!(err, "no tree");
    let err = verdict(
        Err("no git".to_string()),
        Ok(Vec::new()),
        &[MIGRATIONS.to_string()],
    )
    .unwrap_err();
    assert_eq!(err, "no git");
}

#[test]
fn committed_paths_come_before_the_dirty_ones() {
    let (paths, base_known) =
        changed_paths(committed(true, "x\r\n\n  \ny"), Ok(texts(&["z", "x"]))).unwrap();
    assert_eq!(paths, ["x", "y", "z", "x"]);
    assert!(base_known);
    let (paths, base_known) = changed_paths(committed(false, "x\n"), Ok(texts(&["z"]))).unwrap();
    assert_eq!(paths, ["z"]);
    assert!(!base_known);
}

#[test]
fn bytes_that_are_no_text_are_read_all_the_same() {
    let out = Ok(GitOutput {
        success: true,
        stdout: vec![b'a', 0xff, b'\n', b'b', b'\n'],
    });
    let (paths, _) = changed_paths(out, Ok(Vec::new())).unwrap();
    assert_eq!(paths, ["a\u{fffd}", "b"]);
}

#[test]
fn a_listing_is_its_lines_that_hold_anything() {
    assert_eq!(listed_paths("a\nb\r\n\n \t\nc d"), ["a", "b", "c d"]);
    assert!(listed_paths("").is_empty());
    assert_eq!(listed_paths("a\r"), ["a\r"], "a bare return ends no line");
}

#[test]
fn white_space_round_a_pattern_is_nothing() {
    for pad in [" ", "\t", "\n", "\r", "\u{b}", "\u{c}", "\u{85}", "\u{a0}", "\u{1680}",
        "\u{2000}", "\u{200a}", "\u{2028}", "\u{2029}", "\u{202f}", "\u{205f}", "\u{3000}"]
    {
        let pattern = format!("{pad}docs{pad}");
        assert!(nebula_tui::split_guard::matches(&pattern, "docs/a.md"), "{pad:?}");
        assert!(!nebula_tui::split_guard::matches(pad, ""), "{pad:?}");
    }
    for kept in ["\u{200b}", "\u{180e}", "\u{feff}"] {
        let pattern = format!("{kept}docs");
        assert!(!nebula_tui::split_guard::matches(&pattern, "docs/a.md"), "{kept:?}");
    }
}

#[test]
fn wildcards_match_byte_by_byte() {
    assert!(nebula_tui::split_guard::matches("a?c", "abc"));
    assert!(!nebula_tui::split_guard::matches("a?c", "a/c"), "? is no slash");
    assert!(!nebula_tui::split_guard::matches("a?c", "ac"));
    assert!(nebula_tui::split_guard::matches("a*c", "ac"));
    assert!(nebula_tui::split_guard::matches("a*c", "abbbc"));
    assert!(!nebula_tui::split_guard::matches("a*c", "a/c"));
    assert!(nebula_tui::split_guard::matches("a**c", "a/b/c"));
    assert!(nebula_tui::split_guard::matches("**", ""));
    assert!(nebula_tui::split_guard::matches("**", "a/b"));
    assert!(nebula_tui::split_guard::matches("?", "?"));
    assert!(nebula_tui::split_guard::matches("*.rs", "é.rs"));
    assert!(match_here(b"**/b", b"x/b"));
    assert!(match_here(b"**/b", b"b"));
    assert!(!match_here(b"", b"x"));
    assert!(!match_here(b"x", b""));
}

#[test]
fn a_pattern_of_slashes_alone_names_what_stands_under_the_root() {
    assert!(nebula_tui::split_guard::matches("/", "/a"));
    assert!(!nebula_tui::split_guard::matches("/", "a"));
    assert!(nebula_tui::split_guard::matches("a///", "a"));
}
