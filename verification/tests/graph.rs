use glide::graph::{matching_paths, pattern_matches, rank_hits, OwnerHit, OwnerKind, PathRow};
use glide::index::{
    doc_mentions, git_report, history_evidence_text, is_excluded, normalize_pattern,
    parse_codeowners, repomix_command, repomix_failure, repomix_missing, repomix_ran,
    repomix_skip, should_install, tally_history, CommitTouch,
};
use glide::tools::{
    capture_result, detect_repomix, repomix_invocation, version_probe, which_result, RepomixCmd,
};
use glide::verbs::who_owns::who_owns;

fn hit(handle: &str, source: &str, w: f64) -> OwnerHit {
    OwnerHit {
        owner_handle: handle.into(),
        owner_kind: OwnerKind::Person,
        weight_rank: w.to_bits(),
        weight_text: format!("{w:.2}"),
        source: source.into(),
        evidence: None,
        matched_pattern: "*".into(),
    }
}

#[test]
fn owner_kinds_round_trip() {
    for k in [OwnerKind::Person, OwnerKind::Team] {
        assert_eq!(OwnerKind::from_str(k.as_str()), k);
    }
    assert_eq!(OwnerKind::from_str("robot"), OwnerKind::Person);
}

#[test]
fn exact_rows_match_equal_paths_and_glob_rows_match_globs() {
    assert!(pattern_matches("src/a.rs", "exact", "src/a.rs"));
    assert!(!pattern_matches("src/*.rs", "exact", "src/a.rs"));
    assert!(pattern_matches("src/**", "glob", "src/x/a.rs"));
    assert!(!pattern_matches("docs/**", "glob", "src/a.rs"));
    assert!(!pattern_matches("[", "glob", "["));
    let rows = vec![
        PathRow { id: 1, pattern: "docs/**".into(), kind: "glob".into() },
        PathRow { id: 2, pattern: "src/**".into(), kind: "glob".into() },
        PathRow { id: 3, pattern: "src/a.rs".into(), kind: "exact".into() },
    ];
    assert_eq!(
        matching_paths(&rows, "src/a.rs"),
        vec![(2, "src/**".to_string()), (3, "src/a.rs".to_string())]
    );
}

#[test]
fn hits_rank_heaviest_first_once_per_owner_and_source() {
    let hits = vec![
        hit("a", "git", 0.2),
        hit("b", "codeowners", 1.0),
        hit("a", "git", 0.9),
        hit("c", "git", 0.2),
        hit("a", "codeowners", 1.0),
    ];
    let r = rank_hits(hits, 10);
    let names: Vec<(String, String)> = r
        .iter()
        .map(|h| (h.owner_handle.clone(), h.source.clone()))
        .collect();
    assert_eq!(
        names,
        vec![
            ("b".to_string(), "codeowners".to_string()),
            ("a".to_string(), "codeowners".to_string()),
            ("a".to_string(), "git".to_string()),
            ("c".to_string(), "git".to_string()),
        ]
    );
    assert_eq!(r[2].weight_text, "0.90");
}

#[test]
fn top_caps_the_answer_and_is_at_least_one() {
    let hits = vec![hit("a", "s", 0.1), hit("b", "s", 0.3), hit("c", "s", 0.2)];
    assert_eq!(rank_hits(hits.clone(), 2).len(), 2);
    let r = who_owns("x", hits, 0, false);
    assert_eq!(r.hits.len(), 1);
    assert_eq!(r.hits[0].owner_handle, "b");
    assert_eq!(r.query, "x");
}

#[test]
fn codeowners_patterns_become_globs() {
    assert_eq!(normalize_pattern("*"), "**/*");
    assert_eq!(normalize_pattern("*.tsx"), "**/*.tsx");
    assert_eq!(normalize_pattern("/foo/"), "foo/**");
    assert_eq!(normalize_pattern("src/"), "src/**");
    assert_eq!(normalize_pattern("src/api/"), "src/api/**");
    assert_eq!(normalize_pattern("/docs/*.md"), "docs/*.md");
    assert_eq!(normalize_pattern("/*"), "**/*");
}

#[test]
fn codeowners_rules_carry_their_line_and_owner_kinds() {
    let body = "# owners\n\n*.rs @rustaceans @org/core\nsrc/ @@ann\r\nlonely\n  /docs/ @org/docs";
    let rules = parse_codeowners(body);
    assert_eq!(rules.len(), 3);
    assert_eq!(rules[0].line, 3);
    assert_eq!(rules[0].pattern, "**/*.rs");
    assert_eq!(
        rules[0].owners,
        vec![
            (OwnerKind::Person, "rustaceans".to_string()),
            (OwnerKind::Team, "org/core".to_string())
        ]
    );
    assert_eq!(rules[1].line, 4);
    assert_eq!(rules[1].pattern, "src/**");
    assert_eq!(rules[1].owners, vec![(OwnerKind::Person, "ann".to_string())]);
    assert_eq!(rules[2].line, 6);
    assert_eq!(rules[2].pattern, "docs/**");
}

#[test]
fn history_is_tallied_per_file_and_author_inside_the_window() {
    let commits = vec![
        CommitTouch {
            time_secs: 100,
            author_email: Some("a@x".into()),
            paths: vec!["src/a.rs".into(), "node_modules/x.js".into()],
        },
        CommitTouch {
            time_secs: 5,
            author_email: Some("old@x".into()),
            paths: vec!["src/a.rs".into()],
        },
        CommitTouch {
            time_secs: 200,
            author_email: None,
            paths: vec!["src/a.rs".into(), "src/b.rs".into()],
        },
        CommitTouch {
            time_secs: 300,
            author_email: Some("a@x".into()),
            paths: vec!["src/a.rs".into()],
        },
    ];
    let t = tally_history(&commits, 50, &vec!["node_modules/**".to_string()]);
    assert_eq!(t.commits_scanned, 3);
    let b: Vec<(String, String, u32)> = t
        .buckets
        .iter()
        .map(|b| (b.file.clone(), b.author.clone(), b.count))
        .collect();
    assert_eq!(
        b,
        vec![
            ("src/a.rs".to_string(), "a@x".to_string(), 2),
            ("src/a.rs".to_string(), "(unknown)".to_string(), 1),
            ("src/b.rs".to_string(), "(unknown)".to_string(), 1),
        ]
    );
    assert_eq!(
        t.file_totals,
        vec![("src/a.rs".to_string(), 3), ("src/b.rs".to_string(), 1)]
    );
    let r = git_report(&t);
    assert_eq!((r.commits_scanned, r.files_touched, r.buckets), (3, 2, 3));
    assert_eq!(history_evidence_text(2, 3, 365), "2 of 3 commits in last 365d");
    assert!(is_excluded("dist/x.js", &vec!["dist/**".to_string()]));
    assert!(!is_excluded("src/x.js", &vec!["dist/**".to_string()]));
}

#[test]
fn team_documents_state_ownership_inline() {
    let body = "Team pages\n@glide/billing owns src/billing/**\nOwner: @glide/api  ->  src/api/\nnothing here";
    assert_eq!(
        doc_mentions(body),
        vec![
            ("glide/billing".to_string(), "src/billing/**".to_string()),
            ("glide/api".to_string(), "src/api/".to_string()),
        ]
    );
}

#[test]
fn repomix_is_found_on_the_path_first_then_through_npx() {
    assert_eq!(which_result(true, "/usr/bin/repomix\n"), Some("/usr/bin/repomix".into()));
    assert_eq!(which_result(true, "  \n"), None);
    assert_eq!(which_result(false, "/x"), None);
    assert_eq!(capture_result(true, " 1.2.3 \n"), Some("1.2.3".into()));
    assert_eq!(capture_result(false, "1.2.3"), None);
    let s = detect_repomix(Some("/b".into()), Some("/n".into()), Some("1".into()));
    assert!(s.available);
    assert_eq!(s.cmd, Some(RepomixCmd::Global));
    let s = detect_repomix(None, Some("/n".into()), Some("1".into()));
    assert_eq!(s.cmd, Some(RepomixCmd::Npx));
    let s = detect_repomix(None, None, Some("1".into()));
    assert!(!s.available);
    assert_eq!(s.version, None);
    assert_eq!(version_probe(RepomixCmd::Npx), ("npx", vec!["--yes", "repomix", "--version"]));
    assert_eq!(
        repomix_invocation(&RepomixCmd::Npx),
        ("npx".to_string(), vec!["--yes".to_string(), "repomix".to_string()])
    );
    assert_eq!(repomix_invocation(&RepomixCmd::Global), ("repomix".to_string(), vec![]));
}

#[test]
fn a_repomix_run_is_planned_from_the_config() {
    let mut cfg = glide::config::Config::defaults("m".into()).index.repomix;
    assert!(repomix_skip(&cfg).is_none());
    cfg.extra_args = vec!["--quiet".into()];
    let (prog, args, out) = repomix_command(&RepomixCmd::Npx, &cfg, "/repo");
    assert_eq!(prog, "npx");
    assert_eq!(out, "/repo/.glide/repomix.xml");
    assert_eq!(
        args,
        vec!["--yes", "repomix", "--compress", "--style", "xml", "-o", "/repo/.glide/repomix.xml", "--quiet"]
    );
    cfg.enabled = false;
    let r = repomix_skip(&cfg).unwrap();
    assert_eq!(r.mode, "disabled");
    assert_eq!(r.skipped_reason.as_deref(), Some("[index.repomix].enabled = false"));
    assert_eq!(repomix_missing().mode, "missing");
    let ran = repomix_ran(&RepomixCmd::Global, "/o".into(), 2048);
    assert_eq!((ran.ran, ran.bytes, ran.mode.as_str()), (true, 2048, "global"));
    assert_eq!(repomix_failure(Some(2), " boom \n"), "repomix exited Some(2): boom");
    assert_eq!(repomix_failure(None, ""), "repomix exited None: ");
    let st = detect_repomix(None, None, None);
    assert!(should_install(&st, &cfg));
}

#[test]
fn a_bucket_is_weighed_against_its_files_total_or_one() {
    let totals = vec![("a.rs".to_string(), 4u32), ("b.rs".to_string(), 2u32)];
    assert_eq!(glide::index::file_total(&totals, "b.rs"), 2);
    assert_eq!(glide::index::file_total(&totals, "c.rs"), 1);
}
