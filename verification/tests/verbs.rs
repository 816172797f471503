use glide::config::Config;
use glide::console::block::{Block, BlockBody};
use glide::console::engine::{
    command_step, config_get_body, config_local_path, config_paths_body, config_set_body,
    help_body, interpret, needs_init, stats_label, welcome_body, Step, Turn, Work,
};
use glide::console::render::{
    block_plain_text, digest_lines, doctor_lines, indexed_lines, models_lines, plan_lines,
    stats_lines, tools_lines, Line, Tone,
};
use glide::command::Cmd;
use glide::errors::GlideError;
use glide::graph::GraphStats;
use glide::index::{IndexReport, RepomixReport};
use glide::llm::{resolve, ProviderError, ProviderId};
use glide::tools::{detect_repomix, RepomixCmd};
use glide::verbs::doctor::{doctor, graph_checks, repomix_check, CheckState, DoctorFacts, GraphProbe};
use glide::verbs::friction::{category_counts, digest, FrictionEvent};
use glide::verbs::models::models;
use glide::verbs::plan::plan;
use glide::verbs::request::request;

fn stats() -> GraphStats {
    GraphStats {
        people: 4,
        teams: 2,
        paths: 10,
        ownership_rows: 12,
        friction_events: 0,
        last_index_at: Some("2024-01-01T00:00:00Z".into()),
        last_index_ok: Some(true),
    }
}

fn text_of(l: &Line) -> String {
    l.spans.iter().map(|s| s.text.as_str()).collect()
}

fn texts(ls: &[Line]) -> Vec<String> {
    ls.iter().map(text_of).collect()
}

#[test]
fn a_request_drafts_the_message_for_the_new_hire() {
    let r = request("pomelo", None).unwrap();
    assert_eq!(
        r.draft_message,
        "Hi team — could we get `pomelo` access for the new hire? Blocking ramp; happy to provide context."
    );
    assert_eq!(r.channels, vec!["slack:#access-requests", "jira:ACCESS-NEW"]);
    assert!(r.status.starts_with("draft"));
    let r = request("admin", Some("sam".into())).unwrap();
    assert!(r.draft_message.contains("access for sam?"));
}

#[test]
fn a_plan_sums_up_the_graph() {
    let p = plan(&stats(), "ana", Some("backend".into())).unwrap();
    assert_eq!(p.sections.len(), 3);
    assert_eq!(p.sections[0].bullets, vec!["Day-1 packet for ana (backend)."]);
    assert_eq!(
        p.sections[1].bullets[0],
        "Graph indexed: 4 people, 2 teams, 12 ownership rows across 10 paths."
    );
    assert_eq!(p.sections[2].title, "First-week goals");
    let lines = texts(&plan_lines(&p));
    assert_eq!(lines[0], "Welcome");
    assert_eq!(lines[1], "· Day-1 packet for ana (backend).");
    assert_eq!(lines[2], "");
    assert_eq!(lines.last().unwrap(), p.status);
    let q = plan(&stats(), "bo", None).unwrap();
    assert_eq!(q.sections[0].bullets, vec!["Day-1 packet for bo."]);
}

#[test]
fn models_reports_the_provider() {
    let cfg = Config::defaults("m-9".into());
    let r = models(&cfg, false, true);
    assert!(!r.enabled);
    assert_eq!(r.providers.len(), 1);
    assert_eq!(r.providers[0].model, "m-9");
    assert!(r.providers[0].key_present);
    let lines = texts(&models_lines(&r));
    assert_eq!(lines[0], "llm  disabled   default anthropic");
    assert_eq!(lines[1], "anthropic  m-9");
    assert_eq!(lines[2], "    key ANTHROPIC_API_KEY set   [feature not compiled]");
}

fn facts(root: Option<&str>, config: Result<Config, GlideError>, graph: GraphProbe) -> DoctorFacts {
    DoctorFacts {
        repo_root: root.map(|r| r.to_string()),
        workspace_exists: true,
        config,
        graph,
        repomix: detect_repomix(Some("/b".into()), None, Some("1.0".into())),
    }
}

#[test]
fn doctor_outside_a_repository_checks_git_and_repomix() {
    let r = doctor(&facts(None, Ok(Config::defaults("m".into())), GraphProbe::Missing)).unwrap();
    let names: Vec<&str> = r.checks.iter().map(|c| c.name.as_str()).collect();
    assert_eq!(names, vec!["git", "repomix"]);
    assert_eq!(r.checks[0].detail, "not inside a git repo");
    assert_eq!(r.checks[1].detail, "1.0 (global)");
    assert_eq!(r.failures(), 1);
}

#[test]
fn doctor_in_a_repository_walks_every_check() {
    let r = doctor(&facts(
        Some("/repo"),
        Ok(Config::defaults("m".into())),
        GraphProbe::Ready(stats()),
    ))
    .unwrap();
    let got: Vec<(String, CheckState, String)> = r
        .checks
        .iter()
        .map(|c| (c.name.clone(), c.state, c.detail.clone()))
        .collect();
    assert_eq!(
        got,
        vec![
            ("git".into(), CheckState::Pass, "repo at /repo".into()),
            ("workspace".into(), CheckState::Pass, ".glide/ present".into()),
            ("config".into(), CheckState::Pass, "valid".into()),
            ("graph".into(), CheckState::Pass, "12 owners across 10 paths".into()),
            ("index".into(), CheckState::Pass, "last run 2024-01-01T00:00:00Z".into()),
            ("repomix".into(), CheckState::Pass, "1.0 (global)".into()),
        ]
    );
    let lines = texts(&doctor_lines(&r));
    assert_eq!(lines[0], "✓ git       repo at /repo");
    assert_eq!(lines.last().unwrap(), "all checks pass");
}

#[test]
fn doctor_reports_a_bad_config_and_a_missing_graph() {
    let r = doctor(&facts(Some("/repo"), Err(GlideError::Config("x".into())), GraphProbe::Missing)).unwrap();
    assert_eq!(r.checks[2].detail, "invalid: config error: x");
    assert_eq!(r.checks.len(), 4);
    let r = doctor(&facts(Some("/repo"), Ok(Config::defaults("m".into())), GraphProbe::Missing)).unwrap();
    assert_eq!(r.checks[3].detail, "db missing at /repo/.glide/glide.db");
    let lines = texts(&doctor_lines(&r));
    assert_eq!(lines.last().unwrap(), "1 check(s) failed");
}

#[test]
fn graph_checks_cover_every_index_state() {
    let mut s = stats();
    s.last_index_ok = Some(false);
    let c = graph_checks("/db", &GraphProbe::Ready(s.clone()));
    assert_eq!(c[1].detail, "last run FAILED at 2024-01-01T00:00:00Z");
    assert_eq!(c[1].state, CheckState::Fail);
    s.last_index_at = None;
    let c = graph_checks("/db", &GraphProbe::Ready(s));
    assert_eq!(c[1].detail, "never indexed — run `glide index build`");
    let c = graph_checks("/db", &GraphProbe::Unreadable("locked".into()));
    assert_eq!(c[0].detail, "unreadable: locked");
    let missing = repomix_check(&detect_repomix(None, None, None));
    assert_eq!(missing.detail, "not on PATH — run `glide tools install repomix`");
    let npx = repomix_check(&detect_repomix(None, Some("/n".into()), None));
    assert_eq!(npx.detail, "version unknown (npx)");
}

fn event(cat: &str) -> FrictionEvent {
    FrictionEvent {
        id: 1,
        occurred_at: "t".into(),
        category: cat.into(),
        severity: 3,
        person_handle: None,
        subject: "s".into(),
        notes: None,
    }
}

#[test]
fn a_digest_counts_each_category_in_order() {
    let events = vec![event("tooling"), event("access"), event("tooling"), event("Zed"), event("é")];
    assert_eq!(
        category_counts(&events),
        vec![
            ("Zed".to_string(), 1),
            ("access".to_string(), 1),
            ("tooling".to_string(), 2),
            ("é".to_string(), 1),
        ]
    );
    let d = digest("since".into(), events);
    let lines = texts(&digest_lines(&d));
    assert_eq!(lines[0], "5 events since since");
    assert_eq!(lines[1], "sev3  tooling           s");
    assert_eq!(lines.last().unwrap(), "Zed 1   access 1   tooling 2   é 1");
    let one = digest("x".into(), vec![event("a")]);
    assert_eq!(texts(&digest_lines(&one))[0], "1 event since x");
    let none = digest("x".into(), vec![]);
    assert_eq!(texts(&digest_lines(&none)), vec!["no friction logged since x"]);
}

#[test]
fn stats_and_index_reports_render_as_rows() {
    let lines = texts(&stats_lines(&stats()));
    assert_eq!(lines[0], "people          4");
    assert_eq!(lines[5], "last indexed    2024-01-01T00:00:00Z");
    let r = IndexReport {
        files_scanned: 3,
        commits_scanned: 7,
        codeowners_rules: 2,
        git_history_buckets: 4,
        team_doc_mentions: 1,
        repomix: RepomixReport {
            ran: true,
            output_path: None,
            bytes: 1536,
            mode: "npx".into(),
            skipped_reason: None,
        },
    };
    let lines = texts(&indexed_lines(&r));
    assert_eq!(lines[3], "scanned           7 commits across 3 files");
    assert_eq!(lines[4], "repomix           1.5 KB via npx");
}

#[test]
fn kilobytes_round_as_the_standard_formatter_does() {
    for bytes in [256u64, 768, 1280, 1792, 0, 1, 51, 52, 100, 153, 154, 512, 1023, 1024, 1075, 1076, 1536, 2611, 2612, 3686, 5171, 10_000, 1_048_576, 123_456_789] {
        let r = IndexReport {
            files_scanned: 0,
            commits_scanned: 0,
            codeowners_rules: 0,
            git_history_buckets: 0,
            team_doc_mentions: 0,
            repomix: RepomixReport {
                ran: true,
                output_path: None,
                bytes,
                mode: "m".into(),
                skipped_reason: None,
            },
        };
        let line = text_of(&indexed_lines(&r)[4]);
        assert_eq!(
            line,
            format!("repomix           {:.1} KB via m", bytes as f64 / 1024.0),
            "bytes {bytes}"
        );
    }
}

#[test]
fn the_tools_block_names_the_invocation() {
    let s = detect_repomix(Some("/usr/bin/repomix".into()), None, Some("0.2".into()));
    let lines = texts(&tools_lines(&s));
    assert_eq!(lines, vec!["✓ repomix  0.2  (global)", "    /usr/bin/repomix"]);
    let s = detect_repomix(None, None, None);
    assert_eq!(texts(&tools_lines(&s))[0], "✗ repomix not available");
    assert_eq!(s.cmd, None::<RepomixCmd>);
}

#[test]
fn typed_lines_become_verbs_or_questions() {
    match interpret("doctor") {
        Turn::Verb(Cmd::Doctor) => {}
        _ => panic!("doctor is a verb"),
    }
    match interpret("  glide who-owns billing/x.py ") {
        Turn::Verb(Cmd::WhoOwns(q)) => assert_eq!(q, "billing/x.py"),
        _ => panic!("who-owns routes to who owns"),
    }
    match interpret("what is the weather") {
        Turn::Answer(BlockBody::Unrouted { suggestions, .. }) => {
            assert_eq!(suggestions.len(), 4);
            assert_eq!(suggestions[3], "doctor");
        }
        _ => panic!("nothing matched"),
    }
    match interpret("any friction this week?") {
        Turn::Verb(Cmd::FrictionDigest { since_days }) => assert_eq!(since_days, 7),
        _ => panic!("friction routes to the digest"),
    }
}

#[test]
fn writes_are_refused_in_a_safe_session_and_graph_verbs_need_a_graph() {
    match command_step(Cmd::IndexBuild, true, true) {
        Step::Answer(BlockBody::Notice { title, lines }) => {
            assert_eq!(title, "index build needs writes, and this session is --safe");
            assert_eq!(lines, vec!["Restart without `--safe` to allow it."]);
        }
        _ => panic!("refused"),
    }
    match command_step(Cmd::WhoOwns("  a  ".into()), false, false) {
        Step::Answer(BlockBody::Notice { title, .. }) => assert_eq!(title, "no graph in this repo yet"),
        _ => panic!("needs init"),
    }
    match command_step(Cmd::WhoOwns("  a  ".into()), false, true) {
        Step::Perform(Work::WhoOwns { query, top }) => {
            assert_eq!(query, "a");
            assert_eq!(top, 5);
        }
        _ => panic!("runs"),
    }
    let blank = Cmd::FrictionLog {
        subject: "  ".into(),
        category: "c".into(),
        severity: 3,
    };
    match command_step(blank, false, true) {
        Step::Answer(BlockBody::Error { message }) => {
            assert_eq!(message, "friction log needs a subject: `friction log <what happened>`")
        }
        _ => panic!("needs a subject"),
    }
    match command_step(Cmd::ToolsInstall("repomix".into()), false, true) {
        Step::Answer(BlockBody::Notice { title, lines }) => {
            assert_eq!(title, "installing repomix is a shell job");
            assert_eq!(lines[0], "Quit the console and run `glide tools install repomix`.");
        }
        _ => panic!("a shell job"),
    }
    match command_step(Cmd::Request(" pomelo ".into()), true, false) {
        Step::Answer(BlockBody::Request(r)) => assert_eq!(r.permission, "pomelo"),
        _ => panic!("drafted on the spot"),
    }
}

#[test]
fn the_fixed_blocks() {
    match help_body() {
        BlockBody::Notice { title, lines } => {
            assert_eq!(title, "keys and verbs");
            assert_eq!(lines.len(), 16);
            assert_eq!(lines[10], "");
        }
        _ => panic!(),
    }
    match welcome_body(false) {
        BlockBody::Notice { lines, .. } => {
            assert!(lines.iter().any(|l| l.contains("no graph yet")));
            assert_eq!(lines.last().unwrap(), "Type `help` for keys and the full verb list.");
        }
        _ => panic!(),
    }
    match welcome_body(true) {
        BlockBody::Notice { lines, .. } => assert_eq!(lines.len(), 8),
        _ => panic!(),
    }
    match needs_init() {
        BlockBody::Notice { lines, .. } => assert_eq!(lines[0], "Run `glide init`, then `index build`."),
        _ => panic!(),
    }
}

#[test]
fn config_answers() {
    match config_get_body("k".into(), None) {
        BlockBody::Error { message } => assert_eq!(message, "no such config key: k"),
        _ => panic!(),
    }
    match config_get_body("k".into(), Some("v".into())) {
        BlockBody::Notice { title, lines } => assert_eq!((title.as_str(), lines), ("k", vec!["v".to_string()])),
        _ => panic!(),
    }
    match config_set_body("a.b", "1", "/p".into()) {
        BlockBody::Notice { title, lines } => {
            assert_eq!(title, "set a.b = 1");
            assert_eq!(lines, vec!["/p"]);
        }
        _ => panic!(),
    }
    match config_paths_body(Some("/home/u/.glide".into()), "/r/.glide") {
        BlockBody::Notice { lines, .. } => assert_eq!(
            lines,
            vec![
                "1  compiled defaults",
                "2  /home/u/.glide/config.toml",
                "3  /r/.glide/glide.toml",
                "4  /r/.glide/config.local.toml",
                "5  GLIDE_* env vars",
            ]
        ),
        _ => panic!(),
    }
    assert_eq!(config_local_path("/r"), "/r/.glide/config.local.toml");
}

#[test]
fn the_top_bar_counts() {
    let mut s = stats();
    assert_eq!(stats_label(&s, false, None), "4 people · 10 paths · 12 ownership rows");
    s.friction_events = 2;
    assert_eq!(
        stats_label(&s, true, Some("ship it".into())),
        "ship it  ·  4 people · 10 paths · 12 ownership rows · 2 friction · safe"
    );
}

#[test]
fn a_doctor_block_with_failures_is_a_failing_block() {
    let r = doctor(&facts(None, Ok(Config::defaults("m".into())), GraphProbe::Missing)).unwrap();
    let b = Block::new(0, "doctor".into(), BlockBody::Doctor(Box::new(r)), 0);
    assert_eq!(b.status(), glide::console::block::BlockStatus::Failed);
    assert!(block_plain_text(&b).starts_with("doctor\n✗ git"));
}

#[test]
fn no_provider_is_compiled_in() {
    assert!(resolve(ProviderId::Anthropic).is_none());
    assert_eq!(ProviderError::MissingKey("K".into()).message(), "missing api key in env: K");
    assert_eq!(ProviderError::Api("x".into()).message(), "api: x");
}

#[test]
fn toml_blocks_accent_section_headers() {
    let b = Block::new(
        0,
        String::new(),
        BlockBody::Toml("[llm]\r\nenabled = false\n\n".into()),
        0,
    );
    let lines = glide::console::render::block_lines(&b, false, 80);
    let body: Vec<(String, Tone)> = lines[1..lines.len() - 1]
        .iter()
        .map(|l| (l.spans[1].text.clone(), l.spans[1].tone))
        .collect();
    assert_eq!(
        body,
        vec![
            ("[llm]".to_string(), Tone::Accent),
            ("enabled = false".to_string(), Tone::Body),
            ("".to_string(), Tone::Body),
        ]
    );
}
