use glide::graph::{GraphStats, OwnerHit, OwnerKind};
use glide::index::{IndexReport, RepomixReport};
use glide::terminal::{
    brief_digest_line, brief_owner_lines, brief_plan_lines, digest_text, doctor_text, graph_lines,
    index_built_lines, init_config_text, init_lines, installed_line, logged_line, models_text,
    owners_text, plan_markdown, request_text, routed_line, tools_status_lines, workspace_gitignore,
};
use glide::tools::{RepomixCmd, RepomixStatus};
use glide::verbs::doctor::{Check, CheckState, DoctorReport};
use glide::verbs::friction::{FrictionDigestResponse, FrictionEvent, FrictionLogResponse};
use glide::verbs::models::{ModelsReport, ProviderInfo};
use glide::verbs::plan::{PlanResponse, PlanSection};
use glide::verbs::request::RequestResponse;

fn hit(handle: &str, evidence: Option<&str>) -> OwnerHit {
    OwnerHit {
        owner_handle: handle.into(),
        owner_kind: OwnerKind::Team,
        weight_rank: 0,
        weight_text: "1.00".into(),
        source: "codeowners".into(),
        evidence: evidence.map(String::from),
        matched_pattern: "src/billing/**".into(),
    }
}

#[test]
fn index_build_reports_every_count_and_the_repomix_pack() {
    let r = IndexReport {
        files_scanned: 12,
        commits_scanned: 340,
        codeowners_rules: 7,
        git_history_buckets: 3,
        team_doc_mentions: 2,
        repomix: RepomixReport {
            ran: true,
            output_path: Some("/r/.glide/repomix.xml".into()),
            bytes: 2560,
            mode: "npx".into(),
            skipped_reason: None,
        },
    };
    assert_eq!(
        index_built_lines(&r, "/r/.glide/glide.db", false),
        vec![
            "glide index — full rebuild",
            "  codeowners rules : 7",
            "  git buckets      : 3",
            "  team-doc mentions: 2",
            "  scanned          : 340 commits across 12 files",
            "  repomix         : ok → /r/.glide/repomix.xml (2.5 KB, via npx)",
            "  db               : /r/.glide/glide.db",
        ]
    );
}

#[test]
fn a_skipped_repomix_step_says_why() {
    let r = IndexReport {
        files_scanned: 0,
        commits_scanned: 0,
        codeowners_rules: 0,
        git_history_buckets: 0,
        team_doc_mentions: 0,
        repomix: RepomixReport {
            ran: false,
            output_path: None,
            bytes: 0,
            mode: String::new(),
            skipped_reason: Some("disabled".into()),
        },
    };
    let lines = index_built_lines(&r, "db", false);
    assert_eq!(lines[5], "  repomix         : skipped — disabled");
}

#[test]
fn index_show_lists_the_counts_and_the_last_run() {
    let mut s = GraphStats {
        people: 4,
        teams: 2,
        paths: 9,
        ownership_rows: 11,
        friction_events: 0,
        last_index_at: Some("2024-05-01T10:00:00Z".into()),
        last_index_ok: Some(false),
    };
    let lines = graph_lines(&s, false);
    assert_eq!(lines[1], "  people          : 4");
    assert_eq!(lines[6], "  last indexed    : 2024-05-01T10:00:00Z (FAILED)");
    s.last_index_at = None;
    assert_eq!(graph_lines(&s, false)[6], "  last indexed    : never (run `glide index build`)");
}

#[test]
fn who_owns_numbers_the_owners_and_explains_them_when_asked() {
    let hits = vec![hit("billing", Some("CODEOWNERS line 3")), hit("api", None)];
    assert_eq!(
        owners_text("src/billing/charge.py", &hits, true, false),
        vec![
            "owners of src/billing/charge.py",
            "  1. @billing  [team] via codeowners (weight 1.00)",
            "       match : src/billing/**",
            "       why   : CODEOWNERS line 3",
            "  2. @api  [team] via codeowners (weight 1.00)",
            "       match : src/billing/**",
        ]
    );
    assert_eq!(
        owners_text("x", &Vec::new(), false, false),
        vec!["no owners found for: x", "(graph empty? run `glide index build`)"]
    );
}

#[test]
fn the_plan_is_written_as_markdown() {
    let r = PlanResponse {
        person: "dana".into(),
        role: None,
        sections: vec![PlanSection { title: "Read".into(), bullets: vec!["a".into(), "b".into()] }],
        status: "draft",
    };
    assert_eq!(plan_markdown(&r), "# Day-1 plan — dana\n\n## Read\n- a\n- b\n\n_draft_\n");
    assert_eq!(brief_plan_lines(&r.sections), vec!["", "## Read", "- a", "- b"]);
}

#[test]
fn a_request_prints_the_draft_between_blank_lines() {
    let r = RequestResponse {
        permission: "pomelo".into(),
        for_person: None,
        draft_message: "Hi team".into(),
        channels: vec!["slack:#access".into(), "email".into()],
        status: "draft",
    };
    assert_eq!(
        request_text(&r, false),
        vec!["access request — pomelo", "", "Hi team", "", "channels: slack:#access, email", "draft"]
    );
}

#[test]
fn friction_lines_show_the_event_and_the_digest() {
    let r = FrictionLogResponse {
        id: 7,
        occurred_at: "t".into(),
        category: "access".into(),
        severity: 3,
        subject: "blocked on db".into(),
    };
    assert_eq!(logged_line(&r, false), "✓ logged #7 access (severity 3) — blocked on db");
    let d = FrictionDigestResponse {
        since: "s".into(),
        events: vec![FrictionEvent {
            id: 1,
            occurred_at: "2024-05-01".into(),
            category: "access".into(),
            severity: 2,
            person_handle: None,
            subject: "vpn".into(),
            notes: None,
        }],
        by_category: vec![("access".into(), 1)],
    };
    assert_eq!(
        digest_text(&d, 7, false),
        vec![
            "friction digest — last 7 days",
            "",
            "by category:",
            "  access               1",
            "",
            "events:",
            "  [2024-05-01] access sev2 - — vpn",
        ]
    );
    let empty = FrictionDigestResponse { since: "s".into(), events: Vec::new(), by_category: Vec::new() };
    assert_eq!(digest_text(&empty, 30, false), vec!["friction digest — last 30 days", "  (no events)"]);
    assert_eq!(brief_digest_line(3, false), "friction: 3 events in last 7d");
}

#[test]
fn doctor_pads_names_and_counts_failures() {
    let r = DoctorReport {
        checks: vec![
            Check { name: "repo".into(), state: CheckState::Pass, detail: "/r".into() },
            Check { name: "graph".into(), state: CheckState::Fail, detail: "missing".into() },
        ],
    };
    assert_eq!(
        doctor_text(&r, false),
        vec!["glide doctor", "  ✓ repo       /r", "  ✗ graph      missing", "", "1 check(s) failed"]
    );
}

#[test]
fn models_mark_missing_keys_and_uncompiled_providers() {
    let r = ModelsReport {
        enabled: false,
        default_provider: "anthropic".into(),
        providers: vec![ProviderInfo {
            id: "anthropic".into(),
            model: "m".into(),
            api_key_env: "KEY".into(),
            key_present: false,
            feature_compiled: false,
        }],
    };
    assert_eq!(
        models_text(&r, false),
        vec![
            "glide models",
            "  llm: disabled  default: anthropic",
            "  anthropic m  key KEY missing  [feature not compiled]",
        ]
    );
}

#[test]
fn tools_status_names_the_version_and_the_invocation() {
    let s = RepomixStatus {
        available: true,
        cmd: Some(RepomixCmd::Npx),
        bin_path: None,
        npx_path: Some("/usr/bin/npx".into()),
        version: Some("0.2.1".into()),
    };
    assert_eq!(tools_status_lines(&s, false), vec!["glide tools", "  ✓ repomix — 0.2.1 (npx)"]);
    assert_eq!(installed_line(&s, false), "✓ installed: repomix 0.2.1");
    let none = RepomixStatus { available: false, cmd: None, bin_path: None, npx_path: None, version: None };
    assert_eq!(
        tools_status_lines(&none, false),
        vec!["glide tools", "  ✗ repomix — not available", "    run: `glide tools install repomix`"]
    );
    assert_eq!(installed_line(&none, false), "! install completed but repomix still not detectable");
}

#[test]
fn one_shot_lines_say_where_the_prompt_went() {
    assert_eq!(routed_line("who-owns", "billing", false), "→ who-owns billing");
    assert_eq!(brief_owner_lines(&vec![hit("api", None)]), vec!["  @api (weight 1.00, via codeowners)"]);
}

#[test]
fn init_writes_the_commented_config_and_the_ignore_file() {
    assert_eq!(
        init_config_text("a = 1\n"),
        "# glide workspace config. This file is gitignored.\n# See <repo>/.glide/glide.toml for team-shared config.\n\na = 1\n"
    );
    assert_eq!(workspace_gitignore(), "config.local.toml\nglide.db\nglide.db-*\n");
    assert_eq!(
        init_lines("/r/.glide", "/r/.glide/config.local.toml", "/r/.glide/glide.db", false),
        vec![
            "✓ glide initialized at /r/.glide",
            "  config: /r/.glide/config.local.toml",
            "  db:     /r/.glide/glide.db",
            "",
            "Next: `glide index build`",
        ]
    );
}
