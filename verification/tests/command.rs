use glide::command::{parse, Cmd};

#[test]
fn focus_verbs_keep_the_whole_text() {
    assert_eq!(
        parse("focus"),
        Some(Cmd::Focus {
            action: "show".into(),
            text: String::new()
        })
    );
    assert_eq!(
        parse("focus set ship portal tests"),
        Some(Cmd::Focus {
            action: "set".into(),
            text: "ship portal tests".into()
        })
    );
    assert_eq!(
        parse("focus log fixed the build"),
        Some(Cmd::Focus {
            action: "log".into(),
            text: "fixed the build".into()
        })
    );
    assert_eq!(parse("focus nope"), None);
}

#[test]
fn bare_verbs_pick_the_read_only_subcommand() {
    assert_eq!(parse("index"), Some(Cmd::IndexShow));
    assert_eq!(parse("config"), Some(Cmd::ConfigList));
    assert_eq!(parse("tools"), Some(Cmd::ToolsStatus));
    assert_eq!(
        parse("friction"),
        Some(Cmd::FrictionDigest { since_days: 7 })
    );
}

#[test]
fn building_the_index_is_never_implicit() {
    assert_eq!(parse("index build"), Some(Cmd::IndexBuild));
    assert_ne!(parse("index"), Some(Cmd::IndexBuild));
    assert_ne!(parse("index show"), Some(Cmd::IndexBuild));
}

#[test]
fn friction_log_beats_the_routers_friction_keyword() {
    assert_eq!(
        parse("friction log blocked on staging db"),
        Some(Cmd::FrictionLog {
            subject: "blocked on staging db".into(),
            category: "access".into(),
            severity: 3,
        })
    );
}

#[test]
fn friction_log_flags_are_pulled_out_of_the_subject() {
    assert_eq!(
        parse("friction log no docs --severity 5 --category doc-gap"),
        Some(Cmd::FrictionLog {
            subject: "no docs".into(),
            category: "doc-gap".into(),
            severity: 5,
        })
    );
}

#[test]
fn an_out_of_range_severity_is_clamped_not_rejected() {
    match parse("friction log x --severity 9") {
        Some(Cmd::FrictionLog { severity, .. }) => assert_eq!(severity, 5),
        other => panic!("expected a friction log, got {other:?}"),
    }
}

#[test]
fn config_set_keeps_multi_word_values_whole() {
    assert_eq!(
        parse("config set llm.default_provider anthropic"),
        Some(Cmd::ConfigSet(
            "llm.default_provider".into(),
            "anthropic".into()
        ))
    );
    assert_eq!(
        parse("config set a.b two words"),
        Some(Cmd::ConfigSet("a.b".into(), "two words".into()))
    );
}

#[test]
fn an_incomplete_config_command_falls_through_to_the_router() {
    assert_eq!(parse("config get"), None);
    assert_eq!(parse("config set onlykey"), None);
}

#[test]
fn plan_accepts_both_spellings() {
    assert_eq!(parse("plan priya"), Some(Cmd::Plan("priya".into())));
    assert_eq!(parse("plan for priya"), Some(Cmd::Plan("priya".into())));
}

#[test]
fn the_glide_prefix_is_optional() {
    assert_eq!(parse("glide doctor"), Some(Cmd::Doctor));
    assert_eq!(parse("glide index build"), Some(Cmd::IndexBuild));
}

#[test]
fn questions_are_left_for_the_router() {
    assert_eq!(parse("who owns billing/charge.py"), None);
    assert_eq!(parse("i need access to pomelo"), None);
    assert_eq!(parse(""), None);
}

#[test]
fn digest_days_and_bad_numbers() {
    assert_eq!(
        parse("friction digest 30"),
        Some(Cmd::FrictionDigest { since_days: 30 })
    );
    assert_eq!(
        parse("friction digest -2"),
        Some(Cmd::FrictionDigest { since_days: -2 })
    );
    assert_eq!(
        parse("friction digest soon"),
        Some(Cmd::FrictionDigest { since_days: 7 })
    );
    assert_eq!(
        parse("friction digest 99999999999999999999"),
        Some(Cmd::FrictionDigest { since_days: 7 })
    );
}

#[test]
fn severity_edge_cases() {
    match parse("friction log x -s 0") {
        Some(Cmd::FrictionLog { severity, .. }) => assert_eq!(severity, 1),
        other => panic!("{other:?}"),
    }
    match parse("friction log x --severity 256 -c tooling") {
        Some(Cmd::FrictionLog { severity, category, .. }) => {
            assert_eq!(severity, 3);
            assert_eq!(category, "tooling");
        }
        other => panic!("{other:?}"),
    }
    match parse("friction log x --severity") {
        Some(Cmd::FrictionLog { severity, subject, .. }) => {
            assert_eq!(severity, 3);
            assert_eq!(subject, "x");
        }
        other => panic!("{other:?}"),
    }
}

#[test]
fn tools_install_defaults_to_repomix() {
    assert_eq!(parse("tools install"), Some(Cmd::ToolsInstall("repomix".into())));
    assert_eq!(parse("tools install jq"), Some(Cmd::ToolsInstall("jq".into())));
    assert_eq!(parse("who-owns  src/a.rs "), Some(Cmd::WhoOwns("src/a.rs".into())));
    assert_eq!(parse("\u{3000}glide\u{a0}doctor"), None);
    assert_eq!(parse("  glide   models\t"), Some(Cmd::Models));
}
