use glide::config::{
    apply_env_overrides, coerce, require_repo, CmdCtx, Config, EnvOverrides, Scalar, Stream,
};
use glide::errors::{ExitCode, GlideError};
use glide::output::{dim, header, ok, wants_json, warn, GlobalArgs};
use glide::paths::{ancestors, find_repo_root, path_join, workspace_dir};

fn defaults() -> Config {
    Config::defaults("m-1".to_string())
}

#[test]
fn the_compiled_defaults() {
    let c = defaults();
    assert_eq!(c.graph.db_path, ".glide/glide.db");
    assert!(!c.graph.auto_index_on_command);
    assert_eq!(c.index.exclude, vec!["node_modules/**", "dist/**", "target/**"]);
    assert_eq!(
        c.index.codeowners_paths,
        vec![".github/CODEOWNERS", "CODEOWNERS", "docs/CODEOWNERS"]
    );
    assert_eq!(c.index.git_history_window_days, 365);
    assert!(c.index.repomix.enabled && c.index.repomix.auto_install);
    assert_eq!(c.index.repomix.output, ".glide/repomix.xml");
    assert!(!c.llm.enabled);
    assert_eq!(c.llm.default_provider, "anthropic");
    assert_eq!(c.llm.anthropic.api_key_env, "ANTHROPIC_API_KEY");
    assert_eq!(c.llm.anthropic.model, "m-1");
    assert_eq!(c.output.default_stream, Stream::Human);
    assert_eq!(c.output.color, "auto");
    assert_eq!(c.permissions.mode, "default");
    assert_eq!(c.permissions.deny, vec!["shell:rm -rf *"]);
    assert_eq!(c.vault.daily_note_pattern, "Daily Notes/{date}.md");
    assert_eq!(c.vault.focus_heading, "Focus");
}

#[test]
fn the_last_layer_wins_and_the_environment_wins_over_it() {
    let mut a = defaults();
    a.graph.db_path = "a.db".into();
    let mut b = defaults();
    b.graph.db_path = "b.db".into();
    b.llm.default_provider = "other".into();
    let env = EnvOverrides {
        db_path: Some("env.db".into()),
        ..Default::default()
    };
    let c = Config::load(defaults(), vec![Ok(a), Ok(b)], &env).unwrap();
    assert_eq!(c.graph.db_path, "env.db");
    assert_eq!(c.llm.default_provider, "other");
}

#[test]
fn the_first_unreadable_layer_is_the_error() {
    let r = Config::load(
        defaults(),
        vec![
            Ok(defaults()),
            Err(GlideError::Config("bad one".into())),
            Err(GlideError::Config("bad two".into())),
        ],
        &EnvOverrides::default(),
    );
    match r {
        Err(GlideError::Config(m)) => assert_eq!(m, "bad one"),
        other => panic!("expected the first error, got {other:?}"),
    }
}

#[test]
fn no_layers_means_the_defaults() {
    let c = Config::load(defaults(), vec![], &EnvOverrides::default()).unwrap();
    assert_eq!(c.graph.db_path, ".glide/glide.db");
}

#[test]
fn environment_overrides_each_field() {
    let mut c = defaults();
    let env = EnvOverrides {
        db_path: Some("/x.db".into()),
        vault_path: Some("~/notes".into()),
        daily_note_pattern: Some("{date}.md".into()),
        default_provider: Some("p".into()),
        model: Some("m-2".into()),
        llm_enabled: Some("yes".into()),
        stream: Some("NDJSON".into()),
        no_color: true,
    };
    apply_env_overrides(&mut c, &env);
    assert_eq!(c.graph.db_path, "/x.db");
    assert_eq!(c.vault.path, "~/notes");
    assert_eq!(c.vault.daily_note_pattern, "{date}.md");
    assert_eq!(c.llm.default_provider, "p");
    assert_eq!(c.llm.anthropic.model, "m-2");
    assert!(c.llm.enabled);
    assert_eq!(c.output.default_stream, Stream::Ndjson);
    assert_eq!(c.output.color, "never");
}

#[test]
fn a_bad_stream_is_ignored_and_other_words_switch_the_model_off() {
    let mut c = defaults();
    c.llm.enabled = true;
    let env = EnvOverrides {
        llm_enabled: Some("TRUE".into()),
        stream: Some("loud".into()),
        ..Default::default()
    };
    apply_env_overrides(&mut c, &env);
    assert!(!c.llm.enabled);
    assert_eq!(c.output.default_stream, Stream::Human);
}

#[test]
fn stream_names_round_trip_and_errors_name_the_input() {
    for s in [Stream::Human, Stream::Ndjson, Stream::Off] {
        assert_eq!(Stream::from_str(s.name()).unwrap(), s);
    }
    match Stream::from_str("Loud") {
        Err(e) => {
            assert_eq!(
                e.message(),
                "config error: invalid stream mode: loud (want human|ndjson|off)"
            );
            assert_eq!(ExitCode::from_error(&e).code(), 2);
        }
        Ok(s) => panic!("parsed {s:?}"),
    }
}

#[test]
fn exit_codes_follow_the_error() {
    assert_eq!(ExitCode::from_error(&GlideError::GraphNotInitialized).code(), 3);
    assert_eq!(ExitCode::from_error(&GlideError::Llm("x".into())).code(), 4);
    assert_eq!(ExitCode::from_error(&GlideError::TomlParse("x".into())).code(), 2);
    assert_eq!(ExitCode::from_error(&GlideError::Io("x".into())).code(), 1);
    assert_eq!(ExitCode::Success.code(), 0);
    assert_eq!(
        GlideError::GraphNotInitialized.message(),
        "graph not initialized; run `glide init`"
    );
}

#[test]
fn relative_db_paths_live_under_the_repository() {
    let c = defaults();
    assert_eq!(c.resolved_db_path("/repo"), "/repo/.glide/glide.db");
    let mut d = defaults();
    d.graph.db_path = "/abs/g.db".into();
    assert_eq!(d.resolved_db_path("/repo"), "/abs/g.db");
    let ctx = CmdCtx::new("/r/".into(), defaults());
    assert_eq!(ctx.db_path, "/r/.glide/glide.db");
}

#[test]
fn values_are_coerced_to_the_types_a_file_expects() {
    assert_eq!(coerce("true"), Scalar::Boolean(true));
    assert_eq!(coerce("false"), Scalar::Boolean(false));
    assert_eq!(coerce("500"), Scalar::Integer(500));
    assert_eq!(coerce("-7"), Scalar::Integer(-7));
    assert_eq!(coerce("anthropic"), Scalar::Text("anthropic".into()));
    assert_eq!(coerce("True"), Scalar::Text("True".into()));
    assert_eq!(
        coerce("99999999999999999999"),
        Scalar::Text("99999999999999999999".into())
    );
}

#[test]
fn outside_a_repository_the_refusal_is_the_error() {
    assert_eq!(require_repo("/x", Some("/r".into()), None).unwrap(), "/r");
    match require_repo("/x", None, Some("plan".into())) {
        Err(GlideError::NotInRepo(m)) => {
            assert!(m.starts_with("`plan` reads a repository, and /x is not inside one."))
        }
        other => panic!("{other:?}"),
    }
}

#[test]
fn paths_join_like_the_standard_library() {
    assert_eq!(path_join("/a", "b"), "/a/b");
    assert_eq!(path_join("/a/", "b"), "/a/b");
    assert_eq!(path_join("", "b"), "b");
    assert_eq!(path_join("/a", "/b"), "/b");
    assert_eq!(path_join("a", ""), "a/");
    assert_eq!(workspace_dir("/repo"), "/repo/.glide");
    for (base, p) in [("/a/b", "c"), ("x", "/y"), ("x/", "y"), ("", "")] {
        assert_eq!(
            path_join(base, p),
            std::path::Path::new(base).join(p).to_string_lossy()
        );
    }
}

#[test]
fn the_walk_up_visits_every_parent() {
    assert_eq!(ancestors("/a/b"), vec!["/a/b", "/a", "/"]);
    assert_eq!(ancestors("rel/x"), vec!["rel/x", "rel", ""]);
    assert_eq!(
        find_repo_root("/a/b", &vec![false, true, true]),
        Some("/a".to_string())
    );
    assert_eq!(find_repo_root("/a/b", &vec![false, false, false]), None);
    assert_eq!(find_repo_root("/a/b", &vec![true]), Some("/a/b".to_string()));
}

fn globals(json: bool, stream: Option<Stream>) -> GlobalArgs {
    GlobalArgs {
        stream,
        json,
        no_color: false,
        quiet: false,
        safe: false,
    }
}

#[test]
fn json_is_wanted_for_json_or_ndjson() {
    assert!(wants_json(&globals(true, None)));
    assert!(wants_json(&globals(false, Some(Stream::Ndjson))));
    assert!(!wants_json(&globals(false, Some(Stream::Human))));
    assert!(!wants_json(&globals(false, None)));
}

#[test]
fn colour_wraps_the_text_in_escape_codes() {
    assert_eq!(header("h", true), "\x1b[1mh\x1b[0m");
    assert_eq!(dim("d", true), "\x1b[2md\x1b[0m");
    assert_eq!(ok("o", true), "\x1b[32mo\x1b[39m");
    assert_eq!(warn("w", true), "\x1b[33mw\x1b[39m");
    assert_eq!(header("h", false), "h");
    assert_eq!(warn("w", false), "w");
}

#[test]
fn config_paths_lists_the_layers_low_to_high() {
    let lines = glide::output::layer_lines(Some("/home/u/.glide"), Some("/repo"), false);
    assert_eq!(
        lines,
        vec![
            "config layers (low → high precedence):",
            "  1. compiled defaults",
            "  2. /home/u/.glide/config.toml",
            "  3. /repo/.glide/glide.toml",
            "  4. /repo/.glide/config.local.toml",
            "  5. GLIDE_* env vars",
        ]
    );
    let outside = glide::output::layer_lines(None, None, true);
    assert_eq!(outside.len(), 3);
    assert_eq!(outside[0], "\x1b[1mconfig layers (low → high precedence):\x1b[0m");
    assert_eq!(outside[2], "  \x1b[2m5.\x1b[0m GLIDE_* env vars");
}
