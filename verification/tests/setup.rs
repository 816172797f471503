use glide::hooks::{add_hook, hook_present, remove_hook, SessionHooks};
use glide::settings_edit::JsonNode;
use glide::setup::{
    empty_settings, parse_settings_json, session_hooks_of, settings_with_hooks, setup_step, SetupStep,
};
use glide::terminal::{refusal_text, setup_lines, warp_lines};

fn groups(h: &SessionHooks) -> usize {
    match h {
        SessionHooks::Groups(g) => g.len(),
        _ => panic!("expected groups"),
    }
}

fn member<'a>(n: &'a JsonNode, key: &str) -> Option<&'a JsonNode> {
    match n {
        JsonNode::Object(es, _) => es.iter().find(|(k, _)| k == key).map(|(_, v)| v),
        _ => None,
    }
}

#[test]
fn the_settings_file_is_read_into_its_session_start_groups() {
    let root = parse_settings_json(
        r#"{"hooks": {"SessionStart": [{"hooks": [{"type": "command", "command": "other"}]}], "Stop": []}}"#,
    )
    .expect("valid JSON");
    let mut hooks = session_hooks_of(&root);
    assert_eq!(groups(&hooks), 1);
    assert!(!hook_present(&hooks));
    add_hook(&mut hooks);
    assert!(hook_present(&hooks));
    assert_eq!(groups(&hooks), 2);
}

#[test]
fn writing_back_keeps_the_rest_of_a_group_and_of_the_file() {
    let root = parse_settings_json(
        r#"{"model": "m", "hooks": {"SessionStart": [{"matcher": "x", "hooks": [{"type": "command", "command": "glide prime --hook-json"}, {"type": "command", "command": "other", "timeout": 9}]}]}}"#,
    )
    .unwrap();
    let mut hooks = session_hooks_of(&root);
    remove_hook(&mut hooks);
    let back = settings_with_hooks(&root, &hooks);
    assert!(matches!(member(&back, "model"), Some(JsonNode::Text(t)) if t == "m"));
    let group = match member(member(&back, "hooks").unwrap(), "SessionStart").unwrap() {
        JsonNode::Array(a, _) => &a[0],
        _ => panic!("SessionStart is a list"),
    };
    assert!(matches!(member(group, "matcher"), Some(JsonNode::Text(t)) if t == "x"));
    let kept = match member(group, "hooks").unwrap() {
        JsonNode::Array(a, _) => a,
        _ => panic!("hooks is a list"),
    };
    assert_eq!(kept.len(), 1);
    assert!(matches!(member(&kept[0], "command"), Some(JsonNode::Text(t)) if t == "other"));
    assert!(matches!(member(&kept[0], "timeout"), Some(JsonNode::Rendered(t)) if t == "9"));
}

#[test]
fn the_added_group_is_written_whole_into_an_empty_file() {
    let root = empty_settings();
    let mut hooks = session_hooks_of(&root);
    add_hook(&mut hooks);
    let back = settings_with_hooks(&root, &hooks);
    let list = match member(member(&back, "hooks").unwrap(), "SessionStart").unwrap() {
        JsonNode::Array(a, _) => a,
        _ => panic!("SessionStart is a list"),
    };
    assert_eq!(list.len(), 1);
    assert!(matches!(member(&list[0], "matcher"), Some(JsonNode::Text(t)) if t.is_empty()));
    let hs = match member(&list[0], "hooks").unwrap() {
        JsonNode::Array(a, _) => a,
        _ => panic!("hooks is a list"),
    };
    assert!(matches!(member(&hs[0], "type"), Some(JsonNode::Text(t)) if t == "command"));
    assert!(matches!(member(&hs[0], "command"), Some(JsonNode::Text(t)) if t == "glide prime --hook-json"));
    assert!(matches!(member(&hs[0], "timeout"), Some(JsonNode::Rendered(t)) if t == "5"));
}

#[test]
fn an_installed_hook_is_found_and_invalid_json_is_refused() {
    let root = parse_settings_json(
        r#"{"hooks": {"SessionStart": [{"matcher": "", "hooks": [{"type": "command", "command": "glide prime --hook-json", "timeout": 5}]}]}}"#,
    )
    .unwrap();
    assert!(hook_present(&session_hooks_of(&root)));
    assert!(parse_settings_json("{not json").is_none());
}

#[test]
fn files_without_a_place_for_hooks_are_told_apart() {
    assert!(matches!(session_hooks_of(&empty_settings()), SessionHooks::NoList));
    assert!(matches!(session_hooks_of(&parse_settings_json("[1, 2]").unwrap()), SessionHooks::Unwritable));
    assert!(matches!(
        session_hooks_of(&parse_settings_json(r#"{"hooks": []}"#).unwrap()),
        SessionHooks::Unwritable
    ));
    assert!(matches!(
        session_hooks_of(&parse_settings_json(r#"{"hooks": {"SessionStart": 3}}"#).unwrap()),
        SessionHooks::NoList
    ));
}

#[test]
fn the_setup_step_weighs_check_then_safe_then_remove() {
    let none = SessionHooks::NoList;
    let mut with = SessionHooks::NoList;
    add_hook(&mut with);
    assert_eq!(setup_step(true, true, true, &with), SetupStep::ReportInstalled);
    assert_eq!(setup_step(true, false, false, &none), SetupStep::ReportMissing);
    assert_eq!(setup_step(false, true, true, &with), SetupStep::RefuseSafe);
    assert_eq!(setup_step(false, false, true, &none), SetupStep::NothingToRemove);
    assert_eq!(setup_step(false, false, true, &with), SetupStep::Remove);
    assert_eq!(setup_step(false, false, false, &with), SetupStep::AlreadyInstalled);
    assert_eq!(setup_step(false, false, false, &none), SetupStep::Add);
}

#[test]
fn setup_reports_what_it_did() {
    assert_eq!(
        setup_lines(SetupStep::ReportMissing, ".agent/settings.json", "agent", false),
        vec![
            "✗ no glide hook in .agent/settings.json",
            "run `glide setup agent` (add --global for every project)",
        ]
    );
    assert_eq!(setup_lines(SetupStep::Add, "p", "a", false).len(), 3);
    assert_eq!(refusal_text("p"), "--safe: refusing to write p");
    assert_eq!(warp_lines(false)[0], "glide setup warp");
}
