use glide::hooks::{
    add_hook, hook_command_text, hook_present, remove_hook, HookEntry, HookGroup, SessionHooks,
};
use glide::settings_edit::JsonNode;
use glide::setup::{parse_settings_json, session_hooks_of, settings_with_hooks};

fn groups(root: &SessionHooks) -> &Vec<HookGroup> {
    match root {
        SessionHooks::Groups(gs) => gs,
        _ => panic!("expected a list of groups"),
    }
}

fn other_group() -> HookGroup {
    HookGroup {
        hooks: Some(vec![HookEntry { command: Some("other".to_string()), origin: Some(0) }]),
        origin: Some(0),
    }
}

fn member<'a>(n: &'a JsonNode, key: &str) -> Option<&'a JsonNode> {
    match n {
        JsonNode::Object(es, _) => es.iter().find(|(k, _)| k == key).map(|(_, v)| v),
        _ => None,
    }
}

fn session_start_len(root: &JsonNode) -> usize {
    match member(member(root, "hooks").unwrap(), "SessionStart").unwrap() {
        JsonNode::Array(a, _) => a.len(),
        _ => panic!("SessionStart is a list"),
    }
}

#[test]
fn add_then_remove_leaves_other_hooks_alone() {
    let root = parse_settings_json(
        r#"{"hooks": {"SessionStart": [{"hooks": [{"type": "command", "command": "other"}]}], "Stop": []}}"#,
    )
    .unwrap();
    let mut hooks = session_hooks_of(&root);
    assert!(!hook_present(&hooks));
    add_hook(&mut hooks);
    let root = settings_with_hooks(&root, &hooks);
    let mut hooks = session_hooks_of(&root);
    assert!(hook_present(&hooks));
    assert_eq!(session_start_len(&root), 2);
    remove_hook(&mut hooks);
    let root = settings_with_hooks(&root, &hooks);
    assert!(!hook_present(&session_hooks_of(&root)));
    assert_eq!(session_start_len(&root), 1);
    assert!(matches!(member(member(&root, "hooks").unwrap(), "Stop"), Some(JsonNode::Array(_, _))));
}

#[test]
fn add_then_remove_in_the_model_keeps_other_groups() {
    let mut root = SessionHooks::Groups(vec![other_group()]);
    assert!(!hook_present(&root));
    add_hook(&mut root);
    assert!(hook_present(&root));
    assert_eq!(groups(&root).len(), 2);
    remove_hook(&mut root);
    assert!(!hook_present(&root));
    assert_eq!(groups(&root).len(), 1);
    let kept = &groups(&root)[0];
    assert_eq!(kept.origin, Some(0));
    let hooks = kept.hooks.as_ref().unwrap();
    assert_eq!(hooks.len(), 1);
    assert_eq!(hooks[0].command.as_deref(), Some("other"));
}

#[test]
fn add_is_idempotent_by_command() {
    let mut root = SessionHooks::NoList;
    add_hook(&mut root);
    assert!(hook_present(&root));
    remove_hook(&mut root);
    add_hook(&mut root);
    assert_eq!(groups(&root).len(), 1);
}

#[test]
fn the_added_group_runs_the_prime_hook_and_comes_from_nowhere() {
    let mut root = SessionHooks::Groups(Vec::new());
    add_hook(&mut root);
    let g = &groups(&root)[0];
    assert_eq!(g.origin, None);
    let hooks = g.hooks.as_ref().unwrap();
    assert_eq!(hooks.len(), 1);
    assert_eq!(hooks[0].command.as_deref(), Some("glide prime --hook-json"));
    assert_eq!(hook_command_text(), "glide prime --hook-json");
}

#[test]
fn removing_takes_only_the_prime_hook_out_of_a_shared_group() {
    let mut root = SessionHooks::Groups(vec![HookGroup {
        hooks: Some(vec![
            HookEntry { command: Some("before".to_string()), origin: Some(0) },
            HookEntry { command: Some("glide prime --hook-json".to_string()), origin: Some(1) },
            HookEntry { command: None, origin: Some(2) },
        ]),
        origin: Some(3),
    }]);
    assert!(hook_present(&root));
    remove_hook(&mut root);
    assert!(!hook_present(&root));
    let g = &groups(&root)[0];
    assert_eq!(g.origin, Some(3));
    let hooks = g.hooks.as_ref().unwrap();
    assert_eq!(hooks.len(), 2);
    assert_eq!(hooks[0].origin, Some(0));
    assert_eq!(hooks[1].origin, Some(2));
}

#[test]
fn groups_whose_hooks_are_not_a_list_are_dropped_on_removal() {
    let mut root = SessionHooks::Groups(vec![
        HookGroup { hooks: None, origin: Some(0) },
        HookGroup { hooks: Some(Vec::new()), origin: Some(1) },
        HookGroup {
            hooks: Some(vec![HookEntry { command: Some("other".to_string()), origin: Some(0) }]),
            origin: Some(2),
        },
    ]);
    assert!(!hook_present(&root));
    remove_hook(&mut root);
    assert_eq!(groups(&root).len(), 1);
    assert_eq!(groups(&root)[0].origin, Some(2));
}

#[test]
fn a_file_without_a_list_has_no_hook() {
    assert!(!hook_present(&SessionHooks::NoList));
    assert!(!hook_present(&SessionHooks::Unwritable));
}
