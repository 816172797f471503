use glide::hints::{bad_word, nested_hint, nested_verbs, not_in_repo, onboard_text};

#[test]
fn a_verb_that_lives_under_focus_points_at_focus() {
    assert_eq!(
        nested_hint("log").unwrap(),
        "did you mean `glide focus log`?"
    );
    assert_eq!(
        nested_hint("capture").unwrap(),
        "did you mean `glide focus capture`?"
    );
}

#[test]
fn a_verb_that_lives_under_sprint_points_at_sprint() {
    assert_eq!(
        nested_hint("pull").unwrap(),
        "did you mean `glide sprint pull`?"
    );
}

#[test]
fn add_is_told_the_real_verb_rather_than_a_command_that_also_does_not_exist() {
    let h = nested_hint("add").unwrap();
    assert!(h.contains("glide focus capture"), "{h}");
    assert!(!h.contains("focus add"), "{h}");
}

#[test]
fn a_word_that_is_not_a_verb_gets_no_invented_suggestion() {
    assert!(nested_hint("spirnt").is_none());
    assert!(nested_hint("xyzzy").is_none());
}

#[test]
fn every_nested_verb_names_a_real_parent() {
    for (_, parent) in nested_verbs() {
        assert!(
            matches!(parent, "focus" | "sprint"),
            "{parent} is not a command"
        );
    }
}

#[test]
fn the_refusal_names_what_works_instead() {
    let msg = not_in_repo("/Users/someone", None);
    assert!(msg.contains("/Users/someone"));
    assert!(msg.contains("cd into a repo"));
    assert!(msg.contains("focus"), "names a command that works anywhere");
    assert!(msg.contains("prime"));
}

#[test]
fn the_refusal_names_the_command_that_was_typed() {
    let msg = not_in_repo("/tmp/x", Some("who-owns".to_string()));
    assert_eq!(
        msg,
        "`who-owns` reads a repository, and /tmp/x is not inside one.\nhelp: cd into a repo first. The daily-note commands (glide, focus, sprint, prime, show) work anywhere."
    );
}

#[test]
fn a_misplaced_verb_is_explained_in_either_position() {
    assert_eq!(bad_word(&vec!["focus".to_string(), "add".to_string()]), "add");
    assert_eq!(bad_word(&vec!["add".to_string()]), "add");
    assert_eq!(bad_word(&vec!["log".to_string(), "x".to_string()]), "log");
    assert_eq!(bad_word(&vec![]), "");
}

#[test]
fn every_nested_verb_gets_its_full_path() {
    for (verb, parent) in nested_verbs() {
        if verb == "add" {
            continue;
        }
        assert_eq!(
            nested_hint(verb).unwrap(),
            format!("did you mean `glide {parent} {verb}`?")
        );
    }
}

#[test]
fn the_onboarding_paragraph_names_the_verbs() {
    let t = onboard_text();
    assert!(t.starts_with("You also keep my daily priorities with glide."));
    assert!(t.contains("`glide focus capture <text>`"));
    assert!(t.ends_with("Never edit my daily note directly."));
}
