use glide::console::block::BlockBody;
use glide::console::focus::{
    focus_headline, focus_list, focus_step, focus_today, no_vault, FocusItem, FocusStep, FocusWrite,
};

fn error_of(s: FocusStep) -> String {
    match s {
        FocusStep::Answer(BlockBody::Error { message }) => message,
        other => panic!("expected an error answer, got {other:?}"),
    }
}

fn notice_of(b: BlockBody) -> (String, Vec<String>) {
    match b {
        BlockBody::Notice { title, lines } => (title, lines),
        other => panic!("expected a notice, got {other:?}"),
    }
}

#[test]
fn reading_actions_pass_even_in_a_safe_session() {
    assert!(matches!(focus_step("show", true), FocusStep::Show));
    assert!(matches!(focus_step("today", true), FocusStep::Today));
    assert!(matches!(focus_step("show", false), FocusStep::Show));
}

#[test]
fn writes_are_refused_in_a_safe_session() {
    for a in ["set", "done", "capture", "log", "bogus"] {
        assert_eq!(error_of(focus_step(a, true)), "--safe: refusing to write to the vault");
    }
}

#[test]
fn each_write_action_names_its_change() {
    assert!(matches!(focus_step("set", false), FocusStep::Write(FocusWrite::SetNow)));
    assert!(matches!(focus_step("done", false), FocusStep::Write(FocusWrite::Done)));
    assert!(matches!(focus_step("capture", false), FocusStep::Write(FocusWrite::Capture)));
    assert!(matches!(focus_step("log", false), FocusStep::Write(FocusWrite::Log)));
}

#[test]
fn an_unknown_action_is_an_error_naming_it() {
    assert_eq!(error_of(focus_step("bogus", false)), "unknown focus action bogus");
}

#[test]
fn headlines_report_what_the_note_did() {
    assert_eq!(focus_headline(FocusWrite::SetNow, "ship the parser", "ignored"), "now: ship the parser");
    assert_eq!(focus_headline(FocusWrite::Done, "review", "rev"), "done: review");
    assert_eq!(focus_headline(FocusWrite::Capture, "", "  call Dana  "), "captured: call Dana");
    assert_eq!(focus_headline(FocusWrite::Log, "", "\tfixed the flake\n"), "logged: fixed the flake");
}

#[test]
fn today_shows_the_note_line_by_line() {
    let (title, lines) = notice_of(focus_today("2024-05-01", "# Today\n- [ ] a\r\n\n- [x] b"));
    assert_eq!(title, "today · 2024-05-01");
    assert_eq!(lines, vec!["# Today", "- [ ] a", "", "- [x] b"]);
}

#[test]
fn the_focus_list_marks_done_items_and_the_current_one() {
    let items = vec![
        FocusItem { text: "ship the parser".into(), done: false, now: true },
        FocusItem { text: "review".into(), done: true, now: false },
    ];
    let (title, lines) = notice_of(focus_list(
        "2024-05-01",
        "1 of 2 done",
        &items,
        Some("done: review".to_string()),
    ));
    assert_eq!(title, "focus · 2024-05-01");
    assert_eq!(
        lines,
        vec![
            "done: review",
            "1 of 2 done",
            "  [ ] ship the parser  ← now",
            "  [x] review",
        ]
    );
    let (_, plain) = notice_of(focus_list("d", "s", &Vec::new(), None));
    assert_eq!(plain, vec!["s"]);
}

#[test]
fn without_a_vault_the_answer_says_how_to_set_one() {
    let (title, lines) = notice_of(no_vault("vault path is not set"));
    assert_eq!(title, "no vault yet");
    assert_eq!(
        lines,
        vec![
            "vault path is not set",
            "Set [vault] path in ~/.glide/config.toml, then try again.",
        ]
    );
}
