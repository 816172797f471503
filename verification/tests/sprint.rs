use glide::sprint::{first_open_match, name_ok, SprintItem};

fn item(text: &str, done: bool) -> SprintItem {
    SprintItem { text: text.to_string(), done }
}

#[test]
fn the_first_open_item_holding_the_text_is_picked_whatever_the_case() {
    let items = vec![
        item("Ship the Portal tests", true),
        item("review the PORTAL copy", false),
        item("portal launch", false),
    ];
    assert_eq!(first_open_match(&items, "  portal "), Some(1));
    assert_eq!(first_open_match(&items, "launch"), Some(2));
    assert_eq!(first_open_match(&items, "ship"), None);
}

#[test]
fn an_empty_text_picks_the_first_open_item() {
    let items = vec![item("a", true), item("b", false)];
    assert_eq!(first_open_match(&items, ""), Some(1));
    assert_eq!(first_open_match(&items, "   "), Some(1));
    assert_eq!(first_open_match(&vec![item("a", true)], ""), None);
}

#[test]
fn lower_casing_is_not_only_ascii() {
    let items = vec![item("École ouverte", false)];
    assert_eq!(first_open_match(&items, "ÉCOLE"), Some(0));
}

#[test]
fn a_sprint_needs_a_name() {
    assert!(name_ok(" week 12 "));
    assert!(!name_ok("   "));
    assert!(!name_ok(""));
}
