use glide::console::focus::FocusItem;
use glide::daily::{
    clear_plan, cleared_lines, preview_lines, report_lines, show_lines, ClearPlan,
};

fn strings(v: &[&str]) -> Vec<String> {
    v.iter().map(|s| s.to_string()).collect()
}

#[test]
fn a_write_reports_the_tick_then_the_strip_unless_quiet() {
    assert_eq!(
        report_lines("now", "ship it", "▶ ship it · 2 open", false, false),
        strings(&["✓ now ship it", "▶ ship it · 2 open"])
    );
    assert_eq!(report_lines("done", "x", "strip", true, false), strings(&["✓ done x"]));
    assert_eq!(
        report_lines("now", "a", "s", false, true),
        strings(&["\x1b[32m✓ now\x1b[39m a", "\x1b[2ms\x1b[0m"])
    );
}

#[test]
fn show_lists_every_item_and_marks_the_current_one() {
    let items = vec![
        FocusItem { text: "ship".into(), done: false, now: true },
        FocusItem { text: "review".into(), done: true, now: false },
    ];
    assert_eq!(
        show_lines("▶ ship · focus 1/2", &items, false),
        strings(&["▶ ship · focus 1/2", "  [ ] ship  ← now", "  [x] review"])
    );
    assert_eq!(
        show_lines("▶ no focus set", &Vec::new(), false),
        strings(&[
            "▶ no focus set",
            "  (nothing in the focus list yet; `glide focus set <text>` adds one)"
        ])
    );
}

#[test]
fn clearing_asks_twice_before_removing_anything() {
    assert_eq!(clear_plan(0, true), ClearPlan::NothingOpen);
    assert_eq!(clear_plan(2, false), ClearPlan::Preview);
    assert_eq!(clear_plan(2, true), ClearPlan::Remove);
    assert_eq!(
        preview_lines(&strings(&["a", "b"]), false),
        strings(&["2 open, nothing removed:", "  a", "  b", "pass --confirm to remove them"])
    );
    assert_eq!(
        cleared_lines(&strings(&["a"]), false),
        strings(&["cleared 1", "  a"])
    );
}
