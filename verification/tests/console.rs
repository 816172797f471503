use glide::console::app::{Action, App, Effect, Mode};
use glide::console::block::{Block, BlockBody, BlockStatus};
use glide::console::input::{action_for, Key, KeyCode};
use glide::console::render::{block_lines, block_plain_text, who_owns_lines, wrap_line, Line, Span, Tone};
use glide::graph::{OwnerHit, OwnerKind};
use glide::verbs::request::RequestResponse;
use glide::verbs::who_owns::WhoOwnsResponse;

fn app() -> App {
    App::new("acme", "0 owners", true)
}

fn fake_body(input: &str) -> BlockBody {
    BlockBody::Notice {
        title: format!("ran: {input}"),
        lines: vec![],
    }
}

fn run_effect(a: &mut App, effect: Option<Effect>) -> Option<Effect> {
    match effect {
        Some(Effect::Run(input)) => {
            a.finish_submit(fake_body(&input), 1);
            None
        }
        other => other,
    }
}

fn type_line(a: &mut App, s: &str) {
    for c in s.chars() {
        a.update(Action::Insert(c));
    }
    let e = a.update(Action::Submit);
    run_effect(a, e);
}

#[test]
fn launches_with_a_welcome_block() {
    let a = app();
    assert_eq!(a.blocks.len(), 1);
    assert_eq!(a.blocks[0].status(), BlockStatus::Notice);
}

#[test]
fn submitting_appends_a_block_and_clears_the_prompt() {
    let mut a = app();
    type_line(&mut a, "who owns billing");
    assert_eq!(a.blocks.len(), 2);
    assert_eq!(a.blocks[1].input, "who owns billing");
    assert!(a.input.is_empty());
    assert_eq!(a.cursor, 0);
}

#[test]
fn blank_submit_does_nothing() {
    let mut a = app();
    let e = a.update(Action::Submit);
    run_effect(&mut a, e);
    assert_eq!(a.blocks.len(), 1);
}

#[test]
fn a_running_block_is_on_screen_before_the_answer_arrives() {
    let mut a = app();
    for c in "index build".chars() {
        a.update(Action::Insert(c));
    }
    let effect = a.update(Action::Submit);

    assert_eq!(effect, Some(Effect::Run("index build".into())));
    assert_eq!(a.blocks.len(), 2);
    assert_eq!(a.blocks[1].status(), BlockStatus::Running);

    let id = a.blocks[1].id;
    a.finish_submit(fake_body("index build"), 1200);
    assert_eq!(
        a.blocks.len(),
        2,
        "the answer replaced the block, not appended"
    );
    assert_eq!(a.blocks[1].id, id);
    assert_eq!(a.blocks[1].status(), BlockStatus::Notice);
    assert_eq!(a.blocks[1].elapsed_ms, 1200);
}

#[test]
fn builtins_never_reach_the_engine() {
    let mut a = app();
    for c in "help".chars() {
        a.update(Action::Insert(c));
    }
    assert_eq!(a.update(Action::Submit), None);
}

#[test]
fn backspace_respects_multibyte_characters() {
    let mut a = app();
    for c in "héllo".chars() {
        a.update(Action::Insert(c));
    }
    a.update(Action::Backspace);
    assert_eq!(a.input, "héll");
    a.update(Action::Home);
    a.update(Action::Delete);
    assert_eq!(a.input, "éll");
}

#[test]
fn focus_clamps_at_both_ends() {
    let mut a = app();
    type_line(&mut a, "one");
    type_line(&mut a, "two");
    a.update(Action::EnterBlockMode);
    assert_eq!(a.focus, Some(2));
    a.update(Action::FocusNext);
    assert_eq!(a.focus, Some(2));
    for _ in 0..10 {
        a.update(Action::FocusPrev);
    }
    assert_eq!(a.focus, Some(0));
}

#[test]
fn collapse_toggles_the_focused_block_only() {
    let mut a = app();
    type_line(&mut a, "one");
    a.update(Action::EnterBlockMode);
    a.update(Action::ToggleCollapse);
    assert!(a.blocks[1].collapsed);
    assert!(!a.blocks[0].collapsed);
    a.update(Action::ToggleCollapse);
    assert!(!a.blocks[1].collapsed);
}

#[test]
fn copy_returns_the_focused_block_as_text() {
    let mut a = app();
    type_line(&mut a, "who owns billing");
    a.update(Action::EnterBlockMode);
    let effect = a.update(Action::Copy);
    match effect {
        Some(Effect::Copy(text)) => assert!(text.contains("who owns billing")),
        other => panic!("expected a copy effect, got {other:?}"),
    }
}

#[test]
fn rerun_submits_the_focused_input_again() {
    let mut a = app();
    type_line(&mut a, "who owns billing");
    a.update(Action::EnterBlockMode);
    a.update(Action::Rerun);
    assert_eq!(a.blocks.len(), 3);
    assert_eq!(a.blocks[2].input, "who owns billing");
    assert_eq!(a.mode, Mode::Prompt);
}

#[test]
fn rerun_on_the_welcome_block_is_a_no_op() {
    let mut a = app();
    a.update(Action::EnterBlockMode);
    a.update(Action::Rerun);
    assert_eq!(a.blocks.len(), 1);
    assert!(a.status_msg.is_some());
}

#[test]
fn clear_drops_every_block_and_releases_focus() {
    let mut a = app();
    type_line(&mut a, "one");
    a.update(Action::EnterBlockMode);
    type_line(&mut a, "clear");
    assert!(a.blocks.is_empty());
    assert_eq!(a.focus, None);
}

#[test]
fn exit_quits() {
    let mut a = app();
    type_line(&mut a, "exit");
    assert!(a.should_quit);
}

#[test]
fn help_renders_as_a_block_not_a_verb_call() {
    let mut a = app();
    type_line(&mut a, "help");
    assert_eq!(a.blocks.len(), 2);
    match &a.blocks[1].body {
        BlockBody::Notice { title, lines } => {
            assert_eq!(title, "keys and verbs");
            assert!(lines.iter().any(|l| l.contains("block mode")));
            assert!(lines.iter().any(|l| l.contains("doctor")));
        }
        other => panic!("expected a notice, got {other:?}"),
    }
}

#[test]
fn block_mode_needs_a_block_to_focus() {
    let mut a = app();
    type_line(&mut a, "clear");
    a.update(Action::EnterBlockMode);
    assert_eq!(a.mode, Mode::Prompt);
    assert_eq!(a.focus, None);
}

#[test]
fn typing_then_backspace_gives_the_input_back() {
    let mut a = app();
    type_line(&mut a, "");
    for c in "ab".chars() {
        a.update(Action::Insert(c));
    }
    a.update(Action::Left);
    a.update(Action::Insert('x'));
    assert_eq!(a.input, "axb");
    assert_eq!(a.cursor, 2);
    a.update(Action::Backspace);
    assert_eq!(a.input, "ab");
    assert_eq!(a.cursor, 1);
    a.update(Action::End);
    assert_eq!(a.cursor, 2);
    a.update(Action::Right);
    assert_eq!(a.cursor, 2);
}

#[test]
fn copy_names_the_block_it_copied() {
    let mut a = app();
    type_line(&mut a, "doctor");
    a.update(Action::EnterBlockMode);
    a.update(Action::Copy);
    assert_eq!(a.status_msg.as_deref(), Some("copied block 1"));
}

#[test]
fn scrolling_stops_at_the_top_and_releases_the_view() {
    let mut a = app();
    a.update(Action::ScrollDown);
    assert_eq!(a.scroll, 3);
    a.update(Action::ScrollUp);
    a.update(Action::ScrollUp);
    assert_eq!(a.scroll, 0);
    assert!(!a.follow);
}

#[test]
fn quit_and_exit_block_mode() {
    let mut a = app();
    a.update(Action::EnterBlockMode);
    assert_eq!(a.mode, Mode::Block);
    assert_eq!(a.focus, Some(0));
    a.update(Action::ExitBlockMode);
    assert_eq!(a.mode, Mode::Prompt);
    assert_eq!(a.focus, None);
    a.update(Action::Quit);
    assert!(a.should_quit);
}

fn key(c: char) -> Key {
    Key {
        code: KeyCode::Char(c),
        ctrl: false,
    }
}
fn ctrl(c: char) -> Key {
    Key {
        code: KeyCode::Char(c),
        ctrl: true,
    }
}
fn code(c: KeyCode) -> Key {
    Key { code: c, ctrl: false }
}

#[test]
fn letters_type_in_prompt_mode_and_navigate_in_block_mode() {
    assert_eq!(
        action_for(key('j'), Mode::Prompt),
        Some(Action::Insert('j'))
    );
    assert_eq!(action_for(key('j'), Mode::Block), Some(Action::FocusNext));
}

#[test]
fn ctrl_keys_work_in_both_modes() {
    for mode in [Mode::Prompt, Mode::Block] {
        assert_eq!(action_for(ctrl('c'), mode), Some(Action::Quit));
        assert_eq!(action_for(ctrl('k'), mode), Some(Action::EnterBlockMode));
        assert_eq!(action_for(ctrl('u'), mode), Some(Action::ScrollUp));
        assert_eq!(action_for(ctrl('d'), mode), Some(Action::ScrollDown));
    }
}

#[test]
fn enter_submits_at_the_prompt_and_folds_in_block_mode() {
    assert_eq!(
        action_for(code(KeyCode::Enter), Mode::Prompt),
        Some(Action::Submit)
    );
    assert_eq!(
        action_for(code(KeyCode::Enter), Mode::Block),
        Some(Action::ToggleCollapse)
    );
}

#[test]
fn esc_moves_between_the_two_modes() {
    assert_eq!(
        action_for(code(KeyCode::Esc), Mode::Prompt),
        Some(Action::EnterBlockMode)
    );
    assert_eq!(
        action_for(code(KeyCode::Esc), Mode::Block),
        Some(Action::ExitBlockMode)
    );
}

#[test]
fn unmapped_keys_are_ignored_rather_than_guessed_at() {
    assert_eq!(action_for(code(KeyCode::Other), Mode::Prompt), None);
    assert_eq!(action_for(key('z'), Mode::Block), None);
}

fn hit(handle: &str, weight: f64) -> OwnerHit {
    OwnerHit {
        owner_handle: handle.into(),
        owner_kind: OwnerKind::Person,
        weight_rank: weight.to_bits(),
        weight_text: format!("{:.2}", weight),
        source: "codeowners".into(),
        evidence: Some(".github/CODEOWNERS:12".into()),
        matched_pattern: "billing/*".into(),
    }
}

fn who_owns_block() -> Block {
    Block::new(
        0,
        "who owns billing/charge.py".to_string(),
        BlockBody::WhoOwns(Box::new(WhoOwnsResponse {
            query: "billing/charge.py".into(),
            hits: vec![hit("priya", 0.62), hit("marvin", 0.31)],
            include_evidence: true,
        })),
        3,
    )
}

fn text_of(l: &Line) -> String {
    l.spans.iter().map(|s| s.text.as_str()).collect()
}

#[test]
fn a_who_owns_block_shows_every_owner_with_its_evidence() {
    let text = block_plain_text(&who_owns_block());
    assert!(text.contains("who owns billing/charge.py"));
    assert!(text.contains("@priya"));
    assert!(text.contains("@marvin"));
    assert!(text.contains("why  .github/CODEOWNERS:12"));
}

#[test]
fn a_collapsed_block_renders_its_header_and_nothing_else() {
    let mut b = who_owns_block();
    b.collapsed = true;
    let lines = block_lines(&b, false, 80);
    assert_eq!(lines.len(), 2);
    let header = text_of(&lines[0]);
    assert!(header.starts_with("▸ "));
    assert!(header.contains("who-owns"));
    assert!(!header.contains("@priya"));
}

#[test]
fn the_focused_block_gets_the_saffron_gutter() {
    let b = who_owns_block();
    let unfocused = block_lines(&b, false, 80);
    let focused = block_lines(&b, true, 80);
    assert_eq!(unfocused[1].spans[0].text, "  │ ");
    assert_eq!(focused[1].spans[0].text, "  ┃ ");
    assert_eq!(focused[1].spans[0].tone, Tone::Accent);
}

#[test]
fn an_empty_result_says_so_instead_of_rendering_nothing() {
    let r = WhoOwnsResponse {
        query: "nowhere.rs".into(),
        hits: vec![],
        include_evidence: true,
    };
    let text: String = who_owns_lines(&r).iter().map(text_of).collect();
    assert!(text.contains("no owner in the graph for nowhere.rs"));
    assert!(text.contains("glide index build"));
}

#[test]
fn every_wrapped_body_line_keeps_its_gutter() {
    let long = "Hi team — could we get pomelo access for the new hire? \
                Blocking ramp; happy to provide context.";
    let block = Block::new(
        0,
        "i need access to pomelo".to_string(),
        BlockBody::Request(Box::new(RequestResponse {
            permission: "pomelo".into(),
            for_person: None,
            draft_message: long.into(),
            channels: vec!["slack:#access-requests".into()],
            status: "draft",
        })),
        1,
    );
    let lines = block_lines(&block, false, 48);
    assert!(lines.len() > 4, "the long draft should have wrapped");
    for line in lines.iter().skip(1) {
        let text = text_of(line);
        assert!(
            text.is_empty() || text.starts_with("  │ "),
            "line lost its gutter: {text:?}"
        );
        assert!(
            text.chars().count() <= 48,
            "line ran past the width: {text:?}"
        );
    }
}

fn span(text: &str, tone: Tone) -> Span {
    Span {
        text: text.to_string(),
        tone,
    }
}

#[test]
fn wrapping_preserves_the_style_of_every_span() {
    let line = Line {
        spans: vec![
            span("@someone-with-a-long-handle", Tone::Accent),
            span(
                "   0.97  via git-history and a very long trailing explanation",
                Tone::Dim,
            ),
        ],
    };
    let wrapped = wrap_line(line, 30);
    assert!(wrapped.len() > 1);
    assert_eq!(wrapped[0].spans[0].tone, Tone::Accent);
    let dim_spans = wrapped
        .iter()
        .flat_map(|l| l.spans.iter())
        .filter(|s| s.tone == Tone::Dim)
        .count();
    assert!(dim_spans > 0, "the dim half of the line lost its style");
}

#[test]
fn a_notice_answering_a_typed_line_keeps_its_title_visible() {
    let block = Block::new(
        0,
        "friction log blocked on staging".to_string(),
        BlockBody::Notice {
            title: "friction log needs writes, and this session is --safe".into(),
            lines: vec!["Restart without `--safe` to allow it.".into()],
        },
        0,
    );
    let text = block_plain_text(&block);
    assert!(text.contains("friction log blocked on staging"));
    assert!(text.contains("needs writes"));
}

#[test]
fn a_notice_the_header_already_states_is_not_repeated() {
    let block = Block::new(
        0,
        "config get llm.anthropic.model".to_string(),
        BlockBody::Notice {
            title: "llm.anthropic.model".into(),
            lines: vec!["a-model".into()],
        },
        0,
    );
    let body_line_count = block_lines(&block, false, 80).len();
    assert_eq!(body_line_count, 3);
}

#[test]
fn a_short_line_is_returned_untouched() {
    let line = Line {
        spans: vec![span("short", Tone::Body)],
    };
    assert_eq!(wrap_line(line, 40).len(), 1);
}

#[test]
fn wrapped_continuations_keep_the_indent() {
    let line = Line {
        spans: vec![span("    alpha beta gamma delta epsilon", Tone::Body)],
    };
    let wrapped = wrap_line(line, 16);
    let texts: Vec<String> = wrapped.iter().map(text_of).collect();
    assert_eq!(
        texts,
        vec!["    alpha beta", "    gamma delta", "    epsilon"]
    );
}

#[test]
fn the_plain_text_is_the_header_then_each_line() {
    let block = Block::new(
        4,
        String::new(),
        BlockBody::Notice {
            title: "t".into(),
            lines: vec!["a  ".into(), "b".into()],
        },
        0,
    );
    assert_eq!(block_plain_text(&block), "t\na\nb");
}

#[test]
fn the_header_shows_kind_time_and_status() {
    let b = Block::new(
        1,
        "doctor".to_string(),
        BlockBody::Error {
            message: "boom".into(),
        },
        12,
    );
    let lines = block_lines(&b, false, 80);
    assert_eq!(text_of(&lines[0]), "▾ doctor  error  12ms  ✗");
    assert_eq!(text_of(&lines[1]), "  │ boom");
    assert_eq!(lines[2].spans.len(), 0);
}

#[test]
fn the_view_follows_the_newest_rows_or_stays_within_them() {
    let mut app = glide::console::app::App::new("repo", "stats", true);
    app.follow = true;
    app.settle_scroll(30, 10);
    assert_eq!(app.scroll, 20);
    app.follow = false;
    app.scroll = 50;
    app.settle_scroll(30, 10);
    assert_eq!(app.scroll, 20);
    app.scroll = 5;
    app.settle_scroll(30, 10);
    assert_eq!(app.scroll, 5);
    app.settle_scroll(4, 10);
    assert_eq!(app.scroll, 0);
}

#[test]
fn all_lines_are_every_blocks_lines_in_order() {
    let app = glide::console::app::App::new("repo", "stats", true);
    let one = glide::console::render::block_lines(&app.blocks[0], false, 60);
    let all = glide::console::render::all_lines(&app.blocks, None, 60);
    assert_eq!(all.len(), one.len());
}

#[test]
fn wrapping_moves_only_spaces() {
    let line = Line {
        spans: vec![
            span("  owners of src/graph.rs ", Tone::Accent),
            span("are @core and @infra, by blame and by history", Tone::Dim),
        ],
    };
    let before: String = text_of(&line).chars().filter(|c| *c != ' ').collect();
    let wrapped = wrap_line(line, 20);
    assert!(wrapped.len() > 1);
    let after: String = wrapped
        .iter()
        .map(text_of)
        .collect::<String>()
        .chars()
        .filter(|c| *c != ' ')
        .collect();
    assert_eq!(after, before);
}

#[test]
fn short_words_wrap_within_the_width() {
    let line = Line {
        spans: vec![span("one two three four five six seven eight nine ten", Tone::Body)],
    };
    let wrapped = wrap_line(line, 12);
    assert!(wrapped.len() > 1);
    for l in &wrapped {
        assert!(text_of(l).chars().count() <= 12, "{:?}", text_of(l));
    }
}
