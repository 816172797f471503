use glide::play::{
    failed, help, help_text, log_stamp, play_request, report, seed_date, succeeded, PlayVerb,
};

fn args(line: &str) -> Vec<String> {
    line.split(' ').map(String::from).collect()
}

fn verb(line: &str) -> PlayVerb {
    play_request(&args(line)).verb
}

#[test]
fn the_strip_is_the_default_focus_command() {
    assert_eq!(verb("glide focus"), PlayVerb::Strip);
    assert_eq!(verb("focus show"), PlayVerb::Strip);
    assert_eq!(verb("glide  focus  "), PlayVerb::Strip);
    assert_eq!(play_request(&args("glide focus")).text, "");
}

#[test]
fn today_and_prime_read_the_note() {
    assert_eq!(verb("glide focus today"), PlayVerb::Today);
    assert_eq!(verb("today"), PlayVerb::Today);
    assert_eq!(verb("glide prime"), PlayVerb::Prime);
}

#[test]
fn writes_carry_the_rest_of_the_line_joined_by_single_spaces() {
    let r = play_request(&args("glide focus set ship  the portal tests"));
    assert_eq!(r.verb, PlayVerb::SetNow);
    assert_eq!(r.text, "ship the portal tests");
    let r = play_request(&args("focus done portal"));
    assert_eq!(r.verb, PlayVerb::Done);
    assert_eq!(r.text, "portal");
    assert_eq!(verb("glide focus capture ask about the cache revert"), PlayVerb::Capture);
    assert_eq!(verb("glide focus log fixed the flaky build"), PlayVerb::Log);
}

#[test]
fn flags_unknown_words_and_bare_writes_ask_for_help() {
    assert_eq!(verb("glide focus --help"), PlayVerb::Help);
    assert_eq!(verb("glide focus set -x"), PlayVerb::Help);
    assert_eq!(verb("glide frobnicate"), PlayVerb::Help);
    assert_eq!(verb("glide focus set"), PlayVerb::Help);
    assert_eq!(verb("glide focus show extra"), PlayVerb::Help);
    assert_eq!(verb("glide glide focus"), PlayVerb::Help);
    assert_eq!(verb(""), PlayVerb::Help);
}

#[test]
fn a_write_is_reported_with_a_tick_then_the_strip() {
    assert_eq!(
        report("now", "ship the portal tests", "▶ ship the portal tests · focus 0/1 · 2 open"),
        "✓ now ship the portal tests\n▶ ship the portal tests · focus 0/1 · 2 open\n"
    );
}

#[test]
fn outcomes_carry_their_exit_codes() {
    let ok = succeeded("out\n".into(), "note".into());
    assert_eq!((ok.stdout.as_str(), ok.note.as_str(), ok.exit), ("out\n", "note", 0));
    let bad = failed("nothing matches portal", "note".into());
    assert_eq!(bad.stdout, "error: nothing matches portal\n");
    assert_eq!(bad.exit, 1);
    let h = help("note".into());
    assert_eq!(h.stdout, help_text());
    assert_eq!(h.exit, 2);
    assert!(help_text().starts_with("Usage: glide focus [COMMAND]\n"));
}

#[test]
fn the_demo_is_pinned_to_a_fixed_day_and_clock() {
    assert_eq!(seed_date(), "2026-09-07");
    assert_eq!(log_stamp(), "10:42");
}
