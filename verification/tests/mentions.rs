use glide::index::doc_mentions;
use glide::mentions::team_mentions;

fn pairs(v: &[(&str, &str)]) -> Vec<(String, String)> {
    v.iter().map(|(a, b)| (a.to_string(), b.to_string())).collect()
}

fn by_regex(body: &str) -> Vec<(String, String)> {
    let re = regex::Regex::new(
        r"@([a-zA-Z0-9._-]+/[a-zA-Z0-9._-]+)[^\n]{0,40}?(?:owns|->|owns:|:)\s*([A-Za-z0-9_./*-]+)",
    )
    .unwrap();
    re.captures_iter(body).map(|c| (c[1].to_string(), c[2].to_string())).collect()
}

#[test]
fn the_two_documented_shapes_are_found() {
    assert_eq!(
        doc_mentions("@glide/billing owns src/billing/**\nOwner: @glide/api  ->  src/api/\n"),
        pairs(&[("glide/billing", "src/billing/**"), ("glide/api", "src/api/")])
    );
}

#[test]
fn a_marker_more_than_forty_characters_on_or_past_a_line_break_is_not_a_mention() {
    let far = format!("@a/b {} owns x", "y".repeat(41));
    assert_eq!(team_mentions(&far), Vec::new());
    assert_eq!(team_mentions("@a/b\nowns x"), Vec::new());
    assert_eq!(team_mentions("@a/b owns"), Vec::new());
}

#[test]
fn owns_colon_and_a_cut_team_name_are_read_as_the_pattern_reads_them() {
    assert_eq!(team_mentions("@a/b owns: src/"), pairs(&[("a/b", "src/")]));
    assert_eq!(team_mentions("@a/xowns src"), pairs(&[("a/x", "src")]));
}

#[test]
fn the_grammar_agrees_with_the_team_document_pattern() {
    let samples = [
        "",
        "@glide/billing owns src/billing/**",
        "Owner: @glide/api  ->  src/api/",
        "@a/b owns: src/ and @c/d: lib/*.rs",
        "@a/xowns src",
        "@a/b\u{3000}owns\u{2028}x",
        "@@a/b -> x @a//b -> y",
        "@a.b-c/d_e   :   ./p*q",
        "@a/b owns\n x",
        "@a/b owns -> : owns: q",
        "see @org/team, which owns docs/ (and @org/other -> tests/)",
        "@a/b ownsowns x",
        "@a/b ::::: x",
        "@a/b é: x",
    ];
    for s in samples {
        assert_eq!(team_mentions(s), by_regex(s), "{s:?}");
    }
    let long = format!("@a/b{}: z", " ".repeat(40));
    assert_eq!(team_mentions(&long), by_regex(&long));
    let longer = format!("@a/b{}: z", " ".repeat(41));
    assert_eq!(team_mentions(&longer), by_regex(&longer));
}
