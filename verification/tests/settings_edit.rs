use glide::config::Scalar;
use glide::errors::GlideError;
use glide::settings_edit::{apply_dotted, lookup, JsonNode, TomlNode};

fn table(entries: Vec<(&str, TomlNode)>) -> TomlNode {
    TomlNode::Table(entries.into_iter().map(|(k, v)| (k.to_string(), v)).collect())
}

fn entry<'a>(n: &'a TomlNode, key: &str) -> &'a TomlNode {
    match n {
        TomlNode::Table(t) => &t.iter().find(|(k, _)| k == key).expect("key present").1,
        other => panic!("not a table: {other:?}"),
    }
}

fn written(n: &TomlNode) -> &Scalar {
    match n {
        TomlNode::Written(s) => s,
        other => panic!("not written: {other:?}"),
    }
}

#[test]
fn a_dotted_write_coerces_and_makes_missing_tables() {
    let mut doc = table(vec![("llm", table(vec![("enabled", TomlNode::Other("false".into()))]))]);
    apply_dotted(&mut doc, "llm.enabled", "true").unwrap();
    apply_dotted(&mut doc, "index.max_commits", "500").unwrap();
    apply_dotted(&mut doc, "llm.default_provider", "anthropic").unwrap();
    let llm = entry(&doc, "llm");
    assert_eq!(written(entry(llm, "enabled")), &Scalar::Boolean(true));
    assert_eq!(written(entry(llm, "default_provider")), &Scalar::Text("anthropic".into()));
    assert_eq!(written(entry(entry(&doc, "index"), "max_commits")), &Scalar::Integer(500));
    match llm {
        TomlNode::Table(t) => assert_eq!(t.len(), 2),
        _ => unreachable!(),
    }
}

#[test]
fn writing_through_a_value_that_is_not_a_table_names_the_piece() {
    let mut doc = table(vec![("llm", TomlNode::Other("false".into()))]);
    match apply_dotted(&mut doc, "llm.anthropic.model", "x") {
        Err(GlideError::Config(m)) => assert_eq!(m, "not a table at anthropic"),
        other => panic!("expected a config error, got {other:?}"),
    }
    match apply_dotted(&mut doc, "llm.model", "x") {
        Err(GlideError::Config(m)) => assert_eq!(m, "not a table at leaf"),
        other => panic!("expected a config error, got {other:?}"),
    }
    assert!(matches!(entry(&doc, "llm"), TomlNode::Other(t) if t == "false"));
}

#[test]
fn a_key_without_dots_is_set_at_the_top() {
    let mut doc = table(vec![]);
    apply_dotted(&mut doc, "name", "-12").unwrap();
    assert_eq!(written(entry(&doc, "name")), &Scalar::Integer(-12));
}

fn object(entries: Vec<(&str, JsonNode)>, text: &str) -> JsonNode {
    JsonNode::Object(entries.into_iter().map(|(k, v)| (k.to_string(), v)).collect(), text.into())
}

#[test]
fn a_dotted_read_walks_nested_objects_and_reports_misses() {
    let cfg = object(
        vec![(
            "llm",
            object(
                vec![
                    ("anthropic", object(vec![("model", JsonNode::Text("m-1".into()))], "{\"model\":\"m-1\"}")),
                    ("enabled", JsonNode::Rendered("false".into())),
                ],
                "{...}",
            ),
        )],
        "{...}",
    );
    assert_eq!(lookup(&cfg, "llm.anthropic.model"), Some("m-1".to_string()));
    assert_eq!(lookup(&cfg, "llm.enabled"), Some("false".to_string()));
    assert_eq!(lookup(&cfg, "llm.anthropic"), Some("{\"model\":\"m-1\"}".to_string()));
    assert_eq!(lookup(&cfg, "llm.nope"), None);
    assert_eq!(lookup(&cfg, "nope"), None);
    assert_eq!(lookup(&cfg, "llm.enabled.deeper"), None);
}

#[test]
fn set_coerces_bools_and_ints_but_leaves_strings_alone() {
    let body = "[llm]\nenabled = false\n".to_string();
    let body = glide::settings_edit::set_in_text("config.local.toml", &body, "llm.enabled", "true").unwrap();
    let body = glide::settings_edit::set_in_text("config.local.toml", &body, "index.max_commits", "500").unwrap();
    let body =
        glide::settings_edit::set_in_text("config.local.toml", &body, "llm.default_provider", "anthropic").unwrap();
    assert!(body.contains("enabled = true"));
    assert!(body.contains("max_commits = 500"));
    assert!(body.contains("default_provider = \"anthropic\""));
}

#[test]
fn a_file_that_is_not_toml_is_reported_by_name_and_other_values_survive() {
    match glide::settings_edit::set_in_text("x.toml", "not = = toml", "a", "b") {
        Err(GlideError::Config(m)) => assert!(m.starts_with("parsing x.toml: ")),
        other => panic!("expected a parse error, got {other:?}"),
    }
    let body = "list = [1, 2]\nname = \"x\"\n[t]\nwhen = 1979-05-27\n";
    let out = glide::settings_edit::set_in_text("x.toml", body, "t.n", "3").unwrap();
    let mut doc: toml::Value = body.parse().unwrap();
    doc.as_table_mut()
        .unwrap()
        .get_mut("t")
        .unwrap()
        .as_table_mut()
        .unwrap()
        .insert("n".into(), toml::Value::Integer(3));
    assert_eq!(out, toml::to_string_pretty(&doc).unwrap());
}
