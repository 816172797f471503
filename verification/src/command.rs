//! Verb-first parsing of a console line. Commands are commands; anything
//! else is a question and is left for the router.
//!
//! This runs before the router because the router's keyword matching would
//! swallow several verbs: `friction log needs staging access` mentions
//! "friction" and would otherwise be read as a request for the digest.

use vstd::prelude::*;

use crate::text::{
    chars_of, join_space, join_words, owned, parse_i64, parse_i64_spec, parse_u8, parse_u8_spec, same,
    slice, split_words, starts_with, starts_with_chars, string_of, trim, trim_chars, views, words,
    CharClass, lead, trail, lemma_lead_facts, lemma_trail_facts, lemma_trail_is, lemma_lead_is,
    lemma_words_skip_leading_space,
};

verus! {

/// A parsed console verb.
#[derive(Debug, Clone, PartialEq, Eq)]
pub enum Cmd {
    Doctor,
    IndexShow,
    IndexBuild,
    ConfigList,
    ConfigGet(String),
    ConfigSet(String, String),
    ConfigPaths,
    Models,
    ToolsStatus,
    ToolsInstall(String),
    FrictionLog { subject: String, category: String, severity: u8 },
    FrictionDigest { since_days: i64 },
    WhoOwns(String),
    Plan(String),
    Request(String),
    /// `focus`, `focus set <text>`, `focus done <text>`, `focus capture <text>`,
    /// `focus log <text>`, `focus today`.
    Focus { action: String, text: String },
}

/// What a `Cmd` says, with its strings as character sequences.
pub enum CmdSpec {
    Doctor,
    IndexShow,
    IndexBuild,
    ConfigList,
    ConfigGet(Seq<char>),
    ConfigSet(Seq<char>, Seq<char>),
    ConfigPaths,
    Models,
    ToolsStatus,
    ToolsInstall(Seq<char>),
    FrictionLog { subject: Seq<char>, category: Seq<char>, severity: u8 },
    FrictionDigest { since_days: i64 },
    WhoOwns(Seq<char>),
    Plan(Seq<char>),
    Request(Seq<char>),
    Focus { action: Seq<char>, text: Seq<char> },
}

impl View for Cmd {
    type V = CmdSpec;

    open spec fn view(&self) -> CmdSpec {
        match self {
            Cmd::Doctor => CmdSpec::Doctor,
            Cmd::IndexShow => CmdSpec::IndexShow,
            Cmd::IndexBuild => CmdSpec::IndexBuild,
            Cmd::ConfigList => CmdSpec::ConfigList,
            Cmd::ConfigGet(k) => CmdSpec::ConfigGet(k@),
            Cmd::ConfigSet(k, v) => CmdSpec::ConfigSet(k@, v@),
            Cmd::ConfigPaths => CmdSpec::ConfigPaths,
            Cmd::Models => CmdSpec::Models,
            Cmd::ToolsStatus => CmdSpec::ToolsStatus,
            Cmd::ToolsInstall(t) => CmdSpec::ToolsInstall(t@),
            Cmd::FrictionLog { subject, category, severity } => CmdSpec::FrictionLog {
                subject: subject@,
                category: category@,
                severity: *severity,
            },
            Cmd::FrictionDigest { since_days } => CmdSpec::FrictionDigest {
                since_days: *since_days,
            },
            Cmd::WhoOwns(q) => CmdSpec::WhoOwns(q@),
            Cmd::Plan(p) => CmdSpec::Plan(p@),
            Cmd::Request(p) => CmdSpec::Request(p@),
            Cmd::Focus { action, text } => CmdSpec::Focus { action: action@, text: text@ },
        }
    }
}

/// The view of an optional command.
pub open spec fn cmd_view(c: Option<Cmd>) -> Option<CmdSpec> {
    match c {
        Some(c) => Some(c@),
        None => None,
    }
}

/// The words of a console line: trimmed, with one leading `glide ` dropped.
pub open spec fn command_words(line: Seq<char>) -> Seq<Seq<char>> {
    let t = trim(line);
    let u = if starts_with(t, "glide "@) {
        t.skip("glide "@.len() as int)
    } else {
        t
    };
    words(u)
}

/// `focus ...`: bare or `show` shows; the five writing verbs keep the rest.
pub open spec fn parse_focus(rest: Seq<Seq<char>>) -> Option<CmdSpec> {
    if rest.len() == 0 || rest[0] == "show"@ {
        Some(CmdSpec::Focus { action: "show"@, text: Seq::empty() })
    } else if rest[0] == "set"@ || rest[0] == "done"@ || rest[0] == "capture"@ || rest[0]
        == "log"@ || rest[0] == "today"@ {
        Some(CmdSpec::Focus { action: rest[0], text: join_space(rest.drop_first()) })
    } else {
        None
    }
}

/// `index ...`: bare or `show` shows; only `build` builds.
pub open spec fn parse_index(rest: Seq<Seq<char>>) -> Option<CmdSpec> {
    if rest.len() == 0 || rest[0] == "show"@ {
        Some(CmdSpec::IndexShow)
    } else if rest[0] == "build"@ {
        Some(CmdSpec::IndexBuild)
    } else {
        None
    }
}

/// `config ...`: `list` (the default), `paths`, `get <key>`,
/// `set <key> <value...>`.
pub open spec fn parse_config(rest: Seq<Seq<char>>) -> Option<CmdSpec> {
    if rest.len() == 0 || rest[0] == "list"@ {
        Some(CmdSpec::ConfigList)
    } else if rest[0] == "paths"@ {
        Some(CmdSpec::ConfigPaths)
    } else if rest[0] == "get"@ {
        if rest.len() > 1 {
            Some(CmdSpec::ConfigGet(rest[1]))
        } else {
            None
        }
    } else if rest[0] == "set"@ {
        if rest.len() > 2 {
            Some(CmdSpec::ConfigSet(rest[1], join_space(rest.skip(2))))
        } else {
            None
        }
    } else {
        None
    }
}

/// `tools ...`: `status` (the default) or `install [tool]`, repomix by default.
pub open spec fn parse_tools(rest: Seq<Seq<char>>) -> Option<CmdSpec> {
    if rest.len() == 0 || rest[0] == "status"@ {
        Some(CmdSpec::ToolsStatus)
    } else if rest[0] == "install"@ {
        Some(
            CmdSpec::ToolsInstall(
                if rest.len() > 1 {
                    rest[1]
                } else {
                    "repomix"@
                },
            ),
        )
    } else {
        None
    }
}

/// One pass over the arguments of `friction log`: flags with their values
/// are pulled out, every other word is part of the subject.
pub open spec fn scan_friction(
    args: Seq<Seq<char>>,
    subject: Seq<Seq<char>>,
    category: Seq<char>,
    severity: u8,
) -> (Seq<Seq<char>>, Seq<char>, u8)
    decreases args.len(),
{
    if args.len() == 0 {
        (subject, category, severity)
    } else if args[0] == "--severity"@ || args[0] == "-s"@ {
        let sev = if args.len() > 1 && parse_u8_spec(args[1]) is Some {
            parse_u8_spec(args[1])->0
        } else {
            severity
        };
        if args.len() > 1 {
            scan_friction(args.skip(2), subject, category, sev)
        } else {
            (subject, category, sev)
        }
    } else if args[0] == "--category"@ || args[0] == "-c"@ {
        if args.len() > 1 {
            scan_friction(args.skip(2), subject, args[1], severity)
        } else {
            (subject, category, severity)
        }
    } else {
        scan_friction(args.drop_first(), subject.push(args[0]), category, severity)
    }
}

/// `u8::clamp(1, 5)`.
pub open spec fn clamp_severity(s: u8) -> u8 {
    if s < 1 {
        1
    } else if s > 5 {
        5
    } else {
        s
    }
}

/// `friction log <subject...> [--severity N] [--category C]`: category
/// `access` and severity 3 unless given; the severity clamped into 1..=5.
pub open spec fn parse_friction_log_spec(args: Seq<Seq<char>>) -> CmdSpec {
    let (subject, category, severity) = scan_friction(args, Seq::empty(), "access"@, 3);
    CmdSpec::FrictionLog {
        subject: join_space(subject),
        category,
        severity: clamp_severity(severity),
    }
}

/// `friction ...`: `log ...`, or `digest [days]` (the default), 7 days unless
/// a number is given.
pub open spec fn parse_friction(rest: Seq<Seq<char>>) -> Option<CmdSpec> {
    if rest.len() > 0 && rest[0] == "log"@ {
        Some(parse_friction_log_spec(rest.drop_first()))
    } else if rest.len() == 0 || rest[0] == "digest"@ {
        Some(
            CmdSpec::FrictionDigest {
                since_days: if rest.len() > 1 && parse_i64_spec(rest[1]) is Some {
                    parse_i64_spec(rest[1])->0
                } else {
                    7
                },
            },
        )
    } else {
        None
    }
}

/// `plan [for] <person...>`.
pub open spec fn parse_plan(rest: Seq<Seq<char>>) -> Option<CmdSpec> {
    let ws = if rest.len() > 0 && rest[0] == "for"@ {
        rest.drop_first()
    } else {
        rest
    };
    if ws.len() > 0 {
        Some(CmdSpec::Plan(join_space(ws)))
    } else {
        None
    }
}

/// The verb table over a line's words.
pub open spec fn parse_words(w: Seq<Seq<char>>) -> Option<CmdSpec> {
    if w.len() == 0 {
        None
    } else {
        let verb = w[0];
        let rest = w.drop_first();
        if verb == "doctor"@ {
            Some(CmdSpec::Doctor)
        } else if verb == "focus"@ {
            parse_focus(rest)
        } else if verb == "models"@ {
            Some(CmdSpec::Models)
        } else if verb == "index"@ {
            parse_index(rest)
        } else if verb == "config"@ {
            parse_config(rest)
        } else if verb == "tools"@ {
            parse_tools(rest)
        } else if verb == "friction"@ {
            parse_friction(rest)
        } else if verb == "who-owns"@ || verb == "who-own"@ {
            if rest.len() > 0 {
                Some(CmdSpec::WhoOwns(join_space(rest)))
            } else {
                None
            }
        } else if verb == "plan"@ {
            parse_plan(rest)
        } else if verb == "request"@ {
            if rest.len() > 0 {
                Some(CmdSpec::Request(join_space(rest)))
            } else {
                None
            }
        } else {
            None
        }
    }
}

/// What `parse` answers for a line.
pub open spec fn parse_spec(line: Seq<char>) -> Option<CmdSpec> {
    parse_words(command_words(line))
}

/// Whether the characters `w` spell `lit`.
pub fn is_word(w: &Vec<char>, lit: &str) -> (r: bool)
    ensures
        r == (w@ == lit@),
{
    same(w, &chars_of(lit))
}

fn focus_cmd(w: &Vec<Vec<char>>) -> (r: Option<Cmd>)
    requires
        w.len() >= 1,
    ensures
        cmd_view(r) == parse_focus(views(w@).drop_first()),
{
    let ghost rest = views(w@).drop_first();
    if w.len() == 1 || is_word(&w[1], "show") {
        return Some(Cmd::Focus { action: owned("show"), text: String::new() });
    }
    assert(rest[0] == w@[1]@);
    if is_word(&w[1], "set") || is_word(&w[1], "done") || is_word(&w[1], "capture") || is_word(
        &w[1],
        "log",
    ) || is_word(&w[1], "today") {
        let text = join_words(w, 2);
        assert(views(w@).skip(2) =~= rest.drop_first());
        Some(Cmd::Focus { action: string_of(&w[1]), text: string_of(&text) })
    } else {
        None
    }
}

fn index_cmd(w: &Vec<Vec<char>>) -> (r: Option<Cmd>)
    requires
        w.len() >= 1,
    ensures
        cmd_view(r) == parse_index(views(w@).drop_first()),
{
    if w.len() == 1 || is_word(&w[1], "show") {
        Some(Cmd::IndexShow)
    } else if is_word(&w[1], "build") {
        Some(Cmd::IndexBuild)
    } else {
        None
    }
}

fn config_cmd(w: &Vec<Vec<char>>) -> (r: Option<Cmd>)
    requires
        w.len() >= 1,
    ensures
        cmd_view(r) == parse_config(views(w@).drop_first()),
{
    let ghost rest = views(w@).drop_first();
    if w.len() == 1 || is_word(&w[1], "list") {
        Some(Cmd::ConfigList)
    } else if is_word(&w[1], "paths") {
        Some(Cmd::ConfigPaths)
    } else if is_word(&w[1], "get") {
        if w.len() > 2 {
            assert(rest[1] == w@[2]@);
            Some(Cmd::ConfigGet(string_of(&w[2])))
        } else {
            None
        }
    } else if is_word(&w[1], "set") {
        if w.len() > 3 {
            let value = join_words(w, 3);
            assert(rest[1] == w@[2]@);
            assert(views(w@).skip(3) =~= rest.skip(2));
            Some(Cmd::ConfigSet(string_of(&w[2]), string_of(&value)))
        } else {
            None
        }
    } else {
        None
    }
}

fn tools_cmd(w: &Vec<Vec<char>>) -> (r: Option<Cmd>)
    requires
        w.len() >= 1,
    ensures
        cmd_view(r) == parse_tools(views(w@).drop_first()),
{
    let ghost rest = views(w@).drop_first();
    if w.len() == 1 || is_word(&w[1], "status") {
        Some(Cmd::ToolsStatus)
    } else if is_word(&w[1], "install") {
        if w.len() > 2 {
            assert(rest[1] == w@[2]@);
            Some(Cmd::ToolsInstall(string_of(&w[2])))
        } else {
            Some(Cmd::ToolsInstall(owned("repomix")))
        }
    } else {
        None
    }
}

/// `friction log <subject...> [--severity N] [--category C]`, over the
/// words `args[from..]`.
fn friction_log_cmd(args: &Vec<Vec<char>>, from: usize) -> (r: Cmd)
    requires
        from <= args.len(),
    ensures
        r@ == parse_friction_log_spec(views(args@).skip(from as int)),
{
    let ghost all = views(args@);
    let mut subject: Vec<Vec<char>> = Vec::new();
    let mut category: Vec<char> = chars_of("access");
    let mut severity: u8 = 3;
    let mut i = from;
    assert(views(subject@) =~= Seq::<Seq<char>>::empty());
    while i < args.len()
        invariant
            from <= i <= args.len(),
            all == views(args@),
            scan_friction(all.skip(from as int), Seq::empty(), "access"@, 3) == scan_friction(
                all.skip(i as int),
                views(subject@),
                category@,
                severity,
            ),
        decreases args.len() - i,
    {
        let ghost cur = all.skip(i as int);
        assert(cur[0] == args@[i as int]@);
        if is_word(&args[i], "--severity") || is_word(&args[i], "-s") {
            if i + 1 < args.len() {
                assert(cur[1] == args@[i + 1]@);
                match parse_u8(&args[i + 1]) {
                    Some(v) => {
                        severity = v;
                    },
                    None => {},
                }
                assert(cur.skip(2) =~= all.skip(i + 2));
                i = i + 2;
            } else {
                assert(all.skip(args.len() as int) =~= Seq::<Seq<char>>::empty());
                i = args.len();
            }
        } else if is_word(&args[i], "--category") || is_word(&args[i], "-c") {
            if i + 1 < args.len() {
                assert(cur[1] == args@[i + 1]@);
                category = slice(&args[i + 1], 0, args[i + 1].len());
                assert(args@[i + 1]@.subrange(0, args@[i + 1]@.len() as int) =~= args@[i + 1]@);
                assert(cur.skip(2) =~= all.skip(i + 2));
                i = i + 2;
            } else {
                assert(all.skip(args.len() as int) =~= Seq::<Seq<char>>::empty());
                i = args.len();
            }
        } else {
            let word = slice(&args[i], 0, args[i].len());
            assert(args@[i as int]@.subrange(0, args@[i as int]@.len() as int) =~= args@[i as int]@);
            let ghost before = subject@;
            subject.push(word);
            assert(views(subject@) =~= views(before).push(cur[0]));
            assert(cur.drop_first() =~= all.skip(i + 1));
            i = i + 1;
        }
    }
    assert(all.skip(args.len() as int) =~= Seq::<Seq<char>>::empty());
    let s = join_words(&subject, 0);
    assert(views(subject@).skip(0) =~= views(subject@));
    let sev = if severity < 1 {
        1
    } else if severity > 5 {
        5
    } else {
        severity
    };
    Cmd::FrictionLog { subject: string_of(&s), category: string_of(&category), severity: sev }
}

fn friction_cmd(w: &Vec<Vec<char>>) -> (r: Option<Cmd>)
    requires
        w.len() >= 1,
    ensures
        cmd_view(r) == parse_friction(views(w@).drop_first()),
{
    let ghost rest = views(w@).drop_first();
    if w.len() > 1 && is_word(&w[1], "log") {
        assert(views(w@).skip(2) =~= rest.drop_first());
        Some(friction_log_cmd(w, 2))
    } else if w.len() == 1 || is_word(&w[1], "digest") {
        let days = if w.len() > 2 {
            assert(rest[1] == w@[2]@);
            match parse_i64(&w[2]) {
                Some(d) => d,
                None => 7,
            }
        } else {
            7
        };
        Some(Cmd::FrictionDigest { since_days: days })
    } else {
        None
    }
}

fn plan_cmd(w: &Vec<Vec<char>>) -> (r: Option<Cmd>)
    requires
        w.len() >= 1,
    ensures
        cmd_view(r) == parse_plan(views(w@).drop_first()),
{
    let ghost rest = views(w@).drop_first();
    let from: usize = if w.len() > 1 && is_word(&w[1], "for") {
        2
    } else {
        1
    };
    assert(views(w@).skip(1) =~= rest);
    if w.len() > 1 {
        assert(views(w@).skip(2) =~= rest.drop_first());
    }
    if from < w.len() {
        Some(Cmd::Plan(string_of(&join_words(w, from))))
    } else {
        None
    }
}

fn words_cmd(w: &Vec<Vec<char>>) -> (r: Option<Cmd>)
    ensures
        cmd_view(r) == parse_words(views(w@)),
{
    if w.len() == 0 {
        return None;
    }
    let ghost rest = views(w@).drop_first();
    assert(views(w@)[0] == w@[0]@);
    assert(views(w@).skip(1) =~= rest);
    let verb = &w[0];
    if is_word(verb, "doctor") {
        Some(Cmd::Doctor)
    } else if is_word(verb, "focus") {
        focus_cmd(w)
    } else if is_word(verb, "models") {
        Some(Cmd::Models)
    } else if is_word(verb, "index") {
        index_cmd(w)
    } else if is_word(verb, "config") {
        config_cmd(w)
    } else if is_word(verb, "tools") {
        tools_cmd(w)
    } else if is_word(verb, "friction") {
        friction_cmd(w)
    } else if is_word(verb, "who-owns") || is_word(verb, "who-own") {
        if w.len() > 1 {
            Some(Cmd::WhoOwns(string_of(&join_words(w, 1))))
        } else {
            None
        }
    } else if is_word(verb, "plan") {
        plan_cmd(w)
    } else if is_word(verb, "request") {
        if w.len() > 1 {
            Some(Cmd::Request(string_of(&join_words(w, 1))))
        } else {
            None
        }
    } else {
        None
    }
}

/// The words of a console line, as `command_words` states them.
pub fn line_words(line: &str) -> (r: Vec<Vec<char>>)
    ensures
        views(r@) == command_words(line@),
{
    let v = chars_of(line);
    let t = trim_chars(&v, CharClass::Space);
    let prefix = chars_of("glide ");
    let u = if starts_with_chars(&t, &prefix) {
        let u = slice(&t, prefix.len(), t.len());
        assert(u@ =~= t@.skip(prefix@.len() as int));
        u
    } else {
        t
    };
    split_words(&u)
}

/// Parse a verb-first line. `None` means "this is a question, route it".
pub fn parse(line: &str) -> (r: Option<Cmd>)
    ensures
        cmd_view(r) == parse_spec(line@),
{
    let w = line_words(line);
    words_cmd(&w)
}

/// Rebuilding the index is never implicit: a line parses as `index build`
/// exactly when its words begin with `index build`.
pub proof fn law_index_build_is_explicit(line: Seq<char>)
    ensures
        parse_spec(line) == Some(CmdSpec::IndexBuild) <==> ({
            let w = command_words(line);
            w.len() >= 2 && w[0] == "index"@ && w[1] == "build"@
        }),
{
    reveal_strlit("index");
    reveal_strlit("build");
    reveal_strlit("show");
    reveal_strlit("doctor");
    reveal_strlit("focus");
    reveal_strlit("models");
    let w = command_words(line);
    if w.len() >= 1 && w[0] == "index"@ {
        assert("index"@.len() != "doctor"@.len());
        assert("index"@[0] != "focus"@[0]);
        assert("index"@.len() != "models"@.len());
        if w.len() >= 2 && w[1] == "build"@ {
            assert(w.drop_first()[0] == w[1]);
            assert("build"@[0] != "show"@[0]);
        }
    }
}

/// The `glide ` prefix is optional: in front of a line that says something
/// (and does not itself begin with `glide `), it changes no word, so the
/// line parses the same.
pub proof fn law_glide_prefix_is_optional(l: Seq<char>)
    requires
        trim(l).len() > 0,
        !starts_with(trim(l), "glide "@),
    ensures
        command_words("glide "@ + l) == command_words(l),
        parse_spec("glide "@ + l) == parse_spec(l),
{
    reveal_strlit("glide ");
    let p = "glide "@;
    let s = p + l;
    let k = CharClass::Space;
    let a = lead(l, k) as int;
    let t = l.skip(a);
    lemma_lead_facts(l, k);
    lemma_trail_facts(t, k);
    let b = trail(t, k) as int;
    assert(t.len() - b > 0);
    let n = a + t.len() - b;
    assert forall|j: int| n <= j < l.len() implies crate::text::in_class(k, #[trigger] l[j]) by {
        assert(l[j] == t[j - a]);
    }
    assert(l[n - 1] == t[t.len() - b - 1]);
    lemma_trail_is(l, k, n);
    assert forall|j: int| p.len() + n <= j < s.len() implies crate::text::in_class(k, #[trigger] s[j]) by {
        assert(s[j] == l[j - p.len()]);
    }
    assert(s[p.len() + n - 1] == l[n - 1]);
    lemma_trail_is(s, k, p.len() + n);
    assert(s[0] == 'g');
    lemma_lead_is(s, k, 0);
    let u = l.take(n);
    assert(s.skip(0) =~= s);
    assert(trim(s) =~= p + u);
    assert(trim(s).subrange(0, p.len() as int) =~= p);
    assert(trim(s).skip(p.len() as int) =~= u);
    assert(trim(l) =~= u.skip(a));
    assert forall|i: int| 0 <= i < a implies crate::text::is_ws(#[trigger] u[i]) by {
        assert(u[i] == l[i]);
        assert(crate::text::in_class(k, l[i]));
    }
    lemma_words_skip_leading_space(u, a);
}

/// A logged friction event always has a severity from 1 to 5: one out of
/// range is clamped, never refused.
pub proof fn law_friction_severity_in_range(args: Seq<Seq<char>>)
    ensures
        parse_friction_log_spec(args) matches CmdSpec::FrictionLog { severity, .. } && 1 <= severity
            <= 5,
{
}

/// The writing focus verbs keep the rest of the line: when a line's words
/// are `focus`, then one of `set`, `done`, `capture`, `log` or `today`,
/// then any words, it parses as that focus action with those words, joined
/// by single spaces, as its text. `focus` alone, or `focus show`, shows;
/// `focus` with any other word is no verb.
pub proof fn law_focus_verbs_keep_their_text(line: Seq<char>)
    ensures
        ({
            let w = command_words(line);
            w.len() >= 1 && w[0] == "focus"@ && (w.len() == 1 || w[1] == "show"@) ==> parse_spec(line)
                == Some(CmdSpec::Focus { action: "show"@, text: Seq::empty() })
        }),
        ({
            let w = command_words(line);
            w.len() >= 2 && w[0] == "focus"@ && w[1] != "show"@ && w[1] != "set"@ && w[1] != "done"@
                && w[1] != "capture"@ && w[1] != "log"@ && w[1] != "today"@ ==> parse_spec(line) is None
        }),
        ({
            let w = command_words(line);
            w.len() >= 2 && w[0] == "focus"@ && (w[1] == "set"@ || w[1] == "done"@ || w[1]
                == "capture"@ || w[1] == "log"@ || w[1] == "today"@) ==> parse_spec(line) == Some(
                CmdSpec::Focus { action: w[1], text: join_space(w.skip(2)) },
            )
        }),
{
    reveal_strlit("focus");
    reveal_strlit("doctor");
    reveal_strlit("show");
    reveal_strlit("set");
    reveal_strlit("done");
    reveal_strlit("capture");
    reveal_strlit("log");
    reveal_strlit("today");
    let w = command_words(line);
    if w.len() >= 1 && w[0] == "focus"@ {
        assert("focus"@.len() != "doctor"@.len());
    }
    if w.len() >= 2 && w[0] == "focus"@ {
        let rest = w.drop_first();
        assert(rest[0] == w[1]);
        assert(rest.drop_first() =~= w.skip(2));
        assert("set"@.len() != "show"@.len());
        assert("done"@[0] != "show"@[0]);
        assert("capture"@.len() != "show"@.len());
        assert("log"@.len() != "show"@.len());
        assert("today"@.len() != "show"@.len());
    }
}

} // verus!
