//! What the console does with a typed line: verbs first, then the router for
//! questions; which answers need work done outside (the graph, the disk,
//! the environment) and which it can give at once; and the fixed texts.

use vstd::prelude::*;

use crate::command::{cmd_view, parse, parse_spec, Cmd, CmdSpec};
use crate::config::{push_owned, strs, Config};
use crate::console::block::BlockBody;
use crate::graph::GraphStats;
use crate::paths::{joined, path_join};
use crate::router::{route_one_shot, route_spec, RouteDecision, RouteSpec};
use crate::text::{
    chars_of, i64_text, int_text, owned, push_str, push_string, starts_with, string_of, trim,
    trim_chars, CharClass, extend_chars, find, find_chars, slice, lead, trail, lemma_lead_facts,
    lemma_trail_facts, lemma_lead_is, lemma_trail_is,
};
use crate::verbs::request::{draft_text, request, requester, RequestResponse};

verus! {

/// `b` is a notice with this title and these lines.
pub open spec fn is_notice(b: BlockBody, title: Seq<char>, lines: Seq<Seq<char>>) -> bool {
    b matches BlockBody::Notice { title: t, lines: ls } && t@ == title && strs(ls@) == lines
}

/// `b` is an error with this message.
pub open spec fn is_error(b: BlockBody, message: Seq<char>) -> bool {
    b matches BlockBody::Error { message: m } && m@ == message
}

fn notice(title: String, lines: Vec<String>) -> (b: BlockBody)
    ensures
        is_notice(b, title@, strs(lines@)),
{
    BlockBody::Notice { title, lines }
}

/// The lines of the `help` block.
pub open spec fn help_lines() -> Seq<Seq<char>> {
    seq![
        "enter        run what you typed"@,
        "esc          enter block mode (esc again to leave)"@,
        "^k           block mode, focused on the newest block"@,
        "j / k / ↑ ↓  move focus            (block mode)"@,
        "enter        collapse or expand    (block mode)"@,
        "y            copy the block        (block mode)"@,
        "r            re-run the block      (block mode)"@,
        "^u / ^d      scroll"@,
        "clear        drop every block"@,
        "exit or ^c   quit"@,
        Seq::empty(),
        "verbs        doctor · index [build] · config [get|set|paths]"@,
        "             models · tools · friction log|digest"@,
        "focus        today's priorities · focus set|done|capture|log <text>"@,
        "questions    who owns <path> · plan for <person>"@,
        "             i need access to <tool>"@,
    ]
}

/// The `help` block: the keys and the verbs, in one place.
pub fn help_body() -> (b: BlockBody)
    ensures
        is_notice(b, "keys and verbs"@, help_lines()),
{
    let mut v: Vec<String> = Vec::new();
    push_owned(&mut v, "enter        run what you typed");
    push_owned(&mut v, "esc          enter block mode (esc again to leave)");
    push_owned(&mut v, "^k           block mode, focused on the newest block");
    push_owned(&mut v, "j / k / ↑ ↓  move focus            (block mode)");
    push_owned(&mut v, "enter        collapse or expand    (block mode)");
    push_owned(&mut v, "y            copy the block        (block mode)");
    push_owned(&mut v, "r            re-run the block      (block mode)");
    push_owned(&mut v, "^u / ^d      scroll");
    push_owned(&mut v, "clear        drop every block");
    push_owned(&mut v, "exit or ^c   quit");
    let ghost before = strs(v@);
    v.push(String::new());
    assert(strs(v@) =~= before.push(Seq::empty()));
    push_owned(&mut v, "verbs        doctor · index [build] · config [get|set|paths]");
    push_owned(&mut v, "             models · tools · friction log|digest");
    push_owned(&mut v, "focus        today's priorities · focus set|done|capture|log <text>");
    push_owned(&mut v, "questions    who owns <path> · plan for <person>");
    push_owned(&mut v, "             i need access to <tool>");
    assert(strs(Seq::<String>::empty()) =~= Seq::<Seq<char>>::empty());
    assert(strs(v@) =~= help_lines());
    notice(owned("keys and verbs"), v)
}

/// The lines of the welcome block.
pub open spec fn welcome_lines(has_graph: bool) -> Seq<Seq<char>> {
    seq![
        "Ask in plain words, or type a verb. Every answer becomes a"@,
        "block you can focus, collapse, copy, and re-run."@,
        Seq::empty(),
        "  who owns billing/charge.py"@,
        "  i need access to pomelo"@,
        "  doctor"@,
    ] + (if has_graph {
        Seq::empty()
    } else {
        seq![Seq::empty(), "This repo has no graph yet — run `glide init` first."@]
    }) + seq![Seq::empty(), "Type `help` for keys and the full verb list."@]
}

/// The first block on launch, so the console is never an empty box.
pub fn welcome_body(has_graph: bool) -> (b: BlockBody)
    ensures
        is_notice(b, "glide console"@, welcome_lines(has_graph)),
{
    proof {
        reveal_strlit("");
    }
    let mut v: Vec<String> = Vec::new();
    assert(strs(v@) =~= Seq::<Seq<char>>::empty());
    push_owned(&mut v, "Ask in plain words, or type a verb. Every answer becomes a");
    push_owned(&mut v, "block you can focus, collapse, copy, and re-run.");
    push_owned(&mut v, "");
    push_owned(&mut v, "  who owns billing/charge.py");
    push_owned(&mut v, "  i need access to pomelo");
    push_owned(&mut v, "  doctor");
    let ghost first = strs(v@);
    assert(first =~~= seq![
        "Ask in plain words, or type a verb. Every answer becomes a"@,
        "block you can focus, collapse, copy, and re-run."@,
        Seq::empty(),
        "  who owns billing/charge.py"@,
        "  i need access to pomelo"@,
        "  doctor"@,
    ]);
    if !has_graph {
        push_owned(&mut v, "");
        push_owned(&mut v, "This repo has no graph yet — run `glide init` first.");
    }
    let ghost second = strs(v@);
    assert(second =~~= first + (if has_graph {
        Seq::empty()
    } else {
        seq![Seq::empty(), "This repo has no graph yet — run `glide init` first."@]
    }));
    push_owned(&mut v, "");
    push_owned(&mut v, "Type `help` for keys and the full verb list.");
    assert(strs(v@) =~~= second + seq![Seq::empty(), "Type `help` for keys and the full verb list."@]);
    assert(strs(v@) =~~= welcome_lines(has_graph));
    notice(owned("glide console"), v)
}

/// The answer when the repository has no graph yet.
pub fn needs_init() -> (b: BlockBody)
    ensures
        is_notice(b, "no graph in this repo yet"@, seq![
            "Run `glide init`, then `index build`."@,
            "The console reads the same SQLite graph the verbs do."@,
        ]),
{
    let mut v: Vec<String> = Vec::new();
    push_owned(&mut v, "Run `glide init`, then `index build`.");
    push_owned(&mut v, "The console reads the same SQLite graph the verbs do.");
    assert(strs(Seq::<String>::empty()) =~= Seq::<Seq<char>>::empty());
    assert(strs(v@) =~= seq![
        "Run `glide init`, then `index build`."@,
        "The console reads the same SQLite graph the verbs do."@,
    ]);
    notice(owned("no graph in this repo yet"), v)
}

/// The title of a refusal in a `--safe` session.
pub open spec fn refusal_title(what: Seq<char>) -> Seq<char> {
    what + " needs writes, and this session is --safe"@
}

/// The answer to a write in a `--safe` session.
pub fn refused(what: &str) -> (b: BlockBody)
    ensures
        is_notice(b, refusal_title(what@), seq![
            "Restart without `--safe` to allow it."@,
        ]),
{
    let mut t: Vec<char> = Vec::new();
    push_str(&mut t, what);
    push_str(&mut t, " needs writes, and this session is --safe");
    let mut v: Vec<String> = Vec::new();
    push_owned(&mut v, "Restart without `--safe` to allow it.");
    assert(strs(Seq::<String>::empty()) =~= Seq::<Seq<char>>::empty());
    assert(strs(v@) =~= seq!["Restart without `--safe` to allow it."@]);
    notice(string_of(&t), v)
}

/// An error block carrying a message.
pub fn error_body(message: String) -> (b: BlockBody)
    ensures
        is_error(b, message@),
{
    BlockBody::Error { message }
}

/// What to try when nothing matched.
pub open spec fn suggestions() -> Seq<Seq<char>> {
    seq!["who owns <path>"@, "plan for <person>"@, "i need access to <tool>"@, "doctor"@]
}

/// The answer when the router matched nothing.
pub fn unrouted(reason: String) -> (b: BlockBody)
    ensures
        b matches BlockBody::Unrouted { reason: r, suggestions: s } && r@ == reason@ && strs(s@)
            == suggestions(),
{
    let mut v: Vec<String> = Vec::new();
    push_owned(&mut v, "who owns <path>");
    push_owned(&mut v, "plan for <person>");
    push_owned(&mut v, "i need access to <tool>");
    push_owned(&mut v, "doctor");
    assert(strs(Seq::<String>::empty()) =~= Seq::<Seq<char>>::empty());
    assert(strs(v@) =~= suggestions());
    BlockBody::Unrouted { reason, suggestions: v }
}

/// What a typed line asks for: a verb to run, or an answer already made.
pub enum Turn {
    Verb(Cmd),
    Answer(BlockBody),
}

/// `s` without a leading `glide `, if it has one.
pub open spec fn without_glide(s: Seq<char>) -> Seq<char> {
    if starts_with(s, "glide "@) {
        s.skip(6)
    } else {
        s
    }
}

/// `s` with its first `who-owns` written `who owns`.
pub open spec fn respell(s: Seq<char>) -> Seq<char> {
    match find(s, "who-owns"@) {
        Some(i) => s.take(i) + "who owns"@ + s.skip(i + 8),
        None => s,
    }
}

/// A question as the router sees it: trimmed, without a leading `glide `,
/// trimmed again, and with `who-owns` spelled as two words.
pub open spec fn question(input: Seq<char>) -> Seq<char> {
    respell(trim(without_glide(trim(input))))
}

/// The verb a routed question runs.
pub open spec fn routed_cmd(d: RouteSpec) -> Option<CmdSpec> {
    match d {
        RouteSpec::WhoOwns { query } => Some(CmdSpec::WhoOwns(query)),
        RouteSpec::Plan { person } => Some(CmdSpec::Plan(person)),
        RouteSpec::Request { permission } => Some(CmdSpec::Request(permission)),
        RouteSpec::FrictionDigest => Some(CmdSpec::FrictionDigest { since_days: 7 }),
        RouteSpec::Unrouted { .. } => None,
    }
}

/// Reads a typed line: a verb if it parses as one (the router would
/// swallow several), else the router's reading of it as a question.
pub fn interpret(input: &str) -> (t: Turn)
    ensures
        parse_spec(input@) matches Some(c) ==> t matches Turn::Verb(v) && v@ == c,
        parse_spec(input@) is None ==> match route_spec(question(input@)) {
            RouteSpec::Unrouted { reason } => t matches Turn::Answer(b) && b matches BlockBody::Unrouted {
                reason: r,
                suggestions: s,
            } && r@ == reason && strs(s@) == suggestions(),
            d => t matches Turn::Verb(v) && routed_cmd(d) == Some(v@),
        },
{
    match parse(input) {
        Some(c) => {
            return Turn::Verb(c);
        },
        None => {},
    }
    proof {
        reveal_strlit("glide ");
        reveal_strlit("who-owns");
    }
    let t1 = trim_chars(&chars_of(input), CharClass::Space);
    let glide = chars_of("glide ");
    let t2 = if crate::text::starts_with_chars(&t1, &glide) {
        slice(&t1, 6, t1.len())
    } else {
        t1
    };
    let t3 = trim_chars(&t2, CharClass::Space);
    let pat = chars_of("who-owns");
    let t4 = match find_chars(&t3, &pat) {
        Some(i) => {
            proof {
                crate::text::lemma_find_from(t3@, pat@, 0);
                assert(i + 8 <= t3@.len());
            }
            let mut v = slice(&t3, 0, i);
            push_str(&mut v, "who owns");
            let from: usize = if t3.len() - i >= 8 {
                i + 8
            } else {
                t3.len()
            };
            let tail = slice(&t3, from, t3.len());
            extend_chars(&mut v, &tail);
            v
        },
        None => t3,
    };
    proof {
        if starts_with(t1@, "glide "@) {
            assert(t1@.subrange(6, t1@.len() as int) =~= t1@.skip(6));
        }
        match find(t3@, "who-owns"@) {
            Some(i) => {
                assert(t4@ =~= t3@.take(i) + "who owns"@ + t3@.skip(i + 8));
            },
            None => {},
        }
    }
    assert(t4@ == question(input@));
    let q = string_of(&t4);
    match route_one_shot(q.as_str()) {
        RouteDecision::WhoOwns { query } => Turn::Verb(Cmd::WhoOwns(query)),
        RouteDecision::Plan { person } => Turn::Verb(Cmd::Plan(person)),
        RouteDecision::Request { permission } => Turn::Verb(Cmd::Request(permission)),
        RouteDecision::FrictionDigest => Turn::Verb(Cmd::FrictionDigest { since_days: 7 }),
        RouteDecision::Unrouted { reason } => Turn::Answer(unrouted(reason)),
    }
}

/// Work a verb needs done outside this library: reading the graph, the
/// disk, the environment or the vault.
#[derive(Debug, Clone)]
pub enum Work {
    Doctor,
    IndexShow,
    IndexBuild,
    ConfigList,
    ConfigGet(String),
    ConfigSet(String, String),
    ConfigPaths,
    Models,
    ToolsStatus,
    Focus { action: String, text: String },
    FrictionLog { subject: String, category: String, severity: u8 },
    FrictionDigest { since_days: i64 },
    /// Who owns the path, at most `top` owners.
    WhoOwns { query: String, top: usize },
    Plan(String),
}

/// What running a verb takes: an answer given at once, or work to do.
#[derive(Debug)]
pub enum Step {
    Answer(BlockBody),
    Perform(Work),
}

/// How many owners the console asks for.
pub open spec fn console_top() -> usize {
    5
}

/// The decisions the console makes before any outside work: `--safe`
/// refuses writes, graph verbs without a graph get the init hint, a
/// friction log needs a subject, installing is left to the shell, and a
/// request is drafted on the spot.
pub open spec fn step_ok(cmd: CmdSpec, safe: bool, has_db: bool, s: Step) -> bool {
    match cmd {
        CmdSpec::Doctor => s matches Step::Perform(Work::Doctor),
        CmdSpec::IndexShow => if !has_db {
            s matches Step::Answer(b) && is_notice(b, "no graph in this repo yet"@, seq![
                "Run `glide init`, then `index build`."@,
                "The console reads the same SQLite graph the verbs do."@,
            ])
        } else {
            s matches Step::Perform(Work::IndexShow)
        },
        CmdSpec::IndexBuild => if safe {
            s matches Step::Answer(b) && is_notice(b, refusal_title("index build"@), seq![
                "Restart without `--safe` to allow it."@,
            ])
        } else {
            s matches Step::Perform(Work::IndexBuild)
        },
        CmdSpec::ConfigList => s matches Step::Perform(Work::ConfigList),
        CmdSpec::ConfigGet(k) => s matches Step::Perform(Work::ConfigGet(k2)) && k2@ == k,
        CmdSpec::ConfigSet(k, v) => if safe {
            s matches Step::Answer(b) && is_notice(b, refusal_title("config set"@), seq![
                "Restart without `--safe` to allow it."@,
            ])
        } else {
            s matches Step::Perform(Work::ConfigSet(k2, v2)) && k2@ == k && v2@ == v
        },
        CmdSpec::ConfigPaths => s matches Step::Perform(Work::ConfigPaths),
        CmdSpec::Models => s matches Step::Perform(Work::Models),
        CmdSpec::ToolsStatus => s matches Step::Perform(Work::ToolsStatus),
        CmdSpec::ToolsInstall(t) => s matches Step::Answer(b) && is_notice(b, "installing "@ + t + " is a shell job"@, seq![
            "Quit the console and run `glide tools install "@ + t + "`."@,
            "It shells out to npm, which wants a terminal of its own."@,
        ]),
        CmdSpec::Focus { action, text } => s matches Step::Perform(Work::Focus { action: a, text: x })
            && a@ == action && x@ == text,
        CmdSpec::FrictionLog { subject, category, severity } => if safe {
            s matches Step::Answer(b) && is_notice(b, refusal_title("friction log"@), seq![
                "Restart without `--safe` to allow it."@,
            ])
        } else if trim(subject).len() == 0 {
            s matches Step::Answer(b) && is_error(b, "friction log needs a subject: `friction log <what happened>`"@)
        } else if !has_db {
            s matches Step::Answer(b) && is_notice(b, "no graph in this repo yet"@, seq![
                "Run `glide init`, then `index build`."@,
                "The console reads the same SQLite graph the verbs do."@,
            ])
        } else {
            s matches Step::Perform(Work::FrictionLog { subject: s2, category: c2, severity: v2 })
                && s2@ == subject && c2@ == category && v2 == severity
        },
        CmdSpec::FrictionDigest { since_days } => if !has_db {
            s matches Step::Answer(b) && is_notice(b, "no graph in this repo yet"@, seq![
                "Run `glide init`, then `index build`."@,
                "The console reads the same SQLite graph the verbs do."@,
            ])
        } else {
            s matches Step::Perform(Work::FrictionDigest { since_days: d }) && d == since_days
        },
        CmdSpec::WhoOwns(q) => if !has_db {
            s matches Step::Answer(b) && is_notice(b, "no graph in this repo yet"@, seq![
                "Run `glide init`, then `index build`."@,
                "The console reads the same SQLite graph the verbs do."@,
            ])
        } else {
            s matches Step::Perform(Work::WhoOwns { query: q2, top }) && q2@ == trim(q) && top
                == console_top()
        },
        CmdSpec::Plan(p) => if !has_db {
            s matches Step::Answer(b) && is_notice(b, "no graph in this repo yet"@, seq![
                "Run `glide init`, then `index build`."@,
                "The console reads the same SQLite graph the verbs do."@,
            ])
        } else {
            s matches Step::Perform(Work::Plan(p2)) && p2@ == trim(p)
        },
        CmdSpec::Request(p) => s matches Step::Answer(BlockBody::Request(r)) && r.permission@ == trim(p)
            && r.for_person is None && r.draft_message@ == draft_text(trim(p), "the new hire"@),
    }
}

/// `s` trimmed, as a new string.
fn trimmed(s: &String) -> (r: String)
    ensures
        r@ == trim(s@),
{
    string_of(&trim_chars(&chars_of(s.as_str()), CharClass::Space))
}

/// Decides what running `cmd` takes.
pub fn command_step(cmd: Cmd, safe: bool, has_db: bool) -> (s: Step)
    ensures
        step_ok(cmd@, safe, has_db, s),
{
    match cmd {
        Cmd::Doctor => Step::Perform(Work::Doctor),
        Cmd::IndexShow => if !has_db {
            Step::Answer(needs_init())
        } else {
            Step::Perform(Work::IndexShow)
        },
        Cmd::IndexBuild => if safe {
            Step::Answer(refused("index build"))
        } else {
            Step::Perform(Work::IndexBuild)
        },
        Cmd::ConfigList => Step::Perform(Work::ConfigList),
        Cmd::ConfigGet(k) => Step::Perform(Work::ConfigGet(k)),
        Cmd::ConfigSet(k, v) => if safe {
            Step::Answer(refused("config set"))
        } else {
            Step::Perform(Work::ConfigSet(k, v))
        },
        Cmd::ConfigPaths => Step::Perform(Work::ConfigPaths),
        Cmd::Models => Step::Perform(Work::Models),
        Cmd::ToolsStatus => Step::Perform(Work::ToolsStatus),
        Cmd::ToolsInstall(tool) => {
            let mut t: Vec<char> = Vec::new();
            push_str(&mut t, "installing ");
            push_string(&mut t, &tool);
            push_str(&mut t, " is a shell job");
            let mut l: Vec<char> = Vec::new();
            push_str(&mut l, "Quit the console and run `glide tools install ");
            push_string(&mut l, &tool);
            push_str(&mut l, "`.");
            let mut v: Vec<String> = Vec::new();
            v.push(string_of(&l));
            push_owned(&mut v, "It shells out to npm, which wants a terminal of its own.");
            assert(strs(v@) =~= seq![
                "Quit the console and run `glide tools install "@ + tool@ + "`."@,
                "It shells out to npm, which wants a terminal of its own."@,
            ]);
            Step::Answer(notice(string_of(&t), v))
        },
        Cmd::Focus { action, text } => Step::Perform(Work::Focus { action, text }),
        Cmd::FrictionLog { subject, category, severity } => {
            if safe {
                return Step::Answer(refused("friction log"));
            }
            if trimmed(&subject).as_str().is_empty() {
                return Step::Answer(
                    error_body(owned("friction log needs a subject: `friction log <what happened>`")),
                );
            }
            if !has_db {
                return Step::Answer(needs_init());
            }
            Step::Perform(Work::FrictionLog { subject, category, severity })
        },
        Cmd::FrictionDigest { since_days } => if !has_db {
            Step::Answer(needs_init())
        } else {
            Step::Perform(Work::FrictionDigest { since_days })
        },
        Cmd::WhoOwns(q) => if !has_db {
            Step::Answer(needs_init())
        } else {
            Step::Perform(Work::WhoOwns { query: trimmed(&q), top: 5 })
        },
        Cmd::Plan(p) => if !has_db {
            Step::Answer(needs_init())
        } else {
            Step::Perform(Work::Plan(trimmed(&p)))
        },
        Cmd::Request(p) => {
            let perm = trimmed(&p);
            match request(perm.as_str(), None) {
                Ok(r) => Step::Answer(BlockBody::Request(Box::new(r))),
                Err(e) => Step::Answer(error_body(e.message())),
            }
        },
    }
}

/// The answer to `config get <key>`: the value, or that there is no such
/// key.
pub fn config_get_body(key: String, value: Option<String>) -> (b: BlockBody)
    ensures
        value matches Some(v) ==> is_notice(b, key@, seq![v@]),
        value is None ==> is_error(b, "no such config key: "@ + key@),
{
    match value {
        Some(v) => {
            let mut ls: Vec<String> = Vec::new();
            ls.push(v);
            assert(strs(ls@) =~= seq![ls@[0]@]);
            notice(key, ls)
        },
        None => {
            let mut m: Vec<char> = Vec::new();
            push_str(&mut m, "no such config key: ");
            push_string(&mut m, &key);
            error_body(string_of(&m))
        },
    }
}

/// The answer to `config set <key> <value>`: what was set, and where.
pub fn config_set_body(key: &str, value: &str, path: String) -> (b: BlockBody)
    ensures
        is_notice(b, "set "@ + key@ + " = "@ + value@, seq![path@]),
{
    let mut t: Vec<char> = Vec::new();
    push_str(&mut t, "set ");
    push_str(&mut t, key);
    push_str(&mut t, " = ");
    push_str(&mut t, value);
    let mut ls: Vec<String> = Vec::new();
    ls.push(path);
    assert(strs(ls@) =~= seq![ls@[0]@]);
    notice(string_of(&t), ls)
}

/// The configuration layers, low to high: the compiled defaults, the
/// global file (when there is a home directory), the workspace's two
/// files, then the environment.
pub open spec fn config_paths_lines(global: Option<String>, workspace: Seq<char>) -> Seq<Seq<char>> {
    seq!["1  compiled defaults"@] + (match global {
        Some(g) => seq!["2  "@ + joined(g@, "config.toml"@)],
        None => Seq::empty(),
    }) + seq![
        "3  "@ + joined(workspace, "glide.toml"@),
        "4  "@ + joined(workspace, "config.local.toml"@),
        "5  GLIDE_* env vars"@,
    ]
}

/// The answer to `config paths`.
pub fn config_paths_body(global: Option<String>, workspace: &str) -> (b: BlockBody)
    ensures
        is_notice(b, "config layers, low to high"@, config_paths_lines(global, workspace@)),
{
    let mut ls: Vec<String> = Vec::new();
    push_owned(&mut ls, "1  compiled defaults");
    assert(strs(Seq::<String>::empty()) =~= Seq::<Seq<char>>::empty());
    let ghost first = strs(ls@);
    match &global {
        Some(g) => {
            let p = path_join(g.as_str(), "config.toml");
            let mut l: Vec<char> = Vec::new();
            push_str(&mut l, "2  ");
            push_string(&mut l, &p);
            let ghost before = strs(ls@);
            ls.push(string_of(&l));
            assert(strs(ls@) =~= before.push(l@));
        },
        None => {},
    }
    let ghost second = strs(ls@);
    let a = path_join(workspace, "glide.toml");
    let mut l3: Vec<char> = Vec::new();
    push_str(&mut l3, "3  ");
    push_string(&mut l3, &a);
    let ghost b3 = strs(ls@);
    ls.push(string_of(&l3));
    assert(strs(ls@) =~= b3.push(l3@));
    let c = path_join(workspace, "config.local.toml");
    let mut l4: Vec<char> = Vec::new();
    push_str(&mut l4, "4  ");
    push_string(&mut l4, &c);
    let ghost b4 = strs(ls@);
    ls.push(string_of(&l4));
    assert(strs(ls@) =~= b4.push(l4@));
    push_owned(&mut ls, "5  GLIDE_* env vars");
    assert(strs(ls@) =~~= config_paths_lines(global, workspace@));
    notice(owned("config layers, low to high"), ls)
}

/// The counts in the console's top bar.
pub open spec fn stats_label_spec(s: GraphStats, safe: bool, focus: Option<String>) -> Seq<char> {
    let base = int_text(s.people as int) + " people · "@ + int_text(s.paths as int) + " paths · "@
        + int_text(s.ownership_rows as int) + " ownership rows"@ + (if s.friction_events > 0 {
        " · "@ + int_text(s.friction_events as int) + " friction"@
    } else {
        Seq::empty()
    }) + (if safe {
        " · safe"@
    } else {
        Seq::empty()
    });
    match focus {
        Some(f) => f@ + "  ·  "@ + base,
        None => base,
    }
}

/// The top bar's label: people, paths and ownership rows, friction when
/// there is any, `safe` in a `--safe` session, after today's focus when
/// there is one.
pub fn stats_label(s: &GraphStats, safe: bool, focus: Option<String>) -> (r: String)
    ensures
        r@ == stats_label_spec(*s, safe, focus),
{
    let mut v: Vec<char> = Vec::new();
    match &focus {
        Some(f) => {
            push_string(&mut v, f);
            push_str(&mut v, "  ·  ");
        },
        None => {},
    }
    let ghost start = v@;
    push_string(&mut v, &i64_text(s.people));
    push_str(&mut v, " people · ");
    push_string(&mut v, &i64_text(s.paths));
    push_str(&mut v, " paths · ");
    push_string(&mut v, &i64_text(s.ownership_rows));
    push_str(&mut v, " ownership rows");
    if s.friction_events > 0 {
        push_str(&mut v, " · ");
        push_string(&mut v, &i64_text(s.friction_events));
        push_str(&mut v, " friction");
    }
    if safe {
        push_str(&mut v, " · safe");
    }
    assert(v@ =~= stats_label_spec(*s, safe, focus));
    string_of(&v)
}

/// Everything the verbs need besides the graph handle.
#[derive(Debug)]
pub struct EngineCtx {
    pub repo_root: String,
    pub db_path: String,
    pub config: Config,
    /// Whether the binary was built with the Anthropic provider.
    pub anthropic_compiled: bool,
    /// Mirrors the command line's `--safe`: no writes, no network.
    pub safe: bool,
}

/// The file `config set` writes: `<repo>/.glide/config.local.toml`.
pub fn config_local_path(repo_root: &str) -> (r: String)
    ensures
        r@ == joined(joined(repo_root@, ".glide"@), "config.local.toml"@),
{
    let ws = crate::paths::workspace_dir(repo_root);
    path_join(ws.as_str(), "config.local.toml")
}

/// Trimming twice is trimming once.
proof fn lemma_trim_twice(l: Seq<char>)
    requires
        trim(l).len() > 0,
    ensures
        trim(trim(l)) == trim(l),
{
    let k = CharClass::Space;
    let a = lead(l, k) as int;
    let t = l.skip(a);
    lemma_lead_facts(l, k);
    lemma_trail_facts(t, k);
    let b = trail(t, k) as int;
    let v = trim(l);
    assert(v =~= t.take(t.len() - b));
    assert(v[0] == l[a]);
    assert(v[v.len() - 1] == t[t.len() - b - 1]);
    lemma_lead_is(v, k, 0);
    assert(v.skip(0) =~= v);
    lemma_trail_is(v, k, v.len() as int);
    assert(v.take(v.len() as int) =~= v);
}

/// In front of a line that says something, `glide ` survives the first
/// trim, and what follows it trims to the line trimmed.
proof fn lemma_trim_after_glide(l: Seq<char>)
    requires
        trim(l).len() > 0,
    ensures
        starts_with(trim("glide "@ + l), "glide "@),
        trim(trim("glide "@ + l).skip(6)) == trim(l),
{
    reveal_strlit("glide ");
    let p = "glide "@;
    let s = p + l;
    let k = CharClass::Space;
    let a = lead(l, k) as int;
    let t = l.skip(a);
    lemma_lead_facts(l, k);
    lemma_trail_facts(t, k);
    let b = trail(t, k) as int;
    assert(t.len() - b > 0);
    let n = a + t.len() - b;
    assert forall|j: int| n <= j < l.len() implies crate::text::in_class(k, #[trigger] l[j]) by {
        assert(l[j] == t[j - a]);
    }
    assert(l[n - 1] == t[t.len() - b - 1]);
    lemma_trail_is(l, k, n);
    assert forall|j: int| p.len() + n <= j < s.len() implies crate::text::in_class(k, #[trigger] s[j]) by {
        assert(s[j] == l[j - p.len()]);
    }
    assert(s[p.len() + n - 1] == l[n - 1]);
    lemma_trail_is(s, k, p.len() + n);
    assert(s[0] == 'g');
    lemma_lead_is(s, k, 0);
    let u = l.take(n);
    assert(s.skip(0) =~= s);
    assert(trim(s) =~= p + u);
    assert(trim(s).subrange(0, p.len() as int) =~= p);
    assert(trim(s).skip(p.len() as int) =~= u);
    assert(trim(l) =~= u.skip(a));
    assert(u[a] == l[a]);
    lemma_lead_is(u, k, a);
    let w = u.skip(a);
    assert(w[w.len() - 1] == l[n - 1]);
    lemma_trail_is(w, k, w.len() as int);
    assert(w.take(w.len() as int) =~= w);
}

/// A leading `glide ` is optional for questions too: in front of a line that
/// says something (and does not itself begin with `glide `), it changes
/// neither whether the line is a verb nor the question the router reads,
/// so the line is answered the same.
pub proof fn law_glide_prefix_is_optional_for_questions(q: Seq<char>)
    requires
        trim(q).len() > 0,
        !starts_with(trim(q), "glide "@),
    ensures
        parse_spec("glide "@ + q) == parse_spec(q),
        question("glide "@ + q) == question(q),
{
    crate::command::law_glide_prefix_is_optional(q);
    lemma_trim_after_glide(q);
    lemma_trim_twice(q);
}

/// A `--safe` session never writes: whatever the verb, its step never
/// builds the index, sets a configuration key or logs friction; those three
/// are answered with a refusal instead.
pub proof fn law_safe_session_never_writes(c: CmdSpec, has_db: bool, s: Step)
    requires
        step_ok(c, true, has_db, s),
    ensures
        !(s matches Step::Perform(w) && (w is IndexBuild || w is ConfigSet || w is FrictionLog)),
        (c is IndexBuild || c is ConfigSet || c is FrictionLog) ==> (s matches Step::Answer(b) && b matches BlockBody::Notice { lines: ls, .. } && strs(ls@) == seq![
            "Restart without `--safe` to allow it."@,
        ]),
{
}

/// Without a graph, no verb reads or writes one: the step never shows the
/// index, looks up owners or a plan, reads the digest or logs friction; and
/// owners, plans, the digest and the index view answer with the hint to
/// build a graph.
pub proof fn law_no_graph_no_graph_work(c: CmdSpec, safe: bool, s: Step)
    requires
        step_ok(c, safe, false, s),
    ensures
        !(s matches Step::Perform(w) && (w is IndexShow || w is WhoOwns || w is Plan || w is FrictionDigest
            || w is FrictionLog)),
        (c is IndexShow || c is WhoOwns || c is Plan || c is FrictionDigest) ==> (s matches Step::Answer(b)
            && b matches BlockBody::Notice { title: t, .. } && t@ == "no graph in this repo yet"@),
{
}

} // verus!
