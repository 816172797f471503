//! What the command line prints for each verb, line by line, once the verb
//! has answered: the text, with colour when it is on.

use vstd::prelude::*;

use crate::config::strs;
use crate::console::render::{join_strings, join_with, kb_string, kb_text, pad, pad_to};
use crate::graph::{kind_name, GraphStats, OwnerHit};
use crate::hints::{onboard_paragraph, onboard_text};
use crate::index::IndexReport;
use crate::setup::SetupStep;
use crate::output::{bolded, dim, dim_text, green_text, header, ok, warn, yellow_text};
use crate::text::{i64_text, int_text, nat_text, owned, push_str, push_string, string_of, u64_text, usize_text};
use crate::tools::{RepomixCmd, RepomixStatus};
use crate::verbs::doctor::{fail_count, Check, CheckState, DoctorReport};
use crate::verbs::friction::{FrictionDigestResponse, FrictionEvent, FrictionLogResponse};
use crate::verbs::models::{ModelsReport, ProviderInfo};
use crate::verbs::plan::{PlanResponse, PlanSection};
use crate::verbs::request::RequestResponse;

verus! {

/// `a` then `b`.
fn join2(a: &str, b: &str) -> (r: String)
    ensures
        r@ == a@ + b@,
{
    let mut v: Vec<char> = Vec::new();
    push_str(&mut v, a);
    push_str(&mut v, b);
    string_of(&v)
}

/// `a`, `b`, then `c`.
fn join3(a: &str, b: &str, c: &str) -> (r: String)
    ensures
        r@ == a@ + b@ + c@,
{
    let mut v: Vec<char> = Vec::new();
    push_str(&mut v, a);
    push_str(&mut v, b);
    push_str(&mut v, c);
    string_of(&v)
}

/// A labelled row of the index report: the label dimmed, then the value.
pub open spec fn row(label: Seq<char>, value: Seq<char>, color: bool) -> Seq<char> {
    "  "@ + dim_text(label, color) + " "@ + value
}

fn row_text(label: &str, value: &str, color: bool) -> (r: String)
    ensures
        r@ == row(label@, value@, color),
{
    let d = dim(label, color);
    join3(join2("  ", d.as_str()).as_str(), " ", value)
}

/// What `index build` prints.
pub open spec fn index_built_spec(r: IndexReport, db_path: Seq<char>, color: bool) -> Seq<Seq<char>> {
    seq![
        bolded("glide index — full rebuild"@, color),
        row("codeowners rules :"@, green_text(nat_text(r.codeowners_rules as nat), color), color),
        row("git buckets      :"@, green_text(nat_text(r.git_history_buckets as nat), color), color),
        row("team-doc mentions:"@, green_text(nat_text(r.team_doc_mentions as nat), color), color),
        row(
            "scanned          :"@,
            nat_text(r.commits_scanned as nat) + " commits across "@ + nat_text(r.files_scanned as nat)
                + " files"@,
            color,
        ),
    ] + (if r.repomix.ran {
        seq![
            row(
                "repomix         :"@,
                green_text("ok"@, color) + " → "@ + match r.repomix.output_path {
                    Some(p) => p@,
                    None => "(unknown)"@,
                } + " ("@ + kb_text(r.repomix.bytes as nat) + " KB, via "@ + r.repomix.mode@ + ")"@,
                color,
            ),
        ]
    } else {
        match r.repomix.skipped_reason {
            Some(why) => seq![row("repomix         :"@, "skipped — "@ + why@, color)],
            None => Seq::empty(),
        }
    }) + seq![row("db               :"@, db_path, color)]
}

/// The lines `index build` prints.
pub fn index_built_lines(r: &IndexReport, db_path: &str, color: bool) -> (out: Vec<String>)
    ensures
        strs(out@) == index_built_spec(*r, db_path@, color),
{
    let mut out: Vec<String> = Vec::new();
    out.push(header("glide index — full rebuild", color));
    out.push(row_text("codeowners rules :", ok(usize_text(r.codeowners_rules).as_str(), color).as_str(), color));
    out.push(row_text("git buckets      :", ok(usize_text(r.git_history_buckets).as_str(), color).as_str(), color));
    out.push(row_text("team-doc mentions:", ok(usize_text(r.team_doc_mentions).as_str(), color).as_str(), color));
    let mut sc: Vec<char> = Vec::new();
    push_string(&mut sc, &usize_text(r.commits_scanned));
    push_str(&mut sc, " commits across ");
    push_string(&mut sc, &usize_text(r.files_scanned));
    push_str(&mut sc, " files");
    out.push(row_text("scanned          :", string_of(&sc).as_str(), color));
    if r.repomix.ran {
        let mut v: Vec<char> = Vec::new();
        push_string(&mut v, &ok("ok", color));
        push_str(&mut v, " → ");
        match &r.repomix.output_path {
            Some(p) => push_string(&mut v, p),
            None => push_str(&mut v, "(unknown)"),
        }
        push_str(&mut v, " (");
        push_string(&mut v, &kb_string(r.repomix.bytes));
        push_str(&mut v, " KB, via ");
        push_string(&mut v, &r.repomix.mode);
        push_str(&mut v, ")");
        out.push(row_text("repomix         :", string_of(&v).as_str(), color));
    } else {
        match &r.repomix.skipped_reason {
            Some(why) => {
                out.push(row_text("repomix         :", join2("skipped — ", why.as_str()).as_str(), color));
            },
            None => {},
        }
    }
    out.push(row_text("db               :", db_path, color));
    assert(strs(out@) =~= index_built_spec(*r, db_path@, color));
    out
}

/// What `index show` prints.
pub open spec fn graph_spec(s: GraphStats, color: bool) -> Seq<Seq<char>> {
    seq![
        bolded("glide graph"@, color),
        "  people          : "@ + int_text(s.people as int),
        "  teams           : "@ + int_text(s.teams as int),
        "  paths           : "@ + int_text(s.paths as int),
        "  ownership rows  : "@ + int_text(s.ownership_rows as int),
        "  friction events : "@ + int_text(s.friction_events as int),
        match (s.last_index_at, s.last_index_ok) {
            (Some(t), Some(good)) => "  last indexed    : "@ + t@ + " ("@ + (if good {
                "ok"@
            } else {
                "FAILED"@
            }) + ")"@,
            _ => "  last indexed    : never (run `glide index build`)"@,
        },
    ]
}

/// The lines `index show` prints.
pub fn graph_lines(s: &GraphStats, color: bool) -> (out: Vec<String>)
    ensures
        strs(out@) == graph_spec(*s, color),
{
    let mut out: Vec<String> = Vec::new();
    out.push(header("glide graph", color));
    out.push(join2("  people          : ", i64_text(s.people).as_str()));
    out.push(join2("  teams           : ", i64_text(s.teams).as_str()));
    out.push(join2("  paths           : ", i64_text(s.paths).as_str()));
    out.push(join2("  ownership rows  : ", i64_text(s.ownership_rows).as_str()));
    out.push(join2("  friction events : ", i64_text(s.friction_events).as_str()));
    let last = match (&s.last_index_at, s.last_index_ok) {
        (Some(t), Some(good)) => {
            let mut v: Vec<char> = Vec::new();
            push_str(&mut v, "  last indexed    : ");
            push_string(&mut v, t);
            push_str(&mut v, " (");
            push_str(&mut v, if good {
                "ok"
            } else {
                "FAILED"
            });
            push_str(&mut v, ")");
            string_of(&v)
        },
        _ => owned("  last indexed    : never (run `glide index build`)"),
    };
    out.push(last);
    assert(strs(out@) =~= graph_spec(*s, color));
    out
}

/// The line `friction log` prints.
pub open spec fn logged_spec(r: FrictionLogResponse, color: bool) -> Seq<char> {
    green_text("✓ logged"@, color) + " #"@ + int_text(r.id as int) + " "@ + dim_text(r.category@, color)
        + " (severity "@ + nat_text(r.severity as nat) + ") — "@ + r.subject@
}

/// The line `friction log` prints.
pub fn logged_line(r: &FrictionLogResponse, color: bool) -> (s: String)
    ensures
        s@ == logged_spec(*r, color),
{
    let mut v: Vec<char> = Vec::new();
    push_string(&mut v, &ok("✓ logged", color));
    push_str(&mut v, " #");
    push_string(&mut v, &i64_text(r.id));
    push_str(&mut v, " ");
    push_string(&mut v, &dim(r.category.as_str(), color));
    push_str(&mut v, " (severity ");
    push_string(&mut v, &u64_text(r.severity as u64));
    push_str(&mut v, ") — ");
    push_string(&mut v, &r.subject);
    string_of(&v)
}

/// What `request` prints: the heading, the draft between blank lines, the
/// channels, the status.
pub open spec fn request_spec(r: RequestResponse, color: bool) -> Seq<Seq<char>> {
    seq![
        bolded("access request —"@, color) + " "@ + r.permission@,
        Seq::empty(),
        r.draft_message@,
        Seq::empty(),
        dim_text("channels:"@, color) + " "@ + join_with(strs(r.channels@), ", "@),
        dim_text(r.status@, color),
    ]
}

/// The lines `request` prints.
pub fn request_text(r: &RequestResponse, color: bool) -> (out: Vec<String>)
    ensures
        strs(out@) == request_spec(*r, color),
{
    let mut out: Vec<String> = Vec::new();
    out.push(join3(header("access request —", color).as_str(), " ", r.permission.as_str()));
    out.push(String::new());
    out.push(owned(r.draft_message.as_str()));
    out.push(String::new());
    out.push(join3(dim("channels:", color).as_str(), " ", join_strings(&r.channels, ", ").as_str()));
    out.push(dim(r.status, color));
    proof {
        reveal_strlit("");
    }
    assert(strs(out@) =~= request_spec(*r, color));
    out
}

/// How an invocation is named in `tools status`.
pub open spec fn mode_label(cmd: Option<RepomixCmd>) -> Seq<char> {
    match cmd {
        Some(RepomixCmd::Global) => "(global)"@,
        Some(RepomixCmd::Npx) => "(npx)"@,
        None => Seq::empty(),
    }
}

fn mode_label_text(cmd: Option<RepomixCmd>) -> (s: &'static str)
    ensures
        s@ == mode_label(cmd),
{
    proof {
        reveal_strlit("");
    }
    match cmd {
        Some(RepomixCmd::Global) => "(global)",
        Some(RepomixCmd::Npx) => "(npx)",
        None => "",
    }
}

/// What `tools status` prints.
pub open spec fn tools_status_spec(s: RepomixStatus, color: bool) -> Seq<Seq<char>> {
    seq![bolded("glide tools"@, color)] + if s.available {
        seq![
            "  "@ + green_text("✓"@, color) + " repomix — "@ + match s.version {
                Some(v) => v@,
                None => "(version unknown)"@,
            } + " "@ + mode_label(s.cmd),
        ] + match s.bin_path {
            Some(p) => seq!["    bin: "@ + p@],
            None => Seq::empty(),
        }
    } else {
        seq![
            "  "@ + yellow_text("✗"@, color) + " repomix — not available"@,
            "    run: `glide tools install repomix`"@,
        ]
    }
}

/// The lines `tools status` prints.
pub fn tools_status_lines(s: &RepomixStatus, color: bool) -> (out: Vec<String>)
    ensures
        strs(out@) == tools_status_spec(*s, color),
{
    let mut out: Vec<String> = Vec::new();
    out.push(header("glide tools", color));
    if s.available {
        let mut v: Vec<char> = Vec::new();
        push_str(&mut v, "  ");
        push_string(&mut v, &ok("✓", color));
        push_str(&mut v, " repomix — ");
        match &s.version {
            Some(x) => push_string(&mut v, x),
            None => push_str(&mut v, "(version unknown)"),
        }
        push_str(&mut v, " ");
        push_str(&mut v, mode_label_text(s.cmd));
        out.push(string_of(&v));
        match &s.bin_path {
            Some(p) => out.push(join2("    bin: ", p.as_str())),
            None => {},
        }
    } else {
        out.push(join3("  ", warn("✗", color).as_str(), " repomix — not available"));
        out.push(owned("    run: `glide tools install repomix`"));
    }
    assert(strs(out@) =~= tools_status_spec(*s, color));
    out
}

/// What `tools install repomix` says before it starts.
pub fn installing_line(color: bool) -> (s: String)
    ensures
        s@ == bolded("installing repomix via `npm install -g repomix`..."@, color),
{
    header("installing repomix via `npm install -g repomix`...", color)
}

/// What `tools install repomix` says when it is done.
pub open spec fn installed_spec(s: RepomixStatus, color: bool) -> Seq<char> {
    if s.available {
        green_text("✓ installed:"@, color) + " repomix "@ + match s.version {
            Some(v) => v@,
            None => Seq::empty(),
        }
    } else {
        yellow_text("!"@, color) + " install completed but repomix still not detectable"@
    }
}

/// The line `tools install repomix` ends with.
pub fn installed_line(s: &RepomixStatus, color: bool) -> (r: String)
    ensures
        r@ == installed_spec(*s, color),
{
    if s.available {
        let mut v: Vec<char> = Vec::new();
        push_string(&mut v, &ok("✓ installed:", color));
        push_str(&mut v, " repomix ");
        match &s.version {
            Some(x) => push_string(&mut v, x),
            None => {},
        }
        proof {
            reveal_strlit("");
        }
        assert(v@ =~= installed_spec(*s, color));
        string_of(&v)
    } else {
        join2(warn("!", color).as_str(), " install completed but repomix still not detectable")
    }
}

/// What `init` prints when it is not quiet.
pub open spec fn init_spec(ws: Seq<char>, local: Seq<char>, db: Seq<char>, color: bool) -> Seq<Seq<char>> {
    seq![
        green_text("✓ glide"@, color) + " initialized at "@ + ws,
        "  config: "@ + local,
        "  db:     "@ + db,
        Seq::empty(),
        "Next: `glide index build`"@,
    ]
}

/// The lines `init` prints.
pub fn init_lines(ws: &str, local: &str, db: &str, color: bool) -> (out: Vec<String>)
    ensures
        strs(out@) == init_spec(ws@, local@, db@, color),
{
    let mut out: Vec<String> = Vec::new();
    out.push(join3(ok("✓ glide", color).as_str(), " initialized at ", ws));
    out.push(join2("  config: ", local));
    out.push(join2("  db:     ", db));
    out.push(String::new());
    out.push(owned("Next: `glide index build`"));
    proof {
        reveal_strlit("");
    }
    assert(strs(out@) =~= init_spec(ws@, local@, db@, color));
    out
}

/// The workspace's own configuration file as `init` writes it: two comment
/// lines, a blank line, then the configuration.
pub fn init_config_text(toml: &str) -> (s: String)
    ensures
        s@ == "# glide workspace config. This file is gitignored.\n# See <repo>/.glide/glide.toml for team-shared config.\n\n"@
            + toml@,
{
    join2(
        "# glide workspace config. This file is gitignored.\n# See <repo>/.glide/glide.toml for team-shared config.\n\n",
        toml,
    )
}

/// What the workspace's `.gitignore` holds.
pub fn workspace_gitignore() -> (s: &'static str)
    ensures
        s@ == "config.local.toml\nglide.db\nglide.db-*\n"@,
{
    "config.local.toml\nglide.db\nglide.db-*\n"
}

/// One owner as `who-owns` lists it: its place, handle, kind and source
/// (dimmed), and weight; with `why`, the pattern that matched and the
/// evidence when there is some.
pub open spec fn owner_rows(place: nat, h: OwnerHit, why: bool, color: bool) -> Seq<Seq<char>> {
    seq![
        "  "@ + nat_text(place) + ". @"@ + h.owner_handle@ + "  "@ + dim_text(
            "["@ + kind_name(h.owner_kind) + "]"@,
            color,
        ) + " "@ + dim_text("via "@ + h.source@, color) + " (weight "@ + h.weight_text@ + ")"@,
    ] + if why {
        seq!["       "@ + dim_text("match :"@, color) + " "@ + h.matched_pattern@] + match h.evidence {
            Some(e) => seq!["       "@ + dim_text("why   :"@, color) + " "@ + e@],
            None => Seq::empty(),
        }
    } else {
        Seq::empty()
    }
}

/// The rows of the owners from the `k`-th on, numbered from `k + 1`.
pub open spec fn owners_from(hs: Seq<OwnerHit>, why: bool, color: bool) -> Seq<Seq<char>>
    decreases hs.len(),
{
    if hs.len() == 0 {
        Seq::empty()
    } else {
        owners_from(hs.drop_last(), why, color) + owner_rows(hs.len(), hs.last(), why, color)
    }
}

/// What `who-owns` prints: a warning when nobody owns the path, otherwise
/// the heading and every owner.
pub open spec fn owners_spec(query: Seq<char>, hits: Seq<OwnerHit>, why: bool, color: bool) -> Seq<Seq<char>> {
    if hits.len() == 0 {
        seq![
            yellow_text("no owners found for: "@ + query, color),
            dim_text("(graph empty? run `glide index build`)"@, color),
        ]
    } else {
        seq![bolded("owners of"@, color) + " "@ + query] + owners_from(hits, why, color)
    }
}

fn push_owner(out: &mut Vec<String>, place: usize, h: &OwnerHit, why: bool, color: bool)
    ensures
        strs(final(out)@) == strs(old(out)@) + owner_rows(place as nat, *h, why, color),
{
    let ghost start = strs(out@);
    let mut v: Vec<char> = Vec::new();
    push_str(&mut v, "  ");
    push_string(&mut v, &usize_text(place));
    push_str(&mut v, ". @");
    push_string(&mut v, &h.owner_handle);
    push_str(&mut v, "  ");
    push_string(&mut v, &dim(join3("[", h.owner_kind.as_str(), "]").as_str(), color));
    push_str(&mut v, " ");
    push_string(&mut v, &dim(join2("via ", h.source.as_str()).as_str(), color));
    push_str(&mut v, " (weight ");
    push_string(&mut v, &h.weight_text);
    push_str(&mut v, ")");
    out.push(string_of(&v));
    if why {
        let mut m: Vec<char> = Vec::new();
        push_str(&mut m, "       ");
        push_string(&mut m, &dim("match :", color));
        push_str(&mut m, " ");
        push_string(&mut m, &h.matched_pattern);
        out.push(string_of(&m));
        match &h.evidence {
            Some(e) => {
                let mut w: Vec<char> = Vec::new();
                push_str(&mut w, "       ");
                push_string(&mut w, &dim("why   :", color));
                push_str(&mut w, " ");
                push_string(&mut w, e);
                out.push(string_of(&w));
            },
            None => {},
        }
    }
    assert(strs(out@) =~= start + owner_rows(place as nat, *h, why, color));
}

/// The lines `who-owns` prints for `query`.
pub fn owners_text(query: &str, hits: &Vec<OwnerHit>, why: bool, color: bool) -> (out: Vec<String>)
    ensures
        strs(out@) == owners_spec(query@, hits@, why, color),
{
    let mut out: Vec<String> = Vec::new();
    if hits.len() == 0 {
        out.push(warn(join2("no owners found for: ", query).as_str(), color));
        out.push(dim("(graph empty? run `glide index build`)", color));
        assert(strs(out@) =~= owners_spec(query@, hits@, why, color));
        return out;
    }
    out.push(join3(header("owners of", color).as_str(), " ", query));
    let ghost head = strs(out@);
    let mut i: usize = 0;
    assert(owners_from(hits@.take(0), why, color) =~= Seq::<Seq<char>>::empty());
    assert(strs(out@) =~= head + owners_from(hits@.take(0), why, color));
    while i < hits.len()
        invariant
            i <= hits@.len(),
            strs(out@) == head + owners_from(hits@.take(i as int), why, color),
        decreases hits.len() - i,
    {
        assert(hits@.take(i + 1).drop_last() =~= hits@.take(i as int));
        assert(hits@.take(i + 1).last() == hits@[i as int]);
        push_owner(&mut out, i + 1, &hits[i], why, color);
        assert(head + owners_from(hits@.take(i as int), why, color) + owner_rows(
            (i + 1) as nat,
            hits@[i as int],
            why,
            color,
        ) =~= head + owners_from(hits@.take(i + 1), why, color));
        i = i + 1;
    }
    assert(hits@.take(hits.len() as int) =~= hits@);
    out
}

/// A plan section in Markdown: a blank line, the `##` heading, a bullet
/// per line.
pub open spec fn section_md(s: PlanSection) -> Seq<char> {
    "\n## "@ + s.title@ + "\n"@ + bullets_md(strs(s.bullets@))
}

/// The bullets, one `- ` line each.
pub open spec fn bullets_md(bs: Seq<Seq<char>>) -> Seq<char>
    decreases bs.len(),
{
    if bs.len() == 0 {
        Seq::empty()
    } else {
        bullets_md(bs.drop_last()) + "- "@ + bs.last() + "\n"@
    }
}

/// The sections in Markdown, one after the other.
pub open spec fn sections_md(ss: Seq<PlanSection>) -> Seq<char>
    decreases ss.len(),
{
    if ss.len() == 0 {
        Seq::empty()
    } else {
        sections_md(ss.drop_last()) + section_md(ss.last())
    }
}

/// The day-1 plan as Markdown: the title line, every section, then the
/// status in italics.
pub open spec fn plan_md(r: PlanResponse) -> Seq<char> {
    "# Day-1 plan — "@ + r.person@ + "\n"@ + sections_md(r.sections@) + "\n_"@ + r.status@ + "_\n"@
}

fn push_section(v: &mut Vec<char>, s: &PlanSection)
    ensures
        final(v)@ == old(v)@ + section_md(*s),
{
    let ghost start = v@;
    push_str(v, "\n## ");
    push_string(v, &s.title);
    push_str(v, "\n");
    let ghost mid = v@;
    let mut i: usize = 0;
    assert(strs(s.bullets@.take(0)) =~= Seq::<Seq<char>>::empty());
    while i < s.bullets.len()
        invariant
            i <= s.bullets@.len(),
            v@ == mid + bullets_md(strs(s.bullets@.take(i as int))),
        decreases s.bullets.len() - i,
    {
        assert(strs(s.bullets@.take(i + 1)).drop_last() =~= strs(s.bullets@.take(i as int)));
        push_str(v, "- ");
        push_string(v, &s.bullets[i]);
        push_str(v, "\n");
        i = i + 1;
    }
    assert(s.bullets@.take(s.bullets.len() as int) =~= s.bullets@);
    assert(v@ =~= start + section_md(*s));
}

/// The day-1 plan as Markdown, as `plan` prints it or writes it out.
pub fn plan_markdown(r: &PlanResponse) -> (s: String)
    ensures
        s@ == plan_md(*r),
{
    let mut v: Vec<char> = Vec::new();
    push_str(&mut v, "# Day-1 plan — ");
    push_string(&mut v, &r.person);
    push_str(&mut v, "\n");
    let ghost head = v@;
    let mut i: usize = 0;
    while i < r.sections.len()
        invariant
            i <= r.sections@.len(),
            v@ == head + sections_md(r.sections@.take(i as int)),
        decreases r.sections.len() - i,
    {
        assert(r.sections@.take(i + 1).drop_last() =~= r.sections@.take(i as int));
        push_section(&mut v, &r.sections[i]);
        i = i + 1;
    }
    assert(r.sections@.take(r.sections.len() as int) =~= r.sections@);
    push_str(&mut v, "\n_");
    push_str(&mut v, r.status);
    push_str(&mut v, "_\n");
    assert(v@ =~= plan_md(*r));
    string_of(&v)
}

/// A category's row in the digest: the name padded to twenty columns, then
/// its count.
pub open spec fn category_row(c: (String, usize)) -> Seq<char> {
    "  "@ + pad(c.0@, 20) + " "@ + nat_text(c.1 as nat)
}

/// An event's row in the digest.
pub open spec fn event_row(e: FrictionEvent, color: bool) -> Seq<char> {
    "  ["@ + e.occurred_at@ + "] "@ + dim_text(e.category@, color) + " sev"@ + nat_text(e.severity as nat)
        + " "@ + match e.person_handle {
        Some(p) => p@,
        None => "-"@,
    } + " — "@ + e.subject@
}

/// What `friction digest` prints.
pub open spec fn digest_spec(r: FrictionDigestResponse, since_days: i64, color: bool) -> Seq<Seq<char>> {
    seq![bolded("friction digest —"@, color) + " last "@ + int_text(since_days as int) + " days"@] + if r.events@.len()
        == 0 {
        seq!["  (no events)"@]
    } else {
        seq![Seq::empty(), dim_text("by category:"@, color)] + r.by_category@.map_values(
            |c: (String, usize)| category_row(c),
        ) + seq![Seq::empty(), dim_text("events:"@, color)] + r.events@.map_values(
            |e: FrictionEvent| event_row(e, color),
        )
    }
}

/// The lines `friction digest` prints.
pub fn digest_text(r: &FrictionDigestResponse, since_days: i64, color: bool) -> (out: Vec<String>)
    ensures
        strs(out@) == digest_spec(*r, since_days, color),
{
    proof {
        reveal_strlit("");
    }
    let mut out: Vec<String> = Vec::new();
    let mut h: Vec<char> = Vec::new();
    push_string(&mut h, &header("friction digest —", color));
    push_str(&mut h, " last ");
    push_string(&mut h, &i64_text(since_days));
    push_str(&mut h, " days");
    out.push(string_of(&h));
    if r.events.len() == 0 {
        out.push(owned("  (no events)"));
        assert(strs(out@) =~= digest_spec(*r, since_days, color));
        return out;
    }
    let ghost h0 = strs(out@);
    out.push(String::new());
    out.push(dim("by category:", color));
    let ghost a = strs(out@);
    assert(a =~= h0 + seq![Seq::<char>::empty(), dim_text("by category:"@, color)]);
    let mut i: usize = 0;
    while i < r.by_category.len()
        invariant
            i <= r.by_category@.len(),
            strs(out@) == a + r.by_category@.take(i as int).map_values(|c: (String, usize)| category_row(c)),
        decreases r.by_category.len() - i,
    {
        let ghost before = strs(out@);
        let c = &r.by_category[i];
        let mut v: Vec<char> = Vec::new();
        push_str(&mut v, "  ");
        push_string(&mut v, &pad_to(c.0.as_str(), 20));
        push_str(&mut v, " ");
        push_string(&mut v, &usize_text(c.1));
        out.push(string_of(&v));
        assert(strs(out@) =~= before.push(category_row(r.by_category@[i as int])));
        assert(r.by_category@.take(i + 1).map_values(|c: (String, usize)| category_row(c)) =~= r.by_category@.take(
            i as int,
        ).map_values(|c: (String, usize)| category_row(c)).push(category_row(r.by_category@[i as int])));
        i = i + 1;
    }
    assert(r.by_category@.take(r.by_category.len() as int) =~= r.by_category@);
    let ghost cats = strs(out@);
    out.push(String::new());
    out.push(dim("events:", color));
    let ghost b = strs(out@);
    assert(b =~= cats + seq![Seq::<char>::empty(), dim_text("events:"@, color)]);
    let mut j: usize = 0;
    while j < r.events.len()
        invariant
            j <= r.events@.len(),
            strs(out@) == b + r.events@.take(j as int).map_values(|e: FrictionEvent| event_row(e, color)),
        decreases r.events.len() - j,
    {
        let ghost before = strs(out@);
        let e = &r.events[j];
        let mut v: Vec<char> = Vec::new();
        push_str(&mut v, "  [");
        push_string(&mut v, &e.occurred_at);
        push_str(&mut v, "] ");
        push_string(&mut v, &dim(e.category.as_str(), color));
        push_str(&mut v, " sev");
        push_string(&mut v, &u64_text(e.severity as u64));
        push_str(&mut v, " ");
        match &e.person_handle {
            Some(p) => push_string(&mut v, p),
            None => push_str(&mut v, "-"),
        }
        push_str(&mut v, " — ");
        push_string(&mut v, &e.subject);
        out.push(string_of(&v));
        assert(strs(out@) =~= before.push(event_row(r.events@[j as int], color)));
        assert(r.events@.take(j + 1).map_values(|e: FrictionEvent| event_row(e, color)) =~= r.events@.take(
            j as int,
        ).map_values(|e: FrictionEvent| event_row(e, color)).push(event_row(r.events@[j as int], color)));
        j = j + 1;
    }
    assert(r.events@.take(r.events.len() as int) =~= r.events@);
    assert(strs(out@) =~= digest_spec(*r, since_days, color));
    out
}

/// A check's row in `doctor`: a tick or a cross, the name padded to ten
/// columns, the detail.
pub open spec fn check_row(c: Check, color: bool) -> Seq<char> {
    "  "@ + (match c.state {
        CheckState::Pass => green_text("✓"@, color),
        CheckState::Fail => yellow_text("✗"@, color),
    }) + " "@ + pad(c.name@, 10) + " "@ + c.detail@
}

/// What `doctor` prints: the heading, every check, and how many failed
/// when any did.
pub open spec fn doctor_spec(r: DoctorReport, color: bool) -> Seq<Seq<char>> {
    seq![bolded("glide doctor"@, color)] + r.checks@.map_values(|c: Check| check_row(c, color)) + if fail_count(
        r.checks@,
    ) > 0 {
        seq![Seq::empty(), nat_text(fail_count(r.checks@)) + " check(s) failed"@]
    } else {
        Seq::empty()
    }
}

/// The lines `doctor` prints.
pub fn doctor_text(r: &DoctorReport, color: bool) -> (out: Vec<String>)
    ensures
        strs(out@) == doctor_spec(*r, color),
{
    proof {
        reveal_strlit("");
    }
    let mut out: Vec<String> = Vec::new();
    out.push(header("glide doctor", color));
    let ghost a = strs(out@);
    let mut i: usize = 0;
    while i < r.checks.len()
        invariant
            i <= r.checks@.len(),
            strs(out@) == a + r.checks@.take(i as int).map_values(|c: Check| check_row(c, color)),
        decreases r.checks.len() - i,
    {
        let ghost before = strs(out@);
        let c = &r.checks[i];
        let mut v: Vec<char> = Vec::new();
        push_str(&mut v, "  ");
        match c.state {
            CheckState::Pass => push_string(&mut v, &ok("✓", color)),
            CheckState::Fail => push_string(&mut v, &warn("✗", color)),
        }
        push_str(&mut v, " ");
        push_string(&mut v, &pad_to(c.name.as_str(), 10));
        push_str(&mut v, " ");
        push_string(&mut v, &c.detail);
        out.push(string_of(&v));
        assert(strs(out@) =~= before.push(check_row(r.checks@[i as int], color)));
        assert(r.checks@.take(i + 1).map_values(|c: Check| check_row(c, color)) =~= r.checks@.take(
            i as int,
        ).map_values(|c: Check| check_row(c, color)).push(check_row(r.checks@[i as int], color)));
        i = i + 1;
    }
    assert(r.checks@.take(r.checks.len() as int) =~= r.checks@);
    let ghost listed = strs(out@);
    let n = r.failures();
    if n > 0 {
        out.push(String::new());
        out.push(join2(usize_text(n).as_str(), " check(s) failed"));
        assert(strs(out@) =~= listed + seq![Seq::<char>::empty(), nat_text(n as nat) + " check(s) failed"@]);
    }
    assert(strs(out@) =~= doctor_spec(*r, color));
    out
}

/// A provider's row in `models`.
pub open spec fn provider_row(p: ProviderInfo, color: bool) -> Seq<char> {
    "  "@ + p.id@ + " "@ + p.model@ + "  key "@ + p.api_key_env@ + " "@ + (if p.key_present {
        green_text("set"@, color)
    } else {
        yellow_text("missing"@, color)
    }) + (if p.feature_compiled {
        Seq::empty()
    } else {
        "  [feature not compiled]"@
    })
}

/// What `models` prints.
pub open spec fn models_spec(r: ModelsReport, color: bool) -> Seq<Seq<char>> {
    seq![
        bolded("glide models"@, color),
        "  llm: "@ + (if r.enabled {
            green_text("enabled"@, color)
        } else {
            dim_text("disabled"@, color)
        }) + "  default: "@ + r.default_provider@,
    ] + r.providers@.map_values(|p: ProviderInfo| provider_row(p, color))
}

/// The lines `models` prints.
pub fn models_text(r: &ModelsReport, color: bool) -> (out: Vec<String>)
    ensures
        strs(out@) == models_spec(*r, color),
{
    proof {
        reveal_strlit("");
    }
    let mut out: Vec<String> = Vec::new();
    out.push(header("glide models", color));
    let mut l: Vec<char> = Vec::new();
    push_str(&mut l, "  llm: ");
    if r.enabled {
        push_string(&mut l, &ok("enabled", color));
    } else {
        push_string(&mut l, &dim("disabled", color));
    }
    push_str(&mut l, "  default: ");
    push_string(&mut l, &r.default_provider);
    out.push(string_of(&l));
    let ghost a = strs(out@);
    let mut i: usize = 0;
    while i < r.providers.len()
        invariant
            i <= r.providers@.len(),
            strs(out@) == a + r.providers@.take(i as int).map_values(|p: ProviderInfo| provider_row(p, color)),
        decreases r.providers.len() - i,
    {
        let ghost before = strs(out@);
        let p = &r.providers[i];
        let mut v: Vec<char> = Vec::new();
        push_str(&mut v, "  ");
        push_string(&mut v, &p.id);
        push_str(&mut v, " ");
        push_string(&mut v, &p.model);
        push_str(&mut v, "  key ");
        push_string(&mut v, &p.api_key_env);
        push_str(&mut v, " ");
        if p.key_present {
            push_string(&mut v, &ok("set", color));
        } else {
            push_string(&mut v, &warn("missing", color));
        }
        if !p.feature_compiled {
            push_str(&mut v, "  [feature not compiled]");
        }
        assert(v@ =~= provider_row(r.providers@[i as int], color));
        out.push(string_of(&v));
        assert(strs(out@) =~= before.push(provider_row(r.providers@[i as int], color)));
        assert(r.providers@.take(i + 1).map_values(|p: ProviderInfo| provider_row(p, color)) =~= r.providers@.take(
            i as int,
        ).map_values(|p: ProviderInfo| provider_row(p, color)).push(provider_row(r.providers@[i as int], color)));
        i = i + 1;
    }
    assert(r.providers@.take(r.providers.len() as int) =~= r.providers@);
    assert(strs(out@) =~= models_spec(*r, color));
    out
}

/// The line a one-shot prompt starts with: where the router sent it.
pub open spec fn routed_spec(what: Seq<char>, arg: Seq<char>, color: bool) -> Seq<char> {
    dim_text("→"@, color) + " "@ + what + " "@ + arg
}

/// The line a one-shot prompt starts with.
pub fn routed_line(what: &str, arg: &str, color: bool) -> (s: String)
    ensures
        s@ == routed_spec(what@, arg@, color),
{
    let mut v: Vec<char> = Vec::new();
    push_string(&mut v, &dim("→", color));
    push_str(&mut v, " ");
    push_str(&mut v, what);
    push_str(&mut v, " ");
    push_str(&mut v, arg);
    string_of(&v)
}

/// An owner as a one-shot prompt lists it.
pub open spec fn brief_owner(h: OwnerHit) -> Seq<char> {
    "  @"@ + h.owner_handle@ + " (weight "@ + h.weight_text@ + ", via "@ + h.source@ + ")"@
}

/// The owners as a one-shot prompt lists them.
pub fn brief_owner_lines(hits: &Vec<OwnerHit>) -> (out: Vec<String>)
    ensures
        strs(out@) == hits@.map_values(|h: OwnerHit| brief_owner(h)),
{
    let mut out: Vec<String> = Vec::new();
    let mut i: usize = 0;
    while i < hits.len()
        invariant
            i <= hits@.len(),
            strs(out@) == hits@.take(i as int).map_values(|h: OwnerHit| brief_owner(h)),
        decreases hits.len() - i,
    {
        let ghost before = strs(out@);
        let h = &hits[i];
        let mut v: Vec<char> = Vec::new();
        push_str(&mut v, "  @");
        push_string(&mut v, &h.owner_handle);
        push_str(&mut v, " (weight ");
        push_string(&mut v, &h.weight_text);
        push_str(&mut v, ", via ");
        push_string(&mut v, &h.source);
        push_str(&mut v, ")");
        out.push(string_of(&v));
        assert(strs(out@) =~= before.push(brief_owner(hits@[i as int])));
        assert(hits@.take(i + 1).map_values(|h: OwnerHit| brief_owner(h)) =~= hits@.take(i as int).map_values(
            |h: OwnerHit| brief_owner(h),
        ).push(brief_owner(hits@[i as int])));
        i = i + 1;
    }
    assert(hits@.take(hits.len() as int) =~= hits@);
    out
}

/// A plan section as a one-shot prompt prints it: a blank line, the `##`
/// heading, a bullet per line.
pub open spec fn brief_section(s: PlanSection) -> Seq<Seq<char>> {
    seq![Seq::empty(), "## "@ + s.title@] + strs(s.bullets@).map_values(|b: Seq<char>| "- "@ + b)
}

/// The sections, one after the other.
pub open spec fn brief_sections(ss: Seq<PlanSection>) -> Seq<Seq<char>>
    decreases ss.len(),
{
    if ss.len() == 0 {
        Seq::empty()
    } else {
        brief_sections(ss.drop_last()) + brief_section(ss.last())
    }
}

/// The plan's sections as a one-shot prompt prints them.
pub fn brief_plan_lines(sections: &Vec<PlanSection>) -> (out: Vec<String>)
    ensures
        strs(out@) == brief_sections(sections@),
{
    proof {
        reveal_strlit("");
    }
    let mut out: Vec<String> = Vec::new();
    let mut i: usize = 0;
    while i < sections.len()
        invariant
            i <= sections@.len(),
            strs(out@) == brief_sections(sections@.take(i as int)),
        decreases sections.len() - i,
    {
        assert(sections@.take(i + 1).drop_last() =~= sections@.take(i as int));
        let ghost before = strs(out@);
        let s = &sections[i];
        out.push(String::new());
        out.push(join2("## ", s.title.as_str()));
        let ghost mid = strs(out@);
        assert(mid =~= before + seq![Seq::<char>::empty(), "## "@ + s.title@]);
        let mut j: usize = 0;
        while j < s.bullets.len()
            invariant
                j <= s.bullets@.len(),
                strs(out@) == mid + strs(s.bullets@.take(j as int)).map_values(|b: Seq<char>| "- "@ + b),
            decreases s.bullets.len() - j,
        {
            let ghost b0 = strs(out@);
            out.push(join2("- ", s.bullets[j].as_str()));
            assert(strs(out@) =~= b0.push("- "@ + s.bullets@[j as int]@));
            assert(strs(s.bullets@.take(j + 1)).map_values(|b: Seq<char>| "- "@ + b) =~= strs(
                s.bullets@.take(j as int),
            ).map_values(|b: Seq<char>| "- "@ + b).push("- "@ + s.bullets@[j as int]@));
            j = j + 1;
        }
        assert(s.bullets@.take(s.bullets.len() as int) =~= s.bullets@);
        assert(strs(out@) =~= before + brief_section(sections@[i as int]));
        i = i + 1;
    }
    assert(sections@.take(sections.len() as int) =~= sections@);
    out
}

/// The line a one-shot friction question gets.
pub fn brief_digest_line(events: usize, color: bool) -> (s: String)
    ensures
        s@ == bolded("friction:"@, color) + " "@ + nat_text(events as nat) + " events in last 7d"@,
{
    let mut v: Vec<char> = Vec::new();
    push_string(&mut v, &header("friction:", color));
    push_str(&mut v, " ");
    push_string(&mut v, &usize_text(events));
    push_str(&mut v, " events in last 7d");
    string_of(&v)
}

/// What `glide setup` prints for the hook once its step is done; a step
/// that refuses prints nothing (it is an error, see `refusal_text`).
pub open spec fn setup_spec(step: SetupStep, path: Seq<char>, agent: Seq<char>, color: bool) -> Seq<Seq<char>> {
    match step {
        SetupStep::ReportInstalled => seq![green_text("✓"@, color) + " SessionStart hook is installed in "@ + path],
        SetupStep::ReportMissing => seq![
            yellow_text("✗"@, color) + " no glide hook in "@ + path,
            dim_text("run `glide setup "@ + agent + "` (add --global for every project)"@, color),
        ],
        SetupStep::RefuseSafe => Seq::empty(),
        SetupStep::NothingToRemove => seq!["nothing to remove in "@ + path],
        SetupStep::Remove => seq![green_text("✓"@, color) + " removed the glide hook from "@ + path],
        SetupStep::AlreadyInstalled => seq![green_text("✓"@, color) + " already installed in "@ + path],
        SetupStep::Add => seq![
            green_text("✓"@, color) + " SessionStart hook added to "@ + path,
            dim_text("Every new session (and every compaction) now starts with today's focus and the six verbs."@, color),
            dim_text("Optional, for the tools as MCP too: add {\"glide\": {\"command\": \"glide\", \"args\": [\"mcp\", \"serve\"]}} to mcpServers in .mcp.json."@, color),
        ],
    }
}

/// The lines `glide setup` prints for the hook.
pub fn setup_lines(step: SetupStep, path: &str, agent: &str, color: bool) -> (out: Vec<String>)
    ensures
        strs(out@) == setup_spec(step, path@, agent@, color),
{
    let mut out: Vec<String> = Vec::new();
    match step {
        SetupStep::ReportInstalled => {
            out.push(join3(ok("✓", color).as_str(), " SessionStart hook is installed in ", path));
        },
        SetupStep::ReportMissing => {
            out.push(join3(warn("✗", color).as_str(), " no glide hook in ", path));
            out.push(dim(join3("run `glide setup ", agent, "` (add --global for every project)").as_str(), color));
        },
        SetupStep::RefuseSafe => {},
        SetupStep::NothingToRemove => {
            out.push(join2("nothing to remove in ", path));
        },
        SetupStep::Remove => {
            out.push(join3(ok("✓", color).as_str(), " removed the glide hook from ", path));
        },
        SetupStep::AlreadyInstalled => {
            out.push(join3(ok("✓", color).as_str(), " already installed in ", path));
        },
        SetupStep::Add => {
            out.push(join3(ok("✓", color).as_str(), " SessionStart hook added to ", path));
            out.push(dim("Every new session (and every compaction) now starts with today's focus and the six verbs.", color));
            out.push(dim("Optional, for the tools as MCP too: add {\"glide\": {\"command\": \"glide\", \"args\": [\"mcp\", \"serve\"]}} to mcpServers in .mcp.json.", color));
        },
    }
    assert(strs(out@) =~= setup_spec(step, path@, agent@, color));
    out
}

/// The error `glide setup` gives in a `--safe` session.
pub fn refusal_text(path: &str) -> (s: String)
    ensures
        s@ == "--safe: refusing to write "@ + path@,
{
    join2("--safe: refusing to write ", path)
}

/// What `glide setup warp` prints: the heading, where to paste, the
/// paragraph for the agent, and where to add the tools.
pub open spec fn warp_spec(color: bool) -> Seq<Seq<char>> {
    seq![
        green_text("glide setup warp"@, color),
        "Settings, AI, Rules, add a rule, paste:\n"@,
        onboard_paragraph(),
        "\nThen Settings, AI, MCP servers: command `glide`, arguments `mcp serve`, so the agent has the verbs too."@,
    ]
}

/// The lines `glide setup warp` prints.
pub fn warp_lines(color: bool) -> (out: Vec<String>)
    ensures
        strs(out@) == warp_spec(color),
{
    let mut out: Vec<String> = Vec::new();
    out.push(ok("glide setup warp", color));
    out.push(owned("Settings, AI, Rules, add a rule, paste:\n"));
    out.push(onboard_text());
    out.push(owned("\nThen Settings, AI, MCP servers: command `glide`, arguments `mcp serve`, so the agent has the verbs too."));
    assert(strs(out@) =~= warp_spec(color));
    out
}

} // verus!
