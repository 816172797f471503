//! `glide doctor`: the health checks, from what was found on disk.

use vstd::prelude::*;

use crate::config::Config;
use crate::errors::{error_message, GlideError};
use crate::graph::GraphStats;
use crate::paths::joined;
use crate::text::{i64_text, int_text, owned, push_str, push_string, string_of};
use crate::tools::{RepomixCmd, RepomixStatus};

verus! {

/// Whether a check passed.
#[derive(Debug, Clone, Copy, PartialEq, Eq)]
pub enum CheckState {
    Pass,
    Fail,
}

/// One health check: its name, its state, and what it found.
#[derive(Debug, Clone)]
pub struct Check {
    pub name: String,
    pub state: CheckState,
    pub detail: String,
}

/// A check as text: `(name, state, detail)`.
pub open spec fn check_view(c: Check) -> (Seq<char>, CheckState, Seq<char>) {
    (c.name@, c.state, c.detail@)
}

/// The checks as text.
pub open spec fn checks_view(s: Seq<Check>) -> Seq<(Seq<char>, CheckState, Seq<char>)> {
    s.map_values(|c: Check| check_view(c))
}

impl Check {
    /// A passing check.
    pub fn pass(name: &str, detail: String) -> (c: Check)
        ensures
            check_view(c) == (name@, CheckState::Pass, detail@),
    {
        Check { name: owned(name), state: CheckState::Pass, detail }
    }

    /// A failing check.
    pub fn fail(name: &str, detail: String) -> (c: Check)
        ensures
            check_view(c) == (name@, CheckState::Fail, detail@),
    {
        Check { name: owned(name), state: CheckState::Fail, detail }
    }
}

/// Every check that was run, in order.
#[derive(Debug, Clone)]
pub struct DoctorReport {
    pub checks: Vec<Check>,
}

/// How many of the checks failed.
pub open spec fn fail_count(s: Seq<Check>) -> nat
    decreases s.len(),
{
    if s.len() == 0 {
        0
    } else {
        fail_count(s.drop_last()) + if s.last().state == CheckState::Fail {
            1nat
        } else {
            0nat
        }
    }
}

impl DoctorReport {
    /// How many checks failed.
    pub fn failures(&self) -> (n: usize)
        ensures
            n == fail_count(self.checks@),
    {
        let mut n: usize = 0;
        let mut i: usize = 0;
        while i < self.checks.len()
            invariant
                i <= self.checks@.len(),
                n == fail_count(self.checks@.take(i as int)),
                n <= i,
            decreases self.checks.len() - i,
        {
            assert(self.checks@.take(i + 1).drop_last() =~= self.checks@.take(i as int));
            match self.checks[i].state {
                CheckState::Fail => {
                    n = n + 1;
                },
                CheckState::Pass => {},
            }
            i = i + 1;
        }
        assert(self.checks@.take(self.checks.len() as int) =~= self.checks@);
        n
    }
}

/// What opening the graph database found.
#[derive(Debug, Clone)]
pub enum GraphProbe {
    /// No file at the database path.
    Missing,
    /// The file is there but could not be opened or read; the error's text.
    Unreadable(String),
    /// The graph's counts.
    Ready(GraphStats),
}

/// The checks on the graph database at `db_path`.
pub open spec fn graph_checks_spec(db_path: Seq<char>, probe: GraphProbe) -> Seq<
    (Seq<char>, CheckState, Seq<char>),
> {
    match probe {
        GraphProbe::Missing => seq![("graph"@, CheckState::Fail, "db missing at "@ + db_path)],
        GraphProbe::Unreadable(e) => seq![("graph"@, CheckState::Fail, "unreadable: "@ + e@)],
        GraphProbe::Ready(s) => seq![
            ("graph"@, CheckState::Pass, int_text(s.ownership_rows as int) + " owners across "@
                + int_text(s.paths as int) + " paths"@),
            match (s.last_index_at, s.last_index_ok) {
                (Some(t), Some(true)) => ("index"@, CheckState::Pass, "last run "@ + t@),
                (Some(t), Some(false)) => ("index"@, CheckState::Fail, "last run FAILED at "@ + t@),
                _ => ("index"@, CheckState::Fail, "never indexed — run `glide index build`"@),
            },
        ],
    }
}

/// The graph checks: is the database there, readable, and indexed.
pub fn graph_checks(db_path: &str, probe: &GraphProbe) -> (r: Vec<Check>)
    ensures
        checks_view(r@) == graph_checks_spec(db_path@, *probe),
{
    let mut out: Vec<Check> = Vec::new();
    match probe {
        GraphProbe::Missing => {
            let mut d: Vec<char> = Vec::new();
            push_str(&mut d, "db missing at ");
            push_str(&mut d, db_path);
            out.push(Check::fail("graph", string_of(&d)));
        },
        GraphProbe::Unreadable(e) => {
            let mut d: Vec<char> = Vec::new();
            push_str(&mut d, "unreadable: ");
            push_string(&mut d, e);
            out.push(Check::fail("graph", string_of(&d)));
        },
        GraphProbe::Ready(s) => {
            let mut d: Vec<char> = Vec::new();
            push_string(&mut d, &i64_text(s.ownership_rows));
            push_str(&mut d, " owners across ");
            push_string(&mut d, &i64_text(s.paths));
            push_str(&mut d, " paths");
            out.push(Check::pass("graph", string_of(&d)));
            let index = match (&s.last_index_at, s.last_index_ok) {
                (Some(t), Some(true)) => {
                    let mut d: Vec<char> = Vec::new();
                    push_str(&mut d, "last run ");
                    push_string(&mut d, t);
                    Check::pass("index", string_of(&d))
                },
                (Some(t), Some(false)) => {
                    let mut d: Vec<char> = Vec::new();
                    push_str(&mut d, "last run FAILED at ");
                    push_string(&mut d, t);
                    Check::fail("index", string_of(&d))
                },
                _ => Check::fail("index", owned("never indexed — run `glide index build`")),
            };
            out.push(index);
        },
    }
    assert(checks_view(out@) =~= graph_checks_spec(db_path@, *probe));
    out
}

/// The name of an invocation, `?` when there is none.
pub open spec fn mode_name(cmd: Option<RepomixCmd>) -> Seq<char> {
    match cmd {
        Some(RepomixCmd::Global) => "global"@,
        Some(RepomixCmd::Npx) => "npx"@,
        None => "?"@,
    }
}

/// The repomix check.
pub open spec fn repomix_check_spec(s: RepomixStatus) -> (Seq<char>, CheckState, Seq<char>) {
    if !s.available {
        ("repomix"@, CheckState::Fail, "not on PATH — run `glide tools install repomix`"@)
    } else {
        ("repomix"@, CheckState::Pass, match s.version {
            Some(v) => v@,
            None => "version unknown"@,
        } + " ("@ + mode_name(s.cmd) + ")"@)
    }
}

/// Whether repomix can be run, and how.
pub fn repomix_check(s: &RepomixStatus) -> (c: Check)
    ensures
        check_view(c) == repomix_check_spec(*s),
{
    if !s.available {
        return Check::fail("repomix", owned("not on PATH — run `glide tools install repomix`"));
    }
    let mut d: Vec<char> = Vec::new();
    match &s.version {
        Some(v) => push_string(&mut d, v),
        None => push_str(&mut d, "version unknown"),
    }
    push_str(&mut d, " (");
    match s.cmd {
        Some(RepomixCmd::Global) => push_str(&mut d, "global"),
        Some(RepomixCmd::Npx) => push_str(&mut d, "npx"),
        None => push_str(&mut d, "?"),
    }
    push_str(&mut d, ")");
    Check::pass("repomix", string_of(&d))
}

/// What the health checks look at, gathered by the caller.
#[derive(Debug)]
pub struct DoctorFacts {
    /// The repository root above the working directory, if any.
    pub repo_root: Option<String>,
    /// Whether `<repo>/.glide/` exists.
    pub workspace_exists: bool,
    /// The layered configuration, or why it could not be read.
    pub config: Result<Config, GlideError>,
    /// What opening the database at the configured path found.
    pub graph: GraphProbe,
    /// The repomix probe.
    pub repomix: RepomixStatus,
}

/// The checks `doctor` reports, in order: the repository, then (inside one)
/// the workspace, the configuration and (when it loads) the graph, and
/// always repomix last.
pub open spec fn doctor_checks(f: DoctorFacts) -> Seq<(Seq<char>, CheckState, Seq<char>)> {
    match f.repo_root {
        None => seq![("git"@, CheckState::Fail, "not inside a git repo"@)],
        Some(root) => seq![
            ("git"@, CheckState::Pass, "repo at "@ + root@),
            if f.workspace_exists {
                ("workspace"@, CheckState::Pass, ".glide/ present"@)
            } else {
                ("workspace"@, CheckState::Fail, ".glide/ missing — run `glide init`"@)
            },
        ] + match f.config {
            Err(e) => seq![("config"@, CheckState::Fail, "invalid: "@ + error_message(e))],
            Ok(cfg) => seq![("config"@, CheckState::Pass, "valid"@)] + graph_checks_spec(
                joined(root@, cfg.graph.db_path@),
                f.graph,
            ),
        },
    }.push(repomix_check_spec(f.repomix))
}

/// Runs the health checks. A failed check is data, not an error, so both
/// the command line and the console can show it.
pub fn doctor(facts: &DoctorFacts) -> (r: Result<DoctorReport, GlideError>)
    ensures
        r matches Ok(rep) && checks_view(rep.checks@) == doctor_checks(*facts),
{
    let mut checks: Vec<Check> = Vec::new();
    match &facts.repo_root {
        None => {
            checks.push(Check::fail("git", owned("not inside a git repo")));
        },
        Some(root) => {
            let mut d: Vec<char> = Vec::new();
            push_str(&mut d, "repo at ");
            push_string(&mut d, root);
            checks.push(Check::pass("git", string_of(&d)));
            if facts.workspace_exists {
                checks.push(Check::pass("workspace", owned(".glide/ present")));
            } else {
                checks.push(Check::fail("workspace", owned(".glide/ missing — run `glide init`")));
            }
            match &facts.config {
                Err(e) => {
                    let mut d: Vec<char> = Vec::new();
                    push_str(&mut d, "invalid: ");
                    push_string(&mut d, &e.message());
                    checks.push(Check::fail("config", string_of(&d)));
                },
                Ok(cfg) => {
                    checks.push(Check::pass("config", owned("valid")));
                    let db_path = cfg.resolved_db_path(root.as_str());
                    let mut g = graph_checks(db_path.as_str(), &facts.graph);
                    let ghost before = checks@;
                    checks.append(&mut g);
                    assert(checks_view(checks@) =~= checks_view(before) + graph_checks_spec(
                        joined(root@, cfg.graph.db_path@),
                        facts.graph,
                    ));
                },
            }
        },
    }
    let ghost before = checks@;
    checks.push(repomix_check(&facts.repomix));
    assert(checks_view(checks@) =~= checks_view(before).push(repomix_check_spec(facts.repomix)));
    assert(checks_view(checks@) =~= doctor_checks(*facts));
    Ok(DoctorReport { checks })
}

} // verus!
