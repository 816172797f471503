//! External tool detection for `repomix`: a global binary on `PATH` first,
//! then `npx repomix`.

use vstd::prelude::*;

use crate::text::{chars_of, owned, string_of, trim, trim_chars, CharClass};

verus! {

/// How repomix is invoked.
#[derive(Debug, Clone, Copy, PartialEq, Eq)]
pub enum RepomixCmd {
    /// A globally installed `repomix` binary on `PATH`.
    Global,
    /// `npx repomix` (npm must be on `PATH`).
    Npx,
}

/// What the probe found.
#[derive(Debug, Clone)]
pub struct RepomixStatus {
    pub available: bool,
    pub cmd: Option<RepomixCmd>,
    pub bin_path: Option<String>,
    pub npx_path: Option<String>,
    pub version: Option<String>,
}

/// The text a `which` lookup or a version probe yields: its output trimmed,
/// when the process succeeded and the output is not blank.
pub open spec fn probe_text(success: bool, stdout: Seq<char>) -> Option<Seq<char>> {
    if success && trim(stdout).len() > 0 {
        Some(trim(stdout))
    } else {
        None
    }
}

/// Reads the output of `which <bin>`: the trimmed path, or nothing when the
/// lookup failed or printed nothing.
pub fn which_result(success: bool, stdout: &str) -> (r: Option<String>)
    ensures
        r matches Some(p) ==> probe_text(success, stdout@) == Some(p@),
        r is None ==> probe_text(success, stdout@) is None,
{
    if !success {
        return None;
    }
    let t = trim_chars(&chars_of(stdout), CharClass::Space);
    if t.len() == 0 {
        None
    } else {
        Some(string_of(&t))
    }
}

/// Reads the output of a version probe: the trimmed output when the process
/// succeeded (blank output is still an answer).
pub fn capture_result(success: bool, stdout: &str) -> (r: Option<String>)
    ensures
        r matches Some(v) ==> success && v@ == trim(stdout@),
        r is None ==> !success,
{
    if !success {
        return None;
    }
    Some(string_of(&trim_chars(&chars_of(stdout), CharClass::Space)))
}

/// The invocation to use, cheapest first: a binary on `PATH`, else `npx`.
pub open spec fn choose_cmd(bin_found: bool, npx_found: bool) -> Option<RepomixCmd> {
    if bin_found {
        Some(RepomixCmd::Global)
    } else if npx_found {
        Some(RepomixCmd::Npx)
    } else {
        None
    }
}

/// Picks how to invoke repomix from what `which` found.
pub fn repomix_choice(bin: &Option<String>, npx: &Option<String>) -> (r: Option<RepomixCmd>)
    ensures
        r == choose_cmd(bin is Some, npx is Some),
{
    if bin.is_some() {
        Some(RepomixCmd::Global)
    } else if npx.is_some() {
        Some(RepomixCmd::Npx)
    } else {
        None
    }
}

/// The program and arguments that print repomix's version.
pub fn version_probe(cmd: RepomixCmd) -> (r: (&'static str, Vec<&'static str>))
    ensures
        cmd == RepomixCmd::Global ==> r.0@ == "repomix"@ && r.1@.len() == 1 && r.1@[0]@
            == "--version"@,
        cmd == RepomixCmd::Npx ==> r.0@ == "npx"@ && r.1@.len() == 3 && r.1@[0]@ == "--yes"@
            && r.1@[1]@ == "repomix"@ && r.1@[2]@ == "--version"@,
{
    match cmd {
        RepomixCmd::Global => {
            let mut a: Vec<&'static str> = Vec::new();
            a.push("--version");
            ("repomix", a)
        },
        RepomixCmd::Npx => {
            let mut a: Vec<&'static str> = Vec::new();
            a.push("--yes");
            a.push("repomix");
            a.push("--version");
            ("npx", a)
        },
    }
}

/// The status of the probe: which invocation is available, where the
/// binaries are, and the version the chosen invocation reported (asked only
/// when there is one).
pub fn detect_repomix(bin: Option<String>, npx: Option<String>, version: Option<String>) -> (r:
    RepomixStatus)
    ensures
        r.cmd == choose_cmd(bin is Some, npx is Some),
        r.available == r.cmd is Some,
        r.bin_path == bin,
        r.npx_path == npx,
        r.version == if r.cmd is Some {
            version
        } else {
            None
        },
{
    let cmd = repomix_choice(&bin, &npx);
    let version = if cmd.is_some() {
        version
    } else {
        None
    };
    RepomixStatus { available: cmd.is_some(), cmd, bin_path: bin, npx_path: npx, version }
}

/// The command line that runs repomix in this environment: the program and
/// the arguments that come before repomix's own.
pub fn repomix_invocation(cmd: &RepomixCmd) -> (r: (String, Vec<String>))
    ensures
        *cmd == RepomixCmd::Global ==> r.0@ == "repomix"@ && r.1@.len() == 0,
        *cmd == RepomixCmd::Npx ==> r.0@ == "npx"@ && r.1@.len() == 2 && r.1@[0]@ == "--yes"@
            && r.1@[1]@ == "repomix"@,
{
    match cmd {
        RepomixCmd::Global => (owned("repomix"), Vec::new()),
        RepomixCmd::Npx => {
            let mut a: Vec<String> = Vec::new();
            a.push(owned("--yes"));
            a.push(owned("repomix"));
            (owned("npx"), a)
        },
    }
}

} // verus!
