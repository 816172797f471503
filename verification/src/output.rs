//! How results are shown on a terminal: JSON or text, colour or plain.

use vstd::prelude::*;

use owo_colors::OwoColorize;

use crate::config::Stream;
use crate::config::strs;
use crate::paths::{joined, path_join, workspace_dir};
use crate::text::{owned, push_str, push_string, string_of};

verus! {

/// The flags every command accepts.
#[derive(Debug, Clone)]
pub struct GlobalArgs {
    /// Output stream mode: human | ndjson | off.
    pub stream: Option<Stream>,
    /// Force the final result to be structured JSON.
    pub json: bool,
    /// Disable ANSI colour.
    pub no_color: bool,
    /// Suppress non-essential output.
    pub quiet: bool,
    /// Strip write and network tools for this invocation.
    pub safe: bool,
}

/// Whether to render JSON: `--json` always does, and `--stream ndjson`
/// implies structured output too (one event is the whole result).
pub fn wants_json(globals: &GlobalArgs) -> (b: bool)
    ensures
        b == (globals.json || globals.stream == Some(Stream::Ndjson)),
{
    if globals.json {
        return true;
    }
    match globals.stream {
        Some(Stream::Ndjson) => true,
        _ => false,
    }
}

/// Calls `OwoColorize::bold` and formats the result.
///
/// Trusted: owo-colors writes bold text as `ESC[1m`, the text, `ESC[0m`.
#[verifier::external_body]
fn owo_bold(s: &str) -> (r: String)
    ensures
        r@ == "\x1b[1m"@ + s@ + "\x1b[0m"@,
{
    format!("{}", s.bold())
}

/// Calls `OwoColorize::dimmed` and formats the result.
///
/// Trusted: owo-colors writes dimmed text as `ESC[2m`, the text, `ESC[0m`.
#[verifier::external_body]
fn owo_dimmed(s: &str) -> (r: String)
    ensures
        r@ == "\x1b[2m"@ + s@ + "\x1b[0m"@,
{
    format!("{}", s.dimmed())
}

/// Calls `OwoColorize::green` and formats the result.
///
/// Trusted: owo-colors writes green text as `ESC[32m`, the text, `ESC[39m`.
#[verifier::external_body]
fn owo_green(s: &str) -> (r: String)
    ensures
        r@ == "\x1b[32m"@ + s@ + "\x1b[39m"@,
{
    format!("{}", s.green())
}

/// Calls `OwoColorize::yellow` and formats the result.
///
/// Trusted: owo-colors writes yellow text as `ESC[33m`, the text, `ESC[39m`.
#[verifier::external_body]
fn owo_yellow(s: &str) -> (r: String)
    ensures
        r@ == "\x1b[33m"@ + s@ + "\x1b[39m"@,
{
    format!("{}", s.yellow())
}

/// A heading: bold when colour is on.
pub fn header(s: &str, color: bool) -> (r: String)
    ensures
        r@ == if color {
            "\x1b[1m"@ + s@ + "\x1b[0m"@
        } else {
            s@
        },
{
    if color {
        owo_bold(s)
    } else {
        owned(s)
    }
}

/// Secondary text: dimmed when colour is on.
pub fn dim(s: &str, color: bool) -> (r: String)
    ensures
        r@ == if color {
            "\x1b[2m"@ + s@ + "\x1b[0m"@
        } else {
            s@
        },
{
    if color {
        owo_dimmed(s)
    } else {
        owned(s)
    }
}

/// Success text: green when colour is on.
pub fn ok(s: &str, color: bool) -> (r: String)
    ensures
        r@ == if color {
            "\x1b[32m"@ + s@ + "\x1b[39m"@
        } else {
            s@
        },
{
    if color {
        owo_green(s)
    } else {
        owned(s)
    }
}

/// Warning text: yellow when colour is on.
pub fn warn(s: &str, color: bool) -> (r: String)
    ensures
        r@ == if color {
            "\x1b[33m"@ + s@ + "\x1b[39m"@
        } else {
            s@
        },
{
    if color {
        owo_yellow(s)
    } else {
        owned(s)
    }
}

/// `s` bold, when colour is on.
pub open spec fn bolded(s: Seq<char>, color: bool) -> Seq<char> {
    if color {
        "\x1b[1m"@ + s + "\x1b[0m"@
    } else {
        s
    }
}

/// `s` dimmed, when colour is on.
pub open spec fn dim_text(s: Seq<char>, color: bool) -> Seq<char> {
    if color {
        "\x1b[2m"@ + s + "\x1b[0m"@
    } else {
        s
    }
}

/// `s` in green, when colour is on.
pub open spec fn green_text(s: Seq<char>, color: bool) -> Seq<char> {
    if color {
        "\x1b[32m"@ + s + "\x1b[39m"@
    } else {
        s
    }
}

/// `s` in yellow, when colour is on.
pub open spec fn yellow_text(s: Seq<char>, color: bool) -> Seq<char> {
    if color {
        "\x1b[33m"@ + s + "\x1b[39m"@
    } else {
        s
    }
}

/// One numbered layer: the number dimmed, then what the layer is.
pub open spec fn layer_line(n: Seq<char>, what: Seq<char>, color: bool) -> Seq<char> {
    "  "@ + dim_text(n, color) + " "@ + what
}

/// What `config paths` prints: the layers from lowest to highest
/// precedence, the user's file only when its directory is known, the
/// workspace files only inside a repository.
pub open spec fn layer_lines_spec(global: Option<Seq<char>>, repo_root: Option<Seq<char>>, color: bool) -> Seq<
    Seq<char>,
> {
    seq![
        bolded("config layers (low → high precedence):"@, color),
        layer_line("1."@, "compiled defaults"@, color),
    ] + (match global {
        Some(g) => seq![layer_line("2."@, joined(g, "config.toml"@), color)],
        None => Seq::empty(),
    }) + (match repo_root {
        Some(r) => seq![
            layer_line("3."@, joined(joined(r, ".glide"@), "glide.toml"@), color),
            layer_line("4."@, joined(joined(r, ".glide"@), "config.local.toml"@), color),
        ],
        None => Seq::empty(),
    }) + seq![layer_line("5."@, "GLIDE_* env vars"@, color)]
}

fn layer(n: &str, what: &str, color: bool) -> (r: String)
    ensures
        r@ == layer_line(n@, what@, color),
{
    let mut v: Vec<char> = Vec::new();
    push_str(&mut v, "  ");
    let d = dim(n, color);
    push_string(&mut v, &d);
    push_str(&mut v, " ");
    push_str(&mut v, what);
    string_of(&v)
}

/// The lines `config paths` prints, given the user's configuration
/// directory and the repository root, when they are known.
pub fn layer_lines(global: Option<&str>, repo_root: Option<&str>, color: bool) -> (r: Vec<String>)
    ensures
        strs(r@) == layer_lines_spec(
            match global {
                Some(g) => Some(g@),
                None => None,
            },
            match repo_root {
                Some(x) => Some(x@),
                None => None,
            },
            color,
        ),
{
    let mut r: Vec<String> = Vec::new();
    r.push(header("config layers (low → high precedence):", color));
    r.push(layer("1.", "compiled defaults", color));
    match global {
        Some(g) => {
            let p = path_join(g, "config.toml");
            r.push(layer("2.", p.as_str(), color));
        },
        None => {},
    }
    match repo_root {
        Some(root) => {
            let ws = workspace_dir(root);
            let a = path_join(ws.as_str(), "glide.toml");
            r.push(layer("3.", a.as_str(), color));
            let b = path_join(ws.as_str(), "config.local.toml");
            r.push(layer("4.", b.as_str(), color));
        },
        None => {},
    }
    r.push(layer("5.", "GLIDE_* env vars", color));
    let ghost gv = match global {
        Some(g) => Some(g@),
        None => None::<Seq<char>>,
    };
    let ghost rv = match repo_root {
        Some(x) => Some(x@),
        None => None::<Seq<char>>,
    };
    assert(strs(r@) =~= layer_lines_spec(gv, rv, color));
    r
}

} // verus!
