//! Errors and the process exit codes they map to.

use vstd::prelude::*;

use crate::text::{push_str, push_string, string_of};

verus! {

/// What went wrong, with the underlying cause kept as text.
#[derive(Debug, Clone, PartialEq, Eq)]
pub enum GlideError {
    Config(String),
    GraphNotInitialized,
    /// Standing outside a repository is not a configuration problem, so it
    /// has a variant of its own.
    NotInRepo(String),
    Io(String),
    TomlParse(String),
    TomlSerialize(String),
    Llm(String),
    Other(String),
}

/// Stable process exit codes: 0 ok, 1 general, 2 config, 3 graph not
/// initialised, 4 llm.
#[derive(Debug, Clone, Copy, PartialEq, Eq)]
pub enum ExitCode {
    Success,
    General,
    Config,
    GraphNotInit,
    Llm,
}

/// The exit code an error maps to.
pub open spec fn exit_code_of(err: GlideError) -> ExitCode {
    match err {
        GlideError::Config(_) | GlideError::TomlParse(_) | GlideError::TomlSerialize(_) => {
            ExitCode::Config
        },
        GlideError::GraphNotInitialized => ExitCode::GraphNotInit,
        GlideError::Llm(_) => ExitCode::Llm,
        _ => ExitCode::General,
    }
}

/// The number of an exit code.
pub open spec fn code_number(c: ExitCode) -> i32 {
    match c {
        ExitCode::Success => 0,
        ExitCode::General => 1,
        ExitCode::Config => 2,
        ExitCode::GraphNotInit => 3,
        ExitCode::Llm => 4,
    }
}

impl ExitCode {
    /// The exit code for an error: configuration and TOML problems are 2, a
    /// missing graph 3, the language model 4, everything else 1.
    pub fn from_error(err: &GlideError) -> (c: ExitCode)
        ensures
            c == exit_code_of(*err),
    {
        match err {
            GlideError::Config(_) | GlideError::TomlParse(_) | GlideError::TomlSerialize(_) => {
                ExitCode::Config
            },
            GlideError::GraphNotInitialized => ExitCode::GraphNotInit,
            GlideError::Llm(_) => ExitCode::Llm,
            _ => ExitCode::General,
        }
    }

    /// The process exit status.
    pub fn code(self) -> (n: i32)
        ensures
            n == code_number(self),
    {
        match self {
            ExitCode::Success => 0,
            ExitCode::General => 1,
            ExitCode::Config => 2,
            ExitCode::GraphNotInit => 3,
            ExitCode::Llm => 4,
        }
    }
}

/// The message an error shows.
pub open spec fn error_message(err: GlideError) -> Seq<char> {
    match err {
        GlideError::Config(m) => "config error: "@ + m@,
        GlideError::GraphNotInitialized => "graph not initialized; run `glide init`"@,
        GlideError::NotInRepo(m) => m@,
        GlideError::Io(m) => "io: "@ + m@,
        GlideError::TomlParse(m) => "toml parse: "@ + m@,
        GlideError::TomlSerialize(m) => "toml serialize: "@ + m@,
        GlideError::Llm(m) => "llm error: "@ + m@,
        GlideError::Other(m) => m@,
    }
}

impl GlideError {
    /// The message this error shows.
    pub fn message(&self) -> (s: String)
        ensures
            s@ == error_message(*self),
    {
        let mut v: Vec<char> = Vec::new();
        match self {
            GlideError::Config(m) => {
                push_str(&mut v, "config error: ");
                push_string(&mut v, m);
            },
            GlideError::GraphNotInitialized => {
                push_str(&mut v, "graph not initialized; run `glide init`");
            },
            GlideError::NotInRepo(m) => {
                push_string(&mut v, m);
            },
            GlideError::Io(m) => {
                push_str(&mut v, "io: ");
                push_string(&mut v, m);
            },
            GlideError::TomlParse(m) => {
                push_str(&mut v, "toml parse: ");
                push_string(&mut v, m);
            },
            GlideError::TomlSerialize(m) => {
                push_str(&mut v, "toml serialize: ");
                push_string(&mut v, m);
            },
            GlideError::Llm(m) => {
                push_str(&mut v, "llm error: ");
                push_string(&mut v, m);
            },
            GlideError::Other(m) => {
                push_string(&mut v, m);
            },
        }
        string_of(&v)
    }
}

} // verus!
