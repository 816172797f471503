//! One turn of the console: an input line, a status, how long it took, and
//! a body that carries a verb's response as it is.

use vstd::prelude::*;

use crate::graph::GraphStats;
use crate::index::IndexReport;
use crate::tools::RepomixStatus;
use crate::verbs::doctor::{fail_count, DoctorReport};
use crate::verbs::friction::{FrictionDigestResponse, FrictionLogResponse};
use crate::verbs::models::ModelsReport;
use crate::verbs::plan::PlanResponse;
use crate::verbs::request::RequestResponse;
use crate::verbs::who_owns::WhoOwnsResponse;

verus! {

/// How a block stands.
#[derive(Debug, Clone, Copy, PartialEq, Eq)]
pub enum BlockStatus {
    Running,
    Succeeded,
    Failed,
    Notice,
}

/// What a block shows.
#[derive(Debug, Clone)]
pub enum BlockBody {
    /// The verb is still running; replaced in place when it returns.
    Pending,
    WhoOwns(Box<WhoOwnsResponse>),
    Plan(Box<PlanResponse>),
    Request(Box<RequestResponse>),
    Digest(Box<FrictionDigestResponse>),
    FrictionLogged(Box<FrictionLogResponse>),
    Doctor(Box<DoctorReport>),
    Stats(Box<GraphStats>),
    Indexed(Box<IndexReport>),
    Models(Box<ModelsReport>),
    Tools(Box<RepomixStatus>),
    /// `config list`: the effective configuration, already rendered.
    Toml(String),
    /// The router matched nothing; what to try instead.
    Unrouted { reason: String, suggestions: Vec<String> },
    /// Informational: the welcome block, `help`, hints.
    Notice { title: String, lines: Vec<String> },
    Error { message: String },
}

/// The status a body gives its block: a doctor run that found problems is
/// a failing block, not an error.
pub open spec fn body_status(b: BlockBody) -> BlockStatus {
    match b {
        BlockBody::Pending => BlockStatus::Running,
        BlockBody::Error { .. } => BlockStatus::Failed,
        BlockBody::Notice { .. } | BlockBody::Unrouted { .. } => BlockStatus::Notice,
        BlockBody::Doctor(r) => if fail_count(r.checks@) > 0 {
            BlockStatus::Failed
        } else {
            BlockStatus::Succeeded
        },
        _ => BlockStatus::Succeeded,
    }
}

/// The short label shown beside the input line.
pub open spec fn body_kind(b: BlockBody) -> Seq<char> {
    match b {
        BlockBody::Pending => "running"@,
        BlockBody::WhoOwns(_) => "who-owns"@,
        BlockBody::Plan(_) => "plan"@,
        BlockBody::Request(_) => "request"@,
        BlockBody::Digest(_) => "friction"@,
        BlockBody::FrictionLogged(_) => "friction log"@,
        BlockBody::Doctor(_) => "doctor"@,
        BlockBody::Stats(_) => "index"@,
        BlockBody::Indexed(_) => "index build"@,
        BlockBody::Models(_) => "models"@,
        BlockBody::Tools(_) => "tools"@,
        BlockBody::Toml(_) => "config"@,
        BlockBody::Unrouted { .. } => "unrouted"@,
        BlockBody::Notice { .. } => "notice"@,
        BlockBody::Error { .. } => "error"@,
    }
}

impl BlockBody {
    /// The block status this body gives.
    pub fn status(&self) -> (s: BlockStatus)
        ensures
            s == body_status(*self),
    {
        match self {
            BlockBody::Pending => BlockStatus::Running,
            BlockBody::Error { .. } => BlockStatus::Failed,
            BlockBody::Notice { .. } | BlockBody::Unrouted { .. } => BlockStatus::Notice,
            BlockBody::Doctor(r) => {
                if r.failures() > 0 {
                    BlockStatus::Failed
                } else {
                    BlockStatus::Succeeded
                }
            },
            _ => BlockStatus::Succeeded,
        }
    }

    /// The short label for this body, so a collapsed block still says what
    /// it is.
    pub fn kind(&self) -> (s: &'static str)
        ensures
            s@ == body_kind(*self),
    {
        match self {
            BlockBody::Pending => "running",
            BlockBody::WhoOwns(_) => "who-owns",
            BlockBody::Plan(_) => "plan",
            BlockBody::Request(_) => "request",
            BlockBody::Digest(_) => "friction",
            BlockBody::FrictionLogged(_) => "friction log",
            BlockBody::Doctor(_) => "doctor",
            BlockBody::Stats(_) => "index",
            BlockBody::Indexed(_) => "index build",
            BlockBody::Models(_) => "models",
            BlockBody::Tools(_) => "tools",
            BlockBody::Toml(_) => "config",
            BlockBody::Unrouted { .. } => "unrouted",
            BlockBody::Notice { .. } => "notice",
            BlockBody::Error { .. } => "error",
        }
    }
}

/// One turn of the console.
#[derive(Debug, Clone)]
pub struct Block {
    pub id: usize,
    /// What was typed; empty for the welcome block.
    pub input: String,
    pub body: BlockBody,
    pub elapsed_ms: u128,
    pub collapsed: bool,
}

impl Block {
    /// A new, expanded block.
    pub fn new(id: usize, input: String, body: BlockBody, elapsed_ms: u128) -> (b: Block)
        ensures
            b.id == id,
            b.input == input,
            b.body == body,
            b.elapsed_ms == elapsed_ms,
            !b.collapsed,
    {
        Block { id, input, body, elapsed_ms, collapsed: false }
    }

    /// The status of this block.
    pub fn status(&self) -> (s: BlockStatus)
        ensures
            s == body_status(self.body),
    {
        self.body.status()
    }
}

} // verus!
