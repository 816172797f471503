//! The block console: a terminal surface over the local graph where every
//! answer is a block that can be focused, folded, copied and re-run.

pub mod block;
pub mod render;
pub mod engine;
pub mod app;
pub mod input;
pub mod focus;
