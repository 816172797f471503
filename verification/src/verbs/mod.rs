//! The verbs: each takes what was read from the repository, the graph or
//! the environment and returns structured data for the formatters.

pub mod doctor;
pub mod friction;
pub mod models;
pub mod plan;
pub mod request;
pub mod who_owns;
