//! glide: the verified core of an onboarding assistant for a repository.

pub mod command;
pub mod config;
pub mod daily;
pub mod console;
pub mod errors;
pub mod graph;
pub mod hints;
pub mod hooks;
pub mod index;
pub mod llm;
pub mod mentions;
pub mod output;
pub mod paths;
pub mod play;
pub mod prime;
pub mod router;
pub mod settings_edit;
pub mod setup;
pub mod sprint;
pub mod terminal;
pub mod text;
pub mod tools;
pub mod verbs;
