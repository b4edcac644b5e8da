//! A tape machine for an eight-command bracket language.

pub mod bracket;
pub mod command;
pub mod counting;
pub mod engine;
pub mod laws;
pub mod machine;
pub mod snapshot;
