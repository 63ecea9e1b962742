//! Stacked pull-request orchestration: a plan codec for editing a chain of
//! changes as text, a log parser for the version-control tool's output, a
//! state machine that turns plan entries into branch/PR operations, and a
//! linker that composes cross-referencing status comments.

pub mod change;
pub mod comments;
pub mod error;
pub mod github;
pub mod orchestrate;
pub mod plan;
pub mod text;
