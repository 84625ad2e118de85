//! Heuristic code-quality scanning of a web-oriented project tree: the rules,
//! the pruning of ignored directories and the text report, over plain values.

pub mod cli;
pub mod config;
pub mod engine;
pub mod laws;
pub mod reporter;
pub mod rules;
pub mod text;
pub mod tree;

pub use engine::Issue;
