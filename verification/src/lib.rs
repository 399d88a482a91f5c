//! A project-quality governor: line-oriented source checks over a snapshot of
//! a project tree, and the selection of a reachable inference host from a
//! prioritized pool.

pub mod checks;
pub mod commands;
pub mod config;
pub mod ollama;
pub mod project;
pub mod scanner;
pub mod text;
