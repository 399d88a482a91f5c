//! The decisions behind the commands: which checks run, how their results
//! are summed up and shown, and which host is chosen.

pub mod checks;
pub mod host;
pub mod llm;
pub mod config_cmd;
pub mod output;
