//! The logic of a runner of commands in parallel: how input lines and
//! command line arguments become command invocations, where the commands of
//! a run come from, and how many of them may run at a time.

pub mod command_line_args;
pub mod commands;
pub mod common;
pub mod fields;
pub mod input;
pub mod parser;
pub mod text;
