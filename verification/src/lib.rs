//! A line-oriented command interpreter front end: a tokenizer for quoted and
//! escaped command lines, a fixed table of built-in commands, and the state
//! machine of the interactive read, continue, dispatch and record cycle.

pub mod command;
pub mod continuation;
pub mod directory;
pub mod dispatch;
pub mod files;
pub mod listing;
pub mod numbers;
pub mod permissions;
pub mod recording;
pub mod render;
pub mod session;
pub mod sorting;
pub mod splitting;
pub mod text;
pub mod tokenizer;

pub use command::Command;
pub use command::CommandView;
pub use tokenizer::CostumSplit;
