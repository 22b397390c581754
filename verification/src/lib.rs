//! Autonomous VM sandboxes per git worktree.

pub mod cli;
pub mod cmd;
pub mod config;
pub mod effect;
pub mod error;
pub mod laws;
pub mod names;
pub mod os_path;
pub mod path;
pub mod program;
pub mod state;
pub mod system;
pub mod tart;
pub mod text;
pub mod vm;
pub mod worktree;
