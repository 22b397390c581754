//! What the procedures promise, over whole runs: which calls they make, in which order, with which
//! arguments, and what they give in the end.

pub mod boot;
pub mod exec;
pub mod image;
pub mod mounts;
pub mod parts;
pub mod path;
pub mod program;
pub mod proxy;
pub mod run;
pub mod setup;
pub mod spawn;
pub mod state;
pub mod tart;
pub mod text;
pub mod worktree;
