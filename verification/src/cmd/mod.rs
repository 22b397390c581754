//! The subcommands that the library carries out.

pub mod exec;
pub mod image;
pub mod proxy;
pub mod spawn;
