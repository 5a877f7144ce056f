//! The decisions and row shaping behind the command line's subcommands.

pub mod db;
pub mod endpoint;
pub mod util;
pub mod what_depends;
