//! Build orchestration for package recipes: dependency trees, runnable jobs,
//! artifact stores, build-log verdicts and the row shaping behind the
//! reporting commands.

pub mod commands;
pub mod db;
pub mod dispatch;
pub mod endpoint;
pub mod filestore;
pub mod job;
pub mod log;
pub mod package;
pub mod repository;
pub mod source;
pub mod util;
