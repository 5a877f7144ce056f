//! The structured log that a build writes inside its container: lines,
//! control lines and the verdict they give.

pub mod item;
pub mod lines;
pub mod parsed;
