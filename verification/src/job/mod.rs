//! Jobs: what is to be built, and what it is built from.

pub mod job;
pub mod resource;
pub mod runnable;
