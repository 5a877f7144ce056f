//! The stores of built artifacts: staging, release, and the merged view of
//! both.

pub mod artifact;
pub mod merged;
pub mod path;
pub mod release;
pub mod staging;
pub mod store;
pub mod tar;
