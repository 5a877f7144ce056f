//! The records that the database keeps of submits, jobs and what they made.

pub mod models;
