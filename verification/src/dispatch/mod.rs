//! Scheduling the jobs of a submit: the states a job goes through, the
//! order in which jobs may start, the endpoint a job is given to, and what
//! a failure means for the jobs above it.

pub mod assignment;
pub mod plan;
pub mod state;
pub mod submit;
