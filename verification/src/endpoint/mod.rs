//! What is required of an endpoint before it joins the pool.

pub mod requirements;
