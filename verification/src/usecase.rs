//! The two flows of the job.

pub mod cost;
pub mod paper;
