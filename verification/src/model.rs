//! The data that the job works on.

pub mod calendar;
pub mod config;
pub mod gcp_cost;
pub mod openai;
pub mod paper;
pub mod time;
