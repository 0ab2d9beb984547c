//! Logic of a scheduled notification job: choosing recently published papers,
//! joining the outcomes of a fanned-out batch, and building a day-over-day
//! cost report from billing rows.

pub mod client;
pub mod model;
pub mod usecase;
