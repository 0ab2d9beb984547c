//! The part of each outside service's client that computes.

pub mod arxiv;
pub mod bigquery;
pub mod openai;
pub mod openapi;
pub mod slack;
