//! Verified core of a queue-to-queue message transfer tool.

pub mod batch;
pub mod config;
pub mod engine;
pub mod message;
pub mod model;
pub mod numeral;
pub mod region;
pub mod worker;
