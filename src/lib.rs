//! Verified core of a video-analytics pipeline: frame sampling, bus message
//! contracts, detection routing and persistence decisions, and cursor
//! pagination over detected entities.

pub mod config;
pub mod sampling;
pub mod media;
pub mod message;
pub mod recognition;
pub mod gateway;
pub mod confidence;
pub mod timestamp;
pub mod store;
pub mod pagination;
pub mod query;
pub mod decimal;
