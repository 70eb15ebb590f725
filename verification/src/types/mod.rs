//! Plain configuration records.

pub mod conf;
