//! Job handshake, worker scheduling and scoring rules of a build-and-grade service.

pub mod cache;
pub mod client;
pub mod handshake;
pub mod job;
pub mod json;
pub mod keyed;
pub mod number;
pub mod palette;
pub mod pattern;
pub mod report;
pub mod scanner;
pub mod scoring;
pub mod server;
pub mod settings;
pub mod text;
pub mod toolchain;
pub mod types;
pub mod views;
pub mod worker;
pub mod workspace;
