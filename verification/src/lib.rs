//! Verified core of a small synthetic HTTP benchmark service.
//!
//! The service accepts requests, performs a fixed amount of CPU/memory work
//! (allocate a set of buffers, then read a sample of their bytes into a
//! checksum), forwards the request to a configured backend, records the
//! request latency in a histogram, and answers with a plain-text body.
//!
//! This crate holds everything of that pipeline that is pure computation:
//! the workload buffers and their checksum, the response text, the latency
//! histogram model (in integer nanoseconds), and the configuration defaults.
//! The HTTP server, the outbound client and the metrics exporter are
//! runtime plumbing and live outside the library.

pub mod config;
pub mod histogram;
pub mod text;
pub mod workload;
