//! A registry of hosts for a fleet telemetry collector.
//!
//! Hosts push reports of their hardware and operating system; the registry
//! keeps the latest report of each host and hands out copies of all of them.
//!
//! - [`report`]: the report itself, a plain value.
//! - [`registry`]: the map from a host's `ip` to its latest report, with the
//!   laws of `upsert` and `snapshot`.
//! - [`service`]: the write and the read request, and the registry shared
//!   between request handlers.

pub mod registry;
pub mod report;
pub mod service;
