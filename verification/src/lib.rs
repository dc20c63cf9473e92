//! A multi-connection HTTP file transfer engine.
//!
//! Given a validated URL, the engine probes the origin server for byte-range
//! support, splits the payload into contiguous byte ranges, tracks per-range
//! progress and throughput, supports cooperative pause/resume, and assembles
//! the fetched parts back into the original payload in range order.
//!
//! The crate holds the engine's logic: URL validation, response-header
//! interpretation, range planning, part-fetch bookkeeping, the job state
//! machine, and result assembly. Network and file I/O live outside, driven
//! against the contracts stated here.

pub mod downloader;
pub mod errors;
pub mod fetch;
pub mod headers;
pub mod planner;
pub mod strutil;
pub mod target;
pub mod utils;
