//! Timed bulk loading of tabular data files under interchangeable
//! execution strategies.
//!
//! The crate contains the dispatch and aggregation core of a small
//! benchmarking harness: it filters an enumerated file list, plans how
//! the work is spread over workers (sequentially, one task per file, or
//! partitioned into contiguous chunks), executes single units of work
//! through an external row decoder, and aggregates the per-file timing
//! results that come back. Directory enumeration, thread spawning and
//! operator-facing printing live outside the crate; they exchange plain
//! values with the functions here.

pub mod aggregate;
pub mod loader;
pub mod partition;
pub mod work;
