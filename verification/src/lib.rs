//! Filesystem observation and pre-classification: the decisions of a file
//! watcher, with their contracts.
//!
//! The crate decides; it does not read the disk, keep time or talk to a
//! service. Its callers probe paths, tell the time and carry out what the
//! functions here return.
//!
//! - [`text`] and [`paths`]: strings as sequences of characters, paths as
//!   sequences of components.
//! - [`blacklist`]: the hierarchical blacklist.
//! - [`bundle`]: package directories that count as one file.
//! - [`config`] and [`cache`]: the configuration snapshot and what is derived
//!   from it.
//! - [`metadata`] and [`rules`]: the per-file record and its classification.
//! - [`monitor`]: what one filesystem change leads to.
//! - [`initial_scan`] and [`scanner`]: the bulk scan and the on-demand scans.
//! - [`debounce`]: the debounce stage of the live watch.
//! - [`batch`]: batching of accepted records.
//! - [`queue`] and [`retry`]: queued configuration changes and bounded retry.
//! - [`event_buffer`]: coalescing of outbound events.
//! - [`commands`]: records of the command surface.

pub mod batch;
pub mod blacklist;
pub mod bundle;
pub mod cache;
pub mod commands;
pub mod config;
pub mod debounce;
pub mod event_buffer;
pub mod initial_scan;
pub mod metadata;
pub mod monitor;
pub mod paths;
pub mod queue;
pub mod retry;
pub mod rules;
pub mod scanner;
pub mod text;
