//! Installation scheduler for a tool-version manager.
//!
//! Given a list of requested (tool, version) pairs, the library plans the
//! install: it partitions the requests into per-tool work groups, prescribes
//! a sequential pre-pass that provisions each distinct tool plugin once,
//! sizes a bounded worker pool, and drives each worker as a step machine
//! (pop a group, resolve and install its requests in order). After the pool,
//! per-worker results are reduced to the first failure, and the three
//! finalization steps run, in a fixed order, only on full success.
//!
//! The callers of the library perform the outside work (plugin provisioning,
//! version resolution, the installs themselves) and feed each outcome back
//! into the step machines; every decision the scheduler makes is verified.

pub mod error;
pub mod finalize;
pub mod installer;
pub mod groups;
pub mod progress;
pub mod request;
pub mod worker;
