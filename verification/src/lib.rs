//! Verified core of the jax bucket daemon: path and text helpers used by the
//! gateway, version and update decisions, mount bookkeeping, bucket-log
//! analysis, the peer sync protocol decisions, blob-store recovery and the
//! desktop app's request sequences.

pub mod text;
pub mod version;
pub mod update;
pub mod paths;
pub mod hexdump;
pub mod size;
pub mod mounts;
pub mod bucket_log;
pub mod sync;
pub mod gateway;
pub mod rewrite;
pub mod page;
pub mod serve;
pub mod tree;
pub mod client;
pub mod daemon;
pub mod mount_api;
pub mod desktop;
pub mod directory;
