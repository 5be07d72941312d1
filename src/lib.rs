//! Verified core of a SmartOS command gateway: a TTL cache of tool output,
//! an import-job queue keyed by image id, and the decisions that tie them to
//! the command-line tools that the server runs.

pub mod cache;
mod clock;
pub mod config;
pub mod gateway;
pub mod gz_config;
pub mod http_server;
pub mod image;
pub mod instance;
pub mod jobs;
pub mod key;
pub mod nictag;
pub mod number;
pub mod pwhash;
pub mod runner;
pub mod serde_helpers;
pub mod sysinfo;
pub mod text;
