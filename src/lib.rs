//! Discovery of event pages: targets are built from host names, probed over
//! HTTP, and the successful pages are handed to a text-analysis call whose
//! records are aggregated. This crate holds the decisions of that pipeline:
//! outcome classification, stage-2 selection, bounded fan-out accounting,
//! token-bucket throttling, request preparation and reply cleaning.
pub mod config;
pub mod types;
pub mod probe;
pub mod pipeline;
pub mod ratelimit;
pub mod extract;
pub mod git_history;

pub use git_history::GitInfo;
pub use ratelimit::RateLimiter;
pub use types::{EntryJson, Hackathon, ProbeResult, SuccessJson};
