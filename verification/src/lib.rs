//! Passive subdomain discovery engine: a bounded-concurrency scheduler over a
//! host-by-source task set, a fan-in merge model, and a post-processing stage
//! that filters and deduplicates the discovered names.

pub mod c99;
pub mod client;
pub mod error;
pub mod filter;
pub mod hackertarget;
pub mod output;
pub mod registry;
pub mod runner;
pub mod strings;
pub mod threatcrowd;
pub mod threatminer;
