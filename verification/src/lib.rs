//! Verified core of a block-availability crawler.
//!
//! On each new finalized block header the crawler paces itself against a
//! configured delay, plans which cells and rows of the block's extended
//! data matrix to sample, measures how much of the sample was retrieved,
//! and emits availability metrics while forwarding the verified block.
//!
//! This crate holds the verified logic: the matrix partition planning, the
//! pacing computation, the success-rate accounting, the metric values and
//! the crawl state machine. The asynchronous plumbing (channels, timers,
//! the network client) lives outside and drives the state machine through
//! [`crawler::Crawler::step`].

pub mod block;
pub mod crawler;
pub mod matrix;
pub mod metrics;
pub mod pacing;
pub mod sampler;
