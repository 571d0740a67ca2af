//! A log-driven monitoring agent: it follows appended log content, matches it
//! against per-monitor patterns and decides which commands, state changes and
//! notifications follow.
pub mod aggregator;
pub mod config;
pub mod datum;
pub mod dispatch;
pub mod monitor;
pub mod order;
pub mod pattern;
pub mod report;
pub mod store;
pub mod tail;
