//! Polling, change detection and replay for leaderboard and report feeds.

pub mod backlog;
pub mod breakdown;
pub mod diff;
pub mod fetch;
pub mod hackerone;
pub mod ident;
pub mod models;
pub mod polls;
pub mod publisher;
pub mod ranking;
pub mod redis;
pub mod subscriptions;
pub mod text;
pub mod webhook;
