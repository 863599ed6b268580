//! Subscription update and delivery engine for social-feed watching bots.
//!
//! The crate models the core of a bot that watches external content feeds
//! (one provider per feed source) on behalf of subscribing chats: a bounded
//! request queue with retry, a per-provider polling scheduler, persistent
//! subscription and delivered-content records, deduplication, and fan-out
//! delivery with partial-failure handling.  All network, store and chat I/O
//! happens outside this crate; the functions here take the fetched data and
//! dispatch outcomes as plain values and decide everything else.

pub mod api;
pub mod common;
pub mod database;
pub mod processing;
pub mod regexp;
