//! Core engine for a "question / poll of the day" chat bot.
//!
//! The engine keeps one configuration record per community (delivery
//! channel, mention policy), manages curated and community-submitted
//! content pools with strict ownership isolation and a per-community
//! capacity limit, resolves selection requests with deterministic
//! random choice and graceful fallback, and formats outbound text.
//!
//! Everything here is pure state and computation: the chat transport
//! and the persistence backend live outside this crate and exchange
//! plain values with it.

use vstd::prelude::*;

pub mod config;
pub mod engine;
pub mod format;
pub mod poll;
pub mod repo;
pub mod select;
pub mod text;
pub mod tokens;

verus! {

/// Capacity limit for each community's custom pool, applied
/// independently to questions and to polls.
pub const CUSTOM_CAPACITY: usize = 100;

} // verus!
