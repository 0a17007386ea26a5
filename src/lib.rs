//! Admission control and result caching in front of a text-generation service.
//!
//! The library holds the per-user rate limiter, the sticky preset selector,
//! the in-memory result store with its global cache, and the decision
//! procedure that arbitrates between serving a stored answer and asking the
//! generator for a fresh one. Time and randomness enter as plain values, so
//! every decision is a verified function of its inputs.

pub mod arbiter;
mod clock;
pub mod config;
pub mod languages;
pub mod laws;
pub mod models;
pub mod openrouter;
pub mod preset;
pub mod rate_limiter;
pub mod storage;
