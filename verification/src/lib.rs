//! A tiered key/value cache and the activity bus that keeps a fleet of
//! instances coherent.
//!
//! The crate holds the decisions of both subsystems as verified code: which
//! tier answers a read and which tiers a read or a write fills, how an
//! activity is laid out on the wire, which subject it travels on, which
//! subscriptions share one upstream consumer, and what a consumer does with
//! each delivery and with a shutdown signal. Sockets, files, channels and
//! tasks belong to the caller, which performs the actions that the functions
//! here hand back.

pub mod activities;
pub mod base32;
pub mod cache_value;
pub mod codec;
pub mod error;
pub mod event;
pub mod integration_test;
pub mod job;
pub mod layer_cache;
pub mod memory_cache;
pub mod multiplexer;
pub mod publisher;
pub mod rebase;
pub mod service;
pub mod stream;
pub mod subject;
pub mod wire;
pub mod work_queue;
