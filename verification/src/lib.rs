//! An embedded, persistent, time-expiring key-value cache layered over a
//! transactional relational store, organized into independent topics.
//!
//! Each topic is a durable table of key-to-value entries with an absolute
//! expiry. Reads amortize expiry refreshes through a deferred batch, and a
//! per-key lock registry lets concurrent cache-fill attempts for the same key
//! collapse into one recomputation.

pub mod batch;
pub mod cache;
pub mod config;
pub mod maint;
pub mod names;
pub mod notify;
pub mod registry;
pub mod store;

pub use cache::Acquire;
pub use cache::Cache;
pub use cache::KeyUpdater;
pub use cache::Topic;
pub use cache::Value;
pub use config::CacheConfig;
pub use store::StoreError;
