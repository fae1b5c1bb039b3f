//! A local-first task cache: callers mutate task state immediately against an
//! in-memory model while the mutations are queued and asynchronously
//! reconciled with a remote task-tracking service.
//!
//! The heart of the crate is the sync engine: it owns the authoritative local
//! snapshot ([`store::TaskStore`]), serializes conflicting mutations per task
//! ([`queue::Queue`] of [`queue::Action`]), replays queued actions against the
//! remote service with idempotency tokens and exponential backoff
//! ([`engine::SyncEngine`], [`backoff`]), and merges server deltas back into
//! local state. [`cache::LocalCache`] is the facade consumed by a UI layer.
//!
//! Network calls, terminal rendering and the wire encoding live outside this
//! crate; the engine is driven by handing it the clock and each call's result.

pub mod backoff;
pub mod cache;
pub mod engine;
pub mod errors;
pub mod queue;
pub mod render;
pub mod store;
pub mod task;
