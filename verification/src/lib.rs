//! Core of an on-demand deployment service for short-lived task containers.
//!
//! Authenticated users request an ephemeral instance of a named task; the
//! service allocates routing resources (a host port or a proxy hostname),
//! plans the container, persists the instance with a TTL, enforces per-user
//! quotas, and periodically reaps expired instances.
//!
//! This crate holds the lifecycle engine itself: the port allocator, the
//! record store, the deployment planner and its rollback bookkeeping, the
//! gateway decision logic, and the reaper step. Transport, the container
//! engine and persistence backends live outside; they hand plain values in
//! and take plain values back.

pub mod clock;
pub mod config;
pub mod deploy;
pub mod gateway;
pub mod ident;
pub mod models;
pub mod ports;
pub mod routing;
pub mod scheduler;
pub mod store;
pub mod textnum;
