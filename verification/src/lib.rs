//! Supervisor and logging pipeline for a desktop launcher application.
//!
//! The crate provides the verified core of a companion process that launches
//! one external worker, funnels the worker's output and the host's own log
//! events into a bounded in-memory log store mirrored to a size-rotated log
//! file, and tears the worker down again on shutdown.

pub mod admin;
pub mod env_utils;
pub mod file_fetch_utils;
pub mod launcher;
pub mod log_ingest;
pub mod log_store;
pub mod mouse;
pub mod nats_config;
pub mod paths;
pub mod port_checker;
pub mod shutdown;
pub mod task_scheduler;
pub mod text;
