//! Supervision engine of a process supervisor: dependency resolution, the
//! per-service runtime registry, the event queue, the pending-start queue, the
//! health-watch decisions and the termination rules.
//!
//! Every operation is a deterministic step over a `Supervisor` value. Work that
//! must happen outside (spawning a child, sleeping, probing over the network)
//! is handed back to the caller as a plain value describing what to do.

pub mod config;
pub mod event;
pub mod platform;
pub mod status;
pub mod manager;
pub mod health;
pub mod env;
pub mod logger;
pub mod sys_service;
pub mod pid_file;
pub mod taskkill;
