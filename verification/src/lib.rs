//! Malverde core framework: identifiers, jobs and their manager, events and
//! their correlation, audit logging, and the storage row formats, with
//! contracts checked by Verus.

pub mod ids;
mod clock;
pub mod types;
pub mod error;
pub mod text_map;
pub mod job;
pub mod context;
pub mod manager;
pub mod events;
pub mod correlation;
pub mod event_bus;
pub mod audit;
pub mod audit_logger;
pub mod storage;
pub mod migrations;
pub mod config;
pub mod logging;
pub mod tui;
pub mod handlers;
pub mod cli;
