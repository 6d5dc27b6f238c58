//! halo: circular system-monitor widgets. This crate holds the verified core:
//! configuration model and colour parsing, tray-menu labels, file paths,
//! metric helpers and the frame-pacing / widget-group state machine.

pub mod config;
pub mod text;
pub mod tray;
pub mod paths;
pub mod app_state;
pub mod metrics;
pub mod icon;
