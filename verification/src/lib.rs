//! Connectivity monitoring for a small set of network devices: input rules,
//! per-device online/offline tracking, tray status aggregation and the
//! bookkeeping that keeps one monitor running per registered device.

pub mod domain;
pub mod engine;
pub mod ipv4;
pub mod models;
pub mod monitor;
pub mod settings;
pub mod text;
pub mod tray;
