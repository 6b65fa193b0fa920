//! USB per-port power control for lab boards: target resolution, hub listing
//! parsing, J-Link probe discovery and the power-control protocols.
pub mod args;
pub mod boards;
pub mod error;
pub mod flow;
pub mod hub;
pub mod jlink;
pub mod last_seen;
pub mod listing;
pub mod targets;
pub mod text;
pub mod uhubctl;
