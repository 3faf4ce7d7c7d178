//! Network status snapshots: interface summaries, Wi-Fi tool output parsing
//! and the assembly of one report from the three probes.
pub mod text;
pub mod address;
pub mod wifi;
pub mod network;
pub mod tray;
