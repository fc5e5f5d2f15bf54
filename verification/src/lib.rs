//! View-state core of an interactive terminal process browser.
//!
//! The library holds the pure, verified part of a system dashboard: the
//! keyboard-driven view state machine, the process categorizer, the stable
//! sort / filter / pagination pipeline that decides which processes are
//! visible, the text formatting helpers, and the VPN status-text parsers.
//! Telemetry sampling, terminal rendering and external tool probing live
//! outside the library and only exchange plain values with it.

pub mod app;
pub mod category;
pub mod format;
pub mod process;
pub mod text;
pub mod vpn;
