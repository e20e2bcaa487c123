//! Verified core of a desktop hardware/usage monitor that drives analog gauges
//! over USB serial, and of the gauge firmware's command handling.
pub mod gauge_protocol;
pub mod firmware;
pub mod text;
pub mod codex;
pub mod credentials;
pub mod claude;
pub mod serial;
pub mod usb_control;
pub mod monitor;
pub mod device;
