//! Verified core of the Flux system-monitor widget: the remote-monitoring
//! handshake, the installer's command line and plans, update checks, sensor
//! decoding, and the widget's settings rules.

#![allow(unused_imports)]

pub mod text;
pub mod crypto;
pub mod protocol;
pub mod ratelimit;
pub mod identity;
pub mod updates;
pub mod settings;
pub mod sensor;
pub mod cpu;
pub mod gpu;
pub mod engine;
pub mod setup;
pub mod widget;
pub mod payload;
pub mod remote;
pub mod clock;
pub mod json;
