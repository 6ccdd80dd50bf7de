//! Uploading firmware images to a device over a classic CAN bus.
//!
//! [`upload`] holds the protocol as a state machine that never touches the bus, [`wire`] the
//! frames it sends and reads, [`chunks`] the cutting of the binary, [`web`] the answers of the
//! HTTP service, and [`laws`] and [`history`] what is proved of whole uploads.

pub mod chunks;
pub mod frame;
pub mod history;
pub mod laws;
pub mod upload;
pub mod web;
pub mod wire;
