//! The WebSocket side of the web interface: which events reach which client.
pub mod ws;
