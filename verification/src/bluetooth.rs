//! Bluetooth side: A2DP codec negotiation, device classification and state,
//! the device registry, and the decisions of the adapter manager.
pub mod agent;
pub mod avrcp;
pub mod codecs;
pub mod constants;
pub mod device;
pub mod discovery;
pub mod endpoint;
pub mod manager;
