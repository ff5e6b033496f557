//! Devices, what is known of them, and how they are reached.
pub mod ble_bridge;
pub mod ble_scheduler;
pub mod device;
pub mod iot;
pub mod poll;
pub mod quirks;
pub mod segments;
pub mod state;
pub mod transport;
