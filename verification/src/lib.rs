//! Bluetooth frames, scheduling, device state and routing for Govee lights.
pub mod base64;
pub mod ble;
pub mod clock;
pub mod commands;
pub mod lan_api;
pub mod platform_api;
pub mod random_id;
pub mod service;
pub mod temperature;
pub mod text;
pub mod text_map;
pub mod undoc_api;
