//! Govee's AWS IoT broker: what is sent to devices, what they report, and the
//! credentials of the connection.
pub mod client;
pub mod container;
pub mod credentials;
pub mod der;
pub mod packet;

pub use client::{IotClient, IotData, IotMessage};
pub use credentials::{iot_credentials, CredentialError, Credentials};
pub use packet::{frames_we_understand, OpData, Packet, PacketOutcome, StateUpdate};
