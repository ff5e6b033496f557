//! What Govee's account metadata says of a device.
use vstd::prelude::*;

verus! {

#[derive(Clone, Debug, PartialEq, Eq)]
pub struct DeviceSettings {
    /// The MQTT topic on which the device takes commands.
    pub topic: Option<String>,
    /// The Bluetooth address.
    pub address: Option<String>,
    /// The Wi-Fi network that the device is in. Bluetooth-only devices have none.
    pub wifi_name: Option<String>,
}

#[derive(Clone, Debug, PartialEq, Eq)]
pub struct DeviceEntryExt {
    pub device_settings: DeviceSettings,
}

#[derive(Clone, Debug, PartialEq, Eq)]
pub struct DeviceEntry {
    pub sku: String,
    pub device: String,
    pub device_name: String,
    pub group_id: u64,
    pub device_ext: DeviceEntryExt,
}

/// The metadata names no topic for the device.
#[derive(Clone, Copy, Debug, PartialEq, Eq, Structural)]
pub struct NoTopic;

impl DeviceEntry {
    pub fn device_topic(&self) -> (r: Result<&str, NoTopic>)
        ensures
            match r {
                Ok(topic) => self.device_ext.device_settings.topic matches Some(t) && topic@ == t@,
                Err(_) => self.device_ext.device_settings.topic is None,
            },
    {
        match &self.device_ext.device_settings.topic {
            Some(topic) => Ok(topic.as_str()),
            None => Err(NoTopic),
        }
    }
}

/// A group of devices, that is a room.
#[derive(Clone, Debug, PartialEq, Eq)]
pub struct GroupEntry {
    pub group_id: u64,
    pub group_name: String,
}

/// The messages of a one-click shortcut for one topic.
#[derive(Clone, Debug, PartialEq, Eq)]
pub struct OneClickEntry {
    pub topic: String,
    pub msgs: Vec<String>,
}

#[derive(Clone, Debug, PartialEq, Eq)]
pub struct ParsedOneClick {
    pub name: String,
    pub entries: Vec<OneClickEntry>,
}

} // verus!
