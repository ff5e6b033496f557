//! What Govee's Platform API says of a device.
use vstd::prelude::*;

use crate::text::str_eq;

verus! {

#[derive(Debug, PartialEq, Eq)]
pub enum DeviceType {
    Light,
    Humidifier,
    Kettle,
    /// Another type that Govee documents.
    Known(String),
    /// A type that is not documented.
    Other(String),
}

impl Clone for DeviceType {
    fn clone(&self) -> (r: Self)
        ensures
            r == *self,
    {
        match self {
            DeviceType::Light => DeviceType::Light,
            DeviceType::Humidifier => DeviceType::Humidifier,
            DeviceType::Kettle => DeviceType::Kettle,
            DeviceType::Known(name) => DeviceType::Known(name.clone()),
            DeviceType::Other(name) => DeviceType::Other(name.clone()),
        }
    }
}

impl DeviceType {
    pub fn is_light(&self) -> (r: bool)
        ensures
            r == (*self is Light),
    {
        matches!(self, DeviceType::Light)
    }
}

#[derive(Clone, Debug, PartialEq, Eq)]
pub struct DeviceCapability {
    pub instance: String,
}

/// A device as the account lists it.
#[derive(Clone, Debug, PartialEq, Eq)]
pub struct HttpDeviceInfo {
    pub sku: String,
    pub device: String,
    pub device_name: String,
    pub device_type: DeviceType,
    pub capabilities: Vec<DeviceCapability>,
    /// Whether its capabilities include a colour.
    pub rgb: bool,
    /// Whether its capabilities include a brightness.
    pub brightness: bool,
    pub color_temperature_range: Option<(u32, u32)>,
    /// The segments that can be given a colour: the first, and the one past the
    /// last.
    pub segmented_rgb: Option<(u32, u32)>,
}

impl HttpDeviceInfo {
    pub open spec fn has_capability(&self, instance: Seq<char>) -> bool {
        exists|i: int|
            0 <= i < self.capabilities@.len() && (#[trigger] self.capabilities@[i]).instance@
                == instance
    }

    /// A device has the capabilities that are listed for it, each under its own name, and
    /// no other.
    pub proof fn what_is_listed_is_there(&self, i: int, instance: Seq<char>)
        ensures
            0 <= i < self.capabilities@.len() ==> self.has_capability(
                self.capabilities@[i].instance@,
            ),
            (forall|k: int|
                0 <= k < self.capabilities@.len() ==> (
                #[trigger] self.capabilities@[k]).instance@ != instance) ==> !self.has_capability(
                instance,
            ),
    {
    }

    pub fn supports_rgb(&self) -> (r: bool)
        ensures
            r == self.rgb,
    {
        self.rgb
    }

    pub fn supports_brightness(&self) -> (r: bool)
        ensures
            r == self.brightness,
    {
        self.brightness
    }

    pub fn get_color_temperature_range(&self) -> (r: Option<(u32, u32)>)
        ensures
            r == self.color_temperature_range,
    {
        self.color_temperature_range
    }

    pub fn supports_segmented_rgb(&self) -> (r: Option<(u32, u32)>)
        ensures
            r == self.segmented_rgb,
    {
        self.segmented_rgb
    }

    /// The first capability of that name.
    pub fn capability_by_instance(&self, instance: &str) -> (r: Option<&DeviceCapability>)
        ensures
            match r {
                Some(cap) => exists|i: int|
                    0 <= i < self.capabilities@.len() && *cap == #[trigger] self.capabilities@[i]
                        && cap.instance@ == instance@ && forall|j: int|
                        0 <= j < i ==> (#[trigger] self.capabilities@[j]).instance@ != instance@,
                None => !self.has_capability(instance@),
            },
    {
        for i in 0..self.capabilities.len()
            invariant
                forall|j: int|
                    0 <= j < i ==> (#[trigger] self.capabilities@[j]).instance@ != instance@,
        {
            if str_eq(self.capabilities[i].instance.as_str(), instance) {
                return Some(&self.capabilities[i]);
            }
        }
        None
    }
}

/// The value of a capability's state.
#[derive(Clone, Copy, Debug, PartialEq, Eq, Structural)]
pub enum CapabilityValue {
    /// The state carries an integer from 0 to 2^32 - 1.
    Integer(u32),
    /// The state carries a truth value.
    Bool(bool),
    /// The state carries anything else, or nothing.
    Other,
}

#[derive(Clone, Debug, PartialEq, Eq)]
pub struct DeviceCapabilityState {
    pub instance: String,
    pub state: CapabilityValue,
}

#[derive(Clone, Debug, PartialEq, Eq)]
pub struct HttpDeviceState {
    pub capabilities: Vec<DeviceCapabilityState>,
}

impl HttpDeviceState {
    pub open spec fn has_capability(&self, instance: Seq<char>) -> bool {
        exists|i: int|
            0 <= i < self.capabilities@.len() && (#[trigger] self.capabilities@[i]).instance@
                == instance
    }

    /// A device has the capabilities that are listed for it, each under its own name, and
    /// no other.
    pub proof fn what_is_listed_is_there(&self, i: int, instance: Seq<char>)
        ensures
            0 <= i < self.capabilities@.len() ==> self.has_capability(
                self.capabilities@[i].instance@,
            ),
            (forall|k: int|
                0 <= k < self.capabilities@.len() ==> (
                #[trigger] self.capabilities@[k]).instance@ != instance) ==> !self.has_capability(
                instance,
            ),
    {
    }

    /// The first capability of that name.
    pub fn capability_by_instance(&self, instance: &str) -> (r: Option<&DeviceCapabilityState>)
        ensures
            match r {
                Some(cap) => exists|i: int|
                    0 <= i < self.capabilities@.len() && *cap == #[trigger] self.capabilities@[i]
                        && cap.instance@ == instance@ && forall|j: int|
                        0 <= j < i ==> (#[trigger] self.capabilities@[j]).instance@ != instance@,
                None => !self.has_capability(instance@),
            },
    {
        for i in 0..self.capabilities.len()
            invariant
                forall|j: int|
                    0 <= j < i ==> (#[trigger] self.capabilities@[j]).instance@ != instance@,
        {
            if str_eq(self.capabilities[i].instance.as_str(), instance) {
                return Some(&self.capabilities[i]);
            }
        }
        None
    }
}

} // verus!
