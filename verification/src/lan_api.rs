//! What Govee's LAN protocol says of a device.
use vstd::prelude::*;

verus! {

#[derive(Clone, Copy, Debug, PartialEq, Eq, Structural)]
pub struct DeviceColor {
    pub r: u8,
    pub g: u8,
    pub b: u8,
}

impl DeviceColor {
    pub open spec fn black() -> DeviceColor {
        DeviceColor { r: 0, g: 0, b: 0 }
    }
}

impl Default for DeviceColor {
    fn default() -> (r: Self)
        ensures
            r == DeviceColor::black(),
    {
        DeviceColor { r: 0, g: 0, b: 0 }
    }
}

/// The state of a light.
#[derive(Clone, Copy, Debug, PartialEq, Eq, Structural)]
pub struct DeviceStatus {
    pub on: bool,
    pub brightness: u8,
    pub color: DeviceColor,
    pub color_temperature_kelvin: u32,
}

impl DeviceStatus {
    /// Off, dark and black.
    pub open spec fn unknown() -> DeviceStatus {
        DeviceStatus {
            on: false,
            brightness: 0,
            color: DeviceColor::black(),
            color_temperature_kelvin: 0,
        }
    }
}

/// A light of which nothing is known counts as off, dark and black.
pub proof fn what_is_not_known_is_off()
    ensures
        !DeviceStatus::unknown().on,
        DeviceStatus::unknown().brightness == 0,
        DeviceStatus::unknown().color.r == 0,
        DeviceStatus::unknown().color.g == 0,
        DeviceStatus::unknown().color.b == 0,
        DeviceStatus::unknown().color_temperature_kelvin == 0,
        DeviceStatus::unknown().color == DeviceColor::black(),
{
}

impl Default for DeviceStatus {
    fn default() -> (r: Self)
        ensures
            r == DeviceStatus::unknown(),
    {
        DeviceStatus {
            on: false,
            brightness: 0,
            color: DeviceColor::default(),
            color_temperature_kelvin: 0,
        }
    }
}

/// A device that answers on the LAN.
#[derive(Clone, Debug, PartialEq, Eq)]
pub struct LanDevice {
    /// The IP address, as text.
    pub ip: String,
    pub sku: String,
    pub device: String,
}

} // verus!
