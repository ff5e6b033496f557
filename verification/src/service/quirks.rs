//! What is known of a model beyond what its metadata says.
use vstd::prelude::*;

use crate::platform_api::DeviceType;
use crate::text::str_eq;

verus! {

/// What is known of a model.
#[derive(Debug, PartialEq, Eq)]
pub struct Quirk {
    pub device_type: DeviceType,
    pub supports_rgb: bool,
    pub supports_brightness: bool,
    pub color_temp_range: Option<(u32, u32)>,
    pub avoid_platform_api: bool,
    pub lan_api_capable: bool,
    /// Whether AWS IoT works for this model, where that is known.
    pub iot_api_supported: Option<bool>,
    pub ble_only: bool,
}

impl Clone for Quirk {
    fn clone(&self) -> (r: Self)
        ensures
            r == *self,
    {
        Quirk {
            device_type: self.device_type.clone(),
            supports_rgb: self.supports_rgb,
            supports_brightness: self.supports_brightness,
            color_temp_range: self.color_temp_range,
            avoid_platform_api: self.avoid_platform_api,
            lan_api_capable: self.lan_api_capable,
            iot_api_supported: self.iot_api_supported,
            ble_only: self.ble_only,
        }
    }
}

impl Quirk {
    /// A light that is known only from the LAN: it can do what the LAN protocol
    /// offers.
    pub open spec fn lan_light() -> Quirk {
        Quirk {
            device_type: DeviceType::Light,
            supports_rgb: true,
            supports_brightness: true,
            color_temp_range: Some((2000, 9000)),
            avoid_platform_api: false,
            lan_api_capable: true,
            iot_api_supported: None,
            ble_only: false,
        }
    }

    /// A light with a colour, a brightness and a colour temperature.
    pub fn light() -> (r: Self)
        ensures
            r == (Quirk { lan_api_capable: false, ..Quirk::lan_light() }),
    {
        Quirk {
            device_type: DeviceType::Light,
            supports_rgb: true,
            supports_brightness: true,
            color_temp_range: Some((2000, 9000)),
            avoid_platform_api: false,
            lan_api_capable: false,
            iot_api_supported: None,
            ble_only: false,
        }
    }

    pub fn with_lan_api(self) -> (r: Self)
        ensures
            r == (Quirk { lan_api_capable: true, ..self }),
    {
        Quirk { lan_api_capable: true, ..self }
    }
}

/// How many segments one string of a chainable model has.
pub open spec fn string_length(sku: Seq<char>) -> Option<u32> {
    if sku == "H7020"@ {
        Some(15)
    } else {
        None
    }
}

/// Of one model strings can be chained, and each has fifteen segments.
pub proof fn which_strings_are_chained(sku: Seq<char>)
    ensures
        string_length(sku) is Some <==> sku == "H7020"@,
        string_length(sku) matches Some(length) ==> length == 15,
{
}

/// What is known of a light from the LAN alone: it shows colours, can be dimmed and
/// warmed, and answers on the LAN.
pub proof fn what_a_light_on_the_lan_can_do()
    ensures
        ({
            let light = Quirk::lan_light();
            &&& light.device_type is Light
            &&& light.supports_rgb && light.supports_brightness && light.lan_api_capable
            &&& !light.avoid_platform_api && !light.ble_only && light.iot_api_supported is None
            &&& light.color_temp_range == Some((2000u32, 9000u32))
        }),
{
}

pub fn segments_per_chained_string(sku: &str) -> (r: Option<u32>)
    ensures
        r == string_length(sku@),
{
    if str_eq(sku, "H7020") {
        Some(15)
    } else {
        None
    }
}

} // verus!
