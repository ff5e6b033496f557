//! The nightlight sub-device of a humidifier.
//!
//! Humidifiers expose their nightlight as a light entity, but it is not
//! addressable through the normal power/brightness/color commands: it needs a raw
//! BLE frame delivered over IoT `ptReal`.
//!
//! Selection is implicit: encoding only succeeds for SKUs that have a nightlight
//! codec, so every other device declines here.
use vstd::prelude::*;

use crate::ble::bytes;
use crate::ble::bytes::Base64HexBytes;
use crate::ble::codec;
use crate::ble::codec::PacketKind;
use crate::ble::frame;
use crate::ble::packets::SetHumidifierNightlightParams;
use crate::service::device::Device;
use crate::service::transport::DeviceOp;

verus! {

pub struct NightlightTransport;

impl NightlightTransport {
    /// The nightlight as last reported.
    pub open spec fn known(device: Device) -> SetHumidifierNightlightParams {
        match device.nightlight_state {
            Some(n) => SetHumidifierNightlightParams {
                on: n.on,
                r: n.r,
                g: n.g,
                b: n.b,
                brightness: n.brightness,
            },
            None => SetHumidifierNightlightParams { on: false, r: 0, g: 0, b: 0, brightness: 0 },
        }
    }

    /// The nightlight as the operation wants it; a brightness or a colour
    /// switches it on.
    pub open spec fn wanted(device: Device, op: DeviceOp) -> Option<SetHumidifierNightlightParams> {
        let known = Self::known(device);
        match op {
            DeviceOp::LightPowerOn(on) => Some(SetHumidifierNightlightParams { on, ..known }),
            DeviceOp::SetBrightness(percent) => Some(
                SetHumidifierNightlightParams { on: true, brightness: percent, ..known },
            ),
            DeviceOp::SetColorRgb { r, g, b } => Some(
                SetHumidifierNightlightParams { on: true, r, g, b, ..known },
            ),
            _ => None,
        }
    }

    /// Whether the operation goes out this way.
    pub open spec fn carries(iot_available: bool, device: Device, op: DeviceOp) -> bool {
        &&& Self::wanted(device, op) is Some
        &&& codec::sku_supports(device.sku@, PacketKind::SetHumidifierNightlight)
        &&& iot_available
        &&& device.undoc_device_info is Some
    }

    /// An operation changes its own attribute of the nightlight and leaves the rest
    /// as it was last reported, or dark where nothing was. A brightness or a colour
    /// is not sent to a nightlight that stays off.
    pub proof fn the_rest_of_the_nightlight_stays(device: Device, op: DeviceOp)
        ensures
            !(op is LightPowerOn) && !(op is SetBrightness) && !(op is SetColorRgb)
                ==> Self::wanted(device, op) is None,
            op is LightPowerOn || op is SetBrightness || op is SetColorRgb ==> (Self::wanted(
                device,
                op,
            ) matches Some(after) && {
                let before = device.nightlight_state;
                &&& op matches DeviceOp::LightPowerOn(on) ==> after.on == on
                &&& !(op is LightPowerOn) ==> after.on
                &&& op matches DeviceOp::SetBrightness(percent) ==> after.brightness == percent
                &&& op matches DeviceOp::SetColorRgb { r, g, b } ==> after.r == r && after.g == g
                    && after.b == b
                &&& before matches Some(n) ==> {
                    &&& !(op is SetBrightness) ==> after.brightness == n.brightness
                    &&& !(op is SetColorRgb) ==> after.r == n.r && after.g == n.g && after.b == n.b
                }
                &&& before is None ==> {
                    &&& !(op is SetBrightness) ==> after.brightness == 0
                    &&& !(op is SetColorRgb) ==> after.r == 0 && after.g == 0 && after.b == 0
                }
            }),
    {
    }

    /// Only a humidifier with a known nightlight is addressed this way, and only
    /// while AWS IoT is there and the account lists the device.
    pub proof fn only_humidifiers_have_a_nightlight(iot_available: bool, device: Device, op: DeviceOp)
        ensures
            Self::carries(iot_available, device, op) <==> {
                &&& op is LightPowerOn || op is SetBrightness || op is SetColorRgb
                &&& device.sku@ == "H7160"@
                &&& iot_available
                &&& device.undoc_device_info is Some
            },
    {
    }

    /// The base64 frames to send over AWS IoT; `None` if the operation is not
    /// for a nightlight, or the device cannot be reached.
    pub fn try_execute(iot_available: bool, device: &Device, op: &DeviceOp) -> (r: Option<
        Vec<String>,
    >)
        ensures
            match r {
                Some(frames) => Self::carries(iot_available, *device, *op) && bytes::is_base64_of(
                    frames@,
                    frame::finished(Self::wanted(*device, *op)->0.payload()),
                ),
                None => !Self::carries(iot_available, *device, *op),
            },
    {
        let mut params: SetHumidifierNightlightParams = match &device.nightlight_state {
            Some(n) => SetHumidifierNightlightParams {
                on: n.on,
                r: n.r,
                g: n.g,
                b: n.b,
                brightness: n.brightness,
            },
            None => SetHumidifierNightlightParams::default(),
        };
        match op {
            DeviceOp::LightPowerOn(on) => {
                params.on = *on;
            },
            DeviceOp::SetBrightness(percent) => {
                params.brightness = *percent;
                params.on = true;
            },
            DeviceOp::SetColorRgb { r, g, b } => {
                params.r = *r;
                params.g = *g;
                params.b = *b;
                params.on = true;
            },
            _ => {
                return None;
            },
        }
        match Base64HexBytes::encode_for_sku(device.sku.as_str(), &params) {
            Ok(command) => {
                if iot_available && device.undoc_device_info.is_some() {
                    Some(command.base64())
                } else {
                    None
                }
            },
            Err(_) => None,
        }
    }
}

} // verus!
