//! Govee's official Platform HTTP API — the fallback that works for the widest
//! range of devices, at the cost of latency and a request quota.
use vstd::prelude::*;

use crate::service::device::Device;
use crate::service::transport::DeviceOp;
use crate::temperature::TemperatureValue;

verus! {

/// What is asked of the Platform API.
#[derive(Debug, PartialEq, Eq)]
pub enum PlatformRequest {
    Power(bool),
    Toggle { instance: &'static str, on: bool },
    Brightness(u8),
    Color { r: u8, g: u8, b: u8 },
    ColorTemperature(u32),
    Scene(String),
    WorkMode { work_mode: i64, value: i64 },
    TargetTemperature { instance: String, target: TemperatureValue },
}

pub struct PlatformTransport;

impl PlatformTransport {
    /// What carries the operation, where there is a client and the account
    /// lists the device. Some devices report scenes that the Platform API then
    /// refuses to honour; those are not asked for.
    pub open spec fn request(
        client_available: bool,
        device: Device,
        op: DeviceOp,
    ) -> Option<PlatformRequest> {
        if !client_available || device.http_device_info is None {
            None
        } else {
            match op {
                DeviceOp::PowerOn(on) => Some(PlatformRequest::Power(on)),
                DeviceOp::LightPowerOn(on) => match device.light_toggle() {
                    Some(instance) => Some(PlatformRequest::Toggle { instance, on }),
                    None => None,
                },
                DeviceOp::SetBrightness(percent) => Some(PlatformRequest::Brightness(percent)),
                DeviceOp::SetColorRgb { r, g, b } => Some(PlatformRequest::Color { r, g, b }),
                DeviceOp::SetColorTemperature(kelvin) => Some(
                    PlatformRequest::ColorTemperature(kelvin),
                ),
                DeviceOp::SetScene(scene) => if device.distrusts_platform() {
                    None
                } else {
                    Some(PlatformRequest::Scene(scene))
                },
                DeviceOp::SetHumidifierParameter { work_mode, value } => Some(
                    PlatformRequest::WorkMode { work_mode, value },
                ),
                DeviceOp::SetTargetTemperature { instance, target } => Some(
                    PlatformRequest::TargetTemperature { instance, target },
                ),
            }
        }
    }

    /// Decides what to ask for; `None` if the operation is not for this API.
    pub fn try_execute(client_available: bool, device: &Device, op: &DeviceOp) -> (r: Option<
        PlatformRequest,
    >)
        ensures
            r == Self::request(client_available, *device, *op),
    {
        if !client_available || device.http_device_info.is_none() {
            return None;
        }
        match op {
            DeviceOp::PowerOn(on) => Some(PlatformRequest::Power(*on)),
            DeviceOp::LightPowerOn(on) => match device.get_light_power_toggle_instance_name() {
                Some(instance) => Some(PlatformRequest::Toggle { instance, on: *on }),
                None => None,
            },
            DeviceOp::SetBrightness(percent) => Some(PlatformRequest::Brightness(*percent)),
            DeviceOp::SetColorRgb { r, g, b } => Some(
                PlatformRequest::Color { r: *r, g: *g, b: *b },
            ),
            DeviceOp::SetColorTemperature(kelvin) => Some(
                PlatformRequest::ColorTemperature(*kelvin),
            ),
            DeviceOp::SetScene(scene) => {
                if device.avoid_platform_api() {
                    None
                } else {
                    Some(PlatformRequest::Scene(scene.clone()))
                }
            },
            DeviceOp::SetHumidifierParameter { work_mode, value } => Some(
                PlatformRequest::WorkMode { work_mode: *work_mode, value: *value },
            ),
            DeviceOp::SetTargetTemperature { instance, target } => Some(
                PlatformRequest::TargetTemperature { instance: instance.clone(), target: *target },
            ),
        }
    }
}

} // verus!
