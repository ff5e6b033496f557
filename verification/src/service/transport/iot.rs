//! Govee's undocumented AWS IoT MQTT API.
//!
//! Most operations are gated on `Device::iot_api_supported()`. Humidifier
//! parameters are the exception: they are carried as a raw BLE frame in a `ptReal`
//! payload, which the Platform API cannot express, and so are always attempted.
use vstd::prelude::*;

use crate::ble::bytes;
use crate::ble::bytes::Base64HexBytes;
use crate::ble::codec;
use crate::ble::codec::PacketKind;
use crate::ble::frame;
use crate::ble::packets::SetHumidifierMode;
use crate::service::device::Device;
use crate::service::transport::DeviceOp;

verus! {

/// What is sent over AWS IoT.
#[derive(Debug, PartialEq, Eq)]
pub enum IotCommand {
    /// Raw frames, as base64 texts.
    Real(Vec<String>),
    Power(bool),
    Brightness(u8),
    Color { r: u8, g: u8, b: u8 },
    ColorTemperature(u32),
}

/// The lowest eight bits of a number.
fn low_byte(n: i64) -> (r: u8)
    ensures
        r == n as int % 256,
{
    let m: i64 = n % 256;
    if m < 0 {
        (m + 256) as u8
    } else {
        m as u8
    }
}

pub struct IotTransport;

impl IotTransport {
    /// The frame that sets a humidifier's mode: the low bytes of both numbers.
    pub open spec fn humidifier_mode(work_mode: i64, value: i64) -> SetHumidifierMode {
        SetHumidifierMode {
            mode: (work_mode as int % 256) as u8,
            param: (value as int % 256) as u8,
        }
    }

    /// Whether the operation goes out over AWS IoT.
    pub open spec fn carries(iot_available: bool, device: Device, op: DeviceOp) -> bool {
        &&& iot_available
        &&& device.undoc_device_info is Some
        &&& match op {
            DeviceOp::SetHumidifierParameter { .. } => codec::sku_supports(
                device.sku@,
                PacketKind::SetHumidifierMode,
            ),
            DeviceOp::PowerOn(_)
            | DeviceOp::SetBrightness(_)
            | DeviceOp::SetColorRgb { .. }
            | DeviceOp::SetColorTemperature(_) => device.reached_by_iot(),
            DeviceOp::LightPowerOn(_) => device.reached_by_iot() && device.light_toggle() is Some,
            DeviceOp::SetScene(_) => false,
            DeviceOp::SetTargetTemperature { .. } => false,
        }
    }

    /// Whether `command` is what carries the operation.
    pub open spec fn is_command(op: DeviceOp, command: IotCommand) -> bool {
        match (op, command) {
            (
                DeviceOp::SetHumidifierParameter { work_mode, value },
                IotCommand::Real(frames),
            ) => bytes::is_base64_of(
                frames@,
                frame::finished(Self::humidifier_mode(work_mode, value).payload()),
            ),
            (DeviceOp::PowerOn(on), IotCommand::Power(power)) => power == on,
            (DeviceOp::LightPowerOn(on), IotCommand::Power(power)) => power == on,
            (DeviceOp::SetBrightness(percent), IotCommand::Brightness(sent)) => sent == percent,
            (DeviceOp::SetColorRgb { r, g, b }, IotCommand::Color { r: x, g: y, b: z }) => {
                (x, y, z) == (r, g, b)
            },
            (DeviceOp::SetColorTemperature(kelvin), IotCommand::ColorTemperature(sent)) => {
                sent == kelvin
            },
            _ => false,
        }
    }

    /// A mode and a value that fit a byte are sent as they are, and others by what
    /// they leave over 256.
    pub proof fn numbers_of_a_byte_are_sent_as_they_are(work_mode: i64, value: i64)
        ensures
            ({
                let sent = Self::humidifier_mode(work_mode, value);
                &&& 0 <= work_mode < 256 ==> sent.mode == work_mode
                &&& 0 <= value < 256 ==> sent.param == value
                &&& (work_mode - sent.mode) % 256 == 0
                &&& (value - sent.param) % 256 == 0
            }),
    {
    }

    /// A command says which operation it is for, but for the two kinds of power.
    pub proof fn a_command_tells_its_operation(one: DeviceOp, other: DeviceOp, command: IotCommand)
        requires
            Self::is_command(one, command),
            Self::is_command(other, command),
            !(command is Real),
        ensures
            one == other || ((one is PowerOn || one is LightPowerOn) && (other is PowerOn
                || other is LightPowerOn)),
            !(one is SetHumidifierParameter) && !(one is SetScene) && !(
            one is SetTargetTemperature),
    {
    }

    /// Decides what to send; `None` if the operation is not for AWS IoT.
    pub fn try_execute(iot_available: bool, device: &Device, op: &DeviceOp) -> (r: Option<
        IotCommand,
    >)
        ensures
            match r {
                Some(command) => Self::carries(iot_available, *device, *op) && Self::is_command(
                    *op,
                    command,
                ),
                None => !Self::carries(iot_available, *device, *op),
            },
    {
        // Humidifier parameters bypass the `iot_api_supported` gate.
        if let DeviceOp::SetHumidifierParameter { work_mode, value } = op {
            let params = SetHumidifierMode { mode: low_byte(*work_mode), param: low_byte(*value) };
            return match Base64HexBytes::encode_for_sku(device.sku.as_str(), &params) {
                Ok(command) => if iot_available && device.undoc_device_info.is_some() {
                    Some(IotCommand::Real(command.base64()))
                } else {
                    None
                },
                Err(_) => None,
            };
        }
        if !device.iot_api_supported() {
            return None;
        }
        if !iot_available || device.undoc_device_info.is_none() {
            return None;
        }
        match op {
            DeviceOp::PowerOn(on) => Some(IotCommand::Power(*on)),
            DeviceOp::LightPowerOn(on) => match device.get_light_power_toggle_instance_name() {
                Some(_) => Some(IotCommand::Power(*on)),
                None => None,
            },
            DeviceOp::SetBrightness(percent) => Some(IotCommand::Brightness(*percent)),
            DeviceOp::SetColorRgb { r, g, b } => Some(IotCommand::Color { r: *r, g: *g, b: *b }),
            DeviceOp::SetColorTemperature(kelvin) => Some(IotCommand::ColorTemperature(*kelvin)),
            _ => None,
        }
    }
}

} // verus!
