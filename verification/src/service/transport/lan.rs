//! Govee's LAN UDP protocol.
//!
//! This is the only transport that verifies its own work: after issuing a command
//! it polls the device until the reported state matches, which is why each
//! command says which status it accepts.
use vstd::prelude::*;

use crate::lan_api::{DeviceColor, DeviceStatus};
use crate::service::device::Device;
use crate::service::transport::DeviceOp;

verus! {

/// What is sent over the LAN.
#[derive(Debug, PartialEq, Eq)]
pub enum LanCommand {
    Turn(bool),
    Brightness(u8),
    Color(DeviceColor),
    ColorTemperature(u32),
    Scene(String),
}

impl LanCommand {
    /// Whether a status shows that the command has taken effect. A scene is not
    /// waited for.
    pub open spec fn is_met_by(&self, status: DeviceStatus) -> bool {
        match self {
            LanCommand::Turn(on) => status.on == *on,
            LanCommand::Brightness(percent) => status.brightness == *percent,
            LanCommand::Color(color) => status.color == *color,
            LanCommand::ColorTemperature(kelvin) => status.color_temperature_kelvin == *kelvin,
            LanCommand::Scene(_) => true,
        }
    }

    pub fn accepts(&self, status: &DeviceStatus) -> (r: bool)
        ensures
            r == self.is_met_by(*status),
    {
        match self {
            LanCommand::Turn(on) => status.on == *on,
            LanCommand::Brightness(percent) => status.brightness == *percent,
            LanCommand::Color(color) => status.color == *color,
            LanCommand::ColorTemperature(kelvin) => status.color_temperature_kelvin == *kelvin,
            LanCommand::Scene(_) => true,
        }
    }

    /// A scene is sent and not waited for, since every status meets it. Every other
    /// command is waited for.
    pub proof fn what_is_waited_for(&self, status: DeviceStatus)
        ensures
            self.shows_in_a_status() <==> self is Turn || self is Brightness || self is Color
                || self is ColorTemperature,
            !self.shows_in_a_status() ==> self.is_met_by(status),
    {
    }

    /// Whether a status can tell that the command took effect.
    pub open spec fn shows_in_a_status(&self) -> bool {
        !(*self is Scene)
    }

    /// Whether the device is polled until it shows the effect.
    pub fn is_verified(&self) -> (r: bool)
        ensures
            r == self.shows_in_a_status(),
            r == !(*self is Scene),
    {
        !matches!(self, LanCommand::Scene(_))
    }
}

pub struct LanTransport;

impl LanTransport {
    /// What carries the operation, for a device that answers on the LAN. A
    /// device whose light toggle cannot be named is not touched.
    pub open spec fn command(device: Device, op: DeviceOp) -> Option<LanCommand> {
        if device.lan_device is None {
            None
        } else {
            match op {
                DeviceOp::PowerOn(on) => Some(LanCommand::Turn(on)),
                DeviceOp::LightPowerOn(on) => if device.light_toggle() is Some {
                    Some(LanCommand::Turn(on))
                } else {
                    None
                },
                DeviceOp::SetBrightness(percent) => Some(LanCommand::Brightness(percent)),
                DeviceOp::SetColorRgb { r, g, b } => Some(
                    LanCommand::Color(DeviceColor { r, g, b }),
                ),
                DeviceOp::SetColorTemperature(kelvin) => Some(LanCommand::ColorTemperature(kelvin)),
                DeviceOp::SetScene(scene) => Some(LanCommand::Scene(scene)),
                DeviceOp::SetHumidifierParameter { .. } => None,
                DeviceOp::SetTargetTemperature { .. } => None,
            }
        }
    }

    /// What is sent for an operation is what was asked for: a status meets it
    /// exactly if it shows that, attribute by attribute. A scene goes out under its
    /// own name. Every operation of a light is taken on, where the device answers
    /// on the LAN and, to switch its light, where that can be told from the rest of
    /// it.
    pub proof fn a_status_meets_what_was_asked_for(
        device: Device,
        op: DeviceOp,
        status: DeviceStatus,
    )
        ensures
            device.lan_device is None ==> Self::command(device, op) is None,
            device.lan_device is Some ==> match op {
                DeviceOp::PowerOn(on) => Self::command(device, op) matches Some(c) && (c.is_met_by(
                    status,
                ) <==> (status.on <==> on)),
                DeviceOp::LightPowerOn(on) => if device.light_toggle() is Some {
                    Self::command(device, op) matches Some(c) && (c.is_met_by(status) <==> (
                    status.on <==> on))
                } else {
                    Self::command(device, op) is None
                },
                DeviceOp::SetBrightness(percent) => Self::command(device, op) matches Some(c) && (
                c.is_met_by(status) <==> status.brightness == percent),
                DeviceOp::SetColorRgb { r, g, b } => Self::command(device, op) matches Some(c) && (
                c.is_met_by(status) <==> status.color.r == r && status.color.g == g
                    && status.color.b == b),
                DeviceOp::SetColorTemperature(kelvin) => Self::command(device, op) matches Some(c)
                    && (c.is_met_by(status) <==> status.color_temperature_kelvin == kelvin),
                DeviceOp::SetScene(scene) => Self::command(device, op) matches Some(
                    LanCommand::Scene(sent),
                ) && sent@ == scene@,
                _ => Self::command(device, op) is None,
            },
    {
    }

    /// The commands of two operations are alike only if the operations ask for the
    /// same: nothing of what was asked for is lost on the way.
    pub proof fn different_wishes_are_sent_differently(device: Device, one: DeviceOp, other: DeviceOp)
        requires
            Self::command(device, one) is Some,
            Self::command(device, one) == Self::command(device, other),
        ensures
            one == other || ((one is PowerOn || one is LightPowerOn) && (other is PowerOn
                || other is LightPowerOn)),
            one matches DeviceOp::PowerOn(on) ==> (other == DeviceOp::PowerOn(on) || other
                == DeviceOp::LightPowerOn(on)),
    {
    }

    /// Decides what to send; `None` if the operation is not for the LAN.
    pub fn try_execute(device: &Device, op: &DeviceOp) -> (r: Option<LanCommand>)
        ensures
            r == Self::command(*device, *op),
    {
        if device.lan_device.is_none() {
            return None;
        }
        match op {
            DeviceOp::PowerOn(on) => Some(LanCommand::Turn(*on)),
            DeviceOp::LightPowerOn(on) => {
                match device.get_light_power_toggle_instance_name() {
                    Some(_) => Some(LanCommand::Turn(*on)),
                    None => None,
                }
            },
            DeviceOp::SetBrightness(percent) => Some(LanCommand::Brightness(*percent)),
            DeviceOp::SetColorRgb { r, g, b } => Some(
                LanCommand::Color(DeviceColor { r: *r, g: *g, b: *b }),
            ),
            DeviceOp::SetColorTemperature(kelvin) => Some(LanCommand::ColorTemperature(*kelvin)),
            DeviceOp::SetScene(scene) => Some(LanCommand::Scene(scene.clone())),
            DeviceOp::SetHumidifierParameter { .. } => None,
            DeviceOp::SetTargetTemperature { .. } => None,
        }
    }
}

/// How long the LAN is polled for the effect of a command.
pub const LAN_VERIFY_MS: u64 = 5000;

/// The pause between two polls for the effect of a command.
pub const LAN_VERIFY_PAUSE_MS: u64 = 100;

/// What to do while waiting for the effect of a command.
#[derive(Clone, Copy, Debug, PartialEq, Eq, Structural)]
pub enum LanPollStep {
    /// Ask for the status.
    Query,
    /// Wait before asking again.
    Pause(u64),
    /// Publish the status that was last read.
    Publish,
}

/// What to do `elapsed_ms` after the command, before asking again.
pub open spec fn poll_begins(elapsed_ms: u64) -> LanPollStep {
    if elapsed_ms > 5000 {
        LanPollStep::Publish
    } else {
        LanPollStep::Query
    }
}

/// What follows a status, given the command and whether it is met.
pub open spec fn poll_goes_on(accepted: bool) -> LanPollStep {
    if !accepted {
        LanPollStep::Pause(100)
    } else {
        LanPollStep::Publish
    }
}

/// The device is asked for five seconds at most, and no longer once it shows what was
/// asked for; what it showed last is published either way.
pub proof fn how_long_an_effect_is_waited_for(elapsed_ms: u64, accepted: bool)
    ensures
        poll_begins(elapsed_ms) is Query <==> elapsed_ms <= 5000,
        poll_begins(elapsed_ms) is Publish <==> elapsed_ms > 5000,
        poll_goes_on(accepted) is Publish <==> accepted,
        poll_goes_on(accepted) matches LanPollStep::Pause(ms) ==> ms == 100,
        !accepted ==> poll_goes_on(accepted) is Pause,
{
}

/// Whether there is time to ask again, `elapsed_ms` after the command.
pub fn lan_poll_begin(elapsed_ms: u64) -> (r: LanPollStep)
    ensures
        r == poll_begins(elapsed_ms),
        r == (if elapsed_ms <= LAN_VERIFY_MS {
            LanPollStep::Query
        } else {
            LanPollStep::Publish
        }),
{
    if elapsed_ms <= LAN_VERIFY_MS {
        LanPollStep::Query
    } else {
        LanPollStep::Publish
    }
}

/// What follows a status that the device reported.
pub fn lan_poll_answered(accepted: bool) -> (r: LanPollStep)
    ensures
        r == poll_goes_on(accepted),
        r == (if accepted {
            LanPollStep::Publish
        } else {
            LanPollStep::Pause(LAN_VERIFY_PAUSE_MS)
        }),
{
    if accepted {
        LanPollStep::Publish
    } else {
        LanPollStep::Pause(LAN_VERIFY_PAUSE_MS)
    }
}

} // verus!
