//! Bluetooth LE, executed by the `govee_ble_executor` Home Assistant integration.
//!
//! Sits first in the transport order for the operations it understands, so that
//! a device within range of a proxy is driven locally rather than through
//! Govee's cloud. Unlike the other transports it opts into falling through on
//! error: a radio link that fails should hand over to the cloud, not surface as
//! a failed command.
use vstd::prelude::*;

use crate::service::ble_scheduler::pending;
use crate::service::ble_scheduler::pending::{FrameError, PendingOps};
use crate::service::ble_scheduler::scheduler::BleScheduler;
use crate::service::device::Device;
use crate::service::transport::DeviceOp;

verus! {

pub struct BleTransport;

impl BleTransport {
    /// The operations with verified frame encodings. A segmented device honours
    /// the power, and takes a colour as a command over its segments, once it is
    /// known how many there are; declining the rest sends it to the cloud instead
    /// of silently doing nothing.
    pub open spec fn serves(device: Device, op: DeviceOp) -> bool {
        match op {
            DeviceOp::PowerOn(_) => true,
            DeviceOp::LightPowerOn(_) => true,
            DeviceOp::SetColorRgb { .. } => !device.segmented() || (
            device.addressed() matches Some(count) && count > 0),
            DeviceOp::SetBrightness(_) => !device.segmented(),
            DeviceOp::SetColorTemperature(_) => !device.segmented(),
            DeviceOp::SetScene(_) => false,
            DeviceOp::SetHumidifierParameter { .. } => false,
            DeviceOp::SetTargetTemperature { .. } => false,
        }
    }

    pub fn handles(device: &Device, op: &DeviceOp) -> (r: bool)
        requires
            device.wf(),
        ensures
            r == Self::serves(*device, *op),
    {
        match op {
            DeviceOp::PowerOn(_) => true,
            DeviceOp::LightPowerOn(_) => true,
            DeviceOp::SetColorRgb { .. } => !device.is_segmented() || match device.segment_count() {
                Some(count) => count > 0,
                None => false,
            },
            DeviceOp::SetBrightness(_) => !device.is_segmented(),
            DeviceOp::SetColorTemperature(_) => !device.is_segmented(),
            _ => false,
        }
    }

    /// The address to use, if Bluetooth is worth attempting at all: the device
    /// is a light, its address is known, and the scheduler takes it.
    pub open spec fn address(
        scheduler: Option<BleScheduler>,
        device: Device,
        now_ms: u64,
    ) -> Option<Seq<char>> {
        match scheduler {
            Some(scheduler) => if device.kind() is Light && scheduler.available(device, now_ms) {
                scheduler.address_text(device)
            } else {
                None
            },
            None => None,
        }
    }

    /// The address to use, if Bluetooth is worth attempting at all.
    ///
    /// Being excluded by configuration, the executor being offline, or this
    /// device having failed repeatedly, is a routing decision rather than an
    /// error: say so quietly and let the next transport have it.
    pub fn context(scheduler: &Option<BleScheduler>, device: &Device, now_ms: u64) -> (r: Option<
        String,
    >)
        requires
            scheduler matches Some(s) ==> s.wf(),
        ensures
            match r {
                Some(address) => Self::address(*scheduler, *device, now_ms) == Some(address@),
                None => Self::address(*scheduler, *device, now_ms) is None,
            },
    {
        // Only lights speak the command set we have codecs for. Humidifiers and
        // the like keep their existing transports.
        if !device.device_type().is_light() {
            return None;
        }
        match scheduler {
            Some(scheduler) => match scheduler.address_for(device) {
                Some(address) => if scheduler.is_available_for(device, now_ms) {
                    Some(address)
                } else {
                    None
                },
                None => None,
            },
            None => None,
        }
    }

    /// The address to send one operation to; `None` if it is not for Bluetooth.
    pub fn try_execute(
        scheduler: &Option<BleScheduler>,
        device: &Device,
        op: &DeviceOp,
        now_ms: u64,
    ) -> (r: Option<String>)
        requires
            scheduler matches Some(s) ==> s.wf(),
            device.wf(),
        ensures
            match r {
                Some(address) => Self::serves(*device, *op) && Self::address(
                    *scheduler,
                    *device,
                    now_ms,
                ) == Some(address@),
                None => !Self::serves(*device, *op) || Self::address(
                    *scheduler,
                    *device,
                    now_ms,
                ) is None,
            },
    {
        if Self::handles(device, op) {
            Self::context(scheduler, device, now_ms)
        } else {
            None
        }
    }

    /// Whether every operation of a batch is one for Bluetooth.
    pub open spec fn serves_all(device: Device, ops: Seq<DeviceOp>) -> bool {
        forall|i: int| 0 <= i < ops.len() ==> Self::serves(device, #[trigger] ops[i])
    }

    /// The address to send a batch to, all in one radio session; `None` if any
    /// of it is not for Bluetooth. Partially serving a batch would leave the
    /// light half configured and the rest of it applied by a different
    /// transport.
    pub fn try_execute_batch(
        scheduler: &Option<BleScheduler>,
        device: &Device,
        ops: &[DeviceOp],
        now_ms: u64,
    ) -> (r: Option<String>)
        requires
            scheduler matches Some(s) ==> s.wf(),
            device.wf(),
        ensures
            match r {
                Some(address) => Self::serves_all(*device, ops@) && Self::address(
                    *scheduler,
                    *device,
                    now_ms,
                ) == Some(address@),
                None => !Self::serves_all(*device, ops@) || Self::address(
                    *scheduler,
                    *device,
                    now_ms,
                ) is None,
            },
    {
        for i in 0..ops.len()
            invariant
                device.wf(),
                forall|j: int| 0 <= j < i ==> Self::serves(*device, #[trigger] ops@[j]),
        {
            if !Self::handles(device, &ops[i]) {
                assert(!Self::serves(*device, ops@[i as int]));
                return None;
            }
        }
        Self::context(scheduler, device, now_ms)
    }

    /// No segmented device that Bluetooth serves is sent the whole-strip frames,
    /// which it ignores: a colour names its segments.
    pub proof fn a_segmented_device_gets_segment_commands(
        device: Device,
        r: u8,
        g: u8,
        b: u8,
        segments: Option<u32>,
    )
        requires
            device.segmented(),
            Self::serves(device, (DeviceOp::SetColorRgb { r, g, b })),
            match segments {
                Some(count) => device.addressed() == Some(count as int),
                None => device.addressed() is None,
            },
        ensures
            segments matches Some(count) && (PendingOps {
                color: Some((r, g, b)),
                ..PendingOps::nothing()
            }).color_part(segments) == Ok::<Seq<Seq<u8>>, FrameError>(
                seq![pending::segments_frame(count as nat, (r, g, b))],
            ),
    {
    }

    /// A light without segments takes power, brightness, colour and temperature over
    /// Bluetooth. One with segments takes its power and, once it is known how many
    /// there are, a colour. Nothing else goes this way.
    pub proof fn what_bluetooth_takes_on(device: Device, op: DeviceOp)
        ensures
            op is PowerOn || op is LightPowerOn ==> Self::serves(device, op),
            !device.segmented() && (op is SetBrightness || op is SetColorRgb
                || op is SetColorTemperature) ==> Self::serves(device, op),
            device.segmented() && (op is SetBrightness || op is SetColorTemperature)
                ==> !Self::serves(device, op),
            device.segmented() && op is SetColorRgb ==> (Self::serves(device, op) <==> (
            device.addressed() matches Some(count) && count > 0)),
            op is SetScene || op is SetHumidifierParameter || op is SetTargetTemperature
                ==> !Self::serves(device, op),
    {
    }

    /// A batch goes over Bluetooth as a whole or not at all.
    pub proof fn a_batch_is_not_split(device: Device, ops: Seq<DeviceOp>, i: int)
        requires
            0 <= i < ops.len(),
            !Self::serves(device, ops[i]),
        ensures
            !Self::serves_all(device, ops),
    {
    }

    /// Bluetooth is worth attempting exactly for lights whose address is known and
    /// which the scheduler takes; and what is attempted is that very address.
    pub proof fn an_address_is_earned(
        scheduler: Option<BleScheduler>,
        device: Device,
        now_ms: u64,
    )
        ensures
            scheduler is None ==> Self::address(scheduler, device, now_ms) is None,
            !(device.kind() is Light) ==> Self::address(scheduler, device, now_ms) is None,
            scheduler matches Some(s) ==> {
                &&& !s.available(device, now_ms) ==> Self::address(scheduler, device, now_ms)
                    is None
                &&& device.kind() is Light && s.available(device, now_ms) ==> Self::address(
                    scheduler,
                    device,
                    now_ms,
                ) == s.address_text(device)
            },
    {
    }

    /// What Bluetooth takes on can be merged into a session, but for a colour
    /// temperature that no frame can carry.
    pub proof fn what_is_served_is_merged(device: Device, op: DeviceOp)
        requires
            Self::serves(device, op),
            op matches DeviceOp::SetColorTemperature(kelvin) ==> kelvin <= 0xffff,
        ensures
            PendingOps::nothing().merged(op) is Ok,
    {
    }
}

} // verus!
