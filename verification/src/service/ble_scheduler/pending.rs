//! The commands for one device, collapsed to a final state.
use vstd::prelude::*;

use crate::ble::bytes::encode_for_generic_light;
use crate::ble::codec;
use crate::ble::codec::{PacketBody, GENERIC_LIGHT};
use crate::ble::frame;
use crate::ble::packets::{
    SetDeviceBrightness, SetDeviceColorRgb, SetDeviceColorTemperature, SetDevicePower,
};
use crate::ble::params::Kelvin;
use crate::ble::segment;
use crate::ble::segment::{SetSegmentColorRgb, ADDRESSABLE_SEGMENTS};
use crate::clock::Timestamp;
use crate::lan_api::{DeviceColor, DeviceStatus};
use crate::service::ble_scheduler::query::Query;
use crate::service::device::Device;
use crate::service::transport::DeviceOp;

verus! {

/// Why an operation cannot go out over Bluetooth.
#[derive(Clone, Copy, Debug, PartialEq, Eq, Structural)]
pub enum MergeError {
    /// A colour temperature that does not fit the frame.
    OutOfRange(u32),
    /// Not an operation of the light command set.
    Unsupported,
}

/// Why the frames could not be made.
#[derive(Clone, Copy, Debug, PartialEq, Eq, Structural)]
pub enum FrameError {
    /// 0 K is no colour temperature.
    ZeroKelvin,
    /// The device is taken to have a segment that no mask can name.
    SegmentOutOfRange(u32),
}

/// The commands accumulated for one device, collapsed to a final state.
#[derive(Clone, Copy, Debug, PartialEq, Eq)]
pub struct PendingOps {
    pub power: Option<bool>,
    pub brightness: Option<u8>,
    pub color: Option<(u8, u8, u8)>,
    pub kelvin: Option<u16>,
}

impl Default for PendingOps {
    fn default() -> (r: Self)
        ensures
            r == PendingOps::nothing(),
    {
        PendingOps { power: None, brightness: None, color: None, kelvin: None }
    }
}

/// The frame of a light command.
pub open spec fn power_frame(on: bool) -> Seq<u8> {
    frame::finished((SetDevicePower { on }).payload())
}

pub open spec fn brightness_frame(percent: u8) -> Seq<u8> {
    frame::finished((SetDeviceBrightness { percent }).payload())
}

pub open spec fn color_frame(color: (u8, u8, u8)) -> Seq<u8> {
    frame::finished((SetDeviceColorRgb { r: color.0, g: color.1, b: color.2 }).payload())
}

pub open spec fn kelvin_frame(kelvin: u16) -> Seq<u8> {
    frame::finished((SetDeviceColorTemperature { kelvin: Kelvin::of(kelvin) }).payload())
}

/// The segments below `count`.
pub open spec fn first_segments(count: nat) -> Seq<u32> {
    Seq::new(count, |i: int| i as u32)
}

/// The frame that gives the segments below `count` a colour.
pub open spec fn segments_frame(count: nat, color: (u8, u8, u8)) -> Seq<u8> {
    frame::finished(
        SetSegmentColorRgb::payload_of(color, segment::mask_of(first_segments(count))),
    )
}

/// All operations merged, up to the first that cannot go out over Bluetooth.
pub open spec fn merged_all(pending: PendingOps, ops: Seq<DeviceOp>) -> (
    PendingOps,
    Option<MergeError>,
)
    decreases ops.len(),
{
    if ops.len() == 0 {
        (pending, None)
    } else {
        let (before, error) = merged_all(pending, ops.drop_last());
        match error {
            Some(_) => (before, error),
            None => match before.merged(ops.last()) {
                Ok(after) => (after, None),
                Err(err) => (before, Some(err)),
            },
        }
    }
}

/// It makes no difference whether operations arrive together or one batch after
/// the other.
pub proof fn batches_collapse(pending: PendingOps, first: Seq<DeviceOp>, second: Seq<DeviceOp>)
    requires
        merged_all(pending, first).1 is None,
    ensures
        merged_all(pending, first + second) == merged_all(merged_all(pending, first).0, second),
    decreases second.len(),
{
    if second.len() == 0 {
        assert(first + second =~= first);
    } else {
        assert((first + second).drop_last() =~= first + second.drop_last());
        batches_collapse(pending, first, second.drop_last());
    }
}

/// The last word on an attribute stands, whatever follows it that speaks of
/// another: a colour is not lost to a brightness, nor a brightness to a colour.
/// Colour and colour temperature speak of one attribute.
pub proof fn the_last_word_stands(pending: PendingOps, ops: Seq<DeviceOp>, at: int)
    requires
        0 <= at < ops.len(),
        merged_all(pending, ops).1 is None,
    ensures
        ({
            let after = merged_all(pending, ops).0;
            &&& ops[at] matches DeviceOp::PowerOn(on) ==> (forall|j: int|
                at < j < ops.len() ==> !(#[trigger] ops[j] is PowerOn) && !(ops[j] is LightPowerOn))
                ==> after.power == Some(on)
            &&& ops[at] matches DeviceOp::LightPowerOn(on) ==> (forall|j: int|
                at < j < ops.len() ==> !(#[trigger] ops[j] is PowerOn) && !(ops[j] is LightPowerOn))
                ==> after.power == Some(on)
            &&& ops[at] matches DeviceOp::SetBrightness(percent) ==> (forall|j: int|
                at < j < ops.len() ==> !(#[trigger] ops[j] is SetBrightness)) ==> after.brightness
                == Some(percent)
            &&& ops[at] matches DeviceOp::SetColorRgb { r, g, b } ==> (forall|j: int|
                at < j < ops.len() ==> !(#[trigger] ops[j] is SetColorRgb) && !(
                ops[j] is SetColorTemperature)) ==> after.color == Some((r, g, b))
                && after.kelvin is None
            &&& ops[at] matches DeviceOp::SetColorTemperature(kelvin) ==> (forall|j: int|
                at < j < ops.len() ==> !(#[trigger] ops[j] is SetColorRgb) && !(
                ops[j] is SetColorTemperature)) ==> after.kelvin == Some(kelvin as u16)
                && after.kelvin->0 == kelvin && after.color is None
        }),
    decreases ops.len(),
{
    let head = ops.drop_last();
    let before = merged_all(pending, head).0;
    before.an_operation_changes_its_own_attribute(ops.last());
    if at < head.len() {
        the_last_word_stands(pending, head, at);
        assert(head[at] == ops[at]);
        assert(ops[ops.len() - 1] == ops.last());
        assert forall|j: int| at < j < head.len() implies head[j] == #[trigger] ops[j] by {}
    }
}

/// What no operation of a batch speaks of stays as it was.
pub proof fn what_is_not_named_stays(pending: PendingOps, ops: Seq<DeviceOp>)
    ensures
        ({
            let after = merged_all(pending, ops).0;
            &&& (forall|j: int|
                0 <= j < ops.len() ==> !(#[trigger] ops[j] is PowerOn) && !(ops[j] is LightPowerOn))
                ==> after.power == pending.power
            &&& (forall|j: int| 0 <= j < ops.len() ==> !(#[trigger] ops[j] is SetBrightness))
                ==> after.brightness == pending.brightness
            &&& (forall|j: int|
                0 <= j < ops.len() ==> !(#[trigger] ops[j] is SetColorRgb) && !(
                ops[j] is SetColorTemperature)) ==> after.color == pending.color && after.kelvin
                == pending.kelvin
        }),
    decreases ops.len(),
{
    if ops.len() > 0 {
        let head = ops.drop_last();
        what_is_not_named_stays(pending, head);
        merged_all(pending, head).0.an_operation_changes_its_own_attribute(ops.last());
        assert(ops[ops.len() - 1] == ops.last());
        assert forall|j: int| 0 <= j < head.len() implies head[j] == #[trigger] ops[j] by {}
    }
}

impl PendingOps {
    /// An operation changes its own attribute and no other, and one that cannot go
    /// out over Bluetooth is refused: a temperature that does not fit sixteen bits
    /// for its number, and anything but power, brightness and colour altogether.
    pub proof fn an_operation_changes_its_own_attribute(self, op: DeviceOp)
        ensures
            op matches DeviceOp::PowerOn(on) ==> (self.merged(op) matches Ok(after) && after.power
                == Some(on)),
            op matches DeviceOp::LightPowerOn(on) ==> (self.merged(op) matches Ok(after)
                && after.power == Some(on)),
            op matches DeviceOp::SetBrightness(percent) ==> (self.merged(op) matches Ok(after)
                && after.brightness == Some(percent)),
            op matches DeviceOp::SetColorRgb { r, g, b } ==> (self.merged(op) matches Ok(after)
                && after.color == Some((r, g, b)) && after.kelvin is None),
            op matches DeviceOp::SetColorTemperature(kelvin) ==> (if kelvin < 65536 {
                self.merged(op) matches Ok(after) && after.color is None && after.kelvin == Some(
                    kelvin as u16,
                ) && after.kelvin->0 == kelvin
            } else {
                self.merged(op) == Err::<PendingOps, MergeError>(MergeError::OutOfRange(kelvin))
            }),
            self.merged(op) matches Ok(after) ==> {
                &&& !(op is PowerOn) && !(op is LightPowerOn) ==> after.power == self.power
                &&& !(op is SetBrightness) ==> after.brightness == self.brightness
                &&& !(op is SetColorRgb) && !(op is SetColorTemperature) ==> after.color
                    == self.color && after.kelvin == self.kelvin
            },
            (op is SetScene || op is SetHumidifierParameter || op is SetTargetTemperature)
                ==> self.merged(op) == Err::<PendingOps, MergeError>(MergeError::Unsupported),
    {
    }

    pub open spec fn nothing() -> PendingOps {
        PendingOps { power: None, brightness: None, color: None, kelvin: None }
    }

    /// Colour and colour temperature are the same command with different
    /// arguments, so that at most one of them is wanted.
    pub open spec fn wf(&self) -> bool {
        self.color is None || self.kelvin is None
    }

    pub fn is_empty(&self) -> (r: bool)
        ensures
            r == (*self == PendingOps::nothing()),
    {
        self.power.is_none() && self.brightness.is_none() && self.color.is_none()
            && self.kelvin.is_none()
    }

    /// The state that an operation on top of this one asks for: the last value
    /// of each attribute, and of colour and colour temperature the last of both.
    pub open spec fn merged(self, op: DeviceOp) -> Result<PendingOps, MergeError> {
        match op {
            DeviceOp::PowerOn(on) => Ok(PendingOps { power: Some(on), ..self }),
            DeviceOp::LightPowerOn(on) => Ok(PendingOps { power: Some(on), ..self }),
            DeviceOp::SetBrightness(percent) => Ok(
                PendingOps { brightness: Some(percent), ..self },
            ),
            DeviceOp::SetColorRgb { r, g, b } => Ok(
                PendingOps { color: Some((r, g, b)), kelvin: None, ..self },
            ),
            DeviceOp::SetColorTemperature(kelvin) => if kelvin <= 0xffff {
                Ok(PendingOps { kelvin: Some(kelvin as u16), color: None, ..self })
            } else {
                Err(MergeError::OutOfRange(kelvin))
            },
            DeviceOp::SetScene(_) => Err(MergeError::Unsupported),
            DeviceOp::SetHumidifierParameter { .. } => Err(MergeError::Unsupported),
            DeviceOp::SetTargetTemperature { .. } => Err(MergeError::Unsupported),
        }
    }

    pub fn merge(&mut self, op: &DeviceOp) -> (r: Result<(), MergeError>)
        ensures
            match old(self).merged(*op) {
                Ok(after) => r is Ok && *final(self) == after,
                Err(err) => r == Err::<(), MergeError>(err) && *final(self) == *old(self),
            },
            old(self).wf() ==> final(self).wf(),
    {
        match op {
            DeviceOp::PowerOn(on) => {
                self.power = Some(*on);
            },
            DeviceOp::LightPowerOn(on) => {
                self.power = Some(*on);
            },
            DeviceOp::SetBrightness(percent) => {
                self.brightness = Some(*percent);
            },
            DeviceOp::SetColorRgb { r, g, b } => {
                self.color = Some((*r, *g, *b));
                // Colour and colour temperature are the same command with
                // different arguments; keeping both would send two conflicting
                // frames back to back.
                self.kelvin = None;
            },
            DeviceOp::SetColorTemperature(kelvin) => {
                if *kelvin > 0xffff {
                    return Err(MergeError::OutOfRange(*kelvin));
                }
                self.kelvin = Some(*kelvin as u16);
                self.color = None;
            },
            DeviceOp::SetScene(_) => {
                return Err(MergeError::Unsupported);
            },
            DeviceOp::SetHumidifierParameter { .. } => {
                return Err(MergeError::Unsupported);
            },
            DeviceOp::SetTargetTemperature { .. } => {
                return Err(MergeError::Unsupported);
            },
        }
        Ok(())
    }

    /// Merges operations up to the first that cannot go out over Bluetooth.
    pub fn merge_all(&mut self, ops: &[DeviceOp]) -> (r: Result<(), MergeError>)
        ensures
            *final(self) == merged_all(*old(self), ops@).0,
            match merged_all(*old(self), ops@).1 {
                Some(err) => r == Err::<(), MergeError>(err),
                None => r is Ok,
            },
            old(self).wf() ==> final(self).wf(),
    {
        let ghost start = *self;
        for i in 0..ops.len()
            invariant
                start == *old(self),
                (*self, None::<MergeError>) == merged_all(start, ops@.take(i as int)),
                start.wf() ==> self.wf(),
        {
            assert(ops@.take(i + 1).drop_last() =~= ops@.take(i as int));
            match self.merge(&ops[i]) {
                Ok(()) => {},
                Err(err) => {
                    proof {
                        errors_stay(start, ops@, i + 1);
                    }
                    return Err(err);
                },
            }
        }
        assert(ops@.take(ops@.len() as int) =~= ops@);
        Ok(())
    }

    /// Whether this change implies switching the device on.
    pub open spec fn implies_power(&self) -> bool {
        self.power is None && (self.brightness is Some || self.color is Some || self.kelvin is Some)
    }

    /// Whether this change implies switching the device on.
    ///
    /// Home Assistant treats "turn on at 60%" as one action and sends no power
    /// command at all, because the cloud and LAN APIs power a device on as a
    /// side effect of setting either one.
    ///
    /// The BLE frames have no such side effect. `33 04 <percent>` sets the
    /// brightness and nothing more, so without this the light stays dark and
    /// quietly remembers how bright it would have been.
    pub fn powers_on_implicitly(&self) -> (r: bool)
        ensures
            r == self.implies_power(),
    {
        self.power.is_none() && (self.brightness.is_some() || self.color.is_some()
            || self.kelvin.is_some())
    }

    // --------------------------------------------------------------- recording

    /// A status once this session has taken effect: only the attributes it set,
    /// and nothing but the power if it switched off. A brightness of zero was
    /// sent as one.
    pub open spec fn applied_to(&self, status: DeviceStatus) -> DeviceStatus {
        if self.power == Some(false) {
            DeviceStatus { on: false, ..status }
        } else {
            DeviceStatus {
                on: status.on || self.power is Some || self.implies_power(),
                brightness: match self.brightness {
                    Some(percent) => if percent == 0 {
                        1
                    } else {
                        percent
                    },
                    None => status.brightness,
                },
                color: match self.color {
                    Some((r, g, b)) => DeviceColor { r, g, b },
                    None => status.color,
                },
                color_temperature_kelvin: match (self.kelvin, self.color) {
                    (Some(kelvin), _) => kelvin as u32,
                    (None, Some(_)) => 0,
                    (None, None) => status.color_temperature_kelvin,
                },
            }
        }
    }

    fn apply_to(&self, status: &mut DeviceStatus)
        ensures
            *final(status) == self.applied_to(*old(status)),
    {
        match self.power {
            Some(on) => {
                status.on = on;
                if !on {
                    // Nothing else went out in this session.
                    return;
                }
            },
            None => {
                if self.powers_on_implicitly() {
                    status.on = true;
                }
            },
        }
        if let Some(percent) = self.brightness {
            status.brightness =
            if percent == 0 {
                1
            } else {
                percent
            };
        }
        if let Some((r, g, b)) = self.color {
            status.color = DeviceColor { r, g, b };
            status.color_temperature_kelvin = 0;
        }
        if let Some(kelvin) = self.kelvin {
            status.color_temperature_kelvin = kelvin as u32;
        }
    }

    /// Write what this session asked for into the device's Bluetooth status.
    /// Returns whether it is news.
    pub fn apply_optimistically(&self, device: &mut Device) -> (r: bool)
        ensures
            ({
                let status = self.applied_to(old(device).ble_seed());
                &&& r == (old(device).ble_device_status != Some(status))
                &&& exists|now: Timestamp|
                    *final(device) == #[trigger] old(device).with_ble_status(status, now)
            }),
    {
        let mut status = device.ble_status_seed();
        self.apply_to(&mut status);
        device.set_ble_device_status_at(status, crate::clock::utc_now())
    }

    // ------------------------------------------------------------------ asking

    pub open spec fn worth_asking(&self) -> Seq<Query> {
        if self.power == Some(false) {
            seq![Query::Power]
        } else {
            (if self.power is Some || self.implies_power() {
                seq![Query::Power]
            } else {
                Seq::<Query>::empty()
            }) + (if self.brightness is Some {
                seq![Query::Brightness]
            } else {
                Seq::<Query>::empty()
            }) + (if self.color is Some || self.kelvin is Some {
                seq![Query::Color]
            } else {
                Seq::<Query>::empty()
            })
        }
    }

    /// The attributes worth reading back after this session.
    ///
    /// Only what we actually changed: verifying everything would triple the
    /// length of a session that set one attribute.
    pub fn verification_queries(&self) -> (r: Vec<Query>)
        ensures
            r@ == self.worth_asking(),
    {
        let mut queries: Vec<Query> = Vec::new();
        if let Some(false) = self.power {
            // Nothing else was sent, so nothing else is worth asking about.
            queries.push(Query::Power);
            assert(queries@ =~= self.worth_asking());
            return queries;
        }
        if self.power.is_some() || self.powers_on_implicitly() {
            queries.push(Query::Power);
        }
        if self.brightness.is_some() {
            queries.push(Query::Brightness);
        }
        if self.color.is_some() || self.kelvin.is_some() {
            queries.push(Query::Color);
        }
        assert(queries@ =~= self.worth_asking());
        queries
    }

    // ------------------------------------------------------------------ frames

    /// The power frame of a session that does not switch off, if it has one.
    pub open spec fn power_part(&self) -> Seq<Seq<u8>> {
        if self.power is Some || self.implies_power() {
            seq![power_frame(true)]
        } else {
            Seq::<Seq<u8>>::empty()
        }
    }

    /// The brightness frame, if there is one. Zero is "off" rather than "as dim
    /// as possible", so the dimmest that is sent is one.
    pub open spec fn brightness_part(&self) -> Seq<Seq<u8>> {
        match self.brightness {
            Some(percent) => seq![
                brightness_frame(
                    if percent == 0 {
                        1
                    } else {
                        percent
                    },
                ),
            ],
            None => Seq::<Seq<u8>>::empty(),
        }
    }

    /// The frame of the colour or of the colour temperature, if there is one. A
    /// device that is addressed as segments gets its colour as a command over
    /// all of them.
    pub open spec fn color_part(&self, segments: Option<u32>) -> Result<Seq<Seq<u8>>, FrameError> {
        match (self.color, self.kelvin) {
            (Some(color), _) => match segments {
                Some(count) => if count > ADDRESSABLE_SEGMENTS {
                    Err(FrameError::SegmentOutOfRange(ADDRESSABLE_SEGMENTS))
                } else if count > 0 {
                    Ok(seq![segments_frame(count as nat, color)])
                } else {
                    Ok(seq![color_frame(color)])
                },
                None => Ok(seq![color_frame(color)]),
            },
            (None, Some(kelvin)) => if kelvin == 0 {
                Err(FrameError::ZeroKelvin)
            } else {
                Ok(seq![kelvin_frame(kelvin)])
            },
            (None, None) => Ok(Seq::<Seq<u8>>::empty()),
        }
    }

    /// The frames of this session, in the order the device expects them: power,
    /// brightness, colour. A session that switches off sends nothing else.
    pub open spec fn wire_frames(&self, segments: Option<u32>) -> Result<Seq<Seq<u8>>, FrameError> {
        if self.power == Some(false) {
            Ok(seq![power_frame(false)])
        } else {
            match self.color_part(segments) {
                Ok(color) => Ok(self.power_part() + self.brightness_part() + color),
                Err(err) => Err(err),
            }
        }
    }

    /// Render to wire frames, in the order the device expects them.
    /// `segments` is `Some(count)` for a device addressed as segments. Those
    /// ignore the whole-strip colour write — an H613D switched on over
    /// Bluetooth and kept the colour it already had — so a colour for them is
    /// sent as a segment command naming every segment instead.
    pub fn frames(&self, segments: Option<u32>) -> (r: Result<Vec<Vec<u8>>, FrameError>)
        ensures
            match (self.wire_frames(segments), r) {
                (Ok(expected), Ok(frames)) => are_frames(frames@, expected),
                (Err(expected), Err(err)) => err == expected,
                _ => false,
            },
    {
        let mut frames: Vec<Vec<u8>> = Vec::new();
        let ghost mut sent: Seq<Seq<u8>> = Seq::empty();
        match self.power {
            Some(on) => {
                frames.push(encode(&SetDevicePower { on }));
                proof {
                    sent = sent.push(power_frame(on));
                }
                if !on {
                    // Nothing else is worth sending to a device we just switched off.
                    assert(sent =~= seq![power_frame(false)]);
                    return Ok(frames);
                }
            },
            None => {
                if self.powers_on_implicitly() {
                    frames.push(encode(&SetDevicePower { on: true }));
                    proof {
                        sent = sent.push(power_frame(true));
                    }
                }
            },
        }
        assert(sent =~= self.power_part());
        if let Some(percent) = self.brightness {
            // Zero is "off" rather than "as dim as possible", and a brightness
            // command that silently switches the light off would be a surprise.
            let shown: u8 = if percent == 0 {
                1
            } else {
                percent
            };
            frames.push(encode(&SetDeviceBrightness { percent: shown }));
            proof {
                sent = sent.push(brightness_frame(shown));
            }
        }
        assert(sent =~= self.power_part() + self.brightness_part());
        if let Some((r, g, b)) = self.color {
            match segments {
                Some(count) if count > 0 => {
                    if count > ADDRESSABLE_SEGMENTS {
                        return Err(FrameError::SegmentOutOfRange(ADDRESSABLE_SEGMENTS));
                    }
                    let named = segments_below(count);
                    match SetSegmentColorRgb::for_segments(named.as_slice(), (r, g, b)) {
                        Ok(command) => {
                            frames.push(encode(&command));
                            proof {
                                sent = sent.push(segments_frame(count as nat, (r, g, b)));
                            }
                        },
                        Err(err) => {
                            // Every segment that is named is below the limit.
                            assert(false);
                            return Err(FrameError::SegmentOutOfRange(err.segment));
                        },
                    }
                },
                _ => {
                    frames.push(encode(&SetDeviceColorRgb { r, g, b }));
                    proof {
                        sent = sent.push(color_frame((r, g, b)));
                    }
                },
            }
        } else if let Some(kelvin) = self.kelvin {
            match Kelvin::new(kelvin) {
                Ok(kelvin) => {
                    frames.push(encode(&SetDeviceColorTemperature { kelvin }));
                    proof {
                        sent = sent.push(kelvin_frame(kelvin@));
                    }
                },
                Err(_) => {
                    return Err(FrameError::ZeroKelvin);
                },
            }
        }
        assert(sent =~= self.wire_frames(segments)->Ok_0);
        Ok(frames)
    }

    /// Whatever was asked for, every frame that goes out is valid, and a session
    /// that has something to say has a frame to say it with.
    pub proof fn frames_are_valid(&self, segments: Option<u32>)
        ensures
            self.wire_frames(segments) matches Ok(frames) ==> {
                &&& forall|i: int|
                    0 <= i < frames.len() ==> frame::is_valid_frame(#[trigger] frames[i])
                &&& (frames.len() == 0 <==> *self == PendingOps::nothing())
            },
    {
        if let Ok(frames) = self.wire_frames(segments) {
            assert forall|i: int| 0 <= i < frames.len() implies frame::is_valid_frame(
                #[trigger] frames[i],
            ) by {
                frame::finished_is_valid((SetDevicePower { on: true }).payload());
                frame::finished_is_valid((SetDevicePower { on: false }).payload());
                if let Some(percent) = self.brightness {
                    let shown: u8 = if percent == 0 {
                        1
                    } else {
                        percent
                    };
                    frame::finished_is_valid((SetDeviceBrightness { percent: shown }).payload());
                }
                if let Some(c) = self.color {
                    frame::finished_is_valid(
                        (SetDeviceColorRgb { r: c.0, g: c.1, b: c.2 }).payload(),
                    );
                    if let Some(count) = segments {
                        if count <= ADDRESSABLE_SEGMENTS {
                            segment::masks_exist(first_segments(count as nat));
                            frame::finished_is_valid(
                                SetSegmentColorRgb::payload_of(
                                    c,
                                    segment::mask_of(first_segments(count as nat)),
                                ),
                            );
                        }
                    }
                }
                if let Some(k) = self.kelvin {
                    frame::finished_is_valid(
                        (SetDeviceColorTemperature { kelvin: Kelvin::of(k) }).payload(),
                    );
                }
            }
        }
    }

    /// A light reads out of the frames of a session exactly what was asked for: that
    /// it is on, its brightness, and its colour or its temperature, each in a frame
    /// of its own, in that order, and nothing else. A segmented light reads a colour
    /// for every one of its segments and for no other.
    pub proof fn a_light_reads_what_was_asked_for(&self, segments: Option<u32>)
        requires
            self.wf(),
            self.power != Some(false),
            *self != PendingOps::nothing(),
        ensures
            self.wire_frames(segments) matches Ok(frames) ==> {
                let dimmed = if self.brightness is Some {
                    1int
                } else {
                    0int
                };
                let colored = if self.color is Some || self.kelvin is Some {
                    1int
                } else {
                    0int
                };
                &&& frames.len() == 1 + dimmed + colored
                &&& SetDevicePower::parsed(frames[0]) matches Some(p) && p.on
                &&& self.brightness is Some ==> (SetDeviceBrightness::parsed(
                    frames[1],
                ) matches Some(p) && p.percent == (if self.brightness->0 == 0 {
                    1
                } else {
                    self.brightness->0
                }))
                &&& self.color is Some && (segments is None || segments == Some(0u32)) ==> (
                SetDeviceColorRgb::parsed(frames.last()) matches Some(c) && self.color == Some(
                    (c.r, c.g, c.b),
                ))
                &&& self.color is Some && segments is Some && segments->0 > 0 ==> (
                SetSegmentColorRgb::parsed(frames.last()) matches Some((r, g, b, mask))
                    && self.color == Some((r, g, b)) && forall|n: u32| #[trigger]
                    segment::mask_names(mask, n as nat) <==> n < segments->0)
                &&& self.kelvin is Some ==> (SetDeviceColorTemperature::parsed(
                    frames.last(),
                ) matches Some(t) && Some(t.kelvin@) == self.kelvin)
            },
    {
        broadcast use Kelvin::known_by_its_number;

        (SetDevicePower { on: true }).round_trip();
        if let Some(percent) = self.brightness {
            let shown: u8 = if percent == 0 {
                1
            } else {
                percent
            };
            (SetDeviceBrightness { percent: shown }).round_trip();
        }
        if let Some(c) = self.color {
            (SetDeviceColorRgb { r: c.0, g: c.1, b: c.2 }).round_trip();
            if let Some(count) = segments {
                if 0 < count <= ADDRESSABLE_SEGMENTS {
                    let named = first_segments(count as nat);
                    let mask = segment::mask_of(named);
                    segment::a_segment_command_is_read_back(c, 0, named);
                    assert forall|n: u32| #[trigger]
                        segment::mask_names(mask, n as nat) <==> n < count by {
                        if n < count {
                            assert(named[n as int] == n);
                        }
                    }
                }
            }
        }
        if let Some(k) = self.kelvin {
            if k != 0 {
                (SetDeviceColorTemperature { kelvin: Kelvin::of(k) }).round_trip();
            }
        }
    }

    /// A session fails to be written only for want of a temperature that is one, or
    /// of a mask for more segments than one can name, and never if it switches off.
    pub proof fn when_no_frames_can_be_made(&self, segments: Option<u32>)
        requires
            self.wf(),
        ensures
            self.wire_frames(segments) is Err <==> self.power != Some(false) && (self.kelvin
                == Some(0u16) || (self.color is Some && segments is Some && segments->0
                > ADDRESSABLE_SEGMENTS)),
    {
    }

    /// What is believed after a session is what was sent in it: the light is on or
    /// off as asked, and on where anything else was asked of it; it has the
    /// brightness, the colour or the temperature that went out. What was not sent is
    /// believed as before, and of a light that was switched off all of it.
    pub proof fn what_was_sent_is_believed(&self, status: DeviceStatus)
        requires
            self.wf(),
        ensures
            ({
                let after = self.applied_to(status);
                let off = self.power == Some(false);
                &&& off ==> !after.on
                &&& !off && *self != PendingOps::nothing() ==> after.on
                &&& *self == PendingOps::nothing() ==> after == status
                &&& off || self.brightness is None ==> after.brightness == status.brightness
                &&& !off && self.brightness is Some && self.brightness->0 > 0 ==> after.brightness
                    == self.brightness->0
                &&& !off && self.brightness == Some(0u8) ==> after.brightness == 1
                &&& off || self.color is None ==> after.color == status.color
                &&& !off && self.color is Some ==> self.color == Some(
                    (after.color.r, after.color.g, after.color.b),
                ) && after.color_temperature_kelvin == 0
                &&& !off && self.kelvin is Some ==> after.color_temperature_kelvin
                    == self.kelvin->0
                &&& off || (self.color is None && self.kelvin is None)
                    ==> after.color_temperature_kelvin == status.color_temperature_kelvin
            }),
    {
    }

    /// A light is asked about exactly what was sent to it, each attribute once.
    pub proof fn only_what_was_sent_is_asked_about(&self, query: Query)
        ensures
            ({
                let asked = self.worth_asking();
                let off = self.power == Some(false);
                &&& asked.contains(Query::Power) <==> *self != PendingOps::nothing()
                &&& asked.contains(Query::Brightness) <==> !off && self.brightness is Some
                &&& asked.contains(Query::Color) <==> !off && (self.color is Some
                    || self.kelvin is Some)
                &&& query is Segments ==> !asked.contains(query)
                &&& forall|i: int, j: int| 0 <= i < j < asked.len() ==> asked[i] != asked[j]
            }),
    {
        let asked = self.worth_asking();
        let off = self.power == Some(false);
        if *self != PendingOps::nothing() {
            assert(asked[0] == Query::Power);
        }
        if !off && self.brightness is Some {
            assert(asked[1] == Query::Brightness);
        }
        if !off && (self.color is Some || self.kelvin is Some) {
            assert(asked[asked.len() - 1] == Query::Color);
        }
    }

    /// A light is never switched off by being dimmed: whatever brightness was
    /// asked for, a session that sends it also switches the light on and sends at
    /// least one percent.
    pub proof fn dimming_does_not_switch_off(&self, segments: Option<u32>)
        requires
            self.brightness is Some,
            self.power != Some(false),
        ensures
            self.wire_frames(segments) matches Ok(frames) ==> {
                &&& frames.len() >= 2
                &&& frames[0] == power_frame(true)
                &&& exists|percent: u8|
                    percent > 0 && frames[1] == #[trigger] brightness_frame(percent) && (
                    self.brightness->0 > 0 ==> percent == self.brightness->0)
            },
    {
        let percent: u8 = if self.brightness->0 == 0 {
            1
        } else {
            self.brightness->0
        };
        if let Ok(frames) = self.wire_frames(segments) {
            assert(frames[1] == brightness_frame(percent));
        }
    }

    /// Switching off is one frame, whatever else was asked for.
    pub proof fn switching_off_sends_nothing_else(&self, segments: Option<u32>)
        requires
            self.power == Some(false),
        ensures
            self.wire_frames(segments) == Ok::<Seq<Seq<u8>>, FrameError>(seq![power_frame(false)]),
            self.worth_asking() == seq![Query::Power],
    {
    }
}

proof fn errors_stay(pending: PendingOps, ops: Seq<DeviceOp>, i: int)
    requires
        0 <= i <= ops.len(),
        merged_all(pending, ops.take(i)).1 is Some,
    ensures
        merged_all(pending, ops) == merged_all(pending, ops.take(i)),
    decreases ops.len() - i,
{
    if i < ops.len() {
        assert(ops.take(i + 1).drop_last() =~= ops.take(i));
        errors_stay(pending, ops, i + 1);
    } else {
        assert(ops.take(i) =~= ops);
    }
}

/// The frames hold these bytes.
pub open spec fn are_frames(frames: Seq<Vec<u8>>, expected: Seq<Seq<u8>>) -> bool {
    &&& frames.len() == expected.len()
    &&& forall|i: int| 0 <= i < frames.len() ==> (#[trigger] frames[i])@ == expected[i]
}

fn segments_below(count: u32) -> (r: Vec<u32>)
    ensures
        r@ == first_segments(count as nat),
{
    let mut out: Vec<u32> = Vec::new();
    for i in 0..count
        invariant
            out@ == first_segments(i as nat),
    {
        out.push(i);
        assert(out@ =~= first_segments((i + 1) as nat));
    }
    out
}

/// A single raw frame of a light command.
///
/// Raw, not base64: the wire format wants base64 but the encoding belongs at
/// the wire boundary and nowhere else.
pub fn encode<T: PacketBody>(value: &T) -> (r: Vec<u8>)
    requires
        value.within_limits(),
        value.fits(),
        codec::sku_supports(GENERIC_LIGHT@, T::kind()),
        value.wire() is Ok,
    ensures
        r@ == value.wire()->Ok_0,
{
    match encode_for_generic_light(value) {
        Ok(frame) => frame,
        Err(_) => Vec::new(),
    }
}

} // verus!
