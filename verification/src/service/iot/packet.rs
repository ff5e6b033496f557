//! The status messages of devices.
use vstd::prelude::*;

use crate::base64;
use crate::ble::bytes::Base64HexBytes;
use crate::ble::codec;
use crate::ble::codec::{GoveeBlePacket, PacketKind, GENERIC_LIGHT, HUMIDIFIER};
use crate::ble::packets::{
    HumidifierAutoMode, NotifyHumidifierMode, NotifyHumidifierNightlightParams,
};
use crate::ble::segment::{NotifySegmentColors, NotifySegmentMode};
use crate::clock::{utc_now, Timestamp};
use crate::lan_api::{DeviceColor, DeviceStatus};
use crate::service::ble_scheduler::notifications;
use crate::service::device::Device;

verus! {

/// A status message.
#[derive(Debug)]
pub struct Packet {
    pub sku: Option<String>,
    pub device: Option<String>,
    /// may actually be found in msg.cmd
    pub cmd: Option<String>,
    /// This is an embedded json string
    pub msg: Option<String>,
    pub state: StateUpdate,
    pub op: Option<OpData>,
}

#[derive(Debug)]
pub struct StateUpdate {
    pub on_off: Option<u8>,
    pub brightness: Option<u8>,
    pub color: Option<DeviceColor>,
    pub color_temperature_kelvin: Option<u32>,
    pub sku: Option<String>,
    pub device: Option<String>,
}

#[derive(Debug)]
pub struct OpData {
    pub command: Vec<Base64HexBytes>,
    // The next 4 fields are sourced from H6199
    pub mode_value: Vec<Base64HexBytes>,
    pub sleep_value: Vec<Base64HexBytes>,
    pub wakeup_value: Vec<Base64HexBytes>,
    pub timer_value: Vec<Base64HexBytes>,
}

// ---------------------------------------------------------------------- frames

/// The bytes of those entries that are base64 texts.
pub open spec fn readable_entries(raw: Seq<Option<String>>) -> Seq<Seq<u8>>
    decreases raw.len(),
{
    if raw.len() == 0 {
        Seq::<Seq<u8>>::empty()
    } else {
        let before = readable_entries(raw.drop_last());
        match raw.last() {
            Some(text) => match base64::base64_data(text@) {
                Some(data) => before.push(data),
                None => before,
            },
            None => before,
        }
    }
}

/// No entry of a list costs another: what is read of two lists is what is read
/// of each.
pub proof fn entries_are_read_one_by_one(one: Seq<Option<String>>, other: Seq<Option<String>>)
    ensures
        readable_entries(one + other) == readable_entries(one) + readable_entries(other),
    decreases other.len(),
{
    if other.len() == 0 {
        assert(one + other =~= one);
    } else {
        assert((one + other).drop_last() =~= one + other.drop_last());
        entries_are_read_one_by_one(one, other.drop_last());
    }
    assert(readable_entries(one + other) =~= readable_entries(one) + readable_entries(other));
}

/// The bytes of each frame.
pub open spec fn frame_bytes(frames: Seq<Base64HexBytes>) -> Seq<Seq<u8>> {
    frames.map_values(|frame: Base64HexBytes| frame@)
}

/// Keep the frames we can read and drop the ones we cannot. An entry that is no
/// text at all is given as `None`.
///
/// A device occasionally sends something in these lists that is not a
/// base64-wrapped frame at all. Refusing the whole message over one such entry
/// threw away an entire status report, including every segment page in it.
pub fn frames_we_understand(raw: &Vec<Option<String>>) -> (r: Vec<Base64HexBytes>)
    requires
        forall|i: int|
            0 <= i < raw@.len() ==> ((#[trigger] raw@[i]) matches Some(text) ==> text@.len()
                <= usize::MAX / 32),
    ensures
        frame_bytes(r@) == readable_entries(raw@),
{
    let mut frames: Vec<Base64HexBytes> = Vec::new();
    assert(frame_bytes(frames@) =~= readable_entries(raw@.take(0)));
    for i in 0..raw.len()
        invariant
            forall|k: int|
                0 <= k < raw@.len() ==> ((#[trigger] raw@[k]) matches Some(text) ==> text@.len()
                    <= usize::MAX / 32),
            frame_bytes(frames@) == readable_entries(raw@.take(i as int)),
    {
        assert(raw@.take(i + 1).drop_last() =~= raw@.take(i as int));
        let ghost before = frames@;
        if let Some(text) = &raw[i] {
            assert(raw@[i as int] is Some);
            if let Ok(frame) = Base64HexBytes::from_base64(text.as_str()) {
                let ghost data = frame@;
                frames.push(frame);
                assert(frame_bytes(frames@) =~= frame_bytes(before).push(data));
            }
        }
    }
    assert(raw@.take(raw@.len() as int) =~= raw@);
    frames
}

// ------------------------------------------------------------------------- news

/// What a frame of a status message says.
#[derive(Clone, Copy, Debug)]
pub enum IotNews {
    Nightlight(NotifyHumidifierNightlightParams),
    /// The humidity to reach, in percent.
    TargetHumidity(u8),
    WorkMode { mode: u8, param: u8 },
    /// The device has segments.
    SegmentMode,
    Page(NotifySegmentColors),
    /// Nothing that changes what is known. The attributes of a light arrive in
    /// the message itself, and echoes of commands are no news.
    Nothing,
}

/// What a frame says for a model: what its own codecs read in it, and what is
/// read in any light's frames otherwise.
pub open spec fn iot_news(sku: Seq<char>, data: Seq<u8>) -> IotNews {
    if sku == HUMIDIFIER@ && NotifyHumidifierNightlightParams::parsed(data) is Some {
        IotNews::Nightlight(NotifyHumidifierNightlightParams::parsed(data)->0)
    } else if sku == HUMIDIFIER@ && HumidifierAutoMode::parsed(data) is Some {
        IotNews::TargetHumidity(HumidifierAutoMode::parsed(data)->0.target_humidity.0 % 128)
    } else if sku == HUMIDIFIER@ && NotifyHumidifierMode::parsed(data) is Some {
        IotNews::WorkMode {
            mode: NotifyHumidifierMode::parsed(data)->0.mode,
            param: NotifyHumidifierMode::parsed(data)->0.param,
        }
    } else if NotifySegmentMode::parsed(data) is Some {
        IotNews::SegmentMode
    } else if NotifySegmentColors::parsed(data) is Some {
        IotNews::Page(notifications::page_in(data))
    } else {
        IotNews::Nothing
    }
}

/// A decoded frame is that of one kind of the model.
proof fn one_kind_was_read(sku: Seq<char>, data: Seq<u8>, packet: GoveeBlePacket) -> (kind:
    Option<PacketKind>)
    requires
        codec::decoded_as(sku, data, packet),
    ensures
        match kind {
            Some(k) => codec::sku_supports(sku, k) && codec::readable(k, data) && codec::reads_as(
                k,
                data,
                packet,
            ),
            None => (forall|k: PacketKind|
                codec::sku_supports(sku, k) ==> !#[trigger] codec::readable(k, data))
                && packet is Generic,
        },
{
    if exists|k: PacketKind| codec::sku_supports(sku, k) && #[trigger] codec::readable(k, data) {
        let k = choose|k: PacketKind|
            codec::sku_supports(sku, k) && #[trigger] codec::readable(k, data);
        Some(k)
    } else {
        None
    }
}

/// What no light's frame says: none of a humidifier's frames is a page of
/// segments, nor says that the device has any.
proof fn humidifiers_have_no_segments(kind: PacketKind, data: Seq<u8>)
    requires
        codec::sku_supports(HUMIDIFIER@, kind),
        codec::readable(kind, data),
    ensures
        NotifySegmentMode::parsed(data) is None,
        NotifySegmentColors::parsed(data) is None,
{
    reveal_strlit("Generic:Light");
    reveal_strlit("H7160");
    assert(HUMIDIFIER@.len() == 5);
    assert(GENERIC_LIGHT@.len() == 13);
    codec::readable_header(kind, data);
    if codec::readable(PacketKind::NotifySegmentMode, data) {
        codec::readable_header(PacketKind::NotifySegmentMode, data);
    }
    if codec::readable(PacketKind::NotifySegmentColors, data) {
        codec::readable_header(PacketKind::NotifySegmentColors, data);
    }
}

/// Reads what a frame says for a model.
pub fn read_iot_news(sku: &str, frame: &Base64HexBytes) -> (r: IotNews)
    ensures
        r == iot_news(sku@, frame@),
{
    let ghost data = frame@;
    let own = frame.decode_for_sku(sku);
    proof {
        reveal_strlit("Generic:Light");
        reveal_strlit("H7160");
        assert(HUMIDIFIER@.len() == 5);
        assert(GENERIC_LIGHT@.len() == 13);
        match one_kind_was_read(sku@, data, own) {
            Some(kind) => {
                if sku@ == HUMIDIFIER@ {
                    humidifiers_have_no_segments(kind, data);
                }
            },
            None => {},
        }
        assert(codec::readable(PacketKind::NotifyHumidifierNightlight, data) && sku@ == HUMIDIFIER@
            ==> codec::reads_as(PacketKind::NotifyHumidifierNightlight, data, own));
        assert(codec::readable(PacketKind::HumidifierAutoMode, data) && sku@ == HUMIDIFIER@
            ==> codec::reads_as(PacketKind::HumidifierAutoMode, data, own));
        assert(codec::readable(PacketKind::NotifyHumidifierMode, data) && sku@ == HUMIDIFIER@
            ==> codec::reads_as(PacketKind::NotifyHumidifierMode, data, own));
        assert(codec::readable(PacketKind::NotifySegmentMode, data) && sku@ == GENERIC_LIGHT@
            ==> codec::reads_as(PacketKind::NotifySegmentMode, data, own));
        assert(codec::readable(PacketKind::NotifySegmentColors, data) && sku@ == GENERIC_LIGHT@
            ==> codec::reads_as(PacketKind::NotifySegmentColors, data, own));
    }
    // A device's status carries generic light frames that its own SKU has no
    // codec registered for, so anything the SKU cannot place gets a second
    // chance under the generic light key before we give up.
    let packet = match own {
        GoveeBlePacket::Generic(_) => {
            let light = frame.decode_for_sku(GENERIC_LIGHT);
            proof {
                let _ = one_kind_was_read(GENERIC_LIGHT@, data, light);
                assert(codec::readable(PacketKind::NotifySegmentMode, data) ==> codec::reads_as(
                    PacketKind::NotifySegmentMode,
                    data,
                    light,
                ));
                assert(codec::readable(PacketKind::NotifySegmentColors, data) ==> codec::reads_as(
                    PacketKind::NotifySegmentColors,
                    data,
                    light,
                ));
            }
            light
        },
        own => own,
    };
    match packet {
        GoveeBlePacket::NotifyHumidifierNightlight(nightlight) => IotNews::Nightlight(nightlight),
        GoveeBlePacket::NotifyHumidifierAutoMode(auto) => {
            IotNews::TargetHumidity(auto.target_humidity.as_percent())
        },
        GoveeBlePacket::NotifyHumidifierMode(mode) => {
            IotNews::WorkMode { mode: mode.mode, param: mode.param }
        },
        GoveeBlePacket::NotifySegmentMode(_) => IotNews::SegmentMode,
        GoveeBlePacket::NotifySegmentColors(page) => {
            proof {
                let other = notifications::page_in(data);
                assert(NotifySegmentColors::parsed(data) == Some((page.page, page.segments@)));
                assert(page.segments@ == other.segments@);
                assert(page.segments =~= other.segments);
            }
            IotNews::Page(page)
        },
        _ => IotNews::Nothing,
    }
}

// ------------------------------------------------------------------------- fold

/// What a status message makes of a device.
#[verifier::ext_equal]
pub struct IotPicture {
    pub status: DeviceStatus,
    pub nightlight: Option<NotifyHumidifierNightlightParams>,
    pub target_humidity: Option<u8>,
    pub work_mode: Option<u8>,
    pub params: Map<u8, u8>,
    pub segment_mode: bool,
    /// The device has named itself as segmented for the first time.
    pub named_itself: bool,
    pub pages: Seq<NotifySegmentColors>,
}

impl Device {
    /// What a status message is merged into: what AWS IoT told before, else
    /// whatever we last knew.
    pub open spec fn iot_seed(&self) -> DeviceStatus {
        match self.iot_device_status {
            Some(status) => status,
            None => self.last_known(),
        }
    }
}

impl StateUpdate {
    /// A status with the attributes that the message names. A brightness says
    /// whether the light is on, and a colour or a temperature that it is.
    pub open spec fn shown(&self, status: DeviceStatus) -> DeviceStatus {
        let dimmed = match self.brightness {
            Some(v) => DeviceStatus { brightness: v, on: v != 0, ..status },
            None => status,
        };
        let colored = match self.color {
            Some(v) => DeviceStatus { color: v, on: true, ..dimmed },
            None => dimmed,
        };
        match self.color_temperature_kelvin {
            Some(v) => DeviceStatus { color_temperature_kelvin: v, on: true, ..colored },
            None => colored,
        }
    }

    /// A status with the power state that the message names, which has the last
    /// word.
    pub open spec fn switched(&self, status: DeviceStatus) -> DeviceStatus {
        match self.on_off {
            Some(v) => DeviceStatus { on: v != 0, ..status },
            None => status,
        }
    }
}

/// The picture of a device before the frames of a message.
pub open spec fn first_picture(device: Device, state: StateUpdate) -> IotPicture {
    IotPicture {
        status: state.shown(device.iot_seed()),
        nightlight: device.nightlight_state,
        target_humidity: device.target_humidity_percent,
        work_mode: device.humidifier_work_mode,
        params: device.humidifier_param_by_mode@,
        segment_mode: device.segment_mode_reported,
        named_itself: false,
        pages: Seq::<NotifySegmentColors>::empty(),
    }
}

/// The picture of a device after a frame.
pub open spec fn pictured(before: IotPicture, news: IotNews) -> IotPicture {
    match news {
        IotNews::Nightlight(n) => IotPicture {
            status: DeviceStatus {
                brightness: n.brightness,
                color: DeviceColor { r: n.r, g: n.g, b: n.b },
                ..before.status
            },
            nightlight: Some(n),
            ..before
        },
        IotNews::TargetHumidity(percent) => IotPicture {
            target_humidity: Some(percent),
            ..before
        },
        IotNews::WorkMode { mode, param } => IotPicture {
            work_mode: Some(mode),
            params: before.params.insert(mode, param),
            ..before
        },
        IotNews::SegmentMode => IotPicture {
            named_itself: before.named_itself || !before.segment_mode,
            segment_mode: true,
            ..before
        },
        IotNews::Page(page) => IotPicture { pages: before.pages.push(page), ..before },
        IotNews::Nothing => before,
    }
}

/// The picture of a device after all frames of a message.
pub open spec fn pictured_all(
    before: IotPicture,
    sku: Seq<char>,
    frames: Seq<Base64HexBytes>,
) -> IotPicture
    decreases frames.len(),
{
    if frames.len() == 0 {
        before
    } else {
        pictured(
            pictured_all(before, sku, frames.drop_last()),
            iot_news(sku, frames.last()@),
        )
    }
}

/// The picture that a message makes of a device.
pub open spec fn message_picture(device: Device, sku: Seq<char>, packet: Packet) -> IotPicture {
    match packet.op {
        Some(op) => pictured_all(first_picture(device, packet.state), sku, op.command@),
        None => first_picture(device, packet.state),
    }
}

/// Whether `now` differs from `before` exactly in what the picture holds, but for
/// the status and the pages.
pub open spec fn shows(before: Device, now: Device, picture: IotPicture) -> bool {
    &&& now == (Device {
        nightlight_state: picture.nightlight,
        target_humidity_percent: picture.target_humidity,
        humidifier_work_mode: picture.work_mode,
        humidifier_param_by_mode: now.humidifier_param_by_mode,
        segment_mode_reported: picture.segment_mode,
        ..before
    })
    &&& now.humidifier_param_by_mode@ == picture.params
}

/// The steps by which a device takes a message: the frames, the pages and then
/// the status.
pub open spec fn packet_steps(
    before: Device,
    picture: IotPicture,
    state: StateUpdate,
    now: Timestamp,
    told: Device,
    paged: Device,
    moved: bool,
    after: Device,
    discovered: bool,
) -> bool {
    &&& shows(before, told, picture)
    &&& told.takes_pages(picture.pages, now, paged, moved)
    &&& after == paged.with_iot_status(state.switched(picture.status), now)
    &&& discovered == (if picture.pages.len() > 0 {
        moved
    } else {
        picture.named_itself
    })
}

/// Whether a device took a message, and whether its entities are to be
/// registered anew.
pub open spec fn takes_packet(
    before: Device,
    sku: Seq<char>,
    packet: Packet,
    now: Timestamp,
    after: Device,
    discovered: bool,
) -> bool {
    exists|told: Device, paged: Device, moved: bool| #[trigger]
        packet_steps(
            before,
            message_picture(before, sku, packet),
            packet.state,
            now,
            told,
            paged,
            moved,
            after,
            discovered,
        )
}

/// What the frames of a message leave alone: the power state and the temperature,
/// and without nightlight frames the brightness and the colour too.
proof fn frames_leave_alone(before: IotPicture, sku: Seq<char>, frames: Seq<Base64HexBytes>)
    ensures
        ({
            let after = pictured_all(before, sku, frames);
            &&& after.status.on == before.status.on
            &&& after.status.color_temperature_kelvin == before.status.color_temperature_kelvin
            &&& (sku != "H7160"@ || forall|i: int|
                0 <= i < frames.len() ==> NotifyHumidifierNightlightParams::parsed(
                    (#[trigger] frames[i])@,
                ) is None) ==> after.status == before.status && after.nightlight
                == before.nightlight
            &&& sku != "H7160"@ ==> after.target_humidity == before.target_humidity
                && after.work_mode == before.work_mode && after.params == before.params
        }),
    decreases frames.len(),
{
    if frames.len() > 0 {
        frames_leave_alone(before, sku, frames.drop_last());
        assert(frames.last() == frames[frames.len() - 1]);
    }
}

/// A message is taken at its word. A temperature that it names is that of the
/// device from then on, and so are a colour and a brightness where no frame of a
/// nightlight says otherwise; what it does not name stays as it was known. The
/// power state is the one that it names; without one, a brightness says whether
/// the light is on, and a colour or a temperature that it is. What other sources
/// told is not touched.
pub proof fn a_message_is_taken_at_its_word(
    before: Device,
    sku: Seq<char>,
    packet: Packet,
    now: Timestamp,
    after: Device,
    discovered: bool,
)
    requires
        takes_packet(before, sku, packet, now, after, discovered),
    ensures
        after.last_iot_device_status_update == Some(now),
        after.iot_device_status matches Some(status) && {
            let known = match before.iot_device_status {
                Some(status) => status,
                None => before.last_known(),
            };
            let state = packet.state;
            let plain = sku != "H7160"@ || packet.op is None || forall|i: int|
                0 <= i < packet.op->0.command@.len() ==> NotifyHumidifierNightlightParams::parsed(
                    (#[trigger] packet.op->0.command@[i])@,
                ) is None;
            &&& state.color_temperature_kelvin matches Some(kelvin)
                ==> status.color_temperature_kelvin == kelvin
            &&& state.color_temperature_kelvin is None ==> status.color_temperature_kelvin
                == known.color_temperature_kelvin
            &&& plain && state.brightness is Some ==> status.brightness == state.brightness->0
            &&& plain && state.brightness is None ==> status.brightness == known.brightness
            &&& plain && state.color is Some ==> status.color.r == state.color->0.r
                && status.color.g == state.color->0.g && status.color.b == state.color->0.b
            &&& plain && state.color is None ==> status.color == known.color
            &&& state.on_off matches Some(v) ==> (status.on <==> v != 0)
            &&& state.on_off is None ==> {
                &&& state.color is Some || state.color_temperature_kelvin is Some ==> status.on
                &&& state.color is None && state.color_temperature_kelvin is None ==> (status.on
                    <==> (match state.brightness {
                    Some(v) => v != 0,
                    None => known.on,
                }))
            }
        },
        after.sku == before.sku && after.id == before.id,
        after.lan_device == before.lan_device,
        after.lan_device_status == before.lan_device_status,
        after.last_lan_device_status_update == before.last_lan_device_status_update,
        after.http_device_info == before.http_device_info,
        after.http_device_state == before.http_device_state,
        after.last_http_device_state_update == before.last_http_device_state_update,
        after.undoc_device_info == before.undoc_device_info,
        after.ble_device_status == before.ble_device_status,
        after.last_ble_device_status_update == before.last_ble_device_status_update,
        after.remembered_segment_count == before.remembered_segment_count,
        after.chained_strings == before.chained_strings,
        after.last_polled == before.last_polled,
        packet.op is None ==> after.segment_colors@ == before.segment_colors@
            && after.segment_mode_reported == before.segment_mode_reported
            && after.nightlight_state == before.nightlight_state && !discovered,
        sku != "H7160"@ ==> after.nightlight_state == before.nightlight_state
            && after.target_humidity_percent == before.target_humidity_percent
            && after.humidifier_work_mode == before.humidifier_work_mode
            && after.humidifier_param_by_mode@ == before.humidifier_param_by_mode@,
{
    let first = first_picture(before, packet.state);
    if let Some(op) = packet.op {
        frames_leave_alone(first, sku, op.command@);
    }
}

/// What the last frame of its kind says of a humidifier counts.
proof fn the_last_frame_counts(
    before: IotPicture,
    frames: Seq<Base64HexBytes>,
    at: int,
)
    requires
        0 <= at < frames.len(),
    ensures
        ({
            let after = pictured_all(before, "H7160"@, frames);
            let data = frames[at]@;
            &&& NotifyHumidifierNightlightParams::parsed(data) matches Some(n) ==> (forall|j: int|
                at < j < frames.len() ==> NotifyHumidifierNightlightParams::parsed(
                    (#[trigger] frames[j])@,
                ) is None) ==> after.nightlight == Some(n) && after.status.brightness
                == n.brightness && after.status.color.r == n.r && after.status.color.g == n.g
                && after.status.color.b == n.b
            &&& iot_news("H7160"@, data) matches IotNews::TargetHumidity(percent) ==> (forall|
                j: int,
            |
                at < j < frames.len() ==> !(iot_news(
                    "H7160"@,
                    (#[trigger] frames[j])@,
                ) is TargetHumidity)) ==> after.target_humidity == Some(percent)
            &&& iot_news("H7160"@, data) matches IotNews::WorkMode { mode, param } ==> (forall|
                j: int,
            |
                at < j < frames.len() ==> !(iot_news("H7160"@, (#[trigger] frames[j])@) is WorkMode))
                ==> after.work_mode == Some(mode) && after.params.contains_key(mode)
                && after.params[mode] == param
        }),
    decreases frames.len(),
{
    let head = frames.drop_last();
    assert(frames.last() == frames[frames.len() - 1]);
    if at < head.len() {
        the_last_frame_counts(before, head, at);
        assert forall|j: int| at < j < head.len() implies head[j] == #[trigger] frames[j] by {}
    }
}

/// A humidifier's own frames say what its nightlight shows, what humidity it is to
/// reach and how it works: of each the last frame that says so.
pub proof fn a_humidifier_speaks_in_frames(
    before: Device,
    packet: Packet,
    now: Timestamp,
    after: Device,
    discovered: bool,
    at: int,
)
    requires
        takes_packet(before, "H7160"@, packet, now, after, discovered),
        packet.op is Some,
        0 <= at < packet.op->0.command@.len(),
    ensures
        ({
            let frames = packet.op->0.command@;
            let data = frames[at]@;
            &&& NotifyHumidifierNightlightParams::parsed(data) matches Some(n) ==> (forall|j: int|
                at < j < frames.len() ==> NotifyHumidifierNightlightParams::parsed(
                    (#[trigger] frames[j])@,
                ) is None) ==> after.nightlight_state == Some(n) && (
            after.iot_device_status matches Some(status) && status.brightness == n.brightness
                && status.color.r == n.r && status.color.g == n.g && status.color.b == n.b)
            &&& iot_news("H7160"@, data) matches IotNews::TargetHumidity(percent) ==> (forall|
                j: int,
            |
                at < j < frames.len() ==> !(iot_news(
                    "H7160"@,
                    (#[trigger] frames[j])@,
                ) is TargetHumidity)) ==> after.target_humidity_percent == Some(percent)
            &&& iot_news("H7160"@, data) matches IotNews::WorkMode { mode, param } ==> (forall|
                j: int,
            |
                at < j < frames.len() ==> !(iot_news("H7160"@, (#[trigger] frames[j])@) is WorkMode))
                ==> after.humidifier_work_mode == Some(mode)
                && after.humidifier_param_by_mode@.contains_key(mode)
                && after.humidifier_param_by_mode@[mode] == param
        }),
{
    the_last_frame_counts(first_picture(before, packet.state), packet.op->0.command@, at);
}

/// A light that names itself as segmented for the first time is told of, where the
/// message has no pages; and so is one whose count moves, where it has.
pub proof fn discoveries_are_told_of(
    before: Device,
    sku: Seq<char>,
    packet: Packet,
    now: Timestamp,
    after: Device,
    discovered: bool,
)
    requires
        takes_packet(before, sku, packet, now, after, discovered),
    ensures
        discovered ==> after.addressed() != before.addressed() || (!before.segment_mode_reported
            && after.segment_mode_reported),
        before.segment_mode_reported ==> after.segment_mode_reported,
        after.addressed() != before.addressed() ==> discovered,
        after.segment_colors@ == before.segment_colors@ && !before.segment_mode_reported
            && after.segment_mode_reported && after.segment_page_stride
            == before.segment_page_stride && after.last_segment_colors_update
            == before.last_segment_colors_update && before.last_segment_colors_update != Some(now)
            ==> discovered,
{
    let first = first_picture(before, packet.state);
    if let Some(op) = packet.op {
        naming_is_noted(first, sku, op.command@);
    }
}

/// What a frame of a status message says: a humidifier's frames are read as such for a
/// humidifier alone, and the segments of any model.
pub proof fn what_a_frame_of_a_message_says(sku: Seq<char>, data: Seq<u8>)
    ensures
        sku == "H7160"@ ==> {
            &&& NotifyHumidifierNightlightParams::parsed(data) matches Some(n) ==> (iot_news(
                sku,
                data,
            ) matches IotNews::Nightlight(told) && told == n)
            &&& HumidifierAutoMode::parsed(data) matches Some(auto) ==> (iot_news(
                sku,
                data,
            ) matches IotNews::TargetHumidity(percent) && percent
                == auto.target_humidity.0 as int % 128)
            &&& NotifyHumidifierMode::parsed(data) matches Some(v) ==> (iot_news(
                sku,
                data,
            ) matches IotNews::WorkMode { mode, param } && mode == v.mode && param == v.param)
        },
        iot_news(sku, data) is Nightlight || iot_news(sku, data) is TargetHumidity || iot_news(
            sku,
            data,
        ) is WorkMode ==> sku == "H7160"@,
        iot_news(sku, data) is SegmentMode <==> NotifySegmentMode::parsed(data) is Some,
        iot_news(sku, data) is Page <==> NotifySegmentColors::parsed(data) is Some,
{
    reveal_strlit("Generic:Light");
    reveal_strlit("H7160");
    assert(HUMIDIFIER@.len() == 5);
    assert(GENERIC_LIGHT@.len() == 13);
    if NotifyHumidifierNightlightParams::parsed(data) is Some {
        codec::readable_header(PacketKind::NotifyHumidifierNightlight, data);
    }
    if HumidifierAutoMode::parsed(data) is Some {
        codec::readable_header(PacketKind::HumidifierAutoMode, data);
    }
    if NotifyHumidifierMode::parsed(data) is Some {
        codec::readable_header(PacketKind::NotifyHumidifierMode, data);
    }
    if NotifySegmentMode::parsed(data) is Some {
        codec::readable_header(PacketKind::NotifySegmentMode, data);
    }
    if NotifySegmentColors::parsed(data) is Some {
        codec::readable_header(PacketKind::NotifySegmentColors, data);
    }
}

proof fn the_last_page_is_gathered(
    before: IotPicture,
    sku: Seq<char>,
    frames: Seq<Base64HexBytes>,
    at: int,
)
    requires
        0 <= at < frames.len(),
        iot_news(sku, frames[at]@) is Page,
        forall|j: int|
            at < j < frames.len() ==> !(iot_news(sku, (#[trigger] frames[j])@) is Page),
    ensures
        pictured_all(before, sku, frames).pages.len() > 0,
        pictured_all(before, sku, frames).pages.last() == iot_news(sku, frames[at]@)->Page_0,
    decreases frames.len(),
{
    let head = frames.drop_last();
    assert(frames.last() == frames[frames.len() - 1]);
    if at < head.len() {
        assert forall|j: int| at < j < head.len() implies head[j] == #[trigger] frames[j] by {}
        the_last_page_is_gathered(before, sku, head, at);
        assert(!(iot_news(sku, frames[frames.len() - 1]@) is Page));
    }
}

/// What the last page in a message shows of a segment is what is known of it
/// afterwards, three or four segments to a page as the device has them.
pub proof fn a_page_in_a_message_is_shown(
    before: Device,
    sku: Seq<char>,
    packet: Packet,
    now: Timestamp,
    after: Device,
    discovered: bool,
    at: int,
    page: NotifySegmentColors,
    n: int,
)
    requires
        before.wf(),
        takes_packet(before, sku, packet, now, after, discovered),
        packet.op is Some,
        0 <= at < packet.op->0.command@.len(),
        NotifySegmentColors::parsed(packet.op->0.command@[at]@) == Some(
            (page.page, page.segments@),
        ),
        forall|j: int|
            at < j < packet.op->0.command@.len() ==> NotifySegmentColors::parsed(
                (#[trigger] packet.op->0.command@[j])@,
            ) is None,
        page.page > 0,
        0 <= n < 3,
        page.segments@[n].names_a_segment(),
    ensures
        after.last_segment_colors_update == Some(now),
        after.segment_page_stride matches Some(stride) && 3 <= stride <= 4 && {
            let segment = ((page.page - 1) * stride + n) as u32;
            &&& after.segment_colors@.contains_key(segment)
            &&& after.segment_colors@[segment] == page.segments@[n]
        },
{
    let frames = packet.op->0.command@;
    let data = frames[at]@;
    let picture = message_picture(before, sku, packet);
    let pages = picture.pages;
    let (told, paged, moved) = choose|told: Device, paged: Device, moved: bool| #[trigger]
        packet_steps(before, picture, packet.state, now, told, paged, moved, after, discovered);
    notifications::a_page_is_read_as_it_stands(data, page);
    what_a_frame_of_a_message_says(sku, data);
    assert forall|j: int| at < j < frames.len() implies !(iot_news(
        sku,
        (#[trigger] frames[j])@,
    ) is Page) by {
        what_a_frame_of_a_message_says(sku, frames[j]@);
    }
    the_last_page_is_gathered(first_picture(before, packet.state), sku, frames, at);
    assert(told.wf());
    told.the_widest_page_decides(pages);
    let stride = told.stride_after(pages) as int;
    let last = pages.last();
    assert(last.page == page.page && last.segments@ == page.segments@);
    assert(0 <= (page.page - 1) * stride <= 254 * 4) by (nonlinear_arith)
        requires
            0 < page.page <= 255,
            3 <= stride <= 4,
    ;
    let segment = ((page.page - 1) * stride + n) as u32;
    told.what_pages_show_is_known(pages, now, paged, moved, pages.len() - 1, n, segment);
}

/// What can be read of a list is kept, in its order, and nothing else is.
pub proof fn an_entry_is_kept_if_it_can_be_read(raw: Seq<Option<String>>, entry: Option<String>)
    ensures
        readable_entries(Seq::<Option<String>>::empty()).len() == 0,
        entry is None ==> readable_entries(raw.push(entry)) == readable_entries(raw),
        entry is Some && base64::base64_data(entry->0@) is None ==> readable_entries(
            raw.push(entry),
        ) == readable_entries(raw),
        entry is Some && base64::base64_data(entry->0@) is Some ==> readable_entries(
            raw.push(entry),
        ) == readable_entries(raw).push(base64::base64_data(entry->0@)->0),
{
    assert(raw.push(entry).drop_last() =~= raw);
}

/// A message names its device in itself, or else in its state, and where it does both
/// its own word counts.
pub proof fn where_a_message_names_its_device(packet: Packet)
    ensures
        packet.sku matches Some(sku) ==> packet.sku_text() == Some(sku@),
        packet.sku is None && packet.state.sku is Some ==> packet.sku_text() == Some(
            packet.state.sku->0@,
        ),
        packet.sku_text() is None <==> packet.sku is None && packet.state.sku is None,
        packet.device matches Some(device) ==> packet.device_text() == Some(device@),
        packet.device is None && packet.state.device is Some ==> packet.device_text() == Some(
            packet.state.device->0@,
        ),
        packet.device_text() is None <==> packet.device is None && packet.state.device is None,
{
}

/// A count is remembered exactly if the message was a discovery and there is a count,
/// and then it is the count that the device shows.
pub proof fn a_discovery_is_remembered(after: Device, discovered: bool, outcome: PacketOutcome)
    requires
        is_outcome(after, discovered, outcome),
    ensures
        outcome.segments_discovered <==> discovered,
        outcome.remember_segments is Some <==> discovered && after.visible() is Some,
        outcome.remember_segments matches Some(count) ==> after.visible() == Some(count as int),
{
}

proof fn naming_is_noted(before: IotPicture, sku: Seq<char>, frames: Seq<Base64HexBytes>)
    ensures
        ({
            let after = pictured_all(before, sku, frames);
            &&& before.segment_mode ==> after.segment_mode
            &&& after.named_itself == (before.named_itself || (!before.segment_mode
                && after.segment_mode))
        }),
    decreases frames.len(),
{
    if frames.len() > 0 {
        naming_is_noted(before, sku, frames.drop_last());
    }
}

fn tell(
    device: &mut Device,
    status: &mut DeviceStatus,
    pages: &mut Vec<NotifySegmentColors>,
    news: IotNews,
) -> (named_itself: bool)
    ensures
        forall|start: Device, picture: IotPicture|
            #![trigger shows(start, *old(device), picture)]
            shows(start, *old(device), picture) && picture.status == *old(status) && picture.pages
                == old(pages)@ ==> {
                let after = pictured(picture, news);
                &&& shows(start, *final(device), after)
                &&& after.status == *final(status)
                &&& after.pages == final(pages)@
                &&& after.named_itself == (picture.named_itself || named_itself)
            },
{
    match news {
        IotNews::Nightlight(n) => {
            status.brightness = n.brightness;
            status.color = DeviceColor { r: n.r, g: n.g, b: n.b };
            device.set_nightlight_state(n);
            false
        },
        IotNews::TargetHumidity(percent) => {
            device.set_target_humidity(percent);
            false
        },
        IotNews::WorkMode { mode, param } => {
            device.set_humidifier_work_mode_and_param(mode, param);
            false
        },
        IotNews::SegmentMode => device.set_segment_mode_reported(),
        IotNews::Page(page) => {
            pages.push(page);
            false
        },
        IotNews::Nothing => false,
    }
}

/// What a message changed.
#[derive(Clone, Copy, Debug, PartialEq, Eq)]
pub struct PacketOutcome {
    /// Entities are to be registered.
    pub segments_discovered: bool,
    /// The count of segments to remember for the next run.
    pub remember_segments: Option<u32>,
}

/// Whether the outcome is that of a device that took a message.
pub open spec fn is_outcome(after: Device, discovered: bool, outcome: PacketOutcome) -> bool {
    &&& outcome.segments_discovered == discovered
    &&& match outcome.remember_segments {
        Some(count) => discovered && after.visible() == Some(count as int),
        None => discovered ==> after.visible() is None,
    }
}

impl Packet {
    /// The sku can be in a couple of different places(!)
    pub open spec fn sku_text(&self) -> Option<Seq<char>> {
        match (self.sku, self.state.sku) {
            (Some(sku), _) => Some(sku@),
            (None, Some(sku)) => Some(sku@),
            (None, None) => None,
        }
    }

    pub open spec fn device_text(&self) -> Option<Seq<char>> {
        match (self.device, self.state.device) {
            (Some(device), _) => Some(device@),
            (None, Some(device)) => Some(device@),
            (None, None) => None,
        }
    }

    pub fn sku(&self) -> (r: Option<&str>)
        ensures
            match r {
                Some(sku) => self.sku_text() == Some(sku@),
                None => self.sku_text() is None,
            },
    {
        match &self.sku {
            Some(sku) => Some(sku.as_str()),
            None => match &self.state.sku {
                Some(sku) => Some(sku.as_str()),
                None => None,
            },
        }
    }

    pub fn device(&self) -> (r: Option<&str>)
        ensures
            match r {
                Some(device) => self.device_text() == Some(device@),
                None => self.device_text() is None,
            },
    {
        match &self.device {
            Some(device) => Some(device.as_str()),
            None => match &self.state.device {
                Some(device) => Some(device.as_str()),
                None => None,
            },
        }
    }

    pub fn sku_and_device(&self) -> (r: Option<(&str, &str)>)
        ensures
            match r {
                Some((sku, device)) => self.sku_text() == Some(sku@) && self.device_text() == Some(
                    device@,
                ),
                None => self.sku_text() is None || self.device_text() is None,
            },
    {
        match (self.sku(), self.device()) {
            (Some(sku), Some(device)) => Some((sku, device)),
            _ => None,
        }
    }

    /// Folds the message into the state of its device, at the current time.
    pub fn apply(&self, device: &mut Device, sku: &str) -> (r: PacketOutcome)
        requires
            old(device).wf(),
            notifications::chain_fits(*old(device)),
        ensures
            final(device).wf(),
            exists|now: Timestamp, discovered: bool| #[trigger]
                takes_packet(*old(device), sku@, *self, now, *final(device), discovered)
                    && is_outcome(*final(device), discovered, r),
    {
        let now = utc_now();
        let outcome = self.apply_at(device, sku, now);
        assert(takes_packet(
            *old(device),
            sku@,
            *self,
            now,
            *device,
            outcome.segments_discovered,
        ));
        outcome
    }

    /// Folds the message into the state of its device.
    pub fn apply_at(&self, device: &mut Device, sku: &str, now: Timestamp) -> (r: PacketOutcome)
        requires
            old(device).wf(),
            notifications::chain_fits(*old(device)),
        ensures
            final(device).wf(),
            takes_packet(*old(device), sku@, *self, now, *final(device), r.segments_discovered),
            is_outcome(*final(device), r.segments_discovered, r),
    {
        let ghost start = *device;
        let mut status: DeviceStatus = match &device.iot_device_status {
            Some(status) => *status,
            None => device.last_known_status(),
        };
        if let Some(v) = self.state.brightness {
            status.brightness = v;
            status.on = v != 0;
        }
        if let Some(v) = self.state.color {
            status.color = v;
            status.on = true;
        }
        if let Some(v) = self.state.color_temperature_kelvin {
            status.color_temperature_kelvin = v;
            status.on = true;
        }
        let mut named_itself = false;
        let mut pages: Vec<NotifySegmentColors> = Vec::new();
        let ghost first = first_picture(start, self.state);
        assert(pages@ =~= Seq::<NotifySegmentColors>::empty());
        assert(shows(start, *device, first));
        if let Some(op) = &self.op {
            for i in 0..op.command.len()
                invariant
                    first == first_picture(start, self.state),
                    ({
                        let picture = pictured_all(first, sku@, op.command@.take(i as int));
                        &&& shows(start, *device, picture)
                        &&& picture.status == status
                        &&& picture.pages == pages@
                        &&& picture.named_itself == named_itself
                    }),
            {
                assert(op.command@.take(i + 1).drop_last() =~= op.command@.take(i as int));
                let ghost picture = pictured_all(first, sku@, op.command@.take(i as int));
                let news = read_iot_news(sku, &op.command[i]);
                let ghost after = pictured(picture, news);
                let named = tell(device, &mut status, &mut pages, news);
                assert(shows(start, *device, after));
                named_itself = named_itself || named;
            }
            assert(op.command@.take(op.command@.len() as int) =~= op.command@);
        }
        let ghost picture = message_picture(start, sku@, *self);
        let ghost told = *device;
        assert(shows(start, told, picture));
        assert(told.wf());
        let moved = device.set_segment_colors_at(pages.as_slice(), now);
        let ghost paged = *device;
        let discovered = if pages.len() > 0 {
            moved
        } else {
            named_itself
        };
        // Check on/off last, as we can synthesize "on"
        // if the other fields are present
        if let Some(on_off) = self.state.on_off {
            status.on = on_off != 0;
        }
        device.set_iot_device_status_at(status, now);
        assert(packet_steps(
            start,
            picture,
            self.state,
            now,
            told,
            paged,
            moved,
            *device,
            discovered,
        ));
        let remember: Option<u32> = if discovered {
            device.visible_segment_count()
        } else {
            None
        };
        PacketOutcome { segments_discovered: discovered, remember_segments: remember }
    }
}

} // verus!
