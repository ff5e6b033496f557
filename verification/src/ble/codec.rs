//! Which packets a model understands, and the table that reads and writes them.
use vstd::prelude::*;

use crate::base64;
use crate::ble::frame;
use crate::ble::packets;
use crate::ble::packets::{
    HumidifierAutoMode, NotifyDeviceBrightness, NotifyDeviceColor, NotifyDevicePower,
    NotifyHumidifierMode, NotifyHumidifierNightlightParams, SetDeviceBrightness, SetDeviceColorRgb,
    SetDeviceColorTemperature, SetDevicePower, SetHumidifierMode, SetHumidifierNightlightParams,
};
use crate::ble::scene;
use crate::ble::scene::SetSceneCode;
use crate::ble::segment::{
    NotifySegmentColors, NotifySegmentMode, SetSegmentBrightness, SetSegmentColorRgb,
};
use crate::text::str_eq;

verus! {

/// Codec key for the light command set. Govee's light protocol is consistent
/// across models, so rather than enumerating SKUs we register the light packets
/// under this synthetic key and address it explicitly at the call site.
pub const GENERIC_LIGHT: &'static str = "Generic:Light";

/// The one humidifier whose packets are known.
pub const HUMIDIFIER: &'static str = "H7160";

/// Raw bytes that no packet was made of.
#[derive(Clone, Debug, PartialEq, Eq)]
pub struct HexBytes(pub Vec<u8>);

impl View for HexBytes {
    type V = Seq<u8>;

    open spec fn view(&self) -> Seq<u8> {
        self.0@
    }
}

#[derive(Clone, Debug, PartialEq, Eq)]
pub enum GoveeBlePacket {
    Generic(HexBytes),
    SetHumidifierMode(SetHumidifierMode),
    NotifyHumidifierMode(NotifyHumidifierMode),
    NotifyHumidifierAutoMode(HumidifierAutoMode),
    NotifyHumidifierNightlight(NotifyHumidifierNightlightParams),
    SetHumidifierNightlight(SetHumidifierNightlightParams),
    SetSceneCode(SetSceneCode),
    SetDevicePower(SetDevicePower),
    SetDeviceBrightness(SetDeviceBrightness),
    SetDeviceColorRgb(SetDeviceColorRgb),
    SetDeviceColorTemperature(SetDeviceColorTemperature),
    NotifyDevicePower(NotifyDevicePower),
    NotifyDeviceBrightness(NotifyDeviceBrightness),
    NotifyDeviceColor(NotifyDeviceColor),
    SetSegmentColorRgb(SetSegmentColorRgb),
    SetSegmentBrightness(SetSegmentBrightness),
    NotifySegmentColors(NotifySegmentColors),
    NotifySegmentMode(NotifySegmentMode),
}

/// The kinds of packet.
#[derive(Clone, Copy, Debug, PartialEq, Eq, Structural)]
pub enum PacketKind {
    SetHumidifierMode,
    NotifyHumidifierMode,
    HumidifierAutoMode,
    NotifyHumidifierNightlight,
    SetHumidifierNightlight,
    SetSceneCode,
    SetDevicePower,
    SetDeviceBrightness,
    SetDeviceColorRgb,
    SetDeviceColorTemperature,
    NotifyDevicePower,
    NotifyDeviceBrightness,
    NotifyDeviceColor,
    SetSegmentColorRgb,
    SetSegmentBrightness,
    NotifySegmentColors,
    NotifySegmentMode,
}

/// Every kind of packet.
pub open spec fn all_kinds() -> Seq<PacketKind> {
    seq![
        PacketKind::SetHumidifierMode,
        PacketKind::NotifyHumidifierMode,
        PacketKind::HumidifierAutoMode,
        PacketKind::NotifyHumidifierNightlight,
        PacketKind::SetHumidifierNightlight,
        PacketKind::SetSceneCode,
        PacketKind::SetDevicePower,
        PacketKind::SetDeviceBrightness,
        PacketKind::SetDeviceColorRgb,
        PacketKind::SetDeviceColorTemperature,
        PacketKind::NotifyDevicePower,
        PacketKind::NotifyDeviceBrightness,
        PacketKind::NotifyDeviceColor,
        PacketKind::SetSegmentColorRgb,
        PacketKind::SetSegmentBrightness,
        PacketKind::NotifySegmentColors,
        PacketKind::NotifySegmentMode,
    ]
}

/// The model that a kind of packet is known for.
pub open spec fn sku_of(kind: PacketKind) -> Seq<char> {
    match kind {
        PacketKind::SetHumidifierMode
        | PacketKind::NotifyHumidifierMode
        | PacketKind::HumidifierAutoMode
        | PacketKind::NotifyHumidifierNightlight
        | PacketKind::SetHumidifierNightlight => HUMIDIFIER@,
        _ => GENERIC_LIGHT@,
    }
}

/// Whether frames of a kind are read for a model.
pub open spec fn sku_supports(sku: Seq<char>, kind: PacketKind) -> bool {
    sku == sku_of(kind)
}

/// Whether `data` is a frame of this kind. Scene commands are never read back.
pub open spec fn readable(kind: PacketKind, data: Seq<u8>) -> bool {
    match kind {
        PacketKind::SetHumidifierMode => SetHumidifierMode::parsed(data) is Some,
        PacketKind::NotifyHumidifierMode => NotifyHumidifierMode::parsed(data) is Some,
        PacketKind::HumidifierAutoMode => HumidifierAutoMode::parsed(data) is Some,
        PacketKind::NotifyHumidifierNightlight => NotifyHumidifierNightlightParams::parsed(data) is Some,
        PacketKind::SetHumidifierNightlight => SetHumidifierNightlightParams::parsed(data) is Some,
        PacketKind::SetSceneCode => false,
        PacketKind::SetDevicePower => SetDevicePower::parsed(data) is Some,
        PacketKind::SetDeviceBrightness => SetDeviceBrightness::parsed(data) is Some,
        PacketKind::SetDeviceColorRgb => SetDeviceColorRgb::parsed(data) is Some,
        PacketKind::SetDeviceColorTemperature => SetDeviceColorTemperature::parsed(data) is Some,
        PacketKind::NotifyDevicePower => NotifyDevicePower::parsed(data) is Some,
        PacketKind::NotifyDeviceBrightness => NotifyDeviceBrightness::parsed(data) is Some,
        PacketKind::NotifyDeviceColor => NotifyDeviceColor::parsed(data) is Some,
        PacketKind::SetSegmentColorRgb => SetSegmentColorRgb::parsed(data) is Some,
        PacketKind::SetSegmentBrightness => SetSegmentBrightness::parsed(data) is Some,
        PacketKind::NotifySegmentColors => NotifySegmentColors::parsed(data) is Some,
        PacketKind::NotifySegmentMode => NotifySegmentMode::parsed(data) is Some,
    }
}

/// Whether `packet` is what the frame `data` of this kind says.
pub open spec fn reads_as(kind: PacketKind, data: Seq<u8>, packet: GoveeBlePacket) -> bool {
    match (kind, packet) {
        (PacketKind::SetHumidifierMode, GoveeBlePacket::SetHumidifierMode(v)) => {
            SetHumidifierMode::parsed(data) == Some(v)
        },
        (PacketKind::NotifyHumidifierMode, GoveeBlePacket::NotifyHumidifierMode(v)) => {
            NotifyHumidifierMode::parsed(data) == Some(v)
        },
        (PacketKind::HumidifierAutoMode, GoveeBlePacket::NotifyHumidifierAutoMode(v)) => {
            HumidifierAutoMode::parsed(data) == Some(v)
        },
        (PacketKind::NotifyHumidifierNightlight, GoveeBlePacket::NotifyHumidifierNightlight(v)) => {
            NotifyHumidifierNightlightParams::parsed(data) == Some(v)
        },
        (PacketKind::SetHumidifierNightlight, GoveeBlePacket::SetHumidifierNightlight(v)) => {
            SetHumidifierNightlightParams::parsed(data) == Some(v)
        },
        (PacketKind::SetDevicePower, GoveeBlePacket::SetDevicePower(v)) => {
            SetDevicePower::parsed(data) == Some(v)
        },
        (PacketKind::SetDeviceBrightness, GoveeBlePacket::SetDeviceBrightness(v)) => {
            SetDeviceBrightness::parsed(data) == Some(v)
        },
        (PacketKind::SetDeviceColorRgb, GoveeBlePacket::SetDeviceColorRgb(v)) => {
            SetDeviceColorRgb::parsed(data) == Some(v)
        },
        (PacketKind::SetDeviceColorTemperature, GoveeBlePacket::SetDeviceColorTemperature(v)) => {
            SetDeviceColorTemperature::parsed(data) == Some(v)
        },
        (PacketKind::NotifyDevicePower, GoveeBlePacket::NotifyDevicePower(v)) => {
            NotifyDevicePower::parsed(data) == Some(v)
        },
        (PacketKind::NotifyDeviceBrightness, GoveeBlePacket::NotifyDeviceBrightness(v)) => {
            NotifyDeviceBrightness::parsed(data) == Some(v)
        },
        (PacketKind::NotifyDeviceColor, GoveeBlePacket::NotifyDeviceColor(v)) => {
            NotifyDeviceColor::parsed(data) == Some(v)
        },
        (PacketKind::SetSegmentColorRgb, GoveeBlePacket::SetSegmentColorRgb(v)) => {
            SetSegmentColorRgb::parsed(data) == Some((v.r, v.g, v.b, v.mask@))
        },
        (PacketKind::SetSegmentBrightness, GoveeBlePacket::SetSegmentBrightness(v)) => {
            SetSegmentBrightness::parsed(data) == Some((v.percent, v.mask@))
        },
        (PacketKind::NotifySegmentColors, GoveeBlePacket::NotifySegmentColors(v)) => {
            NotifySegmentColors::parsed(data) == Some((v.page, v.segments@))
        },
        (PacketKind::NotifySegmentMode, GoveeBlePacket::NotifySegmentMode(v)) => {
            NotifySegmentMode::parsed(data) == Some(v)
        },
        _ => false,
    }
}

/// Whether `packet` is what a model's frame `data` is decoded to: what its one
/// reading says, or the bytes themselves where it has none.
pub open spec fn decoded_as(sku: Seq<char>, data: Seq<u8>, packet: GoveeBlePacket) -> bool {
    &&& forall|kind: PacketKind|
        sku_supports(sku, kind) && #[trigger] readable(kind, data) ==> reads_as(kind, data, packet)
    &&& (forall|kind: PacketKind| sku_supports(sku, kind) ==> !#[trigger] readable(kind, data))
        ==> (packet matches GoveeBlePacket::Generic(bytes) && bytes@ == data)
}

/// A humidifier has frames of its own and reads no light's; any light's frames are
/// read as those of the generic light; and no other model has frames.
pub proof fn each_model_has_its_frames(sku: Seq<char>, kind: PacketKind)
    ensures
        ({
            let humid = kind is SetHumidifierMode || kind is NotifyHumidifierMode
                || kind is HumidifierAutoMode || kind is NotifyHumidifierNightlight
                || kind is SetHumidifierNightlight;
            &&& humid ==> (sku_supports(sku, kind) <==> sku == "H7160"@)
            &&& !humid ==> (sku_supports(sku, kind) <==> sku == "Generic:Light"@)
        }),
{
}

/// No frame has two readings: of the kinds that a model supports, at most one
/// reads a given frame.
pub proof fn at_most_one_reading(sku: Seq<char>, data: Seq<u8>, one: PacketKind, other: PacketKind)
    requires
        sku_supports(sku, one),
        sku_supports(sku, other),
        readable(one, data),
        readable(other, data),
    ensures
        one == other,
{
    reveal_strlit("Generic:Light");
    reveal_strlit("H7160");
    assert(HUMIDIFIER@.len() == 5);
    assert(GENERIC_LIGHT@.len() == 13);
    readable_header(one, data);
    readable_header(other, data);
}

/// What is sent to a light is read back as what it says: a switch as a switch, a colour
/// as that colour, and nothing as anything else.
pub proof fn a_light_command_is_decoded_to_itself(
    power: SetDevicePower,
    brightness: SetDeviceBrightness,
    color: SetDeviceColorRgb,
    kelvin: SetDeviceColorTemperature,
    packet: GoveeBlePacket,
)
    requires
        kelvin.kelvin@ != 0,
    ensures
        power.wire() is Ok && brightness.wire() is Ok && color.wire() is Ok && kelvin.wire() is Ok,
        decoded_as("Generic:Light"@, power.wire()->Ok_0, packet) ==> packet
            == GoveeBlePacket::SetDevicePower(power),
        decoded_as("Generic:Light"@, brightness.wire()->Ok_0, packet) ==> packet
            == GoveeBlePacket::SetDeviceBrightness(brightness),
        decoded_as("Generic:Light"@, color.wire()->Ok_0, packet) ==> packet
            == GoveeBlePacket::SetDeviceColorRgb(color),
        decoded_as("Generic:Light"@, kelvin.wire()->Ok_0, packet) ==> packet
            == GoveeBlePacket::SetDeviceColorTemperature(kelvin),
{
    power.round_trip();
    assert(readable(PacketKind::SetDevicePower, frame::finished(power.payload())));
    brightness.round_trip();
    assert(readable(PacketKind::SetDeviceBrightness, frame::finished(brightness.payload())));
    color.round_trip();
    assert(readable(PacketKind::SetDeviceColorRgb, frame::finished(color.payload())));
    kelvin.round_trip();
    assert(readable(PacketKind::SetDeviceColorTemperature, frame::finished(kelvin.payload())));
}

/// What a light reports is decoded to what it says.
pub proof fn a_light_report_is_decoded_to_itself(
    power: NotifyDevicePower,
    brightness: NotifyDeviceBrightness,
    color: NotifyDeviceColor,
    packet: GoveeBlePacket,
)
    requires
        color.mode != 0x15,
    ensures
        decoded_as("Generic:Light"@, power.wire()->Ok_0, packet) ==> packet
            == GoveeBlePacket::NotifyDevicePower(power),
        decoded_as("Generic:Light"@, brightness.wire()->Ok_0, packet) ==> packet
            == GoveeBlePacket::NotifyDeviceBrightness(brightness),
        decoded_as("Generic:Light"@, color.wire()->Ok_0, packet) ==> packet
            == GoveeBlePacket::NotifyDeviceColor(color),
{
    power.round_trip();
    assert(readable(PacketKind::NotifyDevicePower, frame::finished(power.payload())));
    brightness.round_trip();
    assert(readable(PacketKind::NotifyDeviceBrightness, frame::finished(brightness.payload())));
    color.round_trip();
    assert(readable(PacketKind::NotifyDeviceColor, frame::finished(color.payload())));
}

/// The frames of a humidifier are decoded to what they say.
pub proof fn a_humidifier_frame_is_decoded_to_itself(
    set_mode: SetHumidifierMode,
    mode: NotifyHumidifierMode,
    auto: HumidifierAutoMode,
    set_light: SetHumidifierNightlightParams,
    light: NotifyHumidifierNightlightParams,
    packet: GoveeBlePacket,
)
    ensures
        decoded_as("H7160"@, set_mode.wire()->Ok_0, packet) ==> packet
            == GoveeBlePacket::SetHumidifierMode(set_mode),
        decoded_as("H7160"@, mode.wire()->Ok_0, packet) ==> packet
            == GoveeBlePacket::NotifyHumidifierMode(mode),
        decoded_as("H7160"@, auto.wire()->Ok_0, packet) ==> packet
            == GoveeBlePacket::NotifyHumidifierAutoMode(auto),
        decoded_as("H7160"@, set_light.wire()->Ok_0, packet) ==> packet
            == GoveeBlePacket::SetHumidifierNightlight(set_light),
        decoded_as("H7160"@, light.wire()->Ok_0, packet) ==> packet
            == GoveeBlePacket::NotifyHumidifierNightlight(light),
{
    set_mode.round_trip();
    assert(readable(PacketKind::SetHumidifierMode, frame::finished(set_mode.payload())));
    mode.round_trip();
    assert(readable(PacketKind::NotifyHumidifierMode, frame::finished(mode.payload())));
    auto.round_trip();
    assert(readable(PacketKind::HumidifierAutoMode, frame::finished(auto.payload())));
    set_light.round_trip();
    assert(readable(PacketKind::SetHumidifierNightlight, frame::finished(set_light.payload())));
    light.round_trip();
    assert(readable(PacketKind::NotifyHumidifierNightlight, frame::finished(light.payload())));
}

/// A model that is not known has no frames: whatever comes from it is passed on as the
/// bytes that came. So are bytes that are no frame of any kind.
pub proof fn what_is_not_understood_is_passed_on(
    sku: Seq<char>,
    data: Seq<u8>,
    packet: GoveeBlePacket,
)
    requires
        decoded_as(sku, data, packet),
        (sku != "H7160"@ && sku != "Generic:Light"@) || data.len() < 3 || (data[0] != 0x33
            && data[0] != 0xaa),
    ensures
        packet matches GoveeBlePacket::Generic(bytes) && bytes@ == data,
{
    assert forall|kind: PacketKind| sku_supports(sku, kind) implies !#[trigger] readable(
        kind,
        data,
    ) by {
        if readable(kind, data) {
            readable_header(kind, data);
        }
    }
}

/// A value is sent as frames exactly if it can be made into them, and then as those.
pub proof fn frames_or_an_error(
    sent: Result<Vec<u8>, EncodeError>,
    wire: Result<Seq<u8>, EncodeError>,
)
    requires
        is_wire(sent, wire),
    ensures
        sent is Ok <==> wire is Ok,
        sent is Ok ==> sent->Ok_0@ == wire->Ok_0,
        sent is Err ==> sent->Err_0 == wire->Err_0,
{
}

/// A colour frame, white among them, is never taken for a colour temperature.
pub proof fn a_colour_is_no_temperature(colour: SetDeviceColorRgb)
    ensures
        SetDeviceColorRgb::parsed(frame::finished(colour.payload())) == Some(colour),
        !readable(
            PacketKind::SetDeviceColorTemperature,
            frame::finished(colour.payload()),
        ),
{
    colour.round_trip();
    let data = frame::finished(colour.payload());
    if readable(PacketKind::SetDeviceColorTemperature, data) {
        at_most_one_reading(
            GENERIC_LIGHT@,
            data,
            PacketKind::SetDeviceColorRgb,
            PacketKind::SetDeviceColorTemperature,
        );
    }
}

proof fn command_header(data: Seq<u8>, prefix: Seq<u8>, n: nat)
    requires
        packets::command_fields(data, prefix, n) is Some,
        prefix.len() > 0,
    ensures
        data.len() >= prefix.len() + n + 1,
        forall|i: int| 0 <= i < prefix.len() ==> data[i] == #[trigger] prefix[i],
        forall|i: int| prefix.len() + n <= i < data.len() - 1 ==> #[trigger] data[i] == 0,
        forall|i: int|
            0 <= i < n ==> #[trigger] (packets::command_fields(data, prefix, n)->0)[i]
                == data[prefix.len() + i],
{
    let body = packets::without_checksum(data);
    let rest = body.skip(prefix.len() as int);
    assert forall|i: int| 0 <= i < prefix.len() implies data[i] == #[trigger] prefix[i] by {
        assert(prefix[i] == body.subrange(0, prefix.len() as int)[i]);
    }
    assert forall|i: int| prefix.len() + n <= i < data.len() - 1 implies #[trigger] data[i] == 0 by {
        let k = i - prefix.len() - n;
        assert(rest.skip(n as int)[k] == data[i]);
    }
}

proof fn notification_header(data: Seq<u8>, prefix: Seq<u8>)
    requires
        packets::notification_rest(data, prefix) is Some,
    ensures
        data.len() == 20,
        forall|i: int| 0 <= i < prefix.len() ==> data[i] == #[trigger] prefix[i],
{
    assert forall|i: int| 0 <= i < prefix.len() implies data[i] == #[trigger] prefix[i] by {
        assert(prefix[i] == data.subrange(0, prefix.len() as int)[i]);
    }
}

/// The bytes that tell the kinds apart.
pub proof fn readable_header(kind: PacketKind, data: Seq<u8>)
    requires
        readable(kind, data),
    ensures
        data.len() >= 3,
        match kind {
            PacketKind::SetHumidifierMode => data[0] == 0x33 && data[1] == 0x05,
            PacketKind::NotifyHumidifierMode => data[0] == 0xaa && data[1] == 0x05 && data[2]
                == 0x00 && data.len() >= 4,
            PacketKind::HumidifierAutoMode => data[0] == 0xaa && data[1] == 0x05 && data[2]
                == 0x03 && data.len() >= 4,
            PacketKind::NotifyHumidifierNightlight => data[0] == 0xaa && data[1] == 0x1b,
            PacketKind::SetHumidifierNightlight => data[0] == 0x33 && data[1] == 0x1b,
            PacketKind::SetSceneCode => false,
            PacketKind::SetDevicePower => data[0] == 0x33 && data[1] == 0x01,
            PacketKind::SetDeviceBrightness => data[0] == 0x33 && data[1] == 0x04,
            PacketKind::SetDeviceColorRgb => data.len() >= 7 && data[0] == 0x33 && data[1] == 0x05
                && data[2] == 0x0d && forall|i: int|
                6 <= i < data.len() - 1 ==> #[trigger] data[i] == 0,
            PacketKind::SetDeviceColorTemperature => data.len() >= 9 && data[0] == 0x33 && data[1]
                == 0x05 && data[2] == 0x0d && (data[6] != 0 || data[7] != 0),
            PacketKind::NotifyDevicePower => data[0] == 0xaa && data[1] == 0x01,
            PacketKind::NotifyDeviceBrightness => data[0] == 0xaa && data[1] == 0x04,
            PacketKind::NotifyDeviceColor => data[0] == 0xaa && data[1] == 0x05 && data[2] != 0x15,
            PacketKind::SetSegmentColorRgb => data.len() >= 5 && data[0] == 0x33 && data[1] == 0x05
                && data[2] == 0x15 && data[3] == 0x01,
            PacketKind::SetSegmentBrightness => data.len() >= 5 && data[0] == 0x33 && data[1]
                == 0x05 && data[2] == 0x15 && data[3] == 0x02,
            PacketKind::NotifySegmentColors => data[0] == 0xaa && data[1] == 0xa5,
            PacketKind::NotifySegmentMode => data[0] == 0xaa && data[1] == 0x05 && data[2] == 0x15,
        },
{
    match kind {
        PacketKind::SetHumidifierMode => command_header(data, seq![0x33u8, 0x05], 2),
        PacketKind::NotifyHumidifierMode => command_header(data, seq![0xaau8, 0x05, 0x00], 2),
        PacketKind::HumidifierAutoMode => command_header(data, seq![0xaau8, 0x05, 0x03], 1),
        PacketKind::NotifyHumidifierNightlight => command_header(data, seq![0xaau8, 0x1b], 5),
        PacketKind::SetHumidifierNightlight => command_header(data, seq![0x33u8, 0x1b], 5),
        PacketKind::SetSceneCode => {},
        PacketKind::SetDevicePower => command_header(data, seq![0x33u8, 0x01], 1),
        PacketKind::SetDeviceBrightness => command_header(data, seq![0x33u8, 0x04], 1),
        PacketKind::SetDeviceColorRgb => command_header(data, seq![0x33u8, 0x05, 0x0d], 3),
        PacketKind::SetDeviceColorTemperature => {
            let prefix = seq![0x33u8, 0x05, 0x0d, 0xff, 0xff, 0xff];
            command_header(data, prefix, 2);
            let f = packets::command_fields(data, prefix, 2)->0;
            assert(f[0] == data[6] && f[1] == data[7]);
        },
        PacketKind::NotifyDevicePower => notification_header(data, seq![0xaau8, 0x01]),
        PacketKind::NotifyDeviceBrightness => notification_header(data, seq![0xaau8, 0x04]),
        PacketKind::NotifyDeviceColor => {
            notification_header(data, seq![0xaau8, 0x05]);
            let f = packets::notification_rest(data, seq![0xaau8, 0x05])->0;
            assert(f[0] == data[2]);
        },
        PacketKind::SetSegmentColorRgb => command_header(data, seq![0x33u8, 0x05, 0x15, 0x01], 15),
        PacketKind::SetSegmentBrightness => command_header(data, seq![0x33u8, 0x05, 0x15, 0x02], 8),
        PacketKind::NotifySegmentColors => notification_header(data, seq![0xaau8, 0xa5]),
        PacketKind::NotifySegmentMode => notification_header(data, seq![0xaau8, 0x05, 0x15]),
    }
}

// ---------------------------------------------------------------------- encoding

/// Why a packet could not be encoded.
#[derive(Clone, Copy, Debug, PartialEq, Eq, Structural)]
pub enum EncodeError {
    /// The model has no such packet.
    NoCodec,
    /// The parameter of a scene is no base64 text.
    InvalidSceneParam,
}

/// A value that frames can be made of.
pub trait PacketBody: Sized {
    /// The kind of packet it is.
    spec fn kind() -> PacketKind;

    /// Its texts are short enough for this machine.
    spec fn within_limits(&self) -> bool;

    /// It fits into the frames that can be numbered.
    spec fn fits(&self) -> bool;

    /// Its frames.
    spec fn wire(&self) -> Result<Seq<u8>, EncodeError>;

    fn packet_kind() -> (r: PacketKind)
        ensures
            r == Self::kind(),
    ;

    fn check_fits(&self) -> (r: bool)
        requires
            self.within_limits(),
        ensures
            r == self.fits(),
    ;

    fn encode_packet(&self) -> (r: Result<Vec<u8>, EncodeError>)
        requires
            self.within_limits(),
            self.fits(),
        ensures
            is_wire(r, self.wire()),
    ;
}

/// Whether `r` holds the frames, or the error, that `wire` names.
pub open spec fn is_wire(
    r: Result<Vec<u8>, EncodeError>,
    wire: Result<Seq<u8>, EncodeError>,
) -> bool {
    match (r, wire) {
        (Ok(bytes), Ok(expected)) => bytes@ == expected,
        (Err(err), Err(expected)) => err == expected,
        _ => false,
    }
}

impl PacketBody for SetHumidifierMode {
    open spec fn kind() -> PacketKind {
        PacketKind::SetHumidifierMode
    }

    open spec fn within_limits(&self) -> bool {
        true
    }

    open spec fn fits(&self) -> bool {
        true
    }

    open spec fn wire(&self) -> Result<Seq<u8>, EncodeError> {
        Ok(frame::finished(self.payload()))
    }

    fn packet_kind() -> (r: PacketKind) {
        PacketKind::SetHumidifierMode
    }

    fn check_fits(&self) -> (r: bool) {
        true
    }

    fn encode_packet(&self) -> (r: Result<Vec<u8>, EncodeError>) {
        Ok(self.encode())
    }
}

impl PacketBody for NotifyHumidifierMode {
    open spec fn kind() -> PacketKind {
        PacketKind::NotifyHumidifierMode
    }

    open spec fn within_limits(&self) -> bool {
        true
    }

    open spec fn fits(&self) -> bool {
        true
    }

    open spec fn wire(&self) -> Result<Seq<u8>, EncodeError> {
        Ok(frame::finished(self.payload()))
    }

    fn packet_kind() -> (r: PacketKind) {
        PacketKind::NotifyHumidifierMode
    }

    fn check_fits(&self) -> (r: bool) {
        true
    }

    fn encode_packet(&self) -> (r: Result<Vec<u8>, EncodeError>) {
        Ok(self.encode())
    }
}

impl PacketBody for HumidifierAutoMode {
    open spec fn kind() -> PacketKind {
        PacketKind::HumidifierAutoMode
    }

    open spec fn within_limits(&self) -> bool {
        true
    }

    open spec fn fits(&self) -> bool {
        true
    }

    open spec fn wire(&self) -> Result<Seq<u8>, EncodeError> {
        Ok(frame::finished(self.payload()))
    }

    fn packet_kind() -> (r: PacketKind) {
        PacketKind::HumidifierAutoMode
    }

    fn check_fits(&self) -> (r: bool) {
        true
    }

    fn encode_packet(&self) -> (r: Result<Vec<u8>, EncodeError>) {
        Ok(self.encode())
    }
}

impl PacketBody for NotifyHumidifierNightlightParams {
    open spec fn kind() -> PacketKind {
        PacketKind::NotifyHumidifierNightlight
    }

    open spec fn within_limits(&self) -> bool {
        true
    }

    open spec fn fits(&self) -> bool {
        true
    }

    open spec fn wire(&self) -> Result<Seq<u8>, EncodeError> {
        Ok(frame::finished(self.payload()))
    }

    fn packet_kind() -> (r: PacketKind) {
        PacketKind::NotifyHumidifierNightlight
    }

    fn check_fits(&self) -> (r: bool) {
        true
    }

    fn encode_packet(&self) -> (r: Result<Vec<u8>, EncodeError>) {
        Ok(self.encode())
    }
}

impl PacketBody for SetHumidifierNightlightParams {
    open spec fn kind() -> PacketKind {
        PacketKind::SetHumidifierNightlight
    }

    open spec fn within_limits(&self) -> bool {
        true
    }

    open spec fn fits(&self) -> bool {
        true
    }

    open spec fn wire(&self) -> Result<Seq<u8>, EncodeError> {
        Ok(frame::finished(self.payload()))
    }

    fn packet_kind() -> (r: PacketKind) {
        PacketKind::SetHumidifierNightlight
    }

    fn check_fits(&self) -> (r: bool) {
        true
    }

    fn encode_packet(&self) -> (r: Result<Vec<u8>, EncodeError>) {
        Ok(self.encode())
    }
}

impl PacketBody for SetDevicePower {
    open spec fn kind() -> PacketKind {
        PacketKind::SetDevicePower
    }

    open spec fn within_limits(&self) -> bool {
        true
    }

    open spec fn fits(&self) -> bool {
        true
    }

    open spec fn wire(&self) -> Result<Seq<u8>, EncodeError> {
        Ok(frame::finished(self.payload()))
    }

    fn packet_kind() -> (r: PacketKind) {
        PacketKind::SetDevicePower
    }

    fn check_fits(&self) -> (r: bool) {
        true
    }

    fn encode_packet(&self) -> (r: Result<Vec<u8>, EncodeError>) {
        Ok(self.encode())
    }
}

impl PacketBody for SetDeviceBrightness {
    open spec fn kind() -> PacketKind {
        PacketKind::SetDeviceBrightness
    }

    open spec fn within_limits(&self) -> bool {
        true
    }

    open spec fn fits(&self) -> bool {
        true
    }

    open spec fn wire(&self) -> Result<Seq<u8>, EncodeError> {
        Ok(frame::finished(self.payload()))
    }

    fn packet_kind() -> (r: PacketKind) {
        PacketKind::SetDeviceBrightness
    }

    fn check_fits(&self) -> (r: bool) {
        true
    }

    fn encode_packet(&self) -> (r: Result<Vec<u8>, EncodeError>) {
        Ok(self.encode())
    }
}

impl PacketBody for SetDeviceColorRgb {
    open spec fn kind() -> PacketKind {
        PacketKind::SetDeviceColorRgb
    }

    open spec fn within_limits(&self) -> bool {
        true
    }

    open spec fn fits(&self) -> bool {
        true
    }

    open spec fn wire(&self) -> Result<Seq<u8>, EncodeError> {
        Ok(frame::finished(self.payload()))
    }

    fn packet_kind() -> (r: PacketKind) {
        PacketKind::SetDeviceColorRgb
    }

    fn check_fits(&self) -> (r: bool) {
        true
    }

    fn encode_packet(&self) -> (r: Result<Vec<u8>, EncodeError>) {
        Ok(self.encode())
    }
}

impl PacketBody for SetDeviceColorTemperature {
    open spec fn kind() -> PacketKind {
        PacketKind::SetDeviceColorTemperature
    }

    open spec fn within_limits(&self) -> bool {
        true
    }

    open spec fn fits(&self) -> bool {
        true
    }

    open spec fn wire(&self) -> Result<Seq<u8>, EncodeError> {
        Ok(frame::finished(self.payload()))
    }

    fn packet_kind() -> (r: PacketKind) {
        PacketKind::SetDeviceColorTemperature
    }

    fn check_fits(&self) -> (r: bool) {
        true
    }

    fn encode_packet(&self) -> (r: Result<Vec<u8>, EncodeError>) {
        Ok(self.encode())
    }
}

impl PacketBody for NotifyDevicePower {
    open spec fn kind() -> PacketKind {
        PacketKind::NotifyDevicePower
    }

    open spec fn within_limits(&self) -> bool {
        true
    }

    open spec fn fits(&self) -> bool {
        true
    }

    open spec fn wire(&self) -> Result<Seq<u8>, EncodeError> {
        Ok(frame::finished(self.payload()))
    }

    fn packet_kind() -> (r: PacketKind) {
        PacketKind::NotifyDevicePower
    }

    fn check_fits(&self) -> (r: bool) {
        true
    }

    fn encode_packet(&self) -> (r: Result<Vec<u8>, EncodeError>) {
        Ok(self.encode())
    }
}

impl PacketBody for NotifyDeviceBrightness {
    open spec fn kind() -> PacketKind {
        PacketKind::NotifyDeviceBrightness
    }

    open spec fn within_limits(&self) -> bool {
        true
    }

    open spec fn fits(&self) -> bool {
        true
    }

    open spec fn wire(&self) -> Result<Seq<u8>, EncodeError> {
        Ok(frame::finished(self.payload()))
    }

    fn packet_kind() -> (r: PacketKind) {
        PacketKind::NotifyDeviceBrightness
    }

    fn check_fits(&self) -> (r: bool) {
        true
    }

    fn encode_packet(&self) -> (r: Result<Vec<u8>, EncodeError>) {
        Ok(self.encode())
    }
}

impl PacketBody for NotifyDeviceColor {
    open spec fn kind() -> PacketKind {
        PacketKind::NotifyDeviceColor
    }

    open spec fn within_limits(&self) -> bool {
        true
    }

    open spec fn fits(&self) -> bool {
        true
    }

    open spec fn wire(&self) -> Result<Seq<u8>, EncodeError> {
        Ok(frame::finished(self.payload()))
    }

    fn packet_kind() -> (r: PacketKind) {
        PacketKind::NotifyDeviceColor
    }

    fn check_fits(&self) -> (r: bool) {
        true
    }

    fn encode_packet(&self) -> (r: Result<Vec<u8>, EncodeError>) {
        Ok(self.encode())
    }
}

impl PacketBody for SetSegmentColorRgb {
    open spec fn kind() -> PacketKind {
        PacketKind::SetSegmentColorRgb
    }

    open spec fn within_limits(&self) -> bool {
        true
    }

    open spec fn fits(&self) -> bool {
        true
    }

    open spec fn wire(&self) -> Result<Seq<u8>, EncodeError> {
        Ok(frame::finished(self.payload()))
    }

    fn packet_kind() -> (r: PacketKind) {
        PacketKind::SetSegmentColorRgb
    }

    fn check_fits(&self) -> (r: bool) {
        true
    }

    fn encode_packet(&self) -> (r: Result<Vec<u8>, EncodeError>) {
        Ok(self.encode())
    }
}

impl PacketBody for SetSegmentBrightness {
    open spec fn kind() -> PacketKind {
        PacketKind::SetSegmentBrightness
    }

    open spec fn within_limits(&self) -> bool {
        true
    }

    open spec fn fits(&self) -> bool {
        true
    }

    open spec fn wire(&self) -> Result<Seq<u8>, EncodeError> {
        Ok(frame::finished(self.payload()))
    }

    fn packet_kind() -> (r: PacketKind) {
        PacketKind::SetSegmentBrightness
    }

    fn check_fits(&self) -> (r: bool) {
        true
    }

    fn encode_packet(&self) -> (r: Result<Vec<u8>, EncodeError>) {
        Ok(self.encode())
    }
}

impl PacketBody for NotifySegmentColors {
    open spec fn kind() -> PacketKind {
        PacketKind::NotifySegmentColors
    }

    open spec fn within_limits(&self) -> bool {
        true
    }

    open spec fn fits(&self) -> bool {
        true
    }

    open spec fn wire(&self) -> Result<Seq<u8>, EncodeError> {
        Ok(frame::finished(self.payload()))
    }

    fn packet_kind() -> (r: PacketKind) {
        PacketKind::NotifySegmentColors
    }

    fn check_fits(&self) -> (r: bool) {
        true
    }

    fn encode_packet(&self) -> (r: Result<Vec<u8>, EncodeError>) {
        Ok(self.encode())
    }
}

impl PacketBody for NotifySegmentMode {
    open spec fn kind() -> PacketKind {
        PacketKind::NotifySegmentMode
    }

    open spec fn within_limits(&self) -> bool {
        true
    }

    open spec fn fits(&self) -> bool {
        true
    }

    open spec fn wire(&self) -> Result<Seq<u8>, EncodeError> {
        Ok(frame::finished(self.payload()))
    }

    fn packet_kind() -> (r: PacketKind) {
        PacketKind::NotifySegmentMode
    }

    fn check_fits(&self) -> (r: bool) {
        true
    }

    fn encode_packet(&self) -> (r: Result<Vec<u8>, EncodeError>) {
        Ok(self.encode())
    }
}

impl PacketBody for SetSceneCode {
    open spec fn kind() -> PacketKind {
        PacketKind::SetSceneCode
    }

    open spec fn within_limits(&self) -> bool {
        self.decodable()
    }

    open spec fn fits(&self) -> bool {
        self.data_fits()
    }

    open spec fn wire(&self) -> Result<Seq<u8>, EncodeError> {
        match base64::base64_data(self.scence_param@) {
            Some(data) => Ok(scene::scene_wire(self.code, data)),
            None => Err(EncodeError::InvalidSceneParam),
        }
    }

    fn packet_kind() -> (r: PacketKind) {
        PacketKind::SetSceneCode
    }

    fn check_fits(&self) -> (r: bool) {
        self.check_data_fits()
    }

    fn encode_packet(&self) -> (r: Result<Vec<u8>, EncodeError>) {
        match self.encode() {
            Ok(frames) => Ok(frames),
            Err(_) => Err(EncodeError::InvalidSceneParam),
        }
    }
}

// --------------------------------------------------------------------- the table

/// Whether a list of models holds `sku`.
pub open spec fn lists(skus: Seq<&'static str>, sku: Seq<char>) -> bool {
    exists|i: int| 0 <= i < skus.len() && (#[trigger] skus[i])@ == sku
}

/// One kind of packet, and the models that it is known for.
pub struct PacketCodec {
    supported_skus: Vec<&'static str>,
    kind: PacketKind,
}

impl PacketCodec {
    /// The models that this codec serves.
    pub closed spec fn serves(&self, sku: Seq<char>) -> bool {
        lists(self.supported_skus@, sku)
    }

    /// The kind of packet that this codec reads.
    pub closed spec fn reads(&self) -> PacketKind {
        self.kind
    }

    pub fn new(supported_skus: Vec<&'static str>, kind: PacketKind) -> (r: Self)
        ensures
            r.reads() == kind,
            forall|sku: Seq<char>| #[trigger]
                r.serves(sku) == lists(supported_skus@, sku),
    {
        PacketCodec { supported_skus, kind }
    }

    fn supports(&self, sku: &str) -> (r: bool)
        ensures
            r == self.serves(sku@),
    {
        for i in 0..self.supported_skus.len()
            invariant
                forall|j: int| 0 <= j < i ==> (#[trigger] self.supported_skus@[j])@ != sku@,
        {
            if str_eq(self.supported_skus[i], sku) {
                return true;
            }
        }
        false
    }

    /// Reads a frame of this codec's kind.
    pub fn decode(&self, data: &[u8]) -> (r: Option<GoveeBlePacket>)
        ensures
            match r {
                Some(packet) => reads_as(self.reads(), data@, packet) && packet !is Generic,
                None => !readable(self.reads(), data@),
            },
    {
        match self.kind {
            PacketKind::SetHumidifierMode => match SetHumidifierMode::decode(data) {
                Some(v) => Some(GoveeBlePacket::SetHumidifierMode(v)),
                None => None,
            },
            PacketKind::NotifyHumidifierMode => match NotifyHumidifierMode::decode(data) {
                Some(v) => Some(GoveeBlePacket::NotifyHumidifierMode(v)),
                None => None,
            },
            PacketKind::HumidifierAutoMode => match HumidifierAutoMode::decode(data) {
                Some(v) => Some(GoveeBlePacket::NotifyHumidifierAutoMode(v)),
                None => None,
            },
            PacketKind::NotifyHumidifierNightlight => match NotifyHumidifierNightlightParams::decode(data) {
                Some(v) => Some(GoveeBlePacket::NotifyHumidifierNightlight(v)),
                None => None,
            },
            PacketKind::SetHumidifierNightlight => match SetHumidifierNightlightParams::decode(data) {
                Some(v) => Some(GoveeBlePacket::SetHumidifierNightlight(v)),
                None => None,
            },
            PacketKind::SetSceneCode => None,
            PacketKind::SetDevicePower => match SetDevicePower::decode(data) {
                Some(v) => Some(GoveeBlePacket::SetDevicePower(v)),
                None => None,
            },
            PacketKind::SetDeviceBrightness => match SetDeviceBrightness::decode(data) {
                Some(v) => Some(GoveeBlePacket::SetDeviceBrightness(v)),
                None => None,
            },
            PacketKind::SetDeviceColorRgb => match SetDeviceColorRgb::decode(data) {
                Some(v) => Some(GoveeBlePacket::SetDeviceColorRgb(v)),
                None => None,
            },
            PacketKind::SetDeviceColorTemperature => match SetDeviceColorTemperature::decode(data) {
                Some(v) => Some(GoveeBlePacket::SetDeviceColorTemperature(v)),
                None => None,
            },
            PacketKind::NotifyDevicePower => match NotifyDevicePower::decode(data) {
                Some(v) => Some(GoveeBlePacket::NotifyDevicePower(v)),
                None => None,
            },
            PacketKind::NotifyDeviceBrightness => match NotifyDeviceBrightness::decode(data) {
                Some(v) => Some(GoveeBlePacket::NotifyDeviceBrightness(v)),
                None => None,
            },
            PacketKind::NotifyDeviceColor => match NotifyDeviceColor::decode(data) {
                Some(v) => Some(GoveeBlePacket::NotifyDeviceColor(v)),
                None => None,
            },
            PacketKind::SetSegmentColorRgb => match SetSegmentColorRgb::decode(data) {
                Some(v) => Some(GoveeBlePacket::SetSegmentColorRgb(v)),
                None => None,
            },
            PacketKind::SetSegmentBrightness => match SetSegmentBrightness::decode(data) {
                Some(v) => Some(GoveeBlePacket::SetSegmentBrightness(v)),
                None => None,
            },
            PacketKind::NotifySegmentColors => match NotifySegmentColors::decode(data) {
                Some(v) => Some(GoveeBlePacket::NotifySegmentColors(v)),
                None => None,
            },
            PacketKind::NotifySegmentMode => match NotifySegmentMode::decode(data) {
                Some(v) => Some(GoveeBlePacket::NotifySegmentMode(v)),
                None => None,
            },
        }
    }
}

/// The codecs of all models.
pub struct PacketManager {
    all_codecs: Vec<PacketCodec>,
}

impl PacketManager {
    #[verifier::type_invariant]
    spec fn well_formed(self) -> bool {
        &&& self.all_codecs@.len() == all_kinds().len()
        &&& forall|i: int|
            #![trigger self.all_codecs@[i]]
            0 <= i < self.all_codecs@.len() ==> {
                &&& self.all_codecs@[i].kind == all_kinds()[i]
                &&& forall|sku: Seq<char>| #[trigger]
                    self.all_codecs@[i].serves(sku) == sku_supports(sku, all_kinds()[i])
            }
    }

    /// The codecs, in the order in which they are tried.
    pub closed spec fn codecs(&self) -> Seq<PacketCodec> {
        self.all_codecs@
    }

    /// One codec for every kind of packet, each for the model that the kind is
    /// known for.
    pub fn new() -> (r: Self)
        ensures
            r.codecs().len() == all_kinds().len(),
            forall|i: int|
                0 <= i < all_kinds().len() ==> (#[trigger] r.codecs()[i]).reads() == all_kinds()[i],
            forall|i: int, sku: Seq<char>|
                0 <= i < all_kinds().len() ==> #[trigger] r.codecs()[i].serves(sku)
                    == sku_supports(sku, all_kinds()[i]),
    {
        let mut all_codecs: Vec<PacketCodec> = Vec::new();
        all_codecs.push(Self::codec(HUMIDIFIER, PacketKind::SetHumidifierMode));
        all_codecs.push(Self::codec(HUMIDIFIER, PacketKind::NotifyHumidifierMode));
        all_codecs.push(Self::codec(HUMIDIFIER, PacketKind::HumidifierAutoMode));
        all_codecs.push(Self::codec(HUMIDIFIER, PacketKind::NotifyHumidifierNightlight));
        all_codecs.push(Self::codec(HUMIDIFIER, PacketKind::SetHumidifierNightlight));
        all_codecs.push(Self::codec(GENERIC_LIGHT, PacketKind::SetSceneCode));
        all_codecs.push(Self::codec(GENERIC_LIGHT, PacketKind::SetDevicePower));
        all_codecs.push(Self::codec(GENERIC_LIGHT, PacketKind::SetDeviceBrightness));
        all_codecs.push(Self::codec(GENERIC_LIGHT, PacketKind::SetDeviceColorRgb));
        all_codecs.push(Self::codec(GENERIC_LIGHT, PacketKind::SetDeviceColorTemperature));
        all_codecs.push(Self::codec(GENERIC_LIGHT, PacketKind::NotifyDevicePower));
        all_codecs.push(Self::codec(GENERIC_LIGHT, PacketKind::NotifyDeviceBrightness));
        all_codecs.push(Self::codec(GENERIC_LIGHT, PacketKind::NotifyDeviceColor));
        all_codecs.push(Self::codec(GENERIC_LIGHT, PacketKind::SetSegmentColorRgb));
        all_codecs.push(Self::codec(GENERIC_LIGHT, PacketKind::SetSegmentBrightness));
        all_codecs.push(Self::codec(GENERIC_LIGHT, PacketKind::NotifySegmentColors));
        all_codecs.push(Self::codec(GENERIC_LIGHT, PacketKind::NotifySegmentMode));
        PacketManager { all_codecs }
    }

    fn codec(sku: &'static str, kind: PacketKind) -> (r: PacketCodec)
        ensures
            r.kind == kind,
            forall|other: Seq<char>| #[trigger] r.serves(other) == (other == sku@),
    {
        let skus: Vec<&'static str> = vec![sku];
        assert(skus@[0] == sku);
        PacketCodec::new(skus, kind)
    }

    /// Reads a frame of a model.
    pub fn decode_for_sku(&self, sku: &str, data: &[u8]) -> (r: GoveeBlePacket)
        ensures
            decoded_as(sku@, data@, r),
    {
        proof {
            use_type_invariant(self);
        }
        for i in 0..self.all_codecs.len()
            invariant
                self.well_formed(),
                forall|j: int|
                    0 <= j < i ==> !(sku_supports(sku@, #[trigger] all_kinds()[j]) && readable(
                        all_kinds()[j],
                        data@,
                    )),
        {
            assert(self.all_codecs@[i as int].serves(sku@) == sku_supports(sku@, all_kinds()[i as int]));
            if self.all_codecs[i].supports(sku) {
                if let Some(packet) = self.all_codecs[i].decode(data) {
                    proof {
                        let kind = all_kinds()[i as int];
                        reading_is_readable(kind, data@, packet);
                        assert forall|other: PacketKind|
                            sku_supports(sku@, other) && #[trigger] readable(
                                other,
                                data@,
                            ) implies reads_as(other, data@, packet) by {
                            at_most_one_reading(sku@, data@, kind, other);
                        }
                        assert(readable(kind, data@));
                    }
                    return packet;
                }
            }
        }
        proof {
            assert forall|kind: PacketKind| sku_supports(sku@, kind) implies !#[trigger] readable(
                kind,
                data@,
            ) by {
                every_kind_is_listed(kind);
            }
        }
        GoveeBlePacket::Generic(HexBytes(copy_bytes(data)))
    }

    /// The frames of `value`, for a model that has such packets.
    pub fn encode_for_sku<T: PacketBody>(&self, sku: &str, value: &T) -> (r: Result<
        Vec<u8>,
        EncodeError,
    >)
        requires
            value.within_limits(),
            value.fits(),
        ensures
            if sku_supports(sku@, T::kind()) {
                is_wire(r, value.wire())
            } else {
                r == Err::<Vec<u8>, EncodeError>(EncodeError::NoCodec)
            },
    {
        proof {
            use_type_invariant(self);
            every_kind_is_listed(T::kind());
        }
        let kind = T::packet_kind();
        for i in 0..self.all_codecs.len()
            invariant
                self.well_formed(),
                kind == T::kind(),
                value.within_limits(),
                value.fits(),
                forall|j: int| 0 <= j < i && all_kinds()[j] == kind ==> !#[trigger] sku_supports(sku@, all_kinds()[j]),
        {
            assert(self.all_codecs@[i as int].serves(sku@) == sku_supports(sku@, all_kinds()[i as int]));
            if self.all_codecs[i].kind == kind && self.all_codecs[i].supports(sku) {
                return value.encode_packet();
            }
        }
        assert(!sku_supports(sku@, kind));
        Err(EncodeError::NoCodec)
    }

    /// The frames of `value`; `None` where it does not fit into them.
    pub fn encode_for_sku_if_it_fits<T: PacketBody>(&self, sku: &str, value: &T) -> (r: Option<
        Result<Vec<u8>, EncodeError>,
    >)
        requires
            value.within_limits(),
        ensures
            match r {
                Some(encoded) => value.fits() && if sku_supports(sku@, T::kind()) {
                    is_wire(encoded, value.wire())
                } else {
                    encoded == Err::<Vec<u8>, EncodeError>(EncodeError::NoCodec)
                },
                None => !value.fits(),
            },
    {
        if value.check_fits() {
            Some(self.encode_for_sku(sku, value))
        } else {
            None
        }
    }
}

proof fn reading_is_readable(kind: PacketKind, data: Seq<u8>, packet: GoveeBlePacket)
    requires
        reads_as(kind, data, packet),
    ensures
        readable(kind, data),
{
}

proof fn every_kind_is_listed(kind: PacketKind)
    ensures
        exists|i: int| 0 <= i < all_kinds().len() && #[trigger] all_kinds()[i] == kind,
{
    match kind {
        PacketKind::SetHumidifierMode => { assert(all_kinds()[0] == kind); },
        PacketKind::NotifyHumidifierMode => { assert(all_kinds()[1] == kind); },
        PacketKind::HumidifierAutoMode => { assert(all_kinds()[2] == kind); },
        PacketKind::NotifyHumidifierNightlight => { assert(all_kinds()[3] == kind); },
        PacketKind::SetHumidifierNightlight => { assert(all_kinds()[4] == kind); },
        PacketKind::SetSceneCode => { assert(all_kinds()[5] == kind); },
        PacketKind::SetDevicePower => { assert(all_kinds()[6] == kind); },
        PacketKind::SetDeviceBrightness => { assert(all_kinds()[7] == kind); },
        PacketKind::SetDeviceColorRgb => { assert(all_kinds()[8] == kind); },
        PacketKind::SetDeviceColorTemperature => { assert(all_kinds()[9] == kind); },
        PacketKind::NotifyDevicePower => { assert(all_kinds()[10] == kind); },
        PacketKind::NotifyDeviceBrightness => { assert(all_kinds()[11] == kind); },
        PacketKind::NotifyDeviceColor => { assert(all_kinds()[12] == kind); },
        PacketKind::SetSegmentColorRgb => { assert(all_kinds()[13] == kind); },
        PacketKind::SetSegmentBrightness => { assert(all_kinds()[14] == kind); },
        PacketKind::NotifySegmentColors => { assert(all_kinds()[15] == kind); },
        PacketKind::NotifySegmentMode => { assert(all_kinds()[16] == kind); },
    }
}

pub(crate) fn copy_bytes(data: &[u8]) -> (r: Vec<u8>)
    ensures
        r@ == data@,
{
    let mut out: Vec<u8> = Vec::new();
    for i in 0..data.len()
        invariant
            out@ == data@.take(i as int),
    {
        out.push(data[i]);
        assert(data@.take(i + 1) =~= data@.take(i as int).push(data@[i as int]));
    }
    assert(data@.take(data@.len() as int) =~= data@);
    out
}

} // verus!
