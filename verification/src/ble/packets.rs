//! The packets, with their bytes and what they are read back from.
use vstd::prelude::*;
use vstd::slice::slice_subrange;

use crate::ble::frame;
use crate::ble::frame::{calculate_checksum, finish, is_all_zero, starts_with};
use crate::ble::params;
use crate::ble::params::{btoi, itob, DecodePacketParam, Kelvin, OptionalKelvin, TargetHumidity};

verus! {

// ------------------------------------------------------------- reading a frame

/// A frame without its last byte.
pub open spec fn without_checksum(data: Seq<u8>) -> Seq<u8> {
    if data.len() == 0 {
        data
    } else {
        data.drop_last()
    }
}

/// What follows `prefix` in a frame that need not be complete: all but the last
/// byte, which is not compared with anything.
pub open spec fn command_rest(data: Seq<u8>, prefix: Seq<u8>) -> Option<Seq<u8>> {
    if prefix.is_prefix_of(without_checksum(data)) {
        Some(without_checksum(data).skip(prefix.len() as int))
    } else {
        None
    }
}

/// The fields of a command: `n` bytes behind `prefix`, with nothing but zeroes
/// after them.
pub open spec fn command_fields(data: Seq<u8>, prefix: Seq<u8>, n: nat) -> Option<Seq<u8>> {
    match command_rest(data, prefix) {
        Some(rest) => if rest.len() >= n && frame::all_zero(rest.skip(n as int)) {
            Some(rest.take(n as int))
        } else {
            None
        },
        None => None,
    }
}

/// What follows `prefix` in a valid notification, up to the checksum.
pub open spec fn notification_rest(data: Seq<u8>, prefix: Seq<u8>) -> Option<Seq<u8>> {
    if frame::is_valid_frame(data) && prefix.is_prefix_of(data) {
        Some(data.subrange(prefix.len() as int, 19))
    } else {
        None
    }
}

pub fn command_body<'a>(data: &'a [u8], prefix: &[u8]) -> (r: Option<&'a [u8]>)
    ensures
        match r {
            Some(rest) => command_rest(data@, prefix@) == Some(rest@),
            None => command_rest(data@, prefix@) is None,
        },
{
    let len: usize = if data.len() == 0 {
        0
    } else {
        data.len() - 1
    };
    let body = slice_subrange(data, 0, len);
    assert(body@ =~= without_checksum(data@));
    if starts_with(body, prefix) {
        let rest = slice_subrange(body, prefix.len(), body.len());
        assert(rest@ =~= body@.skip(prefix@.len() as int));
        Some(rest)
    } else {
        None
    }
}

/// Checks that a command carries exactly `n` bytes of fields, and returns them.
pub fn command_field_bytes<'a>(data: &'a [u8], prefix: &[u8], n: usize) -> (r: Option<&'a [u8]>)
    ensures
        match r {
            Some(fields) => command_fields(data@, prefix@, n as nat) == Some(fields@) && fields@.len()
                == n,
            None => command_fields(data@, prefix@, n as nat) is None,
        },
{
    match command_body(data, prefix) {
        Some(rest) => {
            if rest.len() < n {
                return None;
            }
            let tail = slice_subrange(rest, n, rest.len());
            assert(tail@ =~= rest@.skip(n as int));
            if !is_all_zero(tail) {
                return None;
            }
            let fields = slice_subrange(rest, 0, n);
            assert(fields@ =~= rest@.take(n as int));
            Some(fields)
        },
        None => None,
    }
}

/// Validates a notification frame and returns the bytes that follow `prefix`,
/// without the trailing checksum.
pub fn notification_body<'a>(data: &'a [u8], prefix: &[u8]) -> (r: Option<&'a [u8]>)
    requires
        prefix@.len() <= 19,
    ensures
        match r {
            Some(rest) => notification_rest(data@, prefix@) == Some(rest@) && rest@.len() == 19
                - prefix@.len(),
            None => notification_rest(data@, prefix@) is None,
        },
{
    if data.len() != 20 {
        return None;
    }
    let payload = slice_subrange(data, 0, 19);
    assert(payload@ =~= data@.take(19));
    if data[19] != calculate_checksum(payload) {
        return None;
    }
    if !starts_with(data, prefix) {
        return None;
    }
    Some(slice_subrange(data, prefix.len(), 19))
}

// ------------------------------------------------- how frames are put together

/// A command's fields are read back from its finished frame.
pub proof fn command_fields_round_trip(prefix: Seq<u8>, fields: Seq<u8>)
    requires
        prefix.len() + fields.len() <= 19,
    ensures
        command_fields(frame::finished(prefix + fields), prefix, fields.len()) == Some(fields),
{
    let payload = prefix + fields;
    let frame = frame::finished(payload);
    let body = without_checksum(frame);
    assert(prefix =~= body.subrange(0, prefix.len() as int));
    let rest = body.skip(prefix.len() as int);
    assert(rest.take(fields.len() as int) =~= fields);
}

/// A notification's fields are read back from its finished frame.
pub proof fn notification_round_trip(prefix: Seq<u8>, fields: Seq<u8>)
    requires
        prefix.len() + fields.len() <= 19,
    ensures
        notification_rest(frame::finished(prefix + fields), prefix) is Some,
        fields.is_prefix_of(notification_rest(frame::finished(prefix + fields), prefix)->0),
        notification_rest(frame::finished(prefix + fields), prefix)->0.len() == 19 - prefix.len(),
{
    let payload = prefix + fields;
    let frame = frame::finished(payload);
    frame::finished_is_valid(payload);
    assert(prefix =~= frame.subrange(0, prefix.len() as int));
    let rest = frame.subrange(prefix.len() as int, 19);
    assert(fields =~= rest.subrange(0, fields.len() as int));
}

// -------------------------------------------------------------------- commands

#[derive(Clone, Copy, Debug, PartialEq, Eq, Structural)]
pub struct SetHumidifierMode {
    pub mode: u8,
    pub param: u8,
}

impl Default for SetHumidifierMode {
    fn default() -> (r: Self)
        ensures
            r == (SetHumidifierMode { mode: 0, param: 0 }),
    {
        SetHumidifierMode { mode: 0, param: 0 }
    }
}

impl SetHumidifierMode {
    /// `33 05 <mode> <param>`
    pub open spec fn payload(&self) -> Seq<u8> {
        seq![0x33u8, 0x05] + seq![self.mode, self.param]
    }

    /// What a frame of this kind says.
    pub open spec fn parsed(data: Seq<u8>) -> Option<Self> {
        match command_fields(data, seq![0x33u8, 0x05], 2) {
            Some(f) => Some(SetHumidifierMode { mode: f[0], param: f[1] }),
            None => None,
        }
    }

    pub fn encode(&self) -> (r: Vec<u8>)
        ensures
            r@ == frame::finished(self.payload()),
    {
        let mut bytes: Vec<u8> = vec![0x33, 0x05];
        self.mode.encode_param(&mut bytes);
        self.param.encode_param(&mut bytes);
        assert(bytes@ =~= self.payload());
        finish(bytes)
    }

    pub fn decode(data: &[u8]) -> (r: Option<Self>)
        ensures
            r == Self::parsed(data@),
    {
        let prefix: [u8; 2] = [0x33, 0x05];
        assert(prefix@ =~= seq![0x33u8, 0x05]);
        match command_field_bytes(data, &prefix, 2) {
            Some(f) => Some(SetHumidifierMode { mode: f[0], param: f[1] }),
            None => None,
        }
    }

    /// What was encoded is what is decoded.
    pub proof fn round_trip(&self)
        ensures
            Self::parsed(frame::finished(self.payload())) == Some(*self),
    {
        let f = seq![self.mode, self.param];
        command_fields_round_trip(seq![0x33u8, 0x05], f);
    }
}

#[derive(Clone, Copy, Debug, PartialEq, Eq, Structural)]
pub struct NotifyHumidifierMode {
    pub mode: u8,
    pub param: u8,
}

impl Default for NotifyHumidifierMode {
    fn default() -> (r: Self)
        ensures
            r == (NotifyHumidifierMode { mode: 0, param: 0 }),
    {
        NotifyHumidifierMode { mode: 0, param: 0 }
    }
}

impl NotifyHumidifierMode {
    /// `aa 05 00 <mode> <param>`
    pub open spec fn payload(&self) -> Seq<u8> {
        seq![0xaau8, 0x05, 0x00] + seq![self.mode, self.param]
    }

    /// What a frame of this kind says.
    pub open spec fn parsed(data: Seq<u8>) -> Option<Self> {
        match command_fields(data, seq![0xaau8, 0x05, 0x00], 2) {
            Some(f) => Some(NotifyHumidifierMode { mode: f[0], param: f[1] }),
            None => None,
        }
    }

    pub fn encode(&self) -> (r: Vec<u8>)
        ensures
            r@ == frame::finished(self.payload()),
    {
        let mut bytes: Vec<u8> = vec![0xaa, 0x05, 0x00];
        self.mode.encode_param(&mut bytes);
        self.param.encode_param(&mut bytes);
        assert(bytes@ =~= self.payload());
        finish(bytes)
    }

    pub fn decode(data: &[u8]) -> (r: Option<Self>)
        ensures
            r == Self::parsed(data@),
    {
        let prefix: [u8; 3] = [0xaa, 0x05, 0x00];
        assert(prefix@ =~= seq![0xaau8, 0x05, 0x00]);
        match command_field_bytes(data, &prefix, 2) {
            Some(f) => Some(NotifyHumidifierMode { mode: f[0], param: f[1] }),
            None => None,
        }
    }

    /// What was encoded is what is decoded.
    pub proof fn round_trip(&self)
        ensures
            Self::parsed(frame::finished(self.payload())) == Some(*self),
    {
        let f = seq![self.mode, self.param];
        command_fields_round_trip(seq![0xaau8, 0x05, 0x00], f);
    }
}

#[derive(Clone, Copy, Debug, PartialEq, Eq, Structural)]
pub struct HumidifierAutoMode {
    pub target_humidity: TargetHumidity,
}

impl Default for HumidifierAutoMode {
    fn default() -> (r: Self)
        ensures
            r == (HumidifierAutoMode { target_humidity: TargetHumidity(0) }),
    {
        HumidifierAutoMode { target_humidity: TargetHumidity(0) }
    }
}

impl HumidifierAutoMode {
    /// `aa 05 03 <target humidity>`
    pub open spec fn payload(&self) -> Seq<u8> {
        seq![0xaau8, 0x05, 0x03] + seq![self.target_humidity.0]
    }

    /// What a frame of this kind says.
    pub open spec fn parsed(data: Seq<u8>) -> Option<Self> {
        match command_fields(data, seq![0xaau8, 0x05, 0x03], 1) {
            Some(f) => Some(HumidifierAutoMode { target_humidity: TargetHumidity(f[0]) }),
            None => None,
        }
    }

    pub fn encode(&self) -> (r: Vec<u8>)
        ensures
            r@ == frame::finished(self.payload()),
    {
        let mut bytes: Vec<u8> = vec![0xaa, 0x05, 0x03];
        self.target_humidity.encode_param(&mut bytes);
        assert(bytes@ =~= self.payload());
        finish(bytes)
    }

    pub fn decode(data: &[u8]) -> (r: Option<Self>)
        ensures
            r == Self::parsed(data@),
    {
        let prefix: [u8; 3] = [0xaa, 0x05, 0x03];
        assert(prefix@ =~= seq![0xaau8, 0x05, 0x03]);
        match command_field_bytes(data, &prefix, 1) {
            Some(f) => Some(HumidifierAutoMode { target_humidity: TargetHumidity(f[0]) }),
            None => None,
        }
    }

    /// What was encoded is what is decoded.
    pub proof fn round_trip(&self)
        ensures
            Self::parsed(frame::finished(self.payload())) == Some(*self),
    {
        let f = seq![self.target_humidity.0];
        command_fields_round_trip(seq![0xaau8, 0x05, 0x03], f);
    }
}

#[derive(Clone, Copy, Debug, PartialEq, Eq, Structural)]
pub struct NotifyHumidifierNightlightParams {
    pub on: bool,
    pub r: u8,
    pub g: u8,
    pub b: u8,
    pub brightness: u8,
}

impl Default for NotifyHumidifierNightlightParams {
    fn default() -> (r: Self)
        ensures
            r == (NotifyHumidifierNightlightParams { on: false, r: 0, g: 0, b: 0, brightness: 0 }),
    {
        NotifyHumidifierNightlightParams { on: false, r: 0, g: 0, b: 0, brightness: 0 }
    }
}

impl NotifyHumidifierNightlightParams {
    /// `aa 1b <on> <brightness> <r> <g> <b>`
    pub open spec fn payload(&self) -> Seq<u8> {
        seq![0xaau8, 0x1b] + seq![params::on_byte(self.on), self.brightness, self.r, self.g, self.b]
    }

    /// What a frame of this kind says.
    pub open spec fn parsed(data: Seq<u8>) -> Option<Self> {
        match command_fields(data, seq![0xaau8, 0x1b], 5) {
            Some(f) => Some(NotifyHumidifierNightlightParams { on: f[0] != 0, brightness: f[1], r: f[2], g: f[3], b: f[4] }),
            None => None,
        }
    }

    pub fn encode(&self) -> (r: Vec<u8>)
        ensures
            r@ == frame::finished(self.payload()),
    {
        let mut bytes: Vec<u8> = vec![0xaa, 0x1b];
        self.on.encode_param(&mut bytes);
        self.brightness.encode_param(&mut bytes);
        self.r.encode_param(&mut bytes);
        self.g.encode_param(&mut bytes);
        self.b.encode_param(&mut bytes);
        assert(bytes@ =~= self.payload());
        finish(bytes)
    }

    pub fn decode(data: &[u8]) -> (r: Option<Self>)
        ensures
            r == Self::parsed(data@),
    {
        let prefix: [u8; 2] = [0xaa, 0x1b];
        assert(prefix@ =~= seq![0xaau8, 0x1b]);
        match command_field_bytes(data, &prefix, 5) {
            Some(f) => Some(NotifyHumidifierNightlightParams { on: itob(&f[0]), brightness: f[1], r: f[2], g: f[3], b: f[4] }),
            None => None,
        }
    }

    /// What was encoded is what is decoded.
    pub proof fn round_trip(&self)
        ensures
            Self::parsed(frame::finished(self.payload())) == Some(*self),
    {
        let f = seq![params::on_byte(self.on), self.brightness, self.r, self.g, self.b];
        command_fields_round_trip(seq![0xaau8, 0x1b], f);
    }
}

#[derive(Clone, Copy, Debug, PartialEq, Eq, Structural)]
pub struct SetHumidifierNightlightParams {
    pub on: bool,
    pub r: u8,
    pub g: u8,
    pub b: u8,
    pub brightness: u8,
}

impl Default for SetHumidifierNightlightParams {
    fn default() -> (r: Self)
        ensures
            r == (SetHumidifierNightlightParams { on: false, r: 0, g: 0, b: 0, brightness: 0 }),
    {
        SetHumidifierNightlightParams { on: false, r: 0, g: 0, b: 0, brightness: 0 }
    }
}

impl SetHumidifierNightlightParams {
    /// `33 1b <on> <brightness> <r> <g> <b>`
    pub open spec fn payload(&self) -> Seq<u8> {
        seq![0x33u8, 0x1b] + seq![params::on_byte(self.on), self.brightness, self.r, self.g, self.b]
    }

    /// What a frame of this kind says.
    pub open spec fn parsed(data: Seq<u8>) -> Option<Self> {
        match command_fields(data, seq![0x33u8, 0x1b], 5) {
            Some(f) => Some(SetHumidifierNightlightParams { on: f[0] != 0, brightness: f[1], r: f[2], g: f[3], b: f[4] }),
            None => None,
        }
    }

    pub fn encode(&self) -> (r: Vec<u8>)
        ensures
            r@ == frame::finished(self.payload()),
    {
        let mut bytes: Vec<u8> = vec![0x33, 0x1b];
        self.on.encode_param(&mut bytes);
        self.brightness.encode_param(&mut bytes);
        self.r.encode_param(&mut bytes);
        self.g.encode_param(&mut bytes);
        self.b.encode_param(&mut bytes);
        assert(bytes@ =~= self.payload());
        finish(bytes)
    }

    pub fn decode(data: &[u8]) -> (r: Option<Self>)
        ensures
            r == Self::parsed(data@),
    {
        let prefix: [u8; 2] = [0x33, 0x1b];
        assert(prefix@ =~= seq![0x33u8, 0x1b]);
        match command_field_bytes(data, &prefix, 5) {
            Some(f) => Some(SetHumidifierNightlightParams { on: itob(&f[0]), brightness: f[1], r: f[2], g: f[3], b: f[4] }),
            None => None,
        }
    }

    /// What was encoded is what is decoded.
    pub proof fn round_trip(&self)
        ensures
            Self::parsed(frame::finished(self.payload())) == Some(*self),
    {
        let f = seq![params::on_byte(self.on), self.brightness, self.r, self.g, self.b];
        command_fields_round_trip(seq![0x33u8, 0x1b], f);
    }
}

impl From<NotifyHumidifierNightlightParams> for SetHumidifierNightlightParams {
    fn from(val: NotifyHumidifierNightlightParams) -> (r: Self) {
        SetHumidifierNightlightParams {
            on: val.on,
            r: val.r,
            g: val.g,
            b: val.b,
            brightness: val.brightness,
        }
    }
}

impl vstd::std_specs::convert::FromSpecImpl<NotifyHumidifierNightlightParams>
    for SetHumidifierNightlightParams {
    open spec fn obeys_from_spec() -> bool {
        true
    }

    open spec fn from_spec(val: NotifyHumidifierNightlightParams) -> Self {
        SetHumidifierNightlightParams {
            on: val.on,
            r: val.r,
            g: val.g,
            b: val.b,
            brightness: val.brightness,
        }
    }
}

#[derive(Clone, Copy, Debug, PartialEq, Eq, Structural)]
pub struct SetDevicePower {
    pub on: bool,
}

impl Default for SetDevicePower {
    fn default() -> (r: Self)
        ensures
            r == (SetDevicePower { on: false }),
    {
        SetDevicePower { on: false }
    }
}

impl SetDevicePower {
    /// `33 01 <on>`
    pub open spec fn payload(&self) -> Seq<u8> {
        seq![0x33u8, 0x01] + seq![params::on_byte(self.on)]
    }

    /// What a frame of this kind says.
    pub open spec fn parsed(data: Seq<u8>) -> Option<Self> {
        match command_fields(data, seq![0x33u8, 0x01], 1) {
            Some(f) => Some(SetDevicePower { on: f[0] != 0 }),
            None => None,
        }
    }

    pub fn encode(&self) -> (r: Vec<u8>)
        ensures
            r@ == frame::finished(self.payload()),
    {
        let mut bytes: Vec<u8> = vec![0x33, 0x01];
        self.on.encode_param(&mut bytes);
        assert(bytes@ =~= self.payload());
        finish(bytes)
    }

    pub fn decode(data: &[u8]) -> (r: Option<Self>)
        ensures
            r == Self::parsed(data@),
    {
        let prefix: [u8; 2] = [0x33, 0x01];
        assert(prefix@ =~= seq![0x33u8, 0x01]);
        match command_field_bytes(data, &prefix, 1) {
            Some(f) => Some(SetDevicePower { on: itob(&f[0]) }),
            None => None,
        }
    }

    /// What was encoded is what is decoded.
    pub proof fn round_trip(&self)
        ensures
            Self::parsed(frame::finished(self.payload())) == Some(*self),
    {
        let f = seq![params::on_byte(self.on)];
        command_fields_round_trip(seq![0x33u8, 0x01], f);
    }
}

/// Brightness as a percentage. The device takes 0x00-0x64 for 0-100%.
///
/// Note that 0 switches the light off rather than dimming it, so callers that
/// mean "as dim as possible" must send 1.
#[derive(Clone, Copy, Debug, PartialEq, Eq, Structural)]
pub struct SetDeviceBrightness {
    pub percent: u8,
}

impl Default for SetDeviceBrightness {
    fn default() -> (r: Self)
        ensures
            r == (SetDeviceBrightness { percent: 0 }),
    {
        SetDeviceBrightness { percent: 0 }
    }
}

impl SetDeviceBrightness {
    /// `33 04 <percent>`
    pub open spec fn payload(&self) -> Seq<u8> {
        seq![0x33u8, 0x04] + seq![self.percent]
    }

    /// What a frame of this kind says.
    pub open spec fn parsed(data: Seq<u8>) -> Option<Self> {
        match command_fields(data, seq![0x33u8, 0x04], 1) {
            Some(f) => Some(SetDeviceBrightness { percent: f[0] }),
            None => None,
        }
    }

    pub fn encode(&self) -> (r: Vec<u8>)
        ensures
            r@ == frame::finished(self.payload()),
    {
        let mut bytes: Vec<u8> = vec![0x33, 0x04];
        self.percent.encode_param(&mut bytes);
        assert(bytes@ =~= self.payload());
        finish(bytes)
    }

    pub fn decode(data: &[u8]) -> (r: Option<Self>)
        ensures
            r == Self::parsed(data@),
    {
        let prefix: [u8; 2] = [0x33, 0x04];
        assert(prefix@ =~= seq![0x33u8, 0x04]);
        match command_field_bytes(data, &prefix, 1) {
            Some(f) => Some(SetDeviceBrightness { percent: f[0] }),
            None => None,
        }
    }

    /// What was encoded is what is decoded.
    pub proof fn round_trip(&self)
        ensures
            Self::parsed(frame::finished(self.payload())) == Some(*self),
    {
        let f = seq![self.percent];
        command_fields_round_trip(seq![0x33u8, 0x04], f);
    }
}

#[derive(Clone, Copy, Debug, PartialEq, Eq, Structural)]
pub struct SetDeviceColorRgb {
    pub r: u8,
    pub g: u8,
    pub b: u8,
}

impl Default for SetDeviceColorRgb {
    fn default() -> (r: Self)
        ensures
            r == (SetDeviceColorRgb { r: 0, g: 0, b: 0 }),
    {
        SetDeviceColorRgb { r: 0, g: 0, b: 0 }
    }
}

impl SetDeviceColorRgb {
    /// `33 05 0d <r> <g> <b>`
    pub open spec fn payload(&self) -> Seq<u8> {
        seq![0x33u8, 0x05, 0x0d] + seq![self.r, self.g, self.b]
    }

    /// What a frame of this kind says.
    pub open spec fn parsed(data: Seq<u8>) -> Option<Self> {
        match command_fields(data, seq![0x33u8, 0x05, 0x0d], 3) {
            Some(f) => Some(SetDeviceColorRgb { r: f[0], g: f[1], b: f[2] }),
            None => None,
        }
    }

    pub fn encode(&self) -> (r: Vec<u8>)
        ensures
            r@ == frame::finished(self.payload()),
    {
        let mut bytes: Vec<u8> = vec![0x33, 0x05, 0x0d];
        self.r.encode_param(&mut bytes);
        self.g.encode_param(&mut bytes);
        self.b.encode_param(&mut bytes);
        assert(bytes@ =~= self.payload());
        finish(bytes)
    }

    pub fn decode(data: &[u8]) -> (r: Option<Self>)
        ensures
            r == Self::parsed(data@),
    {
        let prefix: [u8; 3] = [0x33, 0x05, 0x0d];
        assert(prefix@ =~= seq![0x33u8, 0x05, 0x0d]);
        match command_field_bytes(data, &prefix, 3) {
            Some(f) => Some(SetDeviceColorRgb { r: f[0], g: f[1], b: f[2] }),
            None => None,
        }
    }

    /// What was encoded is what is decoded.
    pub proof fn round_trip(&self)
        ensures
            Self::parsed(frame::finished(self.payload())) == Some(*self),
    {
        let f = seq![self.r, self.g, self.b];
        command_fields_round_trip(seq![0x33u8, 0x05, 0x0d], f);
    }
}

#[derive(Clone, Copy, Debug, PartialEq, Eq, Structural)]
pub struct SetDeviceColorTemperature {
    pub kelvin: Kelvin,
}

impl Default for SetDeviceColorTemperature {
    fn default() -> (r: Self)
        ensures
            r.kelvin@ == 0,
    {
        SetDeviceColorTemperature { kelvin: Kelvin::default() }
    }
}

/// Colour temperature reuses the colour opcode with the RGB field pinned to
/// `ff ff ff` as a "white mode" marker.
impl SetDeviceColorTemperature {
    /// `33 05 0d ff ff ff <kelvin, big-endian>`
    pub open spec fn payload(&self) -> Seq<u8> {
        seq![0x33u8, 0x05, 0x0d, 0xff, 0xff, 0xff] + seq![
            params::low_high(self.kelvin@).1,
            params::low_high(self.kelvin@).0,
        ]
    }

    /// What a frame of this kind says; 0 K is refused.
    pub open spec fn parsed(data: Seq<u8>) -> Option<Self> {
        match command_fields(data, seq![0x33u8, 0x05, 0x0d, 0xff, 0xff, 0xff], 2) {
            Some(f) => if params::big_endian(f[0], f[1]) != 0 {
                Some(SetDeviceColorTemperature { kelvin: Kelvin::of(params::big_endian(f[0], f[1])) })
            } else {
                None
            },
            None => None,
        }
    }

    pub fn encode(&self) -> (r: Vec<u8>)
        ensures
            r@ == frame::finished(self.payload()),
    {
        let mut bytes: Vec<u8> = vec![0x33, 0x05, 0x0d, 0xff, 0xff, 0xff];
        self.kelvin.encode_param(&mut bytes);
        assert(bytes@ =~= self.payload());
        finish(bytes)
    }

    pub fn decode(data: &[u8]) -> (r: Option<Self>)
        ensures
            r == Self::parsed(data@),
    {
        let prefix: [u8; 6] = [0x33, 0x05, 0x0d, 0xff, 0xff, 0xff];
        assert(prefix@ =~= seq![0x33u8, 0x05, 0x0d, 0xff, 0xff, 0xff]);
        match command_field_bytes(data, &prefix, 2) {
            Some(f) => {
                let mut kelvin = Kelvin::default();
                match kelvin.decode_param(f) {
                    Ok(_) => Some(SetDeviceColorTemperature { kelvin }),
                    Err(_) => None,
                }
            },
            None => None,
        }
    }

    /// What was encoded is what is decoded, for every temperature but 0 K.
    pub proof fn round_trip(&self)
        requires
            self.kelvin@ != 0,
        ensures
            Self::parsed(frame::finished(self.payload())) == Some(*self),
    {
        broadcast use Kelvin::is_of_its_number;

        let f = seq![params::low_high(self.kelvin@).1, params::low_high(self.kelvin@).0];
        command_fields_round_trip(seq![0x33u8, 0x05, 0x0d, 0xff, 0xff, 0xff], f);
        assert(params::big_endian(f[0], f[1]) == self.kelvin@);
    }
}

// --------------------------------------------------------------- notifications
//
// A notification may carry anything behind its fields: only the frames that are
// generated here are known to be padded with zeroes.

#[derive(Clone, Copy, Default, Debug, PartialEq, Eq, Structural)]
pub struct NotifyDevicePower {
    pub on: bool,
}

impl NotifyDevicePower {
    /// `aa 01 <on>`
    pub open spec fn payload(&self) -> Seq<u8> {
        seq![0xaau8, 0x01] + seq![params::on_byte(self.on)]
    }

    pub open spec fn parsed(data: Seq<u8>) -> Option<Self> {
        match notification_rest(data, seq![0xaau8, 0x01]) {
            Some(f) => Some(NotifyDevicePower { on: f[0] != 0 }),
            None => None,
        }
    }

    pub fn encode(&self) -> (r: Vec<u8>)
        ensures
            r@ == frame::finished(self.payload()),
    {
        let bytes: Vec<u8> = vec![0xaa, 0x01, btoi(self.on)];
        assert(bytes@ =~= self.payload());
        finish(bytes)
    }

    pub fn decode(data: &[u8]) -> (r: Option<Self>)
        ensures
            r == Self::parsed(data@),
    {
        let prefix: [u8; 2] = [0xaa, 0x01];
        assert(prefix@ =~= seq![0xaau8, 0x01]);
        match notification_body(data, &prefix) {
            Some(f) => Some(NotifyDevicePower { on: itob(&f[0]) }),
            None => None,
        }
    }

    /// What was encoded is what is decoded.
    pub proof fn round_trip(&self)
        ensures
            Self::parsed(frame::finished(self.payload())) == Some(*self),
    {
        notification_round_trip(seq![0xaau8, 0x01], seq![params::on_byte(self.on)]);
    }
}

#[derive(Clone, Copy, Default, Debug, PartialEq, Eq, Structural)]
pub struct NotifyDeviceBrightness {
    pub percent: u8,
}

impl NotifyDeviceBrightness {
    /// `aa 04 <percent>`
    pub open spec fn payload(&self) -> Seq<u8> {
        seq![0xaau8, 0x04] + seq![self.percent]
    }

    pub open spec fn parsed(data: Seq<u8>) -> Option<Self> {
        match notification_rest(data, seq![0xaau8, 0x04]) {
            Some(f) => Some(NotifyDeviceBrightness { percent: f[0] }),
            None => None,
        }
    }

    pub fn encode(&self) -> (r: Vec<u8>)
        ensures
            r@ == frame::finished(self.payload()),
    {
        let bytes: Vec<u8> = vec![0xaa, 0x04, self.percent];
        assert(bytes@ =~= self.payload());
        finish(bytes)
    }

    pub fn decode(data: &[u8]) -> (r: Option<Self>)
        ensures
            r == Self::parsed(data@),
    {
        let prefix: [u8; 2] = [0xaa, 0x04];
        assert(prefix@ =~= seq![0xaau8, 0x04]);
        match notification_body(data, &prefix) {
            Some(f) => Some(NotifyDeviceBrightness { percent: f[0] }),
            None => None,
        }
    }

    /// What was encoded is what is decoded.
    pub proof fn round_trip(&self)
        ensures
            Self::parsed(frame::finished(self.payload())) == Some(*self),
    {
        notification_round_trip(seq![0xaau8, 0x04], seq![self.percent]);
    }
}

/// The mode byte by which a device names itself as segmented. A frame that
/// carries it fits the colour layout, but holds no colour.
pub const SEGMENT_MODE: u8 = 0x15;

/// Reply to a colour query.
///
/// `kelvin` decides how to read this: a non-zero value means the device is in
/// colour temperature mode and the RGB fields are only its rendering of that
/// white point; zero means the RGB fields are the actual colour.
#[derive(Clone, Copy, Default, Debug, PartialEq, Eq, Structural)]
pub struct NotifyDeviceColor {
    /// Purpose not yet understood; queries send 0x01 here and devices echo
    /// varying values back. Preserved so we can learn from real traffic.
    pub mode: u8,
    pub r: u8,
    pub g: u8,
    pub b: u8,
    pub kelvin: OptionalKelvin,
}

impl NotifyDeviceColor {
    /// `aa 05 <mode> <r> <g> <b> <kelvin, big-endian>`
    pub open spec fn payload(&self) -> Seq<u8> {
        seq![0xaau8, 0x05] + seq![
            self.mode,
            self.r,
            self.g,
            self.b,
            params::low_high(self.kelvin.0).1,
            params::low_high(self.kelvin.0).0,
        ]
    }

    /// What a frame of this kind says. The mode of a segmented device is refused.
    pub open spec fn parsed(data: Seq<u8>) -> Option<Self> {
        match notification_rest(data, seq![0xaau8, 0x05]) {
            Some(f) => if f[0] == SEGMENT_MODE {
                None
            } else {
                Some(
                    NotifyDeviceColor {
                        mode: f[0],
                        r: f[1],
                        g: f[2],
                        b: f[3],
                        kelvin: OptionalKelvin(params::big_endian(f[4], f[5])),
                    },
                )
            },
            None => None,
        }
    }

    pub fn encode(&self) -> (r: Vec<u8>)
        ensures
            r@ == frame::finished(self.payload()),
    {
        let bytes: Vec<u8> = vec![
            0xaa,
            0x05,
            self.mode,
            self.r,
            self.g,
            self.b,
            (self.kelvin.0 / 256) as u8,
            (self.kelvin.0 % 256) as u8,
        ];
        assert(bytes@ =~= self.payload());
        finish(bytes)
    }

    pub fn decode(data: &[u8]) -> (r: Option<Self>)
        ensures
            r == Self::parsed(data@),
    {
        let prefix: [u8; 2] = [0xaa, 0x05];
        assert(prefix@ =~= seq![0xaau8, 0x05]);
        match notification_body(data, &prefix) {
            Some(f) => {
                if f[0] == SEGMENT_MODE {
                    return None;
                }
                Some(
                    NotifyDeviceColor {
                        mode: f[0],
                        r: f[1],
                        g: f[2],
                        b: f[3],
                        kelvin: OptionalKelvin(256 * (f[4] as u16) + (f[5] as u16)),
                    },
                )
            },
            None => None,
        }
    }

    /// What was encoded is what is decoded, but for the mode of a segmented device.
    pub proof fn round_trip(&self)
        requires
            self.mode != SEGMENT_MODE,
        ensures
            Self::parsed(frame::finished(self.payload())) == Some(*self),
    {
        let f = seq![
            self.mode,
            self.r,
            self.g,
            self.b,
            params::low_high(self.kelvin.0).1,
            params::low_high(self.kelvin.0).0,
        ];
        notification_round_trip(seq![0xaau8, 0x05], f);
        let rest = notification_rest(frame::finished(self.payload()), seq![0xaau8, 0x05])->0;
        assert(forall|i: int| 0 <= i < 6 ==> f[i] == rest.subrange(0, 6)[i]);
        assert(rest[0] == f[0] && rest[1] == f[1] && rest[2] == f[2] && rest[3] == f[3]);
        assert(rest[4] == f[4] && rest[5] == f[5]);
        assert(params::big_endian(f[4], f[5]) == self.kelvin.0);
    }
}

} // verus!
