//! Transport-agnostic device operations.
//!
//! A [`DeviceOp`] describes *what* should happen, and each transport decides
//! *how*: whether it carries the operation for a device, and what it sends. The
//! router tries the transports in order of priority.
use vstd::prelude::*;

use crate::temperature::TemperatureValue;
use crate::text;
use crate::text::append_signed;

pub mod ble;
pub mod iot;
pub mod lan;
pub mod nightlight;
pub mod platform;
pub mod router;

pub use router::{execute_op, execute_ops, Router};

verus! {

/// Identifies a transport. The ordering of the variants is not meaningful;
/// priority is decided per operation by [`DeviceOp::default_transport_order`]
/// and may be overridden by configuration.
#[derive(Clone, Copy, Debug, PartialEq, Eq, Hash, Structural)]
pub enum TransportId {
    /// Bluetooth LE, executed by the companion Home Assistant component.
    Ble,
    /// The nightlight sub-device of a humidifier, addressed via IoT `ptReal`.
    Nightlight,
    /// Govee's LAN UDP protocol.
    Lan,
    /// Govee's undocumented AWS IoT MQTT API.
    Iot,
    /// Govee's official Platform HTTP API.
    Platform,
}

impl TransportId {
    pub open spec fn label_text(&self) -> Seq<char> {
        match self {
            TransportId::Ble => "BLE"@,
            TransportId::Nightlight => "Nightlight"@,
            TransportId::Lan => "LAN API"@,
            TransportId::Iot => "IoT API"@,
            TransportId::Platform => "Platform API"@,
        }
    }

    /// How the transport is named in messages.
    pub fn label(&self) -> (r: &'static str)
        ensures
            r@ == self.label_text(),
    {
        match self {
            TransportId::Ble => "BLE",
            TransportId::Nightlight => "Nightlight",
            TransportId::Lan => "LAN API",
            TransportId::Iot => "IoT API",
            TransportId::Platform => "Platform API",
        }
    }

    /// Whether an error should fall through to the next transport rather than
    /// aborting. A failing LAN or cloud command surfaces as an error instead of
    /// silently taking a slower path; falling back to the cloud is exactly what
    /// we want when a radio link fails.
    pub fn fallback_on_error(&self) -> (r: bool)
        ensures
            r == router::moves_on(*self, router::Attempt::Failed),
            r == (*self == TransportId::Ble),
    {
        match self {
            TransportId::Ble => true,
            _ => false,
        }
    }
}

/// The transport options of the command line.
#[derive(Clone, Debug)]
pub struct TransportArguments {
    /// Acts as a priority prefix: the transports named here are tried first, in
    /// the order given, followed by whatever else the operation allows. It can
    /// reorder preferences but never enables a transport an operation does not
    /// support.
    pub transport_order: Vec<TransportId>,
}

impl Default for TransportArguments {
    fn default() -> (r: Self)
        ensures
            r.transport_order@.len() == 0,
    {
        TransportArguments { transport_order: Vec::new() }
    }
}

impl TransportArguments {
    /// Whether this is the prefix that was given, if any was.
    pub open spec fn gives(self, prefix: Option<Vec<TransportId>>) -> bool {
        match prefix {
            Some(order) => order@ == self.transport_order@ && order@.len() > 0,
            None => self.transport_order@.len() == 0,
        }
    }

    /// A prefix that names a transport is taken as it stands; one that names none
    /// overrides nothing.
    pub proof fn a_prefix_is_taken_as_it_stands(self, prefix: Option<Vec<TransportId>>, i: int)
        requires
            self.gives(prefix),
        ensures
            prefix is Some <==> self.transport_order@.len() > 0,
            prefix is Some && 0 <= i < self.transport_order@.len() ==> prefix->0@[i]
                == self.transport_order@[i],
            prefix is Some ==> prefix->0@.len() == self.transport_order@.len(),
    {
    }

    /// The prefix, where one was given.
    pub fn order(self) -> (r: Option<Vec<TransportId>>)
        ensures
            self.gives(r),
            r == (if self.transport_order@.len() == 0 {
                None
            } else {
                Some(self.transport_order)
            }),
    {
        if self.transport_order.len() == 0 {
            None
        } else {
            Some(self.transport_order)
        }
    }
}

/// A single, transport-agnostic thing to do to a device.
#[derive(Debug, PartialEq, Eq)]
pub enum DeviceOp {
    /// Turn the whole device on or off.
    PowerOn(bool),
    /// Turn only the light portion of a device on or off.
    LightPowerOn(bool),
    SetBrightness(u8),
    SetColorRgb { r: u8, g: u8, b: u8 },
    SetColorTemperature(u32),
    SetScene(String),
    SetHumidifierParameter { work_mode: i64, value: i64 },
    SetTargetTemperature { instance: String, target: TemperatureValue },
}

impl Clone for DeviceOp {
    fn clone(&self) -> (r: Self)
        ensures
            r == *self,
    {
        match self {
            DeviceOp::PowerOn(on) => DeviceOp::PowerOn(*on),
            DeviceOp::LightPowerOn(on) => DeviceOp::LightPowerOn(*on),
            DeviceOp::SetBrightness(percent) => DeviceOp::SetBrightness(*percent),
            DeviceOp::SetColorRgb { r, g, b } => DeviceOp::SetColorRgb { r: *r, g: *g, b: *b },
            DeviceOp::SetColorTemperature(kelvin) => DeviceOp::SetColorTemperature(*kelvin),
            DeviceOp::SetScene(scene) => DeviceOp::SetScene(scene.clone()),
            DeviceOp::SetHumidifierParameter { work_mode, value } => {
                DeviceOp::SetHumidifierParameter { work_mode: *work_mode, value: *value }
            },
            DeviceOp::SetTargetTemperature { instance, target } => {
                DeviceOp::SetTargetTemperature { instance: instance.clone(), target: *target }
            },
        }
    }
}

impl DeviceOp {
    /// The transports that can carry the operation, in the order in which they
    /// are tried. Scenes prefer the Platform API because the LAN encoding is
    /// separate.
    pub open spec fn default_order(&self) -> Seq<TransportId> {
        match self {
            DeviceOp::PowerOn(_) | DeviceOp::SetColorTemperature(_) => seq![
                TransportId::Ble,
                TransportId::Lan,
                TransportId::Iot,
                TransportId::Platform,
            ],
            DeviceOp::LightPowerOn(_)
            | DeviceOp::SetBrightness(_)
            | DeviceOp::SetColorRgb { .. } => seq![
                TransportId::Nightlight,
                TransportId::Ble,
                TransportId::Lan,
                TransportId::Iot,
                TransportId::Platform,
            ],
            DeviceOp::SetScene(_) => seq![
                TransportId::Ble,
                TransportId::Platform,
                TransportId::Lan,
            ],
            DeviceOp::SetHumidifierParameter { .. } => seq![
                TransportId::Iot,
                TransportId::Platform,
            ],
            DeviceOp::SetTargetTemperature { .. } => seq![TransportId::Platform],
        }
    }

    pub fn default_transport_order(&self) -> (r: Vec<TransportId>)
        ensures
            r@ == self.default_order(),
    {
        let order: Vec<TransportId> = match self {
            DeviceOp::PowerOn(_) | DeviceOp::SetColorTemperature(_) => vec![
                TransportId::Ble,
                TransportId::Lan,
                TransportId::Iot,
                TransportId::Platform,
            ],
            DeviceOp::LightPowerOn(_)
            | DeviceOp::SetBrightness(_)
            | DeviceOp::SetColorRgb { .. } => vec![
                TransportId::Nightlight,
                TransportId::Ble,
                TransportId::Lan,
                TransportId::Iot,
                TransportId::Platform,
            ],
            DeviceOp::SetScene(_) => vec![
                TransportId::Ble,
                TransportId::Platform,
                TransportId::Lan,
            ],
            DeviceOp::SetHumidifierParameter { .. } => vec![
                TransportId::Iot,
                TransportId::Platform,
            ],
            DeviceOp::SetTargetTemperature { .. } => vec![TransportId::Platform],
        };
        assert(order@ =~= self.default_order());
        order
    }

    pub open spec fn description(&self) -> Seq<char> {
        match self {
            DeviceOp::PowerOn(_) => "control power state"@,
            DeviceOp::LightPowerOn(_) => "control light power state"@,
            DeviceOp::SetBrightness(_) => "control brightness"@,
            DeviceOp::SetColorRgb { .. } => "control color"@,
            DeviceOp::SetColorTemperature(_) => "control color temperature"@,
            DeviceOp::SetScene(_) => "set scene"@,
            DeviceOp::SetHumidifierParameter { work_mode, .. } => {
                "control humidifier parameter work_mode="@ + text::signed_decimal(*work_mode as int)
            },
            DeviceOp::SetTargetTemperature { .. } => "set temperature"@,
        }
    }

    /// Every operation has a phrase of its own, whatever it carries; that of a
    /// humidifier says its mode.
    pub proof fn operations_are_told_apart(&self, other: DeviceOp)
        ensures
            self.description() == other.description() <==> {
                ||| self is PowerOn && other is PowerOn
                ||| self is LightPowerOn && other is LightPowerOn
                ||| self is SetBrightness && other is SetBrightness
                ||| self is SetColorRgb && other is SetColorRgb
                ||| self is SetColorTemperature && other is SetColorTemperature
                ||| self is SetScene && other is SetScene
                ||| self is SetTargetTemperature && other is SetTargetTemperature
                ||| self is SetHumidifierParameter && other is SetHumidifierParameter
                    && self.description() == other.description()
            },
            self is SetBrightness ==> self.description() == "control brightness"@,
            self is SetScene ==> self.description() == "set scene"@,
            self is SetHumidifierParameter ==> self.description().skip(39) == text::signed_decimal(
                self->SetHumidifierParameter_work_mode as int,
            ),
    {
        reveal_strlit("control power state");
        reveal_strlit("control light power state");
        reveal_strlit("control brightness");
        reveal_strlit("control color");
        reveal_strlit("control color temperature");
        reveal_strlit("set scene");
        reveal_strlit("set temperature");
        reveal_strlit("control humidifier parameter work_mode=");
        assert("control power state"@.len() == 19);
        assert("control light power state"@.len() == 25);
        assert("control brightness"@.len() == 18);
        assert("control color"@.len() == 13);
        assert("control color temperature"@.len() == 25);
        assert("control light power state"@[8] != "control color temperature"@[8]);
        assert("set scene"@.len() == 9);
        assert("set temperature"@.len() == 15);
        assert("control humidifier parameter work_mode="@.len() == 39);
        if self is SetHumidifierParameter {
            assert(self.description().skip(39) =~= text::signed_decimal(
                self->SetHumidifierParameter_work_mode as int,
            ));
        }
    }

    /// Human readable phrase used in log and error messages, e.g.
    /// "control brightness" or "set scene".
    pub fn describe(&self) -> (r: String)
        ensures
            r@ == self.description(),
    {
        match self {
            DeviceOp::PowerOn(_) => "control power state".to_owned(),
            DeviceOp::LightPowerOn(_) => "control light power state".to_owned(),
            DeviceOp::SetBrightness(_) => "control brightness".to_owned(),
            DeviceOp::SetColorRgb { .. } => "control color".to_owned(),
            DeviceOp::SetColorTemperature(_) => "control color temperature".to_owned(),
            DeviceOp::SetScene(_) => "set scene".to_owned(),
            DeviceOp::SetHumidifierParameter { work_mode, .. } => {
                let mut out = "control humidifier parameter work_mode=".to_owned();
                append_signed(&mut out, *work_mode);
                out
            },
            DeviceOp::SetTargetTemperature { .. } => "set temperature".to_owned(),
        }
    }
}

/// Whether a transport took responsibility for an operation.
#[derive(Clone, Copy, Debug, PartialEq, Eq, Structural)]
pub enum Handled {
    /// The transport carried out the operation.
    Yes,
    /// The transport cannot serve this device/operation; try the next one.
    NotSupported,
}

// ----------------------------------------------------------- order of priority

/// The transports of a list that another list holds, without repeating one that
/// stands next to itself.
pub open spec fn allowed(list: Seq<TransportId>, among: Seq<TransportId>) -> Seq<TransportId>
    decreases list.len(),
{
    if list.len() == 0 {
        list
    } else {
        let before = allowed(list.drop_last(), among);
        if !among.contains(list.last()) || (before.len() > 0 && before.last() == list.last()) {
            before
        } else {
            before.push(list.last())
        }
    }
}

/// The transports of a list that another list does not hold.
pub open spec fn missing(list: Seq<TransportId>, from: Seq<TransportId>) -> Seq<TransportId>
    decreases list.len(),
{
    if list.len() == 0 {
        list
    } else {
        let before = missing(list.drop_last(), from);
        if from.contains(list.last()) {
            before
        } else {
            before.push(list.last())
        }
    }
}

/// The order for an operation: the transports of the override that the operation
/// allows, and then the others that it allows in their usual order.
pub open spec fn order_of(
    default: Seq<TransportId>,
    override_order: Option<Seq<TransportId>>,
) -> Seq<TransportId> {
    match override_order {
        Some(preferred) => allowed(preferred, default) + missing(
            default,
            allowed(preferred, default),
        ),
        None => default,
    }
}

proof fn allowed_is_among(list: Seq<TransportId>, among: Seq<TransportId>)
    ensures
        forall|i: int|
            0 <= i < allowed(list, among).len() ==> among.contains(#[trigger] allowed(list, among)[i]),
        forall|i: int|
            0 <= i < list.len() && among.contains(#[trigger] list[i]) ==> allowed(
                list,
                among,
            ).contains(list[i]),
    decreases list.len(),
{
    if list.len() > 0 {
        let head = list.drop_last();
        allowed_is_among(head, among);
        let before = allowed(head, among);
        let after = allowed(list, among);
        assert forall|i: int| 0 <= i < list.len() && among.contains(
            #[trigger] list[i],
        ) implies after.contains(list[i]) by {
            if i < head.len() {
                assert(head[i] == list[i]);
                let k = choose|k: int| 0 <= k < before.len() && before[k] == list[i];
                assert(after[k] == list[i]);
            } else if before.len() > 0 && before.last() == list.last() {
                assert(after[before.len() - 1] == list[i]);
            } else {
                assert(after[before.len() as int] == list[i]);
            }
        }
    }
}

proof fn missing_is_exact(list: Seq<TransportId>, from: Seq<TransportId>)
    ensures
        forall|i: int|
            0 <= i < missing(list, from).len() ==> list.contains(#[trigger] missing(list, from)[i])
                && !from.contains(missing(list, from)[i]),
        forall|i: int|
            0 <= i < list.len() && !from.contains(#[trigger] list[i]) ==> missing(
                list,
                from,
            ).contains(list[i]),
    decreases list.len(),
{
    if list.len() > 0 {
        let head = list.drop_last();
        missing_is_exact(head, from);
        let before = missing(head, from);
        let after = missing(list, from);
        assert forall|i: int| 0 <= i < after.len() implies list.contains(#[trigger] after[i])
            && !from.contains(after[i]) by {
            if i < before.len() {
                assert(head.contains(before[i]));
                let k = choose|k: int| 0 <= k < head.len() && head[k] == before[i];
                assert(list[k] == after[i]);
            } else {
                assert(list[list.len() - 1] == after[i]);
            }
        }
        assert forall|i: int| 0 <= i < list.len() && !from.contains(
            #[trigger] list[i],
        ) implies after.contains(list[i]) by {
            if i < head.len() {
                assert(head[i] == list[i]);
                let k = choose|k: int| 0 <= k < before.len() && before[k] == list[i];
                assert(after[k] == list[i]);
            } else {
                assert(after[before.len() as int] == list[i]);
            }
        }
    }
}

/// An override reorders the transports that are allowed and does nothing else: it
/// adds none that is not, and drops none.
pub proof fn an_override_only_reorders(
    default: Seq<TransportId>,
    preferred: Seq<TransportId>,
    id: TransportId,
)
    ensures
        order_of(default, Some(preferred)).contains(id) <==> default.contains(id),
{
    let first = allowed(preferred, default);
    let rest = missing(default, first);
    let order = first + rest;
    allowed_is_among(preferred, default);
    missing_is_exact(default, first);
    if order.contains(id) {
        let k = choose|k: int| 0 <= k < order.len() && order[k] == id;
        if k < first.len() {
            assert(default.contains(first[k]));
        } else {
            assert(default.contains(rest[k - first.len()]));
        }
    }
    if default.contains(id) {
        let k = choose|k: int| 0 <= k < default.len() && default[k] == id;
        if first.contains(id) {
            let j = choose|j: int| 0 <= j < first.len() && first[j] == id;
            assert(order[j] == id);
        } else {
            assert(rest.contains(default[k]));
            let j = choose|j: int| 0 <= j < rest.len() && rest[j] == id;
            assert(order[first.len() + j] == id);
        }
    }
}

/// What the override allows comes before everything else.
pub proof fn an_override_comes_first(op: DeviceOp, preferred: Seq<TransportId>, i: int)
    requires
        0 <= i < preferred.len(),
        op.default_order().contains(preferred[i]),
    ensures
        allowed(preferred, op.default_order()).contains(preferred[i]),
        allowed(preferred, op.default_order()).is_prefix_of(
            order_of(op.default_order(), Some(preferred)),
        ),
{
    let default = op.default_order();
    allowed_is_among(preferred, default);
    let first = allowed(preferred, default);
    let order = order_of(default, Some(preferred));
    assert(first =~= order.subrange(0, first.len() as int));
}

proof fn allowed_comes_from(list: Seq<TransportId>, among: Seq<TransportId>, i: int) -> (a: int)
    requires
        0 <= i < allowed(list, among).len(),
    ensures
        0 <= a < list.len(),
        list[a] == allowed(list, among)[i],
    decreases list.len(),
{
    let before = allowed(list.drop_last(), among);
    if i < before.len() {
        allowed_comes_from(list.drop_last(), among, i)
    } else {
        list.len() - 1
    }
}

proof fn allowed_keeps_order(
    list: Seq<TransportId>,
    among: Seq<TransportId>,
    i: int,
    j: int,
) -> (places: (int, int))
    requires
        0 <= i < j < allowed(list, among).len(),
    ensures
        0 <= places.0 < places.1 < list.len(),
        list[places.0] == allowed(list, among)[i],
        list[places.1] == allowed(list, among)[j],
    decreases list.len(),
{
    let head = list.drop_last();
    let before = allowed(head, among);
    if j < before.len() {
        allowed_keeps_order(head, among, i, j)
    } else {
        let a = allowed_comes_from(head, among, i);
        assert(head[a] == before[i]);
        (a, list.len() - 1)
    }
}

proof fn missing_comes_from(list: Seq<TransportId>, from: Seq<TransportId>, i: int) -> (a: int)
    requires
        0 <= i < missing(list, from).len(),
    ensures
        0 <= a < list.len(),
        list[a] == missing(list, from)[i],
    decreases list.len(),
{
    let before = missing(list.drop_last(), from);
    if i < before.len() {
        missing_comes_from(list.drop_last(), from, i)
    } else {
        list.len() - 1
    }
}

proof fn missing_keeps_order(
    list: Seq<TransportId>,
    from: Seq<TransportId>,
    i: int,
    j: int,
) -> (places: (int, int))
    requires
        0 <= i < j < missing(list, from).len(),
    ensures
        0 <= places.0 < places.1 < list.len(),
        list[places.0] == missing(list, from)[i],
        list[places.1] == missing(list, from)[j],
    decreases list.len(),
{
    let head = list.drop_last();
    let before = missing(head, from);
    if j < before.len() {
        missing_keeps_order(head, from, i, j)
    } else {
        let a = missing_comes_from(head, from, i);
        assert(head[a] == before[i]);
        (a, list.len() - 1)
    }
}

/// An override puts what it names first, in the order in which it names it, and
/// what it does not name keeps its usual order behind that.
pub proof fn an_override_is_a_prefix(
    default: Seq<TransportId>,
    preferred: Seq<TransportId>,
    i: int,
    j: int,
)
    requires
        0 <= i < j < order_of(default, Some(preferred)).len(),
    ensures
        ({
            let (here, there) = (
                order_of(default, Some(preferred))[i],
                order_of(default, Some(preferred))[j],
            );
            &&& preferred.contains(there) ==> preferred.contains(here)
            &&& preferred.contains(here) && preferred.contains(there) ==> exists|a: int, b: int|
                0 <= a < b < preferred.len() && #[trigger] preferred[a] == here
                    && #[trigger] preferred[b] == there
            &&& !preferred.contains(here) ==> exists|a: int, b: int|
                0 <= a < b < default.len() && #[trigger] default[a] == here && #[trigger] default[b]
                    == there
        }),
{
    let first = allowed(preferred, default);
    let rest = missing(default, first);
    allowed_is_among(preferred, default);
    missing_is_exact(default, first);
    if j < first.len() {
        let (a, b) = allowed_keeps_order(preferred, default, i, j);
        assert(preferred[a] == first[i] && preferred[b] == first[j]);
        assert(preferred.contains(first[i]));
    } else {
        let there = rest[j - first.len()];
        assert(!first.contains(there) && default.contains(there));
        if preferred.contains(there) {
            let a = choose|a: int| 0 <= a < preferred.len() && preferred[a] == there;
            assert(default.contains(preferred[a]));
            assert(false);
        }
        if i < first.len() {
            let a = allowed_comes_from(preferred, default, i);
            assert(preferred.contains(preferred[a]));
        } else {
            let (a, b) = missing_keeps_order(
                default,
                first,
                i - first.len(),
                j - first.len(),
            );
            assert(default[a] == rest[i - first.len()] && default[b] == there);
        }
    }
}

/// Every transport that carries an operation for some device has its turn, and
/// none has two.
pub proof fn every_carrier_has_its_turn(
    device: crate::service::device::Device,
    op: DeviceOp,
    reachable: bool,
)
    ensures
        lan::LanTransport::command(device, op) is Some ==> op.default_order().contains(
            TransportId::Lan,
        ),
        iot::IotTransport::carries(reachable, device, op) ==> op.default_order().contains(
            TransportId::Iot,
        ),
        platform::PlatformTransport::request(reachable, device, op) is Some
            ==> op.default_order().contains(TransportId::Platform),
        ble::BleTransport::serves(device, op) ==> op.default_order().contains(TransportId::Ble),
        nightlight::NightlightTransport::carries(reachable, device, op)
            ==> op.default_order().contains(TransportId::Nightlight),
        distinct(op.default_order()),
{
    let order = op.default_order();
    if order.len() > 0 {
        assert(order.contains(order[0]));
    }
    if order.len() > 1 {
        assert(order.contains(order[1]));
    }
    if order.len() > 2 {
        assert(order.contains(order[2]));
    }
    if order.len() > 3 {
        assert(order.contains(order[3]));
    }
    if order.len() > 4 {
        assert(order.contains(order[4]));
    }
}

/// The operations of a light have a turn on every way to it: the nightlight, which
/// stands for a part of the device only, before all others where it is asked; then
/// Bluetooth, which needs no network; then the LAN, which needs no cloud; then AWS
/// IoT, which costs no quota; and last the Platform API. A scene prefers the
/// Platform API to the LAN.
pub proof fn nearer_transports_come_first(op: DeviceOp, i: int, j: int)
    requires
        0 <= i < op.default_order().len(),
        0 <= j < op.default_order().len(),
    ensures
        ({
            let (here, there) = (op.default_order()[i], op.default_order()[j]);
            &&& here == TransportId::Nightlight && there != TransportId::Nightlight ==> i < j
            &&& here == TransportId::Ble && (there == TransportId::Lan || there == TransportId::Iot
                || there == TransportId::Platform) ==> i < j
            &&& here == TransportId::Iot && there == TransportId::Platform ==> i < j
            &&& here == TransportId::Lan && there == TransportId::Iot ==> i < j
            &&& here == TransportId::Lan && there == TransportId::Platform ==> (i < j <==> !(
            op is SetScene))
        }),
{
}

/// What was asked for reaches every transport that takes it on unchanged, and none
/// of them turns it into something else: the LAN, AWS IoT and the Platform API
/// send the very power state, brightness, colour or temperature of the operation.
pub proof fn every_transport_sends_what_was_asked_for(
    device: crate::service::device::Device,
    op: DeviceOp,
    sent: iot::IotCommand,
)
    requires
        device.lan_device is Some,
        device.http_device_info is Some,
        iot::IotTransport::is_command(op, sent),
    ensures
        ({
            let lan = lan::LanTransport::command(device, op);
            let asked = platform::PlatformTransport::request(true, device, op);
            match op {
                DeviceOp::PowerOn(on) => {
                    &&& lan == Some(lan::LanCommand::Turn(on))
                    &&& sent == iot::IotCommand::Power(on)
                    &&& asked == Some(platform::PlatformRequest::Power(on))
                },
                DeviceOp::LightPowerOn(on) => {
                    &&& device.light_toggle() matches Some(instance) ==> lan == Some(
                        lan::LanCommand::Turn(on),
                    ) && asked == Some(platform::PlatformRequest::Toggle { instance, on })
                    &&& device.light_toggle() is None ==> lan is None && asked is None
                    &&& sent == iot::IotCommand::Power(on)
                },
                DeviceOp::SetBrightness(percent) => {
                    &&& lan == Some(lan::LanCommand::Brightness(percent))
                    &&& sent == iot::IotCommand::Brightness(percent)
                    &&& asked == Some(platform::PlatformRequest::Brightness(percent))
                },
                DeviceOp::SetColorRgb { r, g, b } => {
                    &&& lan matches Some(lan::LanCommand::Color(c)) && c.r == r && c.g == g && c.b
                        == b
                    &&& sent matches iot::IotCommand::Color { r: x, g: y, b: z } && x == r && y
                        == g && z == b
                    &&& asked matches Some(
                        platform::PlatformRequest::Color { r: x, g: y, b: z },
                    ) && x == r && y == g && z == b
                },
                DeviceOp::SetColorTemperature(kelvin) => {
                    &&& lan == Some(lan::LanCommand::ColorTemperature(kelvin))
                    &&& sent == iot::IotCommand::ColorTemperature(kelvin)
                    &&& asked == Some(platform::PlatformRequest::ColorTemperature(kelvin))
                },
                DeviceOp::SetHumidifierParameter { work_mode, value } => {
                    &&& sent is Real
                    &&& asked matches Some(
                        platform::PlatformRequest::WorkMode { work_mode: m, value: v },
                    ) && m == work_mode && v == value
                },
                _ => false,
            }
        }),
{
}

/// The Platform API takes on whatever it is asked, for a device that the account
/// lists, but for scenes that it would refuse to honour and for a light that
/// cannot be told from the rest of its device. Names and numbers stay as they are.
pub proof fn the_platform_takes_on_the_rest(device: crate::service::device::Device, op: DeviceOp)
    ensures
        platform::PlatformTransport::request(false, device, op) is None,
        device.http_device_info is None ==> platform::PlatformTransport::request(
            true,
            device,
            op,
        ) is None,
        device.http_device_info is Some ==> {
            let asked = platform::PlatformTransport::request(true, device, op);
            &&& asked is None <==> (op is SetScene && device.distrusts_platform()) || (
            op is LightPowerOn && device.light_toggle() is None)
            &&& op matches DeviceOp::SetScene(scene) ==> (asked matches Some(request) ==> request
                == platform::PlatformRequest::Scene(scene))
            &&& op matches DeviceOp::SetTargetTemperature { instance, target } ==> asked == Some(
                platform::PlatformRequest::TargetTemperature { instance, target },
            )
            &&& op matches DeviceOp::SetHumidifierParameter { work_mode, value } ==> asked == Some(
                platform::PlatformRequest::WorkMode { work_mode, value },
            )
        },
{
}

/// AWS IoT carries the operations of a light to every device that Govee names a
/// topic for and the model table does not veto; a switch for the light of a device
/// needs one that can be told from the rest of it. Only a humidifier takes
/// humidifier parameters, and these need no more than its account entry.
pub proof fn iot_carries_to_a_topic(device: crate::service::device::Device, op: DeviceOp)
    ensures
        !iot::IotTransport::carries(false, device, op),
        device.undoc_device_info is None ==> !iot::IotTransport::carries(true, device, op),
        device.undoc_device_info matches Some(info) ==> {
            let vetoed = match device.quirk {
                Some(quirk) => quirk.iot_api_supported == Some(false),
                None => false,
            };
            let reached = info.entry.device_ext.device_settings.topic is Some && !vetoed;
            let carried = iot::IotTransport::carries(true, device, op);
            &&& (op is PowerOn || op is SetBrightness || op is SetColorRgb
                || op is SetColorTemperature) ==> (carried <==> reached)
            &&& op is LightPowerOn ==> (carried <==> reached && device.light_toggle() is Some)
            &&& op is SetHumidifierParameter ==> (carried <==> device.sku@ == "H7160"@)
            &&& (op is SetScene || op is SetTargetTemperature) ==> !carried
        },
{
}

fn holds(list: &Vec<TransportId>, id: TransportId) -> (r: bool)
    ensures
        r == list@.contains(id),
{
    for i in 0..list.len()
        invariant
            forall|j: int| 0 <= j < i ==> list@[j] != id,
    {
        if list[i] == id {
            return true;
        }
    }
    false
}

/// Resolve the transport order for an operation, applying an optional
/// configured override.
///
/// The override acts as a priority prefix: transports named in it that are also
/// valid for this operation come first, in the configured order; any remaining
/// defaults follow in their original order. Transports that the operation does
/// not allow are never introduced by an override.
pub fn resolve_order(op: &DeviceOp, override_order: Option<&[TransportId]>) -> (r: Vec<TransportId>)
    ensures
        r@ == order_of(
            op.default_order(),
            match override_order {
                Some(preferred) => Some(preferred@),
                None => None,
            },
        ),
{
    resolve_within(op.default_transport_order(), override_order)
}

/// Resolves an order within the transports that are allowed.
pub fn resolve_within(default: Vec<TransportId>, override_order: Option<&[TransportId]>) -> (r: Vec<
    TransportId,
>)
    requires
        distinct(default@),
    ensures
        r@ == order_of(
            default@,
            match override_order {
                Some(preferred) => Some(preferred@),
                None => None,
            },
        ),
{
    let preferred = match override_order {
        Some(preferred) => preferred,
        None => return default,
    };
    let mut order: Vec<TransportId> = Vec::new();
    for i in 0..preferred.len()
        invariant
            order@ == allowed(preferred@.take(i as int), default@),
    {
        assert(preferred@.take(i + 1).drop_last() =~= preferred@.take(i as int));
        let id = preferred[i];
        if holds(&default, id) && !(order.len() > 0 && order[order.len() - 1] == id) {
            order.push(id);
        }
    }
    assert(preferred@.take(preferred@.len() as int) =~= preferred@);
    let ghost first = order@;
    for i in 0..default.len()
        invariant
            distinct(default@),
            order@ == first + missing(default@.take(i as int), first),
    {
        assert(default@.take(i + 1).drop_last() =~= default@.take(i as int));
        let id = default[i];
        proof {
            later_is_missing(default@, first, i as int);
        }
        if !holds(&order, id) {
            order.push(id);
            assert(order@ =~= first + missing(default@.take(i + 1), first));
        }
    }
    assert(default@.take(default@.len() as int) =~= default@);
    order
}

/// No transport occurs twice.
pub open spec fn distinct(list: Seq<TransportId>) -> bool {
    forall|i: int, j: int| 0 <= i < j < list.len() ==> list[i] != list[j]
}

proof fn later_is_missing(default: Seq<TransportId>, first: Seq<TransportId>, i: int)
    requires
        distinct(default),
        0 <= i < default.len(),
    ensures
        (first + missing(default.take(i), first)).contains(default[i]) == first.contains(
            default[i],
        ),
{
    let done = missing(default.take(i), first);
    let all = first + done;
    missing_is_exact(default.take(i), first);
    if first.contains(default[i]) {
        let k = choose|k: int| 0 <= k < first.len() && first[k] == default[i];
        assert(all[k] == default[i]);
    }
    if all.contains(default[i]) && !first.contains(default[i]) {
        let k = choose|k: int| 0 <= k < all.len() && all[k] == default[i];
        if k < first.len() {
            assert(first[k] == default[i]);
        } else {
            assert(done[k - first.len()] == default[i]);
            assert(default.take(i).contains(default[i]));
            let j = choose|j: int| 0 <= j < i && default.take(i)[j] == default[i];
            assert(default[j] == default[i]);
        }
    }
}

} // verus!
