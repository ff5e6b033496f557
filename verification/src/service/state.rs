//! The devices that are known, and what is done to them.
use vstd::prelude::*;

use crate::clock::Timestamp;
use crate::platform_api::{DeviceType, HttpDeviceInfo, HttpDeviceState};
use crate::service::ble_scheduler::pending::{MergeError, PendingOps};
use crate::service::ble_scheduler::scheduler::BleScheduler;
use crate::service::device::Device;
use crate::service::iot::client::{IotClient, IotMessage};
use crate::service::transport::router::Router;
use crate::service::transport::{execute_op, execute_ops, DeviceOp, TransportId};
use crate::service::transport;
use crate::temperature::{TemperatureScale, TemperatureValue};
use crate::text;
use crate::text::{append_str, chars_of, eq_ignore_ascii_case, to_ascii_lowercase};
use crate::text_map::TextMap;

verus! {

/// A state that Bluetooth reported within so many seconds needs no confirmation.
pub const FRESH_BLE_SECS: i64 = 15;

/// What follows a command.
#[derive(Clone, Copy, Debug, PartialEq, Eq, Structural)]
pub enum AfterControl {
    /// The device is not known any more, or has confirmed its state already.
    Nothing,
    /// Ask for the status over AWS IoT, after the delay.
    ReadBackViaIot,
    /// Poll the Platform API, after the delay.
    ReadBackViaPlatform,
}

pub struct State {
    pub devices: TextMap<Device>,
    pub temperature_scale: TemperatureScale,
    pub hass_discovery_prefix: String,
    pub ble_scheduler: Option<BleScheduler>,
    pub iot_client: Option<IotClient>,
    /// Optional configured transport priority prefix; see `service::transport`.
    pub transport_order: Option<Vec<TransportId>>,
}

/// Whether a device answers to a label, ignoring case: by its name, its id, its
/// topic, its IP address or its computed name.
pub open spec fn answers_to(device: Device, label: Seq<char>) -> bool {
    ||| text::same_ignoring_case(device.name_text(), label)
    ||| text::same_ignoring_case(device.id@, label)
    ||| device.topic_id matches Some(topic) && text::same_ignoring_case(topic@, label)
    ||| device.lan_device matches Some(lan) && text::same_ignoring_case(lan.ip@, label)
    ||| text::same_ignoring_case(device.default_name(), label)
}

/// A device answers to its name, its id, its topic, its IP address and the name that
/// it would have without one, in upper or lower case, and to nothing else.
pub proof fn what_a_device_answers_to(device: Device, label: Seq<char>)
    ensures
        ({
            let low = text::ascii_lowercase(label);
            let topic = device.topic_id;
            let lan = device.lan_device;
            &&& low == text::ascii_lowercase(device.name_text()) ==> answers_to(device, label)
            &&& low == text::ascii_lowercase(device.id@) ==> answers_to(device, label)
            &&& low == text::ascii_lowercase(device.default_name()) ==> answers_to(device, label)
            &&& topic is Some && low == text::ascii_lowercase(topic->0@) ==> answers_to(
                device,
                label,
            )
            &&& lan is Some && low == text::ascii_lowercase(lan->0.ip@) ==> answers_to(device, label)
            &&& low != text::ascii_lowercase(device.name_text()) && low != text::ascii_lowercase(
                device.id@,
            ) && low != text::ascii_lowercase(device.default_name()) && (topic is Some ==> low
                != text::ascii_lowercase(topic->0@)) && (lan is Some ==> low
                != text::ascii_lowercase(lan->0.ip@)) ==> !answers_to(device, label)
        }),
{
}

fn matches_label(device: &Device, label: &str) -> (r: bool)
    ensures
        r == answers_to(*device, label@),
{
    let name = device.name();
    if eq_ignore_ascii_case(name.as_str(), label) || eq_ignore_ascii_case(
        device.id.as_str(),
        label,
    ) {
        return true;
    }
    if let Some(topic) = &device.topic_id {
        if eq_ignore_ascii_case(topic.as_str(), label) {
            return true;
        }
    }
    if let Some(ip) = device.ip_addr() {
        if eq_ignore_ascii_case(ip, label) {
            return true;
        }
    }
    let computed = device.computed_name();
    eq_ignore_ascii_case(computed.as_str(), label)
}

/// A device of which only the SKU and the id are known.
pub open spec fn is_new_device(device: Device, sku: Seq<char>, id: Seq<char>) -> bool {
    device.sku@ == sku && device.id@ == id && device.is_blank()
}

/// The text of the error that a label names no device.
pub open spec fn not_found_text(label: Seq<char>) -> Seq<char> {
    "device '"@ + label + "' not found"@
}

/// The message that a device's light cannot be told from the rest of it.
pub open spec fn unknown_toggle_text(device: Device) -> Seq<char> {
    "Don't know how to toggle just the light portion of "@ + device.label_text()
        + ". Please share the device metadata and state if you report this issue"@
}

pub open spec fn all_wf(devices: TextMap<Device>) -> bool {
    forall|id: Seq<char>| #[trigger] devices.has(id) ==> devices.at(id).wf()
}

/// Changing a device to one that is well formed leaves all devices so.
pub proof fn changing_keeps_all_wf(devices: TextMap<Device>, i: int)
    requires
        devices.wf(),
        all_wf(devices),
        0 <= i < devices.entries@.len(),
    ensures
        forall|device: Device, after: TextMap<Device>|
            #![trigger device.wf(), all_wf(after)]
            device.wf() && after.entries@ == devices.entries@.update(
                i,
                (devices.entries@[i].0, device),
            ) ==> all_wf(after),
{
    let id = devices.entries@[i].0@;
    devices.changing_a_value(i, &devices);
    assert forall|device: Device, after: TextMap<Device>|
        #![trigger device.wf(), all_wf(after)]
        device.wf() && after.entries@ == devices.entries@.update(
            i,
            (devices.entries@[i].0, device),
        ) implies all_wf(after) by {
        assert(devices.with(id, device, &after));
        assert forall|other: Seq<char>| #[trigger] after.has(other) implies after.at(
            other,
        ).wf() by {
            if other != id {
                assert(devices.has(other));
            }
        }
    }
}

impl State {
    pub open spec fn wf(&self) -> bool {
        &&& self.devices.wf()
        &&& all_wf(self.devices)
        &&& self.ble_scheduler matches Some(scheduler) ==> scheduler.wf()
    }

    pub fn new() -> (r: Self)
        ensures
            r.wf(),
            forall|id: Seq<char>| !#[trigger] r.devices.has(id),
            r.devices.entries@.len() == 0,
            r.temperature_scale == TemperatureScale::Celsius,
            r.hass_discovery_prefix@.len() == 0,
            r.ble_scheduler is None,
            r.iot_client is None,
            r.transport_order is None,
    {
        State {
            devices: TextMap::new(),
            temperature_scale: TemperatureScale::Celsius,
            hass_discovery_prefix: String::new(),
            ble_scheduler: None,
            iot_client: None,
            transport_order: None,
        }
    }

    // ---------------------------------------------------------------- settings

    pub fn set_temperature_scale(&mut self, scale: TemperatureScale)
        ensures
            old(self).wf() ==> final(self).wf(),
            *final(self) == (State { temperature_scale: scale, ..*old(self) }),
    {
        self.temperature_scale = scale;
    }

    pub fn get_temperature_scale(&self) -> (r: TemperatureScale)
        ensures
            r == self.temperature_scale,
    {
        self.temperature_scale
    }

    pub fn set_ble_scheduler(&mut self, scheduler: BleScheduler)
        requires
            old(self).wf(),
            scheduler.wf(),
        ensures
            final(self).wf(),
            *final(self) == (State { ble_scheduler: Some(scheduler), ..*old(self) }),
    {
        self.ble_scheduler = Some(scheduler);
    }

    pub fn get_ble_scheduler(&self) -> (r: &Option<BleScheduler>)
        ensures
            *r == self.ble_scheduler,
    {
        &self.ble_scheduler
    }

    /// Configure a transport priority prefix.
    pub fn set_transport_order(&mut self, order: Option<Vec<TransportId>>)
        ensures
            old(self).wf() ==> final(self).wf(),
            *final(self) == (State { transport_order: order, ..*old(self) }),
    {
        self.transport_order = order;
    }

    pub fn set_hass_disco_prefix(&mut self, prefix: String)
        ensures
            old(self).wf() ==> final(self).wf(),
            *final(self) == (State { hass_discovery_prefix: prefix, ..*old(self) }),
    {
        self.hass_discovery_prefix = prefix;
    }

    pub fn get_hass_disco_prefix(&self) -> (r: String)
        ensures
            r@ == self.hass_discovery_prefix@,
    {
        self.hass_discovery_prefix.clone()
    }

    pub fn set_iot_client(&mut self, client: IotClient)
        ensures
            old(self).wf() ==> final(self).wf(),
            *final(self) == (State { iot_client: Some(client), ..*old(self) }),
    {
        self.iot_client = Some(client);
    }

    pub fn get_iot_client(&self) -> (r: Option<IotClient>)
        ensures
            r == self.iot_client,
    {
        self.iot_client
    }

    // ----------------------------------------------------------------- devices

    /// Returns a mutable version of the specified device, creating
    /// an entry for it if necessary.
    pub fn device_mut(&mut self, sku: &str, id: &str) -> (r: &mut Device)
        requires
            old(self).wf(),
        ensures
            r.wf(),
            if old(self).devices.has(id@) {
                *r == old(self).devices.at(id@)
            } else {
                is_new_device(*r, sku@, id@)
            },
            *final(self) == (State { devices: final(self).devices, ..*old(self) }),
            old(self).devices.with(id@, *final(r), &final(self).devices),
            final(r).wf() ==> final(self).wf(),
    {
        let ghost before = self.devices;
        if !self.devices.contains_key(id) {
            self.devices.insert(id.to_owned(), Device::new(sku, id));
        }
        let ghost filled = self.devices;
        let at: usize = match self.devices.find(id) {
            Some(at) => at,
            None => 0,
        };
        proof {
            filled.changing_a_value(at as int, &before);
            assert(all_wf(filled)) by {
                assert forall|other: Seq<char>| #[trigger] filled.has(other) implies filled.at(
                    other,
                ).wf() by {
                    assert(before.has(other) || other == id@);
                }
            }
            changing_keeps_all_wf(filled, at as int);
        }
        self.devices.value_mut(at)
    }

    /// The devices, in the order in which they became known.
    pub fn devices(&self) -> (r: Vec<&Device>)
        ensures
            r@.len() == self.devices.entries@.len(),
            forall|i: int|
                0 <= i < r@.len() ==> *(#[trigger] r@[i]) == self.devices.entries@[i].1,
    {
        let mut out: Vec<&Device> = Vec::new();
        for i in 0..self.devices.entries.len()
            invariant
                out@.len() == i,
                forall|j: int|
                    0 <= j < i ==> *(#[trigger] out@[j]) == self.devices.entries@[j].1,
        {
            out.push(&self.devices.entries[i].1);
        }
        out
    }

    /// Returns the specified Device
    pub fn device_by_id(&self, id: &str) -> (r: Option<&Device>)
        requires
            self.devices.wf(),
        ensures
            match r {
                Some(device) => self.devices.has(id@) && *device == self.devices.at(id@),
                None => !self.devices.has(id@),
            },
    {
        self.devices.get(id)
    }

    /// Whether entry `i` is the first that answers to a label.
    pub open spec fn first_to_answer(&self, label: Seq<char>, i: int) -> bool {
        &&& 0 <= i < self.devices.entries@.len()
        &&& answers_to(self.devices.entries@[i].1, label)
        &&& forall|j: int| 0 <= j < i ==> !answers_to((#[trigger] self.devices.entries@[j]).1, label)
    }

    /// Whether this is the device that a label stands for.
    pub open spec fn resolves(&self, label: Seq<char>, found: Option<Device>) -> bool {
        match found {
            Some(device) => if self.devices.has(label) {
                device == self.devices.at(label)
            } else {
                exists|i: int| #[trigger]
                    self.first_to_answer(label, i) && device == self.devices.entries@[i].1
            },
            None => !self.devices.has(label) && forall|i: int|
                0 <= i < self.devices.entries@.len() ==> !answers_to(
                    (#[trigger] self.devices.entries@[i]).1,
                    label,
                ),
        }
    }

    /// A device is found by its id, whatever the others are called, and by anything
    /// else that it answers to unless one that was known before it answers too. What
    /// is found answers to the label, and a label finds one device at most.
    pub proof fn how_a_device_is_found(
        &self,
        label: Seq<char>,
        found: Option<Device>,
        again: Option<Device>,
        i: int,
    )
        requires
            self.devices.wf(),
            self.resolves(label, found),
            self.resolves(label, again),
            0 <= i < self.devices.entries@.len(),
        ensures
            again == found,
            self.devices.entries@[i].0@ == label ==> found == Some(self.devices.entries@[i].1),
            !self.devices.has(label) && answers_to(self.devices.entries@[i].1, label) && (forall|
                j: int,
            |
                0 <= j < i ==> !answers_to((#[trigger] self.devices.entries@[j]).1, label))
                ==> found == Some(self.devices.entries@[i].1),
            answers_to(self.devices.entries@[i].1, label) ==> found is Some,
            found is Some && !self.devices.has(label) ==> answers_to(found->0, label),
    {
        self.devices.entry_is_found(i);
        if !self.devices.has(label) && found is Some {
            let k = choose|k: int| #[trigger]
                self.first_to_answer(label, k) && found->0 == self.devices.entries@[k].1;
            if again is Some {
                let m = choose|m: int| #[trigger]
                    self.first_to_answer(label, m) && again->0 == self.devices.entries@[m].1;
                assert(k == m);
            }
            if answers_to(self.devices.entries@[i].1, label) && (forall|j: int|
                0 <= j < i ==> !answers_to((#[trigger] self.devices.entries@[j]).1, label)) {
                assert(k == i);
            }
        }
    }

    /// A device that nothing was known of is known by its model and its id alone;
    /// one that is known stays as it is.
    pub proof fn a_new_device_is_blank(&self, sku: Seq<char>, id: Seq<char>, device: Device)
        requires
            self.device_or_new(sku, id, device),
        ensures
            self.devices.has(id) ==> device == self.devices.at(id),
            !self.devices.has(id) ==> {
                &&& device.sku@ == sku
                &&& device.id@ == id
                &&& device.lan_device is None && device.lan_device_status is None
                &&& device.http_device_info is None && device.http_device_state is None
                &&& device.undoc_device_info is None
                &&& device.iot_device_status is None && device.ble_device_status is None
                &&& device.active_scene is None && device.last_polled is None
            },
    {
    }

    /// Of several operations the last that has a say in the scene decides: after a
    /// scene it is the active one, and after a colour or a temperature none is.
    pub proof fn the_last_say_in_the_scene_counts(
        states: Seq<State>,
        sku: Seq<char>,
        id: Seq<char>,
        ops: Seq<DeviceOp>,
        k: int,
    )
        requires
            took_ops(states, sku, id, ops),
            0 <= k < ops.len(),
            ops[k] is SetScene || ops[k] is SetColorRgb || ops[k] is SetColorTemperature,
            forall|j: int|
                k < j < ops.len() ==> !((#[trigger] ops[j]) is SetScene) && !(ops[j] is SetColorRgb)
                    && !(ops[j] is SetColorTemperature),
        ensures
            states.last().devices.has(id),
            ops[k] matches DeviceOp::SetScene(scene) ==> (states.last().devices.at(
                id,
            ).active_scene matches Some(info) && info.name@ == scene@),
            !(ops[k] is SetScene) ==> states.last().devices.at(id).active_scene is None,
        decreases ops.len(),
    {
        let n = ops.len() as int;
        assert(states[n - 1].takes_op(sku, id, ops[n - 1], states[n]));
        if k < n - 1 {
            let fewer = ops.drop_last();
            let before = states.drop_last();
            assert forall|i: int| 0 <= i < fewer.len() implies (#[trigger] before[i]).takes_op(
                sku,
                id,
                fewer[i],
                before[i + 1],
            ) by {
                assert(states[i].takes_op(sku, id, ops[i], states[i + 1]));
            }
            Self::the_last_say_in_the_scene_counts(before, sku, id, fewer, k);
            assert(before.last() == states[n - 1]);
            assert(states.last() == states[n]);
            assert(!(ops[n - 1] is SetScene));
        }
    }

    /// Resolve a device using its name, computed name, id or label,
    /// ignoring case. An id that is spelled exactly comes first.
    pub fn resolve_device(&self, label: &str) -> (r: Option<&Device>)
        requires
            self.devices.wf(),
        ensures
            match r {
                Some(device) => self.resolves(label@, Some(*device)),
                None => self.resolves(label@, None),
            },
            match r {
                Some(device) => if self.devices.has(label@) {
                    *device == self.devices.at(label@)
                } else {
                    exists|i: int| #[trigger]
                        self.first_to_answer(label@, i) && *device == self.devices.entries@[i].1
                },
                None => !self.devices.has(label@) && forall|i: int|
                    0 <= i < self.devices.entries@.len() ==> !answers_to(
                        (#[trigger] self.devices.entries@[i]).1,
                        label@,
                    ),
            },
    {
        // Try by id first
        if let Some(device) = self.devices.get(label) {
            return Some(device);
        }
        for i in 0..self.devices.entries.len()
            invariant
                self.devices.wf(),
                !self.devices.has(label@),
                forall|j: int|
                    0 <= j < i ==> !answers_to((#[trigger] self.devices.entries@[j]).1, label@),
        {
            if matches_label(&self.devices.entries[i].1, label) {
                assert(self.first_to_answer(label@, i as int));
                return Some(&self.devices.entries[i].1);
            }
        }
        None
    }

    /// Resolve a device, or say that there is none.
    pub fn resolve_device_read_only(&self, label: &str) -> (r: Result<&Device, String>)
        requires
            self.devices.wf(),
        ensures
            match r {
                Ok(device) => self.resolves(label@, Some(*device)),
                Err(_) => self.resolves(label@, None),
            },
            match r {
                Ok(device) => if self.devices.has(label@) {
                    *device == self.devices.at(label@)
                } else {
                    exists|i: int| #[trigger]
                        self.first_to_answer(label@, i) && *device == self.devices.entries@[i].1
                },
                Err(message) => message@ == not_found_text(label@) && !self.devices.has(label@)
                    && forall|i: int|
                    0 <= i < self.devices.entries@.len() ==> !answers_to(
                        (#[trigger] self.devices.entries@[i]).1,
                        label@,
                    ),
            },
    {
        match self.resolve_device(label) {
            Some(device) => Ok(device),
            None => {
                let mut message = "device '".to_owned();
                append_str(&mut message, label);
                append_str(&mut message, "' not found");
                Err(message)
            },
        }
    }

    // ------------------------------------------------------------------ polling

    /// The status request for a device that AWS IoT reaches; `None` if it does
    /// not.
    pub fn poll_iot_api(&self, device: &Device, ms: u64) -> (r: Option<IotMessage>)
        ensures
            match r {
                Some(message) => {
                    &&& self.iot_client is Some
                    &&& device.has_topic()
                    &&& crate::service::iot::client::is_for(
                        message,
                        device.undoc_device_info->0.entry,
                        ms,
                    )
                    &&& message.cmd@ == "status"@
                    &&& message.cmd_version == 2
                    &&& message.data is Nothing
                    &&& message.kind == 0
                },
                None => self.iot_client is None || !device.has_topic(),
            },
    {
        match (&self.iot_client, &device.undoc_device_info) {
            (Some(iot), Some(info)) => match iot.request_status_update(&info.entry, ms) {
                Ok(message) => Some(message),
                Err(_) => None,
            },
            _ => None,
        }
    }

    /// Records that a device was asked for its state. An answer over AWS IoT
    /// comes later, and none comes from a device that is offline; without this it
    /// would be asked again on every pass.
    pub fn note_polled(&mut self, sku: &str, id: &str, now: Timestamp)
        requires
            old(self).wf(),
        ensures
            final(self).wf(),
            *final(self) == (State { devices: final(self).devices, ..*old(self) }),
            exists|device: Device| #[trigger]
                old(self).device_or_new(sku@, id@, device) && old(self).devices.with(
                    id@,
                    (Device { last_polled: Some(now), ..device }),
                    &final(self).devices,
                ),
    {
        let device = self.device_mut(sku, id);
        let ghost before = *device;
        assert(old(self).device_or_new(sku@, id@, before));
        device.set_last_polled_at(now);
    }

    /// What the Platform API is asked for: a device that the account lists, and
    /// of a type that is known. Nothing is asked without a client.
    pub fn poll_platform_api(client_available: bool, device: &Device) -> (r: Option<
        &HttpDeviceInfo,
    >)
        ensures
            match r {
                Some(info) => client_available && !(device.kind() is Other)
                    && device.http_device_info == Some(*info),
                None => !client_available || device.kind() is Other
                    || device.http_device_info is None,
            },
    {
        if !client_available {
            return None;
        }
        if let DeviceType::Other(_) = device.device_type() {
            // Cannot poll an unknown device
            return None;
        }
        device.http_device_info.as_ref()
    }

    /// Records what the Platform API told of a device.
    pub fn record_platform_state(
        &mut self,
        sku: &str,
        id: &str,
        state: HttpDeviceState,
        now: Timestamp,
    )
        requires
            old(self).wf(),
        ensures
            final(self).wf(),
            *final(self) == (State { devices: final(self).devices, ..*old(self) }),
            exists|device: Device| #[trigger]
                old(self).device_or_new(sku@, id@, device) && old(self).devices.with(
                    id@,
                    (Device { last_polled: Some(now), ..device.with_http_state(state, now) }),
                    &final(self).devices,
                ),
    {
        let device = self.device_mut(sku, id);
        let ghost before = *device;
        assert(old(self).device_or_new(sku@, id@, before));
        device.set_http_device_state_at(state, now);
        device.set_last_polled_at(now);
    }

    pub open spec fn after_control(&self, id: Seq<char>, now: Timestamp) -> AfterControl {
        if !self.devices.has(id) {
            AfterControl::Nothing
        } else {
            let device = self.devices.at(id);
            if device.fresh_at(now, FRESH_BLE_SECS) || device.lan_device is Some {
                AfterControl::Nothing
            } else if device.iot_pollable() && self.iot_client is Some {
                AfterControl::ReadBackViaIot
            } else {
                AfterControl::ReadBackViaPlatform
            }
        }
    }

    /// A device that is gone needs no confirmation, nor one that Bluetooth reported
    /// within the last fifteen seconds or that answers on the LAN. Any other is asked:
    /// over AWS IoT where that can tell all there is to know and there is a client, and
    /// else over the Platform API.
    pub proof fn every_command_is_confirmed(&self, id: Seq<char>, now: Timestamp)
        ensures
            !self.devices.has(id) ==> self.after_control(id, now) is Nothing,
            self.devices.has(id) ==> {
                let device = self.devices.at(id);
                let fresh = device.last_ble_device_status_update matches Some(updated) && now.since(
                    updated,
                ) < 15_000_000_000;
                &&& self.after_control(id, now) is Nothing <==> fresh || device.lan_device is Some
                &&& self.after_control(id, now) is ReadBackViaIot <==> !fresh
                    && device.lan_device is None && device.iot_pollable() && self.iot_client is Some
                &&& self.after_control(id, now) is ReadBackViaPlatform <==> !fresh
                    && device.lan_device is None && !(device.iot_pollable()
                    && self.iot_client is Some)
            },
    {
    }

    /// A colour or a temperature ends the scene of its device, and a scene is the one
    /// that was asked for from then on. No other operation has a say in it, and no
    /// other device is touched.
    pub proof fn an_operation_sets_or_ends_the_scene(
        &self,
        sku: Seq<char>,
        id: Seq<char>,
        op: DeviceOp,
        after: State,
        other: Seq<char>,
    )
        requires
            self.takes_op(sku, id, op, after),
        ensures
            op is SetColorRgb || op is SetColorTemperature ==> after.devices.has(id)
                && after.devices.at(id).active_scene is None,
            op matches DeviceOp::SetScene(scene) ==> after.devices.has(id) && (after.devices.at(
                id,
            ).active_scene matches Some(info) && info.name@ == scene@),
            !(op is SetColorRgb) && !(op is SetColorTemperature) && !(op is SetScene) ==> after
                == *self,
            self.devices.has(id) && after.devices.has(id) ==> after.devices.at(id) == (Device {
                active_scene: after.devices.at(id).active_scene,
                ..self.devices.at(id)
            }),
            other != id ==> after.devices.has(other) == self.devices.has(other),
            other != id && self.devices.has(other) ==> after.devices.at(other)
                == self.devices.at(other),
    {
    }

    /// What follows a command. Every command is followed by a read-back over the
    /// channel that the device is reachable on, because neither cloud path
    /// confirms that the device acted. A Bluetooth session reads back what it
    /// changed, and the LAN verifies its own writes.
    pub fn poll_after_control(&self, id: &str, now: Timestamp) -> (r: AfterControl)
        requires
            self.devices.wf(),
        ensures
            r == self.after_control(id@, now),
    {
        match self.device_by_id(id) {
            Some(device) => {
                if device.has_fresh_ble_state_at(now, FRESH_BLE_SECS) {
                    return AfterControl::Nothing;
                }
                if device.pollable_via_lan() {
                    return AfterControl::Nothing;
                }
                if device.pollable_via_iot() && self.iot_client.is_some() {
                    return AfterControl::ReadBackViaIot;
                }
                AfterControl::ReadBackViaPlatform
            },
            None => AfterControl::Nothing,
        }
    }

    // --------------------------------------------------------------- operations

    pub open spec fn override_order(&self) -> Option<Seq<TransportId>> {
        match self.transport_order {
            Some(order) => Some(order@),
            None => None,
        }
    }

    /// Starts a run of an operation over the transports.
    pub fn execute_op(&self, op: &DeviceOp) -> (r: Router)
        ensures
            r.wf(),
            r.at == 0,
            r.order@ == transport::order_of(op.default_order(), self.override_order()),
    {
        match &self.transport_order {
            Some(order) => execute_op(op, Some(order.as_slice())),
            None => execute_op(op, None),
        }
    }

    /// Starts a run of several operations as one unit, so a transport that can
    /// batch them does; there is nothing to do for none.
    pub fn execute_ops(&self, ops: &[DeviceOp]) -> (r: Option<Router>)
        ensures
            match r {
                Some(router) => {
                    &&& ops@.len() > 0
                    &&& router.wf()
                    &&& router.at == 0
                    &&& router.order@ == transport::order_of(
                        ops@[0].default_order(),
                        self.override_order(),
                    )
                },
                None => ops@.len() == 0,
            },
    {
        match &self.transport_order {
            Some(order) => execute_ops(ops, Some(order.as_slice())),
            None => execute_ops(ops, None),
        }
    }

    /// Whether `after` is this state once an operation was carried out: a colour
    /// ends the scene, and a scene is the active one from then on.
    pub open spec fn takes_op(
        &self,
        sku: Seq<char>,
        id: Seq<char>,
        op: DeviceOp,
        after: State,
    ) -> bool {
        &&& after == (State { devices: after.devices, ..*self })
        &&& match op {
            DeviceOp::SetColorRgb { .. } | DeviceOp::SetColorTemperature(_) => exists|
                device: Device,
            | #[trigger]
                self.device_or_new(sku, id, device) && self.devices.with(
                    id,
                    (Device { active_scene: None, ..device }),
                    &after.devices,
                ),
            DeviceOp::SetScene(scene) => exists|device: Device, set: Device|
                #![trigger self.device_or_new(sku, id, device), self.devices.with(id, set, &after.devices)]
                {
                    &&& self.device_or_new(sku, id, device)
                    &&& self.devices.with(id, set, &after.devices)
                    &&& set == (Device { active_scene: set.active_scene, ..device })
                    &&& set.active_scene matches Some(info) && info.name@ == scene@ && (
                        info.color,
                        info.kelvin,
                    ) == device.shown()
                },
            _ => after == *self,
        }
    }

    /// Bookkeeping that is a property of the operation rather than of the
    /// transport that carried it.
    pub fn apply_op_side_effects(&mut self, sku: &str, id: &str, op: &DeviceOp)
        requires
            old(self).wf(),
        ensures
            final(self).wf(),
            old(self).takes_op(sku@, id@, *op, *final(self)),
    {
        match op {
            DeviceOp::SetColorRgb { .. } | DeviceOp::SetColorTemperature(_) => {
                let device = self.device_mut(sku, id);
                let ghost before = *device;
                assert(old(self).device_or_new(sku@, id@, before));
                device.set_active_scene(None);
            },
            DeviceOp::SetScene(scene) => {
                let device = self.device_mut(sku, id);
                let ghost before = *device;
                assert(old(self).device_or_new(sku@, id@, before));
                device.set_active_scene(Some(scene.as_str()));
            },
            _ => {},
        }
    }

    /// The same for operations that were carried out as one unit, one after the
    /// other.
    pub fn apply_ops_side_effects(&mut self, sku: &str, id: &str, ops: &[DeviceOp])
        requires
            old(self).wf(),
        ensures
            final(self).wf(),
            exists|states: Seq<State>| #[trigger]
                took_ops(states, sku@, id@, ops@) && states[0] == *old(self) && states.last()
                    == *final(self),
    {
        let ghost mut states: Seq<State> = seq![*self];
        for i in 0..ops.len()
            invariant
                self.wf(),
                took_ops(states, sku@, id@, ops@.take(i as int)),
                states[0] == *old(self),
                states.last() == *self,
        {
            let ghost earlier = states;
            self.apply_op_side_effects(sku, id, &ops[i]);
            proof {
                states = states.push(*self);
                let done = ops@.take(i + 1);
                assert forall|j: int| 0 <= j < done.len() implies (#[trigger] states[j]).takes_op(
                    sku@,
                    id@,
                    done[j],
                    states[j + 1],
                ) by {
                    if j < i {
                        assert(earlier[j].takes_op(
                            sku@,
                            id@,
                            ops@.take(i as int)[j],
                            earlier[j + 1],
                        ));
                    }
                }
            }
        }
        assert(ops@.take(ops@.len() as int) =~= ops@);
    }

    /// The device of that id, or a new one.
    pub open spec fn device_or_new(&self, sku: Seq<char>, id: Seq<char>, device: Device) -> bool {
        if self.devices.has(id) {
            device == self.devices.at(id)
        } else {
            is_new_device(device, sku, id)
        }
    }

    /// What a control request of the Platform API is sent for; it can be sent
    /// where there is a client and the account lists the device.
    pub fn device_control(client_available: bool, device: &Device) -> (r: Result<
        &HttpDeviceInfo,
        String,
    >)
        ensures
            match r {
                Ok(info) => client_available && device.http_device_info == Some(*info),
                Err(message) => (!client_available || device.http_device_info is None) && message@
                    == "Unable to use Platform API to control "@ + device.label_text(),
            },
    {
        if client_available {
            if let Some(info) = &device.http_device_info {
                return Ok(info);
            }
        }
        let mut message = "Unable to use Platform API to control ".to_owned();
        append_str(&mut message, device.label().as_str());
        Err(message)
    }

    /// The device whose state is published after a change.
    pub fn notify_of_state_change(&self, device_id: &str) -> (r: Result<&Device, String>)
        requires
            self.devices.wf(),
        ensures
            match r {
                Ok(device) => self.devices.has(device_id@) && *device == self.devices.at(device_id@),
                Err(message) => !self.devices.has(device_id@) && message@ == "cannot find device "@
                    + device_id@ + "!?"@,
            },
    {
        match self.device_by_id(device_id) {
            Some(device) => Ok(device),
            None => {
                let mut message = "cannot find device ".to_owned();
                append_str(&mut message, device_id);
                append_str(&mut message, "!?");
                Err(message)
            },
        }
    }

    /// The scenes of a device: those that the Platform API names, where there is
    /// an answer of it for a device that the account lists, else those of the
    /// catalogue, else none.
    pub fn device_list_scenes<E>(
        device: &Device,
        platform: Option<Result<Vec<String>, E>>,
        catalogue: Option<Vec<SceneCategory>>,
    ) -> (r: Result<Vec<String>, E>)
        ensures
            lists_scenes(*device, platform, catalogue, r),
            match (device.http_device_info, platform, catalogue) {
                (Some(_), Some(Ok(names)), _) => r matches Ok(scenes) && scenes@ == without_repeats(
                    stably_sorted(names@),
                ),
                (Some(_), Some(Err(err)), _) => r == Err::<Vec<String>, E>(err),
                (_, _, Some(categories)) => r matches Ok(scenes) && scenes@ == without_repeats(
                    stably_sorted(selectable_names(all_scenes(categories@))),
                ),
                _ => r matches Ok(scenes) && scenes@.len() == 0,
            },
    {
        if device.http_device_info.is_some() {
            if let Some(answer) = platform {
                return match answer {
                    Ok(names) => Ok(sort_and_dedup_scenes(names)),
                    Err(err) => Err(err),
                };
            }
        }
        match catalogue {
            Some(categories) => Ok(scene_names(&categories)),
            None => Ok(Vec::new()),
        }
    }

    pub fn device_light_power_on(on: bool) -> (r: DeviceOp)
        ensures
            is_wish(r, PendingOps { power: Some(on), ..PendingOps::nothing() }),
            r == DeviceOp::LightPowerOn(on),
    {
        DeviceOp::LightPowerOn(on)
    }

    /// What is reported when no transport could switch the light of a device.
    /// "We don't understand this device" is far more actionable than "no
    /// transport available".
    pub fn light_power_error(device: &Device, err: String) -> (r: String)
        ensures
            match device.light_toggle() {
                Some(_) => r@ == err@,
                None => r@ == unknown_toggle_text(*device),
            },
    {
        match device.get_light_power_toggle_instance_name() {
            Some(_) => err,
            None => {
                let mut message = "Don't know how to toggle just the light portion of ".to_owned();
                append_str(&mut message, device.label().as_str());
                append_str(
                    &mut message,
                    ". Please share the device metadata and state if you report this issue",
                );
                message
            },
        }
    }

    pub fn device_power_on(on: bool) -> (r: DeviceOp)
        ensures
            is_wish(r, PendingOps { power: Some(on), ..PendingOps::nothing() }),
            r == DeviceOp::PowerOn(on),
    {
        DeviceOp::PowerOn(on)
    }

    pub fn device_set_brightness(percent: u8) -> (r: DeviceOp)
        ensures
            is_wish(r, PendingOps { brightness: Some(percent), ..PendingOps::nothing() }),
            r == DeviceOp::SetBrightness(percent),
    {
        DeviceOp::SetBrightness(percent)
    }

    pub fn device_set_color_temperature(kelvin: u32) -> (r: DeviceOp)
        ensures
            kelvin <= u16::MAX ==> is_wish(
                r,
                PendingOps { kelvin: Some(kelvin as u16), ..PendingOps::nothing() },
            ),
            r == DeviceOp::SetColorTemperature(kelvin),
    {
        DeviceOp::SetColorTemperature(kelvin)
    }

    pub fn humidifier_set_parameter(work_mode: i64, value: i64) -> (r: DeviceOp)
        ensures
            r == (DeviceOp::SetHumidifierParameter { work_mode, value }),
    {
        DeviceOp::SetHumidifierParameter { work_mode, value }
    }

    pub fn device_set_color_rgb(r: u8, g: u8, b: u8) -> (op: DeviceOp)
        ensures
            is_wish(op, PendingOps { color: Some((r, g, b)), ..PendingOps::nothing() }),
            op == (DeviceOp::SetColorRgb { r, g, b }),
    {
        DeviceOp::SetColorRgb { r, g, b }
    }

    pub fn device_set_target_temperature(instance: &str, target: TemperatureValue) -> (r: DeviceOp)
        ensures
            r matches DeviceOp::SetTargetTemperature { instance: i, target: t } && i@ == instance@
                && t == target,
    {
        DeviceOp::SetTargetTemperature { instance: instance.to_owned(), target }
    }

    pub fn device_set_scene(scene: &str) -> (r: DeviceOp)
        ensures
            r matches DeviceOp::SetScene(s) && s@ == scene@,
    {
        DeviceOp::SetScene(scene.to_owned())
    }
}

/// Whether a light that is asked for an operation, and for nothing else, is to become
/// so.
pub open spec fn is_wish(op: DeviceOp, wanted: PendingOps) -> bool {
    PendingOps::nothing().merged(op) == Ok::<PendingOps, MergeError>(wanted)
}

/// An operation asks for one attribute, and for its value as it was given.
pub proof fn a_wish_is_one_operation(op: DeviceOp, wanted: PendingOps)
    requires
        is_wish(op, wanted),
    ensures
        wanted.power is Some <==> op is PowerOn || op is LightPowerOn,
        wanted.brightness is Some <==> op is SetBrightness,
        wanted.color is Some <==> op is SetColorRgb,
        wanted.kelvin is Some <==> op is SetColorTemperature,
        op matches DeviceOp::PowerOn(on) ==> wanted.power == Some(on),
        op matches DeviceOp::LightPowerOn(on) ==> wanted.power == Some(on),
        op matches DeviceOp::SetBrightness(percent) ==> wanted.brightness == Some(percent),
        op matches DeviceOp::SetColorTemperature(kelvin) ==> wanted.kelvin == Some(kelvin as u16)
            && kelvin <= u16::MAX,
        op matches DeviceOp::SetColorRgb { r, g, b } ==> wanted.color == Some((r, g, b)),
{
}

/// Whether these are the scenes of a device, given what the Platform API answered and
/// what the catalogue holds.
pub open spec fn lists_scenes<E>(
    device: Device,
    platform: Option<Result<Vec<String>, E>>,
    catalogue: Option<Vec<SceneCategory>>,
    scenes: Result<Vec<String>, E>,
) -> bool {
    match (device.http_device_info, platform, catalogue) {
        (Some(_), Some(Ok(names)), _) => scenes is Ok && scenes->Ok_0@ == without_repeats(
            stably_sorted(names@),
        ),
        (Some(_), Some(Err(err)), _) => scenes == Err::<Vec<String>, E>(err),
        (_, _, Some(categories)) => scenes is Ok && scenes->Ok_0@ == without_repeats(
            stably_sorted(selectable_names(all_scenes(categories@))),
        ),
        _ => scenes is Ok && scenes->Ok_0@.len() == 0,
    }
}

/// The answer of the Platform API counts for a device that the account lists, even an
/// error, and whatever the catalogue holds. Every scene that it names is offered, and
/// no other; without an answer, every scene of the catalogue that has a code is. None
/// is offered twice, and they are in order.
pub proof fn who_names_the_scenes<E>(
    device: Device,
    platform: Option<Result<Vec<String>, E>>,
    catalogue: Option<Vec<SceneCategory>>,
    scenes: Result<Vec<String>, E>,
    name: Seq<char>,
)
    requires
        lists_scenes(device, platform, catalogue, scenes),
    ensures
        scenes is Err <==> device.http_device_info is Some && platform is Some
            && platform->0 is Err,
        scenes is Err ==> scenes->Err_0 == platform->0->Err_0,
        device.http_device_info is Some && platform is Some && platform->0 is Ok ==> ((exists|
            i: int,
        |
            0 <= i < scenes->Ok_0@.len() && (#[trigger] scenes->Ok_0@[i])@ == name) <==> (exists|
            i: int,
        | 0 <= i < platform->0->Ok_0@.len() && (#[trigger] platform->0->Ok_0@[i])@ == name)),
        (device.http_device_info is None || platform is None) && catalogue is None
            ==> scenes->Ok_0@.len() == 0,
        (device.http_device_info is None || platform is None) && catalogue is Some
            ==> scenes->Ok_0@ == without_repeats(
            stably_sorted(selectable_names(all_scenes(catalogue->0@))),
        ),
{
    if device.http_device_info is Some && platform is Some && platform->0 is Ok {
        let names = platform->0->Ok_0@;
        let sorted = stably_sorted(names);
        no_name_is_lost(sorted, name);
        sorting_is_a_permutation(names);
        names.to_multiset_ensures();
        sorted.to_multiset_ensures();
        if exists|i: int| 0 <= i < names.len() && (#[trigger] names[i])@ == name {
            let i = choose|i: int| 0 <= i < names.len() && (#[trigger] names[i])@ == name;
            assert(names.contains(names[i]));
            assert(names.to_multiset().count(names[i]) > 0);
            assert(sorted.contains(names[i]));
        }
        if exists|i: int| 0 <= i < sorted.len() && (#[trigger] sorted[i])@ == name {
            let i = choose|i: int| 0 <= i < sorted.len() && (#[trigger] sorted[i])@ == name;
            assert(sorted.contains(sorted[i]));
            assert(sorted.to_multiset().count(sorted[i]) > 0);
            assert(names.contains(sorted[i]));
        }
    }
}

/// Every scene of every category is in the catalogue.
pub proof fn every_category_counts(categories: Seq<SceneCategory>, c: int, i: int)
    requires
        0 <= c < categories.len(),
        0 <= i < categories[c].scenes@.len(),
    ensures
        all_scenes(categories).contains(categories[c].scenes@[i]),
    decreases categories.len(),
{
    let before = all_scenes(categories.drop_last());
    let last = categories.last().scenes@;
    if c == categories.len() - 1 {
        assert((before + last)[before.len() + i] == categories[c].scenes@[i]);
    } else {
        every_category_counts(categories.drop_last(), c, i);
        let k = choose|k: int| 0 <= k < before.len() && before[k] == categories[c].scenes@[i];
        assert((before + last)[k] == before[k]);
    }
}

/// Names are ordered without regard to the case of their letters.
pub proof fn case_does_not_count_in_the_order(names: Seq<String>, i: int, j: int)
    requires
        in_order(names),
        0 <= i < j < names.len(),
    ensures
        not_after(text::ascii_lowercase(names[i]@), text::ascii_lowercase(names[j]@)),
{
}

/// Whether the operations lead from each of the states to the next.
pub open spec fn took_ops(
    states: Seq<State>,
    sku: Seq<char>,
    id: Seq<char>,
    ops: Seq<DeviceOp>,
) -> bool {
    &&& states.len() == ops.len() + 1
    &&& forall|i: int|
        0 <= i < ops.len() ==> (#[trigger] states[i]).takes_op(sku, id, ops[i], states[i + 1])
}

// -------------------------------------------------------------------------- scenes

/// A scene of the catalogue: its name, and the codes of its light effects.
#[derive(Debug)]
pub struct SceneEntry {
    pub scene_name: String,
    pub scene_codes: Vec<u64>,
}

/// Whether a scene has an effect that can be selected.
pub open spec fn is_selectable(scene: SceneEntry) -> bool {
    exists|i: int| 0 <= i < scene.scene_codes@.len() && #[trigger] scene.scene_codes@[i] != 0
}

/// The names of the scenes that can be selected.
pub open spec fn selectable_names(scenes: Seq<SceneEntry>) -> Seq<String>
    decreases scenes.len(),
{
    if scenes.len() == 0 {
        Seq::<String>::empty()
    } else {
        let before = selectable_names(scenes.drop_last());
        if is_selectable(scenes.last()) {
            before.push(scenes.last().scene_name)
        } else {
            before
        }
    }
}

fn selectable(scene: &SceneEntry) -> (r: bool)
    ensures
        r == is_selectable(*scene),
{
    for i in 0..scene.scene_codes.len()
        invariant
            forall|j: int| 0 <= j < i ==> #[trigger] scene.scene_codes@[j] == 0,
    {
        if scene.scene_codes[i] != 0 {
            return true;
        }
    }
    false
}

/// A category of the catalogue.
#[derive(Debug)]
pub struct SceneCategory {
    pub scenes: Vec<SceneEntry>,
}

/// The scenes of all categories, one category after the other.
pub open spec fn all_scenes(categories: Seq<SceneCategory>) -> Seq<SceneEntry>
    decreases categories.len(),
{
    if categories.len() == 0 {
        Seq::<SceneEntry>::empty()
    } else {
        all_scenes(categories.drop_last()) + categories.last().scenes@
    }
}

/// The names of the scenes of a catalogue, sorted and without repetition.
pub fn scene_names(categories: &Vec<SceneCategory>) -> (r: Vec<String>)
    ensures
        r@ == without_repeats(stably_sorted(selectable_names(all_scenes(categories@)))),
{
    let mut names: Vec<String> = Vec::new();
    assert(names@ =~= selectable_names(all_scenes(categories@.take(0))));
    for c in 0..categories.len()
        invariant
            names@ == selectable_names(all_scenes(categories@.take(c as int))),
    {
        let scenes = &categories[c].scenes;
        let ghost before = all_scenes(categories@.take(c as int));
        assert(before + scenes@.take(0) =~= before);
        for i in 0..scenes.len()
            invariant
                names@ == selectable_names(before + scenes@.take(i as int)),
        {
            let ghost upto = before + scenes@.take(i + 1);
            assert(upto.drop_last() =~= before + scenes@.take(i as int));
            assert(upto.last() == scenes@[i as int]);
            if selectable(&scenes[i]) {
                names.push(scenes[i].scene_name.clone());
            }
        }
        assert(scenes@.take(scenes@.len() as int) =~= scenes@);
        assert(categories@.take(c + 1).drop_last() =~= categories@.take(c as int));
    }
    assert(categories@.take(categories@.len() as int) =~= categories@);
    sort_and_dedup_scenes(names)
}

/// Whether a text comes before another, or is the same: by the first character
/// in which they differ.
pub open spec fn not_after(a: Seq<char>, b: Seq<char>) -> bool
    decreases a.len(),
{
    if a.len() == 0 {
        true
    } else if b.len() == 0 {
        false
    } else if a[0] != b[0] {
        a[0] < b[0]
    } else {
        not_after(a.skip(1), b.skip(1))
    }
}

/// What scenes are sorted by.
pub open spec fn sort_key(name: String) -> Seq<char> {
    text::ascii_lowercase(name@)
}

/// The list with a name put in its place: behind all those that do not come
/// after it.
pub open spec fn placed(sorted: Seq<String>, name: String) -> Seq<String>
    decreases sorted.len(),
{
    if sorted.len() == 0 || not_after(sort_key(sorted.last()), sort_key(name)) {
        sorted.push(name)
    } else {
        placed(sorted.drop_last(), name).push(sorted.last())
    }
}

/// The names in order; names of the same key keep theirs.
pub open spec fn stably_sorted(names: Seq<String>) -> Seq<String>
    decreases names.len(),
{
    if names.len() == 0 {
        names
    } else {
        placed(stably_sorted(names.drop_last()), names.last())
    }
}

/// The names without those that repeat the one before.
pub open spec fn without_repeats(names: Seq<String>) -> Seq<String>
    decreases names.len(),
{
    if names.len() == 0 {
        names
    } else {
        let before = without_repeats(names.drop_last());
        if before.len() > 0 && before.last()@ == names.last()@ {
            before
        } else {
            before.push(names.last())
        }
    }
}

/// The list is in order.
pub open spec fn in_order(names: Seq<String>) -> bool {
    forall|i: int, j: int|
        0 <= i < j < names.len() ==> not_after(
            sort_key(#[trigger] names[i]),
            sort_key(#[trigger] names[j]),
        )
}

proof fn order_is_total(a: Seq<char>, b: Seq<char>)
    ensures
        not_after(a, b) || not_after(b, a),
    decreases a.len(),
{
    if a.len() > 0 && b.len() > 0 && a[0] == b[0] {
        order_is_total(a.skip(1), b.skip(1));
    }
}

proof fn order_is_transitive(a: Seq<char>, b: Seq<char>, c: Seq<char>)
    requires
        not_after(a, b),
        not_after(b, c),
    ensures
        not_after(a, c),
    decreases a.len(),
{
    if a.len() > 0 && b.len() > 0 && c.len() > 0 && a[0] == b[0] && b[0] == c[0] {
        order_is_transitive(a.skip(1), b.skip(1), c.skip(1));
    }
}

proof fn placing_keeps_order(sorted: Seq<String>, name: String)
    requires
        in_order(sorted),
    ensures
        in_order(placed(sorted, name)),
        placed(sorted, name).len() == sorted.len() + 1,
        placed(sorted, name).to_multiset() == sorted.to_multiset().insert(name),
        forall|i: int|
            0 <= i < placed(sorted, name).len() ==> (#[trigger] placed(sorted, name)[i] == name
                || sorted.contains(placed(sorted, name)[i])),
    decreases sorted.len(),
{
    broadcast use vstd::seq_lib::group_to_multiset_ensures;

    let after = placed(sorted, name);
    if sorted.len() == 0 || not_after(sort_key(sorted.last()), sort_key(name)) {
        assert forall|i: int, j: int| 0 <= i < j < after.len() implies not_after(
            sort_key(#[trigger] after[i]),
            sort_key(#[trigger] after[j]),
        ) by {
            if j == sorted.len() {
                if i < sorted.len() - 1 {
                    assert(not_after(sort_key(sorted[i]), sort_key(sorted[sorted.len() - 1])));
                    order_is_transitive(
                        sort_key(sorted[i]),
                        sort_key(sorted.last()),
                        sort_key(name),
                    );
                }
            } else {
                assert(not_after(sort_key(sorted[i]), sort_key(sorted[j])));
            }
        }
        assert forall|i: int| 0 <= i < after.len() implies (#[trigger] after[i] == name
            || sorted.contains(after[i])) by {
            if i < sorted.len() {
                assert(sorted[i] == after[i]);
            }
        }
    } else {
        let head = sorted.drop_last();
        assert(in_order(head)) by {
            assert forall|i: int, j: int| 0 <= i < j < head.len() implies not_after(
                sort_key(#[trigger] head[i]),
                sort_key(#[trigger] head[j]),
            ) by {
                assert(not_after(sort_key(sorted[i]), sort_key(sorted[j])));
            }
        }
        placing_keeps_order(head, name);
        let inner = placed(head, name);
        order_is_total(sort_key(sorted.last()), sort_key(name));
        assert forall|i: int, j: int| 0 <= i < j < after.len() implies not_after(
            sort_key(#[trigger] after[i]),
            sort_key(#[trigger] after[j]),
        ) by {
            if j == inner.len() {
                assert(after[i] == inner[i]);
                if inner[i] != name {
                    let k = choose|k: int| 0 <= k < head.len() && head[k] == inner[i];
                    assert(not_after(sort_key(sorted[k]), sort_key(sorted[sorted.len() - 1])));
                }
            } else {
                assert(not_after(sort_key(inner[i]), sort_key(inner[j])));
            }
        }
        assert forall|i: int| 0 <= i < after.len() implies (#[trigger] after[i] == name
            || sorted.contains(after[i])) by {
            if i < inner.len() {
                if inner[i] != name {
                    let k = choose|k: int| 0 <= k < head.len() && head[k] == inner[i];
                    assert(sorted[k] == after[i]);
                }
            } else {
                assert(sorted[sorted.len() - 1] == after[i]);
            }
        }
        assert(sorted =~= head.push(sorted.last()));
        assert(after.to_multiset() =~= sorted.to_multiset().insert(name));
    }
}

/// Sorting puts the names in order and neither adds nor loses one.
pub proof fn sorting_is_a_permutation(names: Seq<String>)
    ensures
        in_order(stably_sorted(names)),
        stably_sorted(names).to_multiset() == names.to_multiset(),
    decreases names.len(),
{
    broadcast use vstd::seq_lib::group_to_multiset_ensures;

    if names.len() > 0 {
        sorting_is_a_permutation(names.drop_last());
        placing_keeps_order(stably_sorted(names.drop_last()), names.last());
        assert(names =~= names.drop_last().push(names.last()));
    }
}

/// Every name of a list is still in it once repetitions are gone, and none was added.
pub proof fn no_name_is_lost(names: Seq<String>, name: Seq<char>)
    ensures
        (exists|i: int| 0 <= i < names.len() && (#[trigger] names[i])@ == name) <==> (exists|k: int|
            0 <= k < without_repeats(names).len() && (#[trigger] without_repeats(names)[k])@
                == name),
        without_repeats(names).len() > 0 && names.len() > 0 ==> without_repeats(names).last()@
            == names.last()@,
        names.len() > 0 ==> without_repeats(names).len() > 0,
    decreases names.len(),
{
    if names.len() > 0 {
        let head = names.drop_last();
        no_name_is_lost(head, name);
        let before = without_repeats(head);
        let after = without_repeats(names);
        if exists|i: int| 0 <= i < names.len() && (#[trigger] names[i])@ == name {
            let i = choose|i: int| 0 <= i < names.len() && (#[trigger] names[i])@ == name;
            if i < head.len() {
                assert(head[i]@ == name);
                let k = choose|k: int| 0 <= k < before.len() && (#[trigger] before[k])@ == name;
                assert(after[k]@ == name);
            } else {
                assert(after[after.len() - 1]@ == name);
            }
        }
        if exists|k: int| 0 <= k < after.len() && (#[trigger] after[k])@ == name {
            let k = choose|k: int| 0 <= k < after.len() && (#[trigger] after[k])@ == name;
            if k < before.len() {
                assert(before[k]@ == name);
                let i = choose|i: int| 0 <= i < head.len() && (#[trigger] head[i])@ == name;
                assert(names[i]@ == name);
            } else {
                assert(names[names.len() - 1]@ == name);
            }
        }
    }
}

/// No name stands next to itself once repetitions are gone.
pub proof fn no_name_is_repeated(names: Seq<String>, k: int)
    requires
        0 < k < without_repeats(names).len(),
    ensures
        without_repeats(names)[k - 1]@ != without_repeats(names)[k]@,
    decreases names.len(),
{
    let before = without_repeats(names.drop_last());
    if k < before.len() {
        no_name_is_repeated(names.drop_last(), k);
    }
}

/// A scene is offered by its name exactly if it has an effect with a code.
pub proof fn a_scene_with_a_code_is_offered(scenes: Seq<SceneEntry>, name: String)
    ensures
        selectable_names(scenes).contains(name) <==> exists|i: int|
            0 <= i < scenes.len() && (#[trigger] scenes[i]).scene_name == name && exists|k: int|
                0 <= k < scenes[i].scene_codes@.len() && #[trigger] scenes[i].scene_codes@[k] != 0,
    decreases scenes.len(),
{
    if scenes.len() > 0 {
        let head = scenes.drop_last();
        let before = selectable_names(head);
        let after = selectable_names(scenes);
        a_scene_with_a_code_is_offered(head, name);
        assert(scenes[scenes.len() - 1] == scenes.last());
        if after.contains(name) {
            let k = choose|k: int| 0 <= k < after.len() && after[k] == name;
            if k < before.len() {
                assert(before[k] == name);
                let i = choose|i: int|
                    0 <= i < head.len() && (#[trigger] head[i]).scene_name == name && exists|k: int|
                        0 <= k < head[i].scene_codes@.len() && #[trigger] head[i].scene_codes@[k]
                            != 0;
                assert(scenes[i] == head[i]);
            } else {
                assert(is_selectable(scenes[scenes.len() - 1]));
            }
        }
        if exists|i: int|
            0 <= i < scenes.len() && (#[trigger] scenes[i]).scene_name == name && exists|k: int|
                0 <= k < scenes[i].scene_codes@.len() && #[trigger] scenes[i].scene_codes@[k] != 0 {
            let i = choose|i: int|
                0 <= i < scenes.len() && (#[trigger] scenes[i]).scene_name == name && exists|k: int|
                    0 <= k < scenes[i].scene_codes@.len() && #[trigger] scenes[i].scene_codes@[k]
                        != 0;
            if i < head.len() {
                assert(head[i] == scenes[i]);
                assert(before.contains(name));
                let k = choose|k: int| 0 <= k < before.len() && before[k] == name;
                assert(after[k] == name);
            } else {
                assert(is_selectable(scenes.last()));
                assert(after[before.len() as int] == name);
            }
        }
    }
}

/// Names are in the order of their letters, whatever their case: a name that begins
/// another comes before it, and else the first letter in which they differ decides.
pub proof fn how_names_are_ordered(a: Seq<char>, b: Seq<char>, i: int)
    requires
        0 <= i <= a.len(),
        i <= b.len(),
        forall|k: int| 0 <= k < i ==> a[k] == b[k],
    ensures
        i == a.len() ==> not_after(a, b),
        i == b.len() && i < a.len() ==> !not_after(a, b),
        i < a.len() && i < b.len() && a[i] != b[i] ==> (not_after(a, b) <==> a[i] < b[i]),
    decreases i,
{
    if i > 0 {
        assert forall|k: int| 0 <= k < i - 1 implies a.skip(1)[k] == b.skip(1)[k] by {
            assert(a[k + 1] == b[k + 1]);
        }
        how_names_are_ordered(a.skip(1), b.skip(1), i - 1);
    }
}

/// Whether `a` does not come after `b`.
fn compare_texts(a: &[char], b: &[char]) -> (r: bool)
    ensures
        r == not_after(a@, b@),
{
    let mut i: usize = 0;
    assert(a@.skip(0) =~= a@ && b@.skip(0) =~= b@);
    while i < a.len() && i < b.len() && a[i] == b[i]
        invariant
            i <= a@.len(),
            i <= b@.len(),
            not_after(a@, b@) == not_after(a@.skip(i as int), b@.skip(i as int)),
        decreases a@.len() - i,
    {
        assert(a@.skip(i as int).skip(1) =~= a@.skip(i + 1));
        assert(b@.skip(i as int).skip(1) =~= b@.skip(i + 1));
        i = i + 1;
    }
    if i >= a.len() {
        true
    } else if i >= b.len() {
        false
    } else {
        a[i] < b[i]
    }
}

fn key_of(name: &String) -> (r: Vec<char>)
    ensures
        r@ == sort_key(*name),
{
    let lower = to_ascii_lowercase(name.as_str());
    chars_of(lower.as_str())
}

/// Where a name belongs: behind all those that do not come after it.
fn place_of(sorted: &Vec<String>, name: &String) -> (r: usize)
    ensures
        r <= sorted@.len(),
        placed(sorted@, *name) == sorted@.insert(r as int, *name),
{
    let key = key_of(name);
    let mut at: usize = sorted.len();
    assert(sorted@.take(at as int) =~= sorted@);
    assert(sorted@.skip(at as int) =~= Seq::<String>::empty());
    assert(placed(sorted@, *name) =~= placed(sorted@.take(at as int), *name) + sorted@.skip(
        at as int,
    ));
    let mut found = false;
    while at > 0 && !found
        invariant
            at <= sorted@.len(),
            key@ == sort_key(*name),
            placed(sorted@, *name) == placed(sorted@.take(at as int), *name) + sorted@.skip(
                at as int,
            ),
            found ==> at > 0 && not_after(sort_key(sorted@[at - 1]), key@),
        decreases at + (if found {
            0int
        } else {
            1int
        }),
    {
        let other = key_of(&sorted[at - 1]);
        if compare_texts(other.as_slice(), key.as_slice()) {
            found = true;
        } else {
            let ghost head = sorted@.take(at as int);
            assert(head.drop_last() =~= sorted@.take(at - 1));
            at = at - 1;
            assert(placed(sorted@, *name) =~= placed(sorted@.take(at as int), *name)
                + sorted@.skip(at as int));
        }
    }
    let ghost head = sorted@.take(at as int);
    assert(placed(head, *name) =~= head.push(*name)) by {
        if at > 0 {
            assert(head.last() == sorted@[at - 1]);
        }
    }
    assert(placed(sorted@, *name) =~= sorted@.insert(at as int, *name));
    at
}

/// Sorts scenes without telling ASCII case apart, and drops those that repeat
/// the one before.
pub fn sort_and_dedup_scenes(scenes: Vec<String>) -> (r: Vec<String>)
    ensures
        r@ == without_repeats(stably_sorted(scenes@)),
{
    let mut sorted: Vec<String> = Vec::new();
    assert(sorted@ =~= stably_sorted(scenes@.take(0)));
    for i in 0..scenes.len()
        invariant
            sorted@ == stably_sorted(scenes@.take(i as int)),
    {
        assert(scenes@.take(i + 1).drop_last() =~= scenes@.take(i as int));
        let name = scenes[i].clone();
        let at = place_of(&sorted, &name);
        sorted.insert(at, name);
    }
    assert(scenes@.take(scenes@.len() as int) =~= scenes@);
    let mut unique: Vec<String> = Vec::new();
    assert(unique@ =~= without_repeats(sorted@.take(0)));
    for i in 0..sorted.len()
        invariant
            unique@ == without_repeats(sorted@.take(i as int)),
    {
        assert(sorted@.take(i + 1).drop_last() =~= sorted@.take(i as int));
        let repeats = unique.len() > 0 && unique[unique.len() - 1] == sorted[i];
        if !repeats {
            unique.push(sorted[i].clone());
        }
    }
    assert(sorted@.take(sorted@.len() as int) =~= sorted@);
    unique
}

} // verus!
