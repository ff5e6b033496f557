//! The state of a device, as each source tells it.
use vstd::prelude::*;

use crate::ble::packets::NotifyHumidifierNightlightParams;
use crate::clock::{utc_now, Timestamp};
use crate::lan_api::{DeviceColor, DeviceStatus, LanDevice};
use crate::platform_api::{
    CapabilityValue, DeviceCapabilityState, DeviceType, HttpDeviceInfo, HttpDeviceState,
};
use crate::service::device::{ActiveSceneInfo, Device, DeviceState, UndocDeviceInfo};
use crate::text::str_eq;
use crate::undoc_api::DeviceEntry;

verus! {

/// The integer that the last capability of that name carries.
pub open spec fn last_integer(
    caps: Seq<DeviceCapabilityState>,
    instance: Seq<char>,
) -> Option<u32>
    decreases caps.len(),
{
    if caps.len() == 0 {
        None
    } else if caps.last().instance@ == instance && caps.last().state is Integer {
        Some(caps.last().state->Integer_0)
    } else {
        last_integer(caps.drop_last(), instance)
    }
}

/// The truth value that the last capability of that name carries.
pub open spec fn last_bool(caps: Seq<DeviceCapabilityState>, instance: Seq<char>) -> Option<bool>
    decreases caps.len(),
{
    if caps.len() == 0 {
        None
    } else if caps.last().instance@ == instance && caps.last().state is Bool {
        Some(caps.last().state->Bool_0)
    } else {
        last_bool(caps.drop_last(), instance)
    }
}

/// A colour as the Platform API packs it: red in bits 16 to 23, green in bits 8
/// to 15 and blue in bits 0 to 7.
pub open spec fn unpacked_color(value: u32) -> DeviceColor {
    DeviceColor {
        r: (value / 65536 % 256) as u8,
        g: (value / 256 % 256) as u8,
        b: (value % 256) as u8,
    }
}

/// The newer of two states; the second if they are of the same time.
pub open spec fn newer(one: Option<DeviceState>, other: Option<DeviceState>) -> Option<DeviceState> {
    match (one, other) {
        (Some(a), Some(b)) => if b.updated.before(a.updated) {
            Some(a)
        } else {
            Some(b)
        },
        (Some(a), None) => Some(a),
        (None, _) => other,
    }
}

fn newer_of(one: Option<DeviceState>, other: Option<DeviceState>) -> (r: Option<DeviceState>)
    ensures
        r == newer(one, other),
{
    match (one, other) {
        (Some(a), Some(b)) => if b.updated.is_before(&a.updated) {
            Some(a)
        } else {
            Some(b)
        },
        (Some(a), None) => Some(a),
        (None, other) => other,
    }
}

proof fn last_value_is_found(caps: Seq<DeviceCapabilityState>, at: int)
    requires
        0 <= at < caps.len(),
        forall|j: int|
            at < j < caps.len() ==> (#[trigger] caps[j]).instance@ != caps[at].instance@,
    ensures
        caps[at].state matches CapabilityValue::Integer(value) ==> last_integer(
            caps,
            caps[at].instance@,
        ) == Some(value),
        caps[at].state matches CapabilityValue::Bool(value) ==> last_bool(caps, caps[at].instance@)
            == Some(value),
    decreases caps.len(),
{
    let head = caps.drop_last();
    if at < head.len() {
        assert(caps[caps.len() - 1] == caps.last());
        assert forall|j: int| at < j < head.len() implies (#[trigger] head[j]).instance@
            != head[at].instance@ by {
            assert(caps[j] == head[j]);
        }
        last_value_is_found(head, at);
    }
}

proof fn nothing_is_found(caps: Seq<DeviceCapabilityState>, instance: Seq<char>)
    requires
        forall|j: int| 0 <= j < caps.len() ==> (#[trigger] caps[j]).instance@ != instance,
    ensures
        last_integer(caps, instance) is None,
        last_bool(caps, instance) is None,
    decreases caps.len(),
{
    if caps.len() > 0 {
        let head = caps.drop_last();
        assert(caps[caps.len() - 1] == caps.last());
        assert forall|j: int| 0 <= j < head.len() implies (#[trigger] head[j]).instance@
            != instance by {
            assert(caps[j] == head[j]);
        }
        nothing_is_found(head, instance);
    }
}

/// Whether two states are of one time and show the same colour and temperature.
spec fn looks_alike(one: Option<DeviceState>, other: Option<DeviceState>) -> bool {
    match (one, other) {
        (Some(a), Some(b)) => a.updated == b.updated && a.color == b.color && a.kelvin == b.kelvin,
        (None, None) => true,
        _ => false,
    }
}

proof fn newer_looks_alike(
    a: Option<DeviceState>,
    b: Option<DeviceState>,
    c: Option<DeviceState>,
    d: Option<DeviceState>,
)
    requires
        looks_alike(a, c),
        looks_alike(b, d),
    ensures
        looks_alike(newer(a, b), newer(c, d)),
{
}

impl Device {
    // ------------------------------------------------------------- computing

    pub open spec fn scene_name(&self) -> Option<String> {
        match self.active_scene {
            Some(info) => Some(info.name),
            None => None,
        }
    }

    fn copy_scene_name(&self) -> (r: Option<String>)
        ensures
            r == self.scene_name(),
    {
        match &self.active_scene {
            Some(info) => Some(info.name.clone()),
            None => None,
        }
    }

    /// A light's status, as seen by one source.
    pub open spec fn status_state(
        &self,
        status: DeviceStatus,
        light_on: Option<bool>,
        source: &'static str,
        updated: Timestamp,
    ) -> DeviceState {
        DeviceState {
            on: status.on,
            light_on,
            online: None,
            kelvin: status.color_temperature_kelvin,
            color: status.color,
            brightness: status.brightness,
            scene: self.scene_name(),
            source,
            updated,
        }
    }

    /// What Bluetooth tells. It says nothing about cloud connectivity, and
    /// claiming otherwise would make a locally reachable device look offline.
    pub open spec fn ble_state(&self) -> Option<DeviceState> {
        match (self.last_ble_device_status_update, self.ble_device_status) {
            (Some(updated), Some(status)) => Some(
                self.status_state(status, Some(status.on), "BLE", updated),
            ),
            _ => None,
        }
    }

    /// What AWS IoT tells. The light of a device that is something else is its
    /// nightlight.
    pub open spec fn iot_state(&self) -> Option<DeviceState> {
        match (self.last_iot_device_status_update, self.iot_device_status) {
            (Some(updated), Some(status)) => Some(
                self.status_state(
                    status,
                    if self.kind() is Light {
                        Some(status.on)
                    } else {
                        match self.nightlight_state {
                            Some(nightlight) => Some(nightlight.on),
                            None => None,
                        }
                    },
                    "AWS IoT API",
                    updated,
                ),
            ),
            _ => None,
        }
    }

    /// What the LAN tells; a device that speaks the LAN protocol is a light.
    pub open spec fn lan_state(&self) -> Option<DeviceState> {
        match (self.last_lan_device_status_update, self.lan_device_status) {
            (Some(updated), Some(status)) => Some(
                self.status_state(status, Some(status.on), "LAN API", updated),
            ),
            _ => None,
        }
    }

    /// What the Platform API tells: of each attribute the last capability that
    /// carries it.
    pub open spec fn http_state(&self) -> Option<DeviceState> {
        match (self.last_http_device_state_update, self.http_device_state) {
            (Some(updated), Some(state)) => Some(
                DeviceState {
                    on: last_integer(state.capabilities@, "powerSwitch"@) matches Some(v) && v != 0,
                    light_on: match self.light_toggle() {
                        Some(instance) => match last_integer(state.capabilities@, instance@) {
                            Some(v) => Some(v != 0),
                            None => None,
                        },
                        None => None,
                    },
                    online: last_bool(state.capabilities@, "online"@),
                    kelvin: match last_integer(state.capabilities@, "colorTemperatureK"@) {
                        Some(v) => v,
                        None => 0,
                    },
                    color: match last_integer(state.capabilities@, "colorRgb"@) {
                        Some(v) => unpacked_color(v),
                        None => DeviceColor::black(),
                    },
                    brightness: match last_integer(state.capabilities@, "brightness"@) {
                        Some(v) => (v % 256) as u8,
                        None => 0,
                    },
                    scene: self.scene_name(),
                    source: "PLATFORM API",
                    updated,
                },
            ),
            _ => None,
        }
    }

    /// The most recent of what the sources tell.
    pub open spec fn state(&self) -> Option<DeviceState> {
        newer(newer(newer(self.lan_state(), self.http_state()), self.iot_state()), self.ble_state())
    }

    pub fn compute_ble_device_state(&self) -> (r: Option<DeviceState>)
        ensures
            r == self.ble_state(),
    {
        match (&self.last_ble_device_status_update, &self.ble_device_status) {
            (Some(updated), Some(status)) => Some(
                DeviceState {
                    on: status.on,
                    light_on: Some(status.on),
                    online: None,
                    brightness: status.brightness,
                    color: status.color,
                    kelvin: status.color_temperature_kelvin,
                    scene: self.copy_scene_name(),
                    source: "BLE",
                    updated: *updated,
                },
            ),
            _ => None,
        }
    }

    pub fn compute_iot_device_state(&self) -> (r: Option<DeviceState>)
        ensures
            r == self.iot_state(),
    {
        match (&self.last_iot_device_status_update, &self.iot_device_status) {
            (Some(updated), Some(status)) => Some(
                DeviceState {
                    on: status.on,
                    light_on: if self.device_type().is_light() {
                        Some(status.on)
                    } else {
                        match &self.nightlight_state {
                            Some(nightlight) => Some(nightlight.on),
                            None => None,
                        }
                    },
                    online: None,
                    brightness: status.brightness,
                    color: status.color,
                    kelvin: status.color_temperature_kelvin,
                    scene: self.copy_scene_name(),
                    source: "AWS IoT API",
                    updated: *updated,
                },
            ),
            _ => None,
        }
    }

    pub fn compute_lan_device_state(&self) -> (r: Option<DeviceState>)
        ensures
            r == self.lan_state(),
    {
        match (&self.last_lan_device_status_update, &self.lan_device_status) {
            (Some(updated), Some(status)) => Some(
                DeviceState {
                    on: status.on,
                    light_on: Some(status.on),
                    online: None,
                    brightness: status.brightness,
                    color: status.color,
                    kelvin: status.color_temperature_kelvin,
                    scene: self.copy_scene_name(),
                    source: "LAN API",
                    updated: *updated,
                },
            ),
            _ => None,
        }
    }

    pub fn compute_http_device_state(&self) -> (r: Option<DeviceState>)
        ensures
            r == self.http_state(),
    {
        let updated: Timestamp = match &self.last_http_device_state_update {
            Some(updated) => *updated,
            None => return None,
        };
        let state = match &self.http_device_state {
            Some(state) => state,
            None => return None,
        };
        let caps = &state.capabilities;

        let mut online: Option<bool> = None;
        let mut on = false;
        let mut light_on: Option<bool> = None;
        let mut brightness: u8 = 0;
        let mut color = DeviceColor::default();
        let mut kelvin: u32 = 0;
        let light_instance = self.get_light_power_toggle_instance_name();
        proof {
            reveal_strlit("powerSwitch");
            reveal_strlit("colorRgb");
            reveal_strlit("brightness");
            reveal_strlit("colorTemperatureK");
            reveal_strlit("online");
            assert("powerSwitch"@.len() == 11 && "colorRgb"@.len() == 8 && "brightness"@.len() == 10
                && "colorTemperatureK"@.len() == 17 && "online"@.len() == 6);
        }

        for i in 0..caps.len()
            invariant
                "powerSwitch"@.len() == 11 && "colorRgb"@.len() == 8 && "brightness"@.len() == 10
                    && "colorTemperatureK"@.len() == 17 && "online"@.len() == 6,
                on == (last_integer(caps@.take(i as int), "powerSwitch"@) matches Some(v) && v != 0),
                light_on == match light_instance {
                    Some(instance) => match last_integer(caps@.take(i as int), instance@) {
                        Some(v) => Some(v != 0),
                        None => None,
                    },
                    None => None,
                },
                online == last_bool(caps@.take(i as int), "online"@),
                kelvin == match last_integer(caps@.take(i as int), "colorTemperatureK"@) {
                    Some(v) => v,
                    None => 0,
                },
                color == match last_integer(caps@.take(i as int), "colorRgb"@) {
                    Some(v) => unpacked_color(v),
                    None => DeviceColor::black(),
                },
                brightness == match last_integer(caps@.take(i as int), "brightness"@) {
                    Some(v) => (v % 256) as u8,
                    None => 0,
                },
        {
            assert(caps@.take(i + 1).drop_last() =~= caps@.take(i as int));
            assert(caps@.take(i + 1).last() == caps@[i as int]);
            let cap = &caps[i];
            match cap.state {
                CapabilityValue::Integer(value) => {
                    if let Some(instance) = light_instance {
                        if str_eq(instance, cap.instance.as_str()) {
                            light_on = Some(value != 0);
                        }
                    }
                    let name = cap.instance.as_str();
                    if str_eq(name, "powerSwitch") {
                        on = value != 0;
                    } else if str_eq(name, "colorRgb") {
                        color =
                        DeviceColor {
                            r: (value / 65536 % 256) as u8,
                            g: (value / 256 % 256) as u8,
                            b: (value % 256) as u8,
                        };
                    } else if str_eq(name, "brightness") {
                        brightness = (value % 256) as u8;
                    } else if str_eq(name, "colorTemperatureK") {
                        kelvin = value;
                    }
                },
                CapabilityValue::Bool(value) => {
                    if str_eq(cap.instance.as_str(), "online") {
                        online = Some(value);
                    }
                },
                CapabilityValue::Other => {},
            }
        }
        assert(caps@.take(caps@.len() as int) =~= caps@);

        Some(
            DeviceState {
                on,
                light_on,
                online,
                brightness,
                color,
                kelvin,
                scene: self.copy_scene_name(),
                source: "PLATFORM API",
                updated,
            },
        )
    }

    /// Returns the most recently received state information
    pub fn device_state(&self) -> (r: Option<DeviceState>)
        ensures
            r == self.state(),
    {
        let local = newer_of(self.compute_lan_device_state(), self.compute_http_device_state());
        let cloud = newer_of(local, self.compute_iot_device_state());
        newer_of(cloud, self.compute_ble_device_state())
    }

    /// A source reports what it was told and when, attribute by attribute, and says
    /// nothing of a device that it was told nothing of. The scene is the one that
    /// was set. Of a device that is no light, AWS IoT knows its light by its
    /// nightlight.
    pub proof fn each_source_reports_what_it_was_told(&self)
        ensures
            self.lan_state() is Some <==> self.lan_device_status is Some
                && self.last_lan_device_status_update is Some,
            self.lan_state() matches Some(state) ==> {
                let told = self.lan_device_status->0;
                &&& state.on == told.on && state.light_on == Some(told.on)
                &&& state.brightness == told.brightness
                &&& state.color.r == told.color.r && state.color.g == told.color.g
                    && state.color.b == told.color.b
                &&& state.kelvin == told.color_temperature_kelvin
                &&& state.online is None
                &&& Some(state.updated) == self.last_lan_device_status_update
                &&& state.source@ == "LAN API"@
            },
            self.iot_state() is Some <==> self.iot_device_status is Some
                && self.last_iot_device_status_update is Some,
            self.iot_state() matches Some(state) ==> {
                let told = self.iot_device_status->0;
                &&& state.on == told.on
                &&& state.brightness == told.brightness
                &&& state.color.r == told.color.r && state.color.g == told.color.g
                    && state.color.b == told.color.b
                &&& state.kelvin == told.color_temperature_kelvin
                &&& state.online is None
                &&& Some(state.updated) == self.last_iot_device_status_update
                &&& self.kind() is Light ==> state.light_on == Some(told.on)
                &&& !(self.kind() is Light) ==> (state.light_on is Some
                    <==> self.nightlight_state is Some)
                &&& !(self.kind() is Light) && self.nightlight_state is Some ==> state.light_on
                    == Some(self.nightlight_state->0.on)
                &&& state.source@ == "AWS IoT API"@
            },
            self.ble_state() is Some <==> self.ble_device_status is Some
                && self.last_ble_device_status_update is Some,
            self.ble_state() matches Some(state) ==> {
                let told = self.ble_device_status->0;
                &&& state.on == told.on && state.light_on == Some(told.on)
                &&& state.brightness == told.brightness
                &&& state.color.r == told.color.r && state.color.g == told.color.g
                    && state.color.b == told.color.b
                &&& state.kelvin == told.color_temperature_kelvin
                &&& state.online is None
                &&& Some(state.updated) == self.last_ble_device_status_update
                &&& state.source@ == "BLE"@
            },
            self.http_state() is Some <==> self.http_device_state is Some
                && self.last_http_device_state_update is Some,
            self.http_state() matches Some(state) ==> Some(state.updated)
                == self.last_http_device_state_update && state.source@ == "PLATFORM API"@,
            self.state() matches Some(state) ==> match self.active_scene {
                Some(info) => state.scene matches Some(name) && name@ == info.name@,
                None => state.scene is None,
            },
    {
    }

    /// Of what the Platform API reports, the last value of a capability counts. A
    /// colour is packed as red, green and blue, a byte each, and of a brightness
    /// the low byte counts.
    pub proof fn the_last_report_of_a_capability_counts(&self, at: int)
        requires
            self.http_device_state is Some,
            self.last_http_device_state_update is Some,
            0 <= at < self.http_device_state->0.capabilities@.len(),
            ({
                let caps = self.http_device_state->0.capabilities@;
                forall|j: int|
                    at < j < caps.len() ==> (#[trigger] caps[j]).instance@ != caps[at].instance@
            }),
        ensures
            self.http_state() matches Some(state) && {
                let cap = self.http_device_state->0.capabilities@[at];
                &&& cap.state matches CapabilityValue::Integer(value) ==> {
                    &&& cap.instance@ == "powerSwitch"@ ==> (state.on <==> value != 0)
                    &&& cap.instance@ == "colorRgb"@ ==> state.color.r * 65536 + state.color.g * 256
                        + state.color.b == value % 16777216
                    &&& cap.instance@ == "brightness"@ ==> state.brightness == value % 256
                    &&& cap.instance@ == "colorTemperatureK"@ ==> state.kelvin == value
                    &&& self.kind() is Light && cap.instance@ == "powerSwitch"@ ==> state.light_on
                        == Some(value != 0)
                    &&& !(self.kind() is Light) && self.has_capability("nightlightToggle"@)
                        && cap.instance@ == "nightlightToggle"@ ==> state.light_on == Some(
                        value != 0,
                    )
                }
                &&& cap.state matches CapabilityValue::Bool(value) ==> (cap.instance@ == "online"@
                    ==> state.online == Some(value))
            },
    {
        let caps = self.http_device_state->0.capabilities@;
        let cap = caps[at];
        last_value_is_found(caps, at);
        if let CapabilityValue::Integer(value) = cap.state {
            let v = value as int;
            assert(v / 65536 % 256 * 65536 + v / 256 % 256 * 256 + v % 256 == v % 16777216);
        }
    }

    /// What no capability carries is not made up: the device is off, dark, black
    /// and of no temperature, and whether it is connected is not known.
    pub proof fn what_is_not_reported_is_not_made_up(&self, instance: Seq<char>)
        requires
            self.http_device_state is Some,
            self.last_http_device_state_update is Some,
            ({
                let caps = self.http_device_state->0.capabilities@;
                forall|j: int| 0 <= j < caps.len() ==> (#[trigger] caps[j]).instance@ != instance
            }),
        ensures
            self.http_state() matches Some(state) && {
                &&& instance == "powerSwitch"@ ==> !state.on
                &&& instance == "colorRgb"@ ==> state.color.r == 0 && state.color.g == 0
                    && state.color.b == 0
                &&& instance == "brightness"@ ==> state.brightness == 0
                &&& instance == "colorTemperatureK"@ ==> state.kelvin == 0
                &&& instance == "online"@ ==> state.online is None
                &&& self.kind() is Light && instance == "powerSwitch"@ ==> state.light_on is None
                &&& !(self.kind() is Light) && (instance == "nightlightToggle"@
                    || !self.has_capability("nightlightToggle"@)) ==> state.light_on is None
            },
    {
        nothing_is_found(self.http_device_state->0.capabilities@, instance);
    }

    /// A status that comes in is recorded with its time, and what other sources told
    /// is left alone. A scene ends exactly when the device shows another colour or
    /// temperature than it did when the scene was set.
    pub proof fn a_status_is_recorded(self, status: DeviceStatus, state: HttpDeviceState, now: Timestamp)
        ensures
            ({
                let after = self.with_lan_status(status, now);
                &&& after.lan_device_status == Some(status)
                &&& after.last_lan_device_status_update == Some(now)
                &&& after == (Device {
                    lan_device_status: Some(status),
                    last_lan_device_status_update: Some(now),
                    active_scene: after.active_scene,
                    ..self
                })
                &&& self.scene_lives_on(after)
            }),
            ({
                let after = self.with_iot_status(status, now);
                &&& after.iot_device_status == Some(status)
                &&& after.last_iot_device_status_update == Some(now)
                &&& after == (Device {
                    iot_device_status: Some(status),
                    last_iot_device_status_update: Some(now),
                    active_scene: after.active_scene,
                    ..self
                })
                &&& self.scene_lives_on(after)
            }),
            ({
                let after = self.with_ble_status(status, now);
                &&& after.ble_device_status == Some(status)
                &&& after.last_ble_device_status_update == Some(now)
                &&& after == (Device {
                    ble_device_status: Some(status),
                    last_ble_device_status_update: Some(now),
                    active_scene: after.active_scene,
                    ..self
                })
                &&& self.scene_lives_on(after)
            }),
            ({
                let after = self.with_http_state(state, now);
                &&& after.http_device_state == Some(state)
                &&& after.last_http_device_state_update == Some(now)
                &&& after == (Device {
                    http_device_state: Some(state),
                    last_http_device_state_update: Some(now),
                    active_scene: after.active_scene,
                    ..self
                })
                &&& self.scene_lives_on(after)
            }),
    {
        (Device {
            lan_device_status: Some(status),
            last_lan_device_status_update: Some(now),
            ..self
        }).a_scene_is_checked();
        (Device {
            iot_device_status: Some(status),
            last_iot_device_status_update: Some(now),
            ..self
        }).a_scene_is_checked();
        (Device {
            ble_device_status: Some(status),
            last_ble_device_status_update: Some(now),
            ..self
        }).a_scene_is_checked();
        (Device {
            http_device_state: Some(state),
            last_http_device_state_update: Some(now),
            ..self
        }).a_scene_is_checked();
    }

    proof fn a_scene_is_checked(self)
        ensures
            ({
                let after = self.scene_checked();
                &&& after == (Device { active_scene: after.active_scene, ..self })
                &&& self.scene_lives_on(after)
            }),
    {
        let bare = Device { active_scene: None, ..self };
        assert(bare.kind() == self.kind());
        assert(bare.light_toggle() == self.light_toggle());
        let one = newer(self.lan_state(), self.http_state());
        let other = newer(bare.lan_state(), bare.http_state());
        newer_looks_alike(
            self.lan_state(),
            self.http_state(),
            bare.lan_state(),
            bare.http_state(),
        );
        newer_looks_alike(one, self.iot_state(), other, bare.iot_state());
        newer_looks_alike(
            newer(one, self.iot_state()),
            self.ble_state(),
            newer(other, bare.iot_state()),
            bare.ble_state(),
        );
        assert(looks_alike(self.state(), bare.state()));
    }

    /// Whether the scene of this device is that of `after` exactly if `after` shows
    /// what the scene was set with, and is gone otherwise. What a device shows does
    /// not depend on its scene.
    pub open spec fn scene_lives_on(&self, after: Device) -> bool {
        match self.active_scene {
            Some(info) => if (after.state() matches Some(state) && state.color == info.color
                && state.kelvin == info.kelvin) || (after.state() is None && info.color
                == DeviceColor::black() && info.kelvin == 0) {
                after.active_scene == self.active_scene
            } else {
                after.active_scene is None
            },
            None => after.active_scene is None,
        }
    }

    /// Where two sources speak of the same moment, the more direct one is believed:
    /// Bluetooth before AWS IoT, that before the Platform API, and that before the
    /// LAN.
    pub proof fn a_tie_goes_to_the_later_source(&self)
        ensures
            self.ble_state() matches Some(s) ==> (self.lan_state() matches Some(o)
                ==> !s.updated.before(o.updated)) && (self.http_state() matches Some(o)
                ==> !s.updated.before(o.updated)) && (self.iot_state() matches Some(o)
                ==> !s.updated.before(o.updated)) ==> self.state() == Some(s),
            self.iot_state() matches Some(s) ==> (self.lan_state() matches Some(o)
                ==> !s.updated.before(o.updated)) && (self.http_state() matches Some(o)
                ==> !s.updated.before(o.updated)) && (self.ble_state() matches Some(o)
                ==> o.updated.before(s.updated)) ==> self.state() == Some(s),
            self.http_state() matches Some(s) ==> (self.lan_state() matches Some(o)
                ==> !s.updated.before(o.updated)) && (self.iot_state() matches Some(o)
                ==> o.updated.before(s.updated)) && (self.ble_state() matches Some(o)
                ==> o.updated.before(s.updated)) ==> self.state() == Some(s),
            self.lan_state() matches Some(s) ==> (self.http_state() matches Some(o)
                ==> o.updated.before(s.updated)) && (self.iot_state() matches Some(o)
                ==> o.updated.before(s.updated)) && (self.ble_state() matches Some(o)
                ==> o.updated.before(s.updated)) ==> self.state() == Some(s),
    {
    }

    /// The reported state is that of one source, and no source is newer.
    pub proof fn the_newest_source_wins(&self)
        ensures
            match self.state() {
                Some(state) => {
                    &&& Some(state) == self.lan_state() || Some(state) == self.http_state()
                        || Some(state) == self.iot_state() || Some(state) == self.ble_state()
                    &&& self.lan_state() matches Some(s) ==> !state.updated.before(s.updated)
                    &&& self.http_state() matches Some(s) ==> !state.updated.before(s.updated)
                    &&& self.iot_state() matches Some(s) ==> !state.updated.before(s.updated)
                    &&& self.ble_state() matches Some(s) ==> !state.updated.before(s.updated)
                },
                None => self.lan_state() is None && self.http_state() is None
                    && self.iot_state() is None && self.ble_state() is None,
            },
    {
    }

    // ----------------------------------------------------------------- scenes

    /// The colour and the temperature that the device shows.
    pub open spec fn shown(&self) -> (DeviceColor, u32) {
        match self.state() {
            Some(state) => (state.color, state.kelvin),
            None => (DeviceColor::black(), 0),
        }
    }

    fn currently_shown(&self) -> (r: (DeviceColor, u32))
        ensures
            r == self.shown(),
    {
        match self.device_state() {
            Some(state) => (state.color, state.kelvin),
            None => (DeviceColor::default(), 0),
        }
    }

    /// The device without its scene, unless it shows what it showed when the
    /// scene was set.
    pub open spec fn scene_checked(self) -> Device {
        match self.active_scene {
            Some(info) => if self.shown() != (info.color, info.kelvin) {
                Device { active_scene: None, ..self }
            } else {
                self
            },
            None => self,
        }
    }

    /// Records the active scene name
    pub fn set_active_scene(&mut self, scene: Option<&str>)
        ensures
            *final(self) == (Device { active_scene: final(self).active_scene, ..*old(self) }),
            match (scene, final(self).active_scene) {
                (None, None) => true,
                (Some(name), Some(info)) => {
                    &&& info.name@ == name@
                    &&& (info.color, info.kelvin) == old(self).shown()
                },
                _ => false,
            },
    {
        match scene {
            None => {
                self.active_scene = None;
            },
            Some(name) => {
                let (color, kelvin) = self.currently_shown();
                self.active_scene = Some(ActiveSceneInfo { name: name.to_owned(), color, kelvin });
            },
        }
    }

    pub fn clear_scene_if_color_changed(&mut self)
        ensures
            *final(self) == old(self).scene_checked(),
    {
        let keep = match &self.active_scene {
            Some(info) => {
                let (color, kelvin) = self.currently_shown();
                color == info.color && kelvin == info.kelvin
            },
            None => true,
        };
        if !keep {
            self.active_scene = None;
        }
    }

    // ---------------------------------------------------------------- setters

    pub open spec fn with_lan_status(self, status: DeviceStatus, now: Timestamp) -> Device {
        (Device {
            lan_device_status: Some(status),
            last_lan_device_status_update: Some(now),
            ..self
        }).scene_checked()
    }

    pub open spec fn with_iot_status(self, status: DeviceStatus, now: Timestamp) -> Device {
        (Device {
            iot_device_status: Some(status),
            last_iot_device_status_update: Some(now),
            ..self
        }).scene_checked()
    }

    pub open spec fn with_http_state(self, state: HttpDeviceState, now: Timestamp) -> Device {
        (Device {
            http_device_state: Some(state),
            last_http_device_state_update: Some(now),
            ..self
        }).scene_checked()
    }

    pub open spec fn with_undoc_info(self, info: UndocDeviceInfo, now: Timestamp) -> Device {
        (Device {
            undoc_device_info: Some(info),
            last_undoc_device_info_update: Some(now),
            ..self
        }).scene_checked()
    }

    pub fn set_last_polled(&mut self)
        ensures
            final(self).last_polled is Some,
            *final(self) == (Device { last_polled: final(self).last_polled, ..*old(self) }),
    {
        self.last_polled = Some(utc_now());
    }

    pub fn set_last_polled_at(&mut self, now: Timestamp)
        ensures
            *final(self) == (Device { last_polled: Some(now), ..*old(self) }),
    {
        self.last_polled = Some(now);
    }

    pub fn set_quirk(&mut self, quirk: Option<crate::service::quirks::Quirk>)
        ensures
            *final(self) == (Device { quirk, ..*old(self) }),
    {
        self.quirk = quirk;
    }

    pub fn set_nightlight_state(&mut self, params: NotifyHumidifierNightlightParams)
        ensures
            *final(self) == (Device { nightlight_state: Some(params), ..*old(self) }),
    {
        self.nightlight_state = Some(params);
    }

    pub fn set_target_humidity(&mut self, percent: u8)
        ensures
            *final(self) == (Device { target_humidity_percent: Some(percent), ..*old(self) }),
    {
        self.target_humidity_percent = Some(percent);
    }

    pub fn set_humidifier_work_mode_and_param(&mut self, mode: u8, param: u8)
        ensures
            *final(self) == (Device {
                humidifier_work_mode: Some(mode),
                humidifier_param_by_mode: final(self).humidifier_param_by_mode,
                ..*old(self)
            }),
            final(self).humidifier_param_by_mode@ == old(self).humidifier_param_by_mode@.insert(
                mode,
                param,
            ),
    {
        broadcast use vstd::std_specs::hash::group_hash_axioms;

        self.humidifier_work_mode = Some(mode);
        self.humidifier_param_by_mode.insert(mode, param);
    }

    /// Update the LAN device information
    pub fn set_lan_device(&mut self, device: LanDevice)
        ensures
            final(self).last_lan_device_update is Some,
            *final(self) == (Device {
                lan_device: Some(device),
                last_lan_device_update: final(self).last_lan_device_update,
                ..*old(self)
            }),
    {
        self.lan_device = Some(device);
        self.last_lan_device_update = Some(utc_now());
    }

    /// Update the LAN device status information. Returns whether it is news.
    pub fn set_lan_device_status(&mut self, status: DeviceStatus) -> (r: bool)
        ensures
            r == (old(self).lan_device_status != Some(status)),
            exists|now: Timestamp|
                *final(self) == #[trigger] old(self).with_lan_status(status, now),
    {
        self.set_lan_device_status_at(status, utc_now())
    }

    pub fn set_lan_device_status_at(&mut self, status: DeviceStatus, now: Timestamp) -> (r: bool)
        ensures
            r == (old(self).lan_device_status != Some(status)),
            *final(self) == old(self).with_lan_status(status, now),
    {
        let changed = match &self.lan_device_status {
            Some(prior) => *prior != status,
            None => true,
        };
        self.lan_device_status = Some(status);
        self.last_lan_device_status_update = Some(now);
        self.clear_scene_if_color_changed();
        changed
    }

    pub fn set_iot_device_status(&mut self, status: DeviceStatus)
        ensures
            exists|now: Timestamp|
                *final(self) == #[trigger] old(self).with_iot_status(status, now),
    {
        self.set_iot_device_status_at(status, utc_now());
    }

    pub fn set_iot_device_status_at(&mut self, status: DeviceStatus, now: Timestamp)
        ensures
            *final(self) == old(self).with_iot_status(status, now),
    {
        self.iot_device_status = Some(status);
        self.last_iot_device_status_update = Some(now);
        self.clear_scene_if_color_changed();
    }

    pub fn set_http_device_info(&mut self, info: HttpDeviceInfo)
        ensures
            final(self).last_http_device_update is Some,
            *final(self) == (Device {
                http_device_info: Some(info),
                last_http_device_update: final(self).last_http_device_update,
                ..*old(self)
            }),
    {
        self.http_device_info = Some(info);
        self.last_http_device_update = Some(utc_now());
    }

    pub fn set_http_device_state(&mut self, state: HttpDeviceState)
        ensures
            exists|now: Timestamp|
                *final(self) == #[trigger] old(self).with_http_state(state, now),
    {
        self.set_http_device_state_at(state, utc_now());
    }

    pub fn set_http_device_state_at(&mut self, state: HttpDeviceState, now: Timestamp)
        ensures
            *final(self) == old(self).with_http_state(state, now),
    {
        self.http_device_state = Some(state);
        self.last_http_device_state_update = Some(now);
        self.clear_scene_if_color_changed();
    }

    pub fn set_undoc_device_info(&mut self, entry: DeviceEntry, room_name: Option<&str>)
        ensures
            exists|info: UndocDeviceInfo, now: Timestamp|
                *final(self) == #[trigger] old(self).with_undoc_info(info, now) && info.entry
                    == entry && match (info.room_name, room_name) {
                    (Some(room), Some(name)) => room@ == name@,
                    (None, None) => true,
                    _ => false,
                },
    {
        let room: Option<String> = match room_name {
            Some(name) => Some(name.to_owned()),
            None => None,
        };
        let now = utc_now();
        let ghost info = UndocDeviceInfo { room_name: room, entry };
        self.undoc_device_info = Some(UndocDeviceInfo { room_name: room, entry });
        self.last_undoc_device_info_update = Some(now);
        self.clear_scene_if_color_changed();
        assert(*self == old(self).with_undoc_info(info, now));
    }
}

} // verus!
