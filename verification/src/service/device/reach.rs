//! What a device can do and how it can be reached.
use vstd::prelude::*;

use crate::platform_api::{DeviceCapability, DeviceCapabilityState, DeviceType};
use crate::service::device::{BleAddressSource, Device};
use crate::service::quirks::Quirk;
use crate::text;
use crate::text::{chars_of, octets, str_eq, string_of, subrange, to_ascii_uppercase};

verus! {

impl Device {
    /// The type of device: what Govee says, else what the model table says,
    /// else a light.
    pub open spec fn kind(&self) -> DeviceType {
        match self.http_device_info {
            Some(info) => info.device_type,
            None => match self.quirk {
                Some(q) => q.device_type,
                None => DeviceType::Light,
            },
        }
    }

    pub fn device_type(&self) -> (r: DeviceType)
        ensures
            r == self.kind(),
    {
        match &self.http_device_info {
            Some(info) => info.device_type.clone(),
            None => match &self.quirk {
                Some(q) => q.device_type.clone(),
                None => DeviceType::Light,
            },
        }
    }

    /// What is known of the model. An unknown model that answered on the LAN is
    /// a light.
    pub open spec fn known_quirk(&self) -> Option<Quirk> {
        match self.quirk {
            Some(q) => Some(q),
            None => if self.lan_device is Some {
                Some(Quirk::lan_light())
            } else {
                None
            },
        }
    }

    pub fn resolve_quirk(&self) -> (r: Option<Quirk>)
        ensures
            r == self.known_quirk(),
    {
        match &self.quirk {
            Some(q) => Some(q.clone()),
            None => {
                if self.lan_device.is_some() {
                    Some(Quirk::light().with_lan_api())
                } else {
                    None
                }
            },
        }
    }

    /// How often a device is read, where `configured` is how often its transport may be
    /// asked.
    pub open spec fn pace(&self, configured: i64) -> i64 {
        if !(self.kind() is Kettle) || configured <= 60 {
            configured
        } else {
            match self.state() {
                Some(state) => if state.on {
                    60
                } else {
                    configured
                },
                None => configured,
            }
        }
    }

    /// A device never waits longer than is configured. A kettle that is on waits a minute
    /// at most, and nothing else is hurried.
    pub proof fn only_a_kettle_is_hurried(&self, configured: i64)
        ensures
            self.pace(configured) <= configured,
            self.kind() is Kettle && (self.state() matches Some(state) && state.on) ==> self.pace(
                configured,
            ) <= 60,
            self.pace(configured) < configured ==> self.pace(configured) == 60 && self.kind()
                is Kettle && (self.state() matches Some(state) && state.on),
    {
    }

    /// Whether there is a way to control the device.
    pub open spec fn controllable(&self) -> bool {
        self.ble_only() == Some(true) ==> (self.kind() is Light && self.address() is Some)
    }

    /// A device that is not known to have nothing but Bluetooth can be controlled. One
    /// that has nothing else can be if it is a light and its address is known.
    pub proof fn what_can_be_controlled(&self)
        ensures
            self.ble_only() is None || self.ble_only() == Some(false) ==> self.controllable(),
            self.ble_only() == Some(true) && self.address() is None ==> !self.controllable(),
            self.ble_only() == Some(true) && !(self.kind() is Light) ==> !self.controllable(),
            self.kind() is Light && self.address() is Some ==> self.controllable(),
    {
    }

    /// `configured` is the interval for the transport that will do the polling;
    /// a device may ask for something shorter, but never something longer: a
    /// kettle that is on is read every minute.
    pub fn preferred_poll_interval(&self, configured: i64) -> (r: i64)
        ensures
            r == self.pace(configured),
            r == (if self.kind() is Kettle && (self.state() matches Some(s) && s.on) && configured
                > 60 {
                60
            } else {
                configured
            }),
    {
        match self.device_type() {
            DeviceType::Kettle => {
                let on = match self.device_state() {
                    Some(state) => state.on,
                    None => false,
                };
                if on && configured > 60 {
                    60
                } else {
                    configured
                }
            },
            _ => configured,
        }
    }

    /// Indicate whether we require the platform API data in order
    /// to correctly report the device
    pub fn needs_platform_poll(&self) -> (r: bool)
        ensures
            r == !self.iot_pollable(),
    {
        if !self.iot_api_supported() {
            return true;
        }
        if str_eq(self.sku.as_str(), "H7160") {
            return false;
        }
        !self.device_type().is_light()
    }

    pub fn pollable_via_lan(&self) -> (r: bool)
        ensures
            r == (self.lan_device is Some),
    {
        self.lan_device.is_some()
    }

    /// Whether AWS IoT tells all there is to know of the device: that of lights,
    /// and of the one humidifier whose frames are known.
    pub open spec fn iot_pollable(&self) -> bool {
        self.reached_by_iot() && (self.sku@ == "H7160"@ || self.kind() is Light)
    }

    pub fn pollable_via_iot(&self) -> (r: bool)
        ensures
            r == self.iot_pollable(),
    {
        self.iot_api_supported() && (str_eq(self.sku.as_str(), "H7160")
            || self.device_type().is_light())
    }

    /// Whether the Platform API is not to be trusted: the model table says so, or
    /// the device answered on the LAN as lights do and the Platform API does not
    /// take it for a light.
    pub open spec fn distrusts_platform(&self) -> bool {
        match self.known_quirk() {
            Some(quirk) => quirk.avoid_platform_api || (self.lan_device is Some && !(
            self.http_device_info matches Some(info) && info.rgb)),
            None => false,
        }
    }

    pub fn avoid_platform_api(&self) -> (r: bool)
        ensures
            r == self.distrusts_platform(),
    {
        match self.resolve_quirk() {
            Some(quirk) => {
                if quirk.avoid_platform_api {
                    return true;
                }
                let rgb = match &self.http_device_info {
                    Some(info) => info.supports_rgb(),
                    None => false,
                };
                self.lan_device.is_some() && !rgb
            },
            None => false,
        }
    }

    pub open spec fn has_capability(&self, instance: Seq<char>) -> bool {
        self.http_device_info matches Some(info) && info.has_capability(instance)
    }

    pub fn get_capability_by_instance(&self, instance: &str) -> (r: Option<&DeviceCapability>)
        ensures
            match r {
                Some(cap) => self.has_capability(instance@) && cap.instance@ == instance@ && (
                exists|i: int|
                    0 <= i < self.http_device_info->0.capabilities@.len() && *cap
                        == #[trigger] self.http_device_info->0.capabilities@[i] && forall|j: int|
                        0 <= j < i ==> (
                        #[trigger] self.http_device_info->0.capabilities@[j]).instance@
                            != instance@),
                None => !self.has_capability(instance@),
            },
    {
        match &self.http_device_info {
            Some(info) => info.capability_by_instance(instance),
            None => None,
        }
    }

    pub fn get_state_capability_by_instance(&self, instance: &str) -> (r: Option<
        &DeviceCapabilityState,
    >)
        ensures
            match r {
                Some(cap) => cap.instance@ == instance@ && self.http_device_state is Some && (
                exists|i: int|
                    0 <= i < self.http_device_state->0.capabilities@.len() && *cap
                        == #[trigger] self.http_device_state->0.capabilities@[i] && forall|j: int|
                        0 <= j < i ==> (
                        #[trigger] self.http_device_state->0.capabilities@[j]).instance@
                            != instance@),
                None => self.http_device_state matches Some(state) ==> !state.has_capability(
                    instance@,
                ),
            },
    {
        match &self.http_device_state {
            Some(state) => state.capability_by_instance(instance),
            None => None,
        }
    }

    /// The capability that switches the light of the device: the power switch of
    /// a light, and the nightlight of anything else.
    pub open spec fn light_toggle(&self) -> Option<&'static str> {
        if self.kind() is Light {
            Some("powerSwitch")
        } else if self.has_capability("nightlightToggle"@) {
            Some("nightlightToggle")
        } else {
            None
        }
    }

    pub fn get_light_power_toggle_instance_name(&self) -> (r: Option<&'static str>)
        ensures
            r == self.light_toggle(),
    {
        if self.device_type().is_light() {
            Some("powerSwitch")
        } else {
            // If the device's primary function is not a light,
            // then we need to avoid powering on its other function
            // here.  If it has a nightlight capability, that is
            // probably what we are controlling.
            match self.get_capability_by_instance("nightlightToggle") {
                Some(_) => Some("nightlightToggle"),
                None => None,
            }
        }
    }

    // ------------------------------------------------------- Bluetooth address

    /// The device's Bluetooth address and where it comes from. The metadata
    /// states the address outright; where it does not, the id of the device
    /// turns out to be that same address with two octets prepended.
    pub open spec fn address(&self) -> Option<(Seq<char>, BleAddressSource)> {
        match self.stated_address() {
            Some(address) => Some((text::ascii_uppercase(address), BleAddressSource::Metadata)),
            None => if text::is_octets(self.id@, 8) {
                Some((text::ascii_uppercase(self.id@.skip(6)), BleAddressSource::DerivedFromId))
            } else {
                None
            },
        }
    }

    /// The address that the metadata states, if it looks like one.
    pub open spec fn stated_address(&self) -> Option<Seq<char>> {
        match self.undoc_device_info {
            Some(info) => match info.entry.device_ext.device_settings.address {
                Some(address) => if text::is_octets(address@, 6) {
                    Some(address@)
                } else {
                    None
                },
                None => None,
            },
            None => None,
        }
    }

    pub fn ble_address(&self) -> (r: Option<String>)
        ensures
            match r {
                Some(address) => self.address() matches Some((a, _)) && address@ == a,
                None => self.address() is None,
            },
    {
        match self.ble_address_with_source() {
            Some((address, _)) => Some(address),
            None => None,
        }
    }

    /// The address together with where it came from.
    ///
    /// The distinction matters. Live traffic showed an H601B whose metadata
    /// address is the device id **plus one** — and that is the address the lamp
    /// answers on. So the derived form is not a second opinion on the same
    /// value, it is a guess that is systematically wrong for at least one
    /// device family. It only ever applies when Govee tells us nothing.
    pub fn ble_address_with_source(&self) -> (r: Option<(String, BleAddressSource)>)
        ensures
            match r {
                Some((address, source)) => self.address() == Some((address@, source)),
                None => self.address() is None,
            },
    {
        if let Some(info) = &self.undoc_device_info {
            if let Some(address) = &info.entry.device_ext.device_settings.address {
                let chars = chars_of(address.as_str());
                if octets(chars.as_slice(), 6) {
                    return Some((to_ascii_uppercase(address.as_str()), BleAddressSource::Metadata));
                }
            }
        }
        let id = chars_of(self.id.as_str());
        if octets(id.as_slice(), 8) {
            let tail = subrange(id.as_slice(), 6, id.len());
            assert(tail@ =~= self.id@.skip(6));
            let address = string_of(tail.as_slice());
            return Some((to_ascii_uppercase(address.as_str()), BleAddressSource::DerivedFromId));
        }
        None
    }

    // ------------------------------------------------------------ capabilities

    pub open spec fn color_temperatures(&self) -> Option<(u32, u32)> {
        match self.known_quirk() {
            Some(quirk) => quirk.color_temp_range,
            None => if self.ble_only_light() {
                Some((2000, 9000))
            } else {
                match self.http_device_info {
                    Some(info) => info.color_temperature_range,
                    None => None,
                }
            },
        }
    }

    pub fn get_color_temperature_range(&self) -> (r: Option<(u32, u32)>)
        ensures
            r == self.color_temperatures(),
    {
        if let Some(quirk) = self.resolve_quirk() {
            return quirk.color_temp_range;
        }
        if self.is_ble_only_light() {
            return Some((2000, 9000));
        }
        match &self.http_device_info {
            Some(info) => info.get_color_temperature_range(),
            None => None,
        }
    }

    pub open spec fn dimmable(&self) -> bool {
        match self.known_quirk() {
            Some(quirk) => quirk.supports_brightness,
            None => self.ble_only_light() || (self.http_device_info matches Some(info)
                && info.brightness),
        }
    }

    pub fn supports_brightness(&self) -> (r: bool)
        ensures
            r == self.dimmable(),
    {
        if let Some(quirk) = self.resolve_quirk() {
            return quirk.supports_brightness;
        }
        if self.is_ble_only_light() {
            return true;
        }
        match &self.http_device_info {
            Some(info) => info.supports_brightness(),
            None => false,
        }
    }

    pub open spec fn colorful(&self) -> bool {
        match self.known_quirk() {
            Some(quirk) => quirk.supports_rgb,
            None => self.ble_only_light() || (self.http_device_info matches Some(info) && info.rgb),
        }
    }

    pub fn supports_rgb(&self) -> (r: bool)
        ensures
            r == self.colorful(),
    {
        if let Some(quirk) = self.resolve_quirk() {
            return quirk.supports_rgb;
        }
        if self.is_ble_only_light() {
            return true;
        }
        match &self.http_device_info {
            Some(info) => info.supports_rgb(),
            None => false,
        }
    }

    // ----------------------------------------------------------- reachability

    pub open spec fn has_topic(&self) -> bool {
        self.undoc_device_info matches Some(info)
            && info.entry.device_ext.device_settings.topic is Some
    }

    /// Whether commands and status requests may go over Govee's AWS IoT broker:
    /// Govee names a topic for the device, and the model table does not veto it.
    pub open spec fn reached_by_iot(&self) -> bool {
        self.has_topic() && !(self.known_quirk() matches Some(quirk) && quirk.iot_api_supported
            == Some(false))
    }

    /// Whether commands and status requests may go over Govee's AWS IoT broker.
    ///
    /// Govee's own metadata decides this, not a model list. A device the
    /// account gives an MQTT topic for can be reached this way whatever it is;
    /// one without a topic cannot be reached at all, which is the same test
    /// `IotClient::is_device_compatible` applies before publishing.
    pub fn iot_api_supported(&self) -> (r: bool)
        ensures
            r == self.reached_by_iot(),
    {
        if !self.has_iot_topic() {
            return false;
        }
        // A quirk may still veto it, for models where IoT misbehaves despite
        // Govee handing them a topic.
        match self.resolve_quirk() {
            Some(quirk) => match quirk.iot_api_supported {
                Some(supported) => supported,
                None => true,
            },
            None => true,
        }
    }

    /// Whether Govee's account metadata names an MQTT topic for this device.
    pub fn has_iot_topic(&self) -> (r: bool)
        ensures
            r == self.has_topic(),
    {
        match &self.undoc_device_info {
            Some(info) => info.entry.device_ext.device_settings.topic.is_some(),
            None => false,
        }
    }

    /// Whether the device can be reached over Bluetooth alone, where that is
    /// known.
    pub open spec fn ble_only(&self) -> Option<bool> {
        match self.known_quirk() {
            Some(quirk) => Some(quirk.ble_only),
            None => if self.http_device_info is Some {
                Some(false)
            } else {
                match self.undoc_device_info {
                    Some(info) => Some(info.entry.device_ext.device_settings.wifi_name is None),
                    None => None,
                }
            },
        }
    }

    pub fn is_ble_only_device(&self) -> (r: Option<bool>)
        ensures
            r == self.ble_only(),
    {
        if let Some(quirk) = self.resolve_quirk() {
            return Some(quirk.ble_only);
        }
        if self.http_device_info.is_some() {
            // truly BLE-only devices are not returned via the Platform API,
            // unless we have a quirk to say otherwise
            return Some(false);
        }
        match &self.undoc_device_info {
            Some(info) => Some(info.entry.device_ext.device_settings.wifi_name.is_none()),
            None => None,
        }
    }

    pub open spec fn ble_only_light(&self) -> bool {
        self.ble_only() == Some(true) && self.kind() is Light && self.address() is Some
    }

    /// Whether this device is a light we can only reach over Bluetooth.
    ///
    /// Such a device has no Platform capabilities to read and no LAN presence to
    /// infer from, so the usual capability questions all answer "no" and it ends
    /// up in Home Assistant without a light entity. But the `Generic:Light`
    /// command set applies to every Govee light, so what we can do is known
    /// regardless of what Govee's metadata says.
    pub fn is_ble_only_light(&self) -> (r: bool)
        ensures
            r == self.ble_only_light(),
    {
        match self.is_ble_only_device() {
            Some(true) => self.device_type().is_light() && self.ble_address().is_some(),
            _ => false,
        }
    }

    /// Whether there is a way to control the device: any but a Bluetooth-only
    /// device, and of those the lights whose address is known.
    pub fn is_controllable(&self) -> (r: bool)
        ensures
            r == self.controllable(),
            r == (self.ble_only() != Some(true) || (self.kind() is Light && self.address()
                is Some)),
    {
        match self.is_ble_only_device() {
            Some(true) => self.device_type().is_light() && self.ble_address().is_some(),
            _ => true,
        }
    }

    // ------------------------------------------------------------------- laws

    /// Govee's word on what a device is counts before the model table's, and that
    /// before the guess that it is a light.
    pub proof fn govee_says_what_a_device_is(&self)
        ensures
            self.http_device_info matches Some(info) ==> self.kind() == info.device_type,
            self.http_device_info is None && self.quirk is Some ==> self.kind()
                == self.quirk->0.device_type,
            self.http_device_info is None && self.quirk is None ==> self.kind() is Light,
    {
    }

    /// An address that the metadata states is the device's, letter by letter, in
    /// upper case, whatever its id is. Only without one is the address guessed: the
    /// last six of the eight octets of the id.
    pub proof fn a_stated_address_beats_a_guess(&self)
        ensures
            ({
                let stated = match self.undoc_device_info {
                    Some(info) => info.entry.device_ext.device_settings.address,
                    None => None,
                };
                let usable = stated is Some && text::is_octets(stated->0@, 6);
                &&& usable ==> (self.address() matches Some((address, source)) && {
                    &&& source is Metadata
                    &&& address.len() == 17
                    &&& forall|i: int|
                        0 <= i < 17 ==> #[trigger] address[i] == text::upper_char(stated->0@[i])
                })
                &&& !usable && text::is_octets(self.id@, 8) ==> (self.address() matches Some(
                    (address, source),
                ) && {
                    &&& source is DerivedFromId
                    &&& address.len() == 17
                    &&& forall|i: int|
                        0 <= i < 17 ==> #[trigger] address[i] == text::upper_char(self.id@[i + 6])
                })
                &&& !usable && !text::is_octets(self.id@, 8) ==> self.address() is None
            }),
    {
    }

    /// What the model table says of a device is believed. An unknown device that
    /// answered on the LAN can do what the LAN protocol offers, and an unknown light
    /// that only Bluetooth reaches can do what every light can; of any other, Govee
    /// says what it can do, and without its word nothing is promised.
    pub proof fn what_a_device_can_do(&self)
        ensures
            self.quirk matches Some(quirk) ==> {
                &&& self.color_temperatures() == quirk.color_temp_range
                &&& self.dimmable() == quirk.supports_brightness
                &&& self.colorful() == quirk.supports_rgb
            },
            self.quirk is None && (self.lan_device is Some || self.ble_only_light()) ==> {
                &&& self.color_temperatures() == Some((2000u32, 9000u32))
                &&& self.dimmable()
                &&& self.colorful()
            },
            self.quirk is None && self.lan_device is None && !self.ble_only_light() ==> {
                &&& self.http_device_info matches Some(info) ==> {
                    &&& self.color_temperatures() == info.color_temperature_range
                    &&& self.dimmable() == info.brightness
                    &&& self.colorful() == info.rgb
                }
                &&& self.http_device_info is None ==> {
                    &&& self.color_temperatures() is None
                    &&& !self.dimmable()
                    &&& !self.colorful()
                }
            },
    {
    }

    /// The power switch of a light switches its light. Anything else is not switched
    /// on for the sake of its light: only a nightlight of its own is.
    pub proof fn only_a_light_is_switched_as_one(&self)
        ensures
            self.kind() is Light ==> (self.light_toggle() matches Some(instance) && instance@
                == "powerSwitch"@),
            !(self.kind() is Light) ==> match self.light_toggle() {
                Some(instance) => instance@ == "nightlightToggle"@ && (
                self.http_device_info matches Some(info) && info.has_capability(
                    "nightlightToggle"@,
                )),
                None => !(self.http_device_info matches Some(info) && info.has_capability(
                    "nightlightToggle"@,
                )),
            },
    {
    }

    /// A device with a topic is reached over AWS IoT unless its model is known to
    /// misbehave there. What is known of the model can only take that away, and
    /// answering on the LAN does not.
    pub proof fn a_topic_is_enough(&self)
        ensures
            ({
                let topic = match self.undoc_device_info {
                    Some(info) => info.entry.device_ext.device_settings.topic,
                    None => None,
                };
                let vetoed = match self.quirk {
                    Some(quirk) => quirk.iot_api_supported == Some(false),
                    None => false,
                };
                &&& self.reached_by_iot() <==> topic is Some && !vetoed
                &&& self.iot_pollable() <==> topic is Some && !vetoed && (self.kind() is Light
                    || self.sku@ == "H7160"@)
            }),
    {
    }

    /// A device that answers on the LAN or that the Platform API lists is not
    /// reached by Bluetooth alone, unless the model table says so; of others the
    /// account's entry tells it by the Wi-Fi network that it names, and without an
    /// entry it is not known.
    pub proof fn a_network_rules_out_bluetooth_only(&self)
        ensures
            self.quirk matches Some(quirk) ==> self.ble_only() == Some(quirk.ble_only),
            self.quirk is None && (self.lan_device is Some || self.http_device_info is Some)
                ==> self.ble_only() == Some(false),
            self.quirk is None && self.lan_device is None && self.http_device_info is None ==> {
                &&& self.undoc_device_info is None ==> self.ble_only() is None
                &&& self.undoc_device_info matches Some(info) ==> (self.ble_only() matches Some(only)
                    && (only <==> info.entry.device_ext.device_settings.wifi_name is None))
            },
            self.ble_only_light() <==> self.ble_only() == Some(true) && self.kind() is Light
                && self.address() is Some,
    {
    }

    /// The Platform API is not trusted with a model that the table warns of, nor with
    /// one that answers on the LAN as lights do and that it does not take for one.
    pub proof fn when_the_platform_is_not_trusted(&self)
        ensures
            (self.quirk matches Some(quirk) && quirk.avoid_platform_api)
                ==> self.distrusts_platform(),
            self.lan_device is Some ==> (!(self.http_device_info matches Some(info) && info.rgb)
                ==> self.distrusts_platform()),
            ((self.http_device_info matches Some(info) && info.rgb) || self.lan_device is None) && !(
            self.quirk matches Some(quirk) && quirk.avoid_platform_api)
                ==> !self.distrusts_platform(),
    {
    }
}

} // verus!
