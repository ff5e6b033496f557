//! A device and everything that is known of it.
use std::collections::HashMap;
use vstd::prelude::*;

use crate::ble::packets::NotifyHumidifierNightlightParams;
use crate::ble::segment::SegmentColor;
use crate::clock::Timestamp;
use crate::lan_api::{DeviceColor, DeviceStatus, LanDevice};
use crate::platform_api::{HttpDeviceInfo, HttpDeviceState};
use crate::service::quirks::Quirk;
use crate::text;
use crate::text::{append_chars, append_str, remove_char, subrange, to_upper_char, utf8_tail_start};
use crate::undoc_api::DeviceEntry;

pub mod ble_status;
pub mod reach;
pub mod segments;
pub mod sources;

verus! {

proof fn no_colon_is_left(text: Seq<char>)
    ensures
        !text::without_char(text, ':').contains(':'),
        text::all_ascii(text) ==> text::all_ascii(text::without_char(text, ':')),
    decreases text.len(),
{
    if text.len() > 0 {
        let head = text.drop_last();
        no_colon_is_left(head);
        let before = text::without_char(head, ':');
        let after = text::without_char(text, ':');
        if after.contains(':') {
            let k = choose|k: int| 0 <= k < after.len() && after[k] == ':';
            if k < before.len() {
                assert(before[k] == ':');
            }
        }
        if text::all_ascii(text) {
            assert forall|i: int| 0 <= i < head.len() implies (#[trigger] head[i] as int) < 0x80 by {
                assert(head[i] == text[i]);
            }
            assert forall|i: int| 0 <= i < after.len() implies (#[trigger] after[i] as int)
                < 0x80 by {
                if i < before.len() {
                    assert(after[i] == before[i]);
                } else {
                    assert(after[i] == text[text.len() - 1]);
                }
            }
        }
    }
}

proof fn a_tail_is_an_end(text: Seq<char>, bytes: nat)
    ensures
        text::utf8_tail(text, bytes).len() <= text.len(),
        text::utf8_tail(text, bytes).len() <= bytes,
        text::utf8_tail(text, bytes) == text.skip(text.len() - text::utf8_tail(text, bytes).len()),
    decreases text.len(),
{
    let tail = text::utf8_tail(text, bytes);
    if text.len() > 0 && text::utf8_width(text.last()) <= bytes {
        let rest = (bytes - text::utf8_width(text.last())) as nat;
        a_tail_is_an_end(text.drop_last(), rest);
        let inner = text::utf8_tail(text.drop_last(), rest);
        assert(tail =~= text.skip(text.len() - tail.len())) by {
            assert forall|i: int| 0 <= i < inner.len() implies #[trigger] tail[i] == text[text.len()
                - tail.len() + i] by {
                assert(inner[i] == text.drop_last()[text.len() - 1 - inner.len() + i]);
            }
        }
    } else {
        assert(text.skip(text.len() as int) =~= Seq::<char>::empty());
    }
}

proof fn an_ascii_tail_is_full(text: Seq<char>, bytes: nat)
    requires
        text::all_ascii(text),
    ensures
        text::utf8_tail(text, bytes).len() == (if text.len() < bytes {
            text.len()
        } else {
            bytes
        }),
    decreases text.len(),
{
    if text.len() > 0 {
        assert(text[text.len() - 1] as int <= 127);
        if bytes > 0 {
            assert(text::all_ascii(text.drop_last())) by {
                assert forall|i: int| 0 <= i < text.len() - 1 implies (
                #[trigger] text.drop_last()[i]) as int <= 127 by {
                    assert(text[i] as int <= 127);
                }
            }
            an_ascii_tail_is_full(text.drop_last(), (bytes - 1) as nat);
        }
    }
}

#[derive(Clone, Debug)]
pub struct Device {
    pub sku: String,
    pub id: String,
    /// The name under which the device's MQTT topics stand, where it has one.
    pub topic_id: Option<String>,
    /// What the model table says of the SKU.
    pub quirk: Option<Quirk>,
    /// Probed LAN device information, found either via discovery
    /// or explicit probing by IP address
    pub lan_device: Option<LanDevice>,
    pub last_lan_device_update: Option<Timestamp>,
    pub lan_device_status: Option<DeviceStatus>,
    pub last_lan_device_status_update: Option<Timestamp>,
    pub http_device_info: Option<HttpDeviceInfo>,
    pub last_http_device_update: Option<Timestamp>,
    pub http_device_state: Option<HttpDeviceState>,
    pub last_http_device_state_update: Option<Timestamp>,
    pub undoc_device_info: Option<UndocDeviceInfo>,
    pub last_undoc_device_info_update: Option<Timestamp>,
    pub iot_device_status: Option<DeviceStatus>,
    pub last_iot_device_status_update: Option<Timestamp>,
    /// Status assembled from Bluetooth notifications. Unlike the other sources
    /// this arrives one attribute at a time, so it is merged rather than
    /// replaced.
    pub ble_device_status: Option<DeviceStatus>,
    pub last_ble_device_status_update: Option<Timestamp>,
    /// Per-segment colours, keyed by the Govee segment index.
    pub segment_colors: HashMap<u32, SegmentColor>,
    /// Whether the device has named itself as segmented.
    pub segment_mode_reported: bool,
    /// A segment count carried over from an earlier run. Discovery is otherwise
    /// forgotten on every restart, and the entities flap while it re-converges.
    pub remembered_segment_count: Option<u32>,
    /// How many light strings are chained together.
    ///
    /// Only products that take a second string report this, and it is the only
    /// thing that distinguishes the slots a device *could* drive from the ones
    /// it has bulbs on.
    pub chained_strings: Option<u32>,
    pub last_segment_colors_update: Option<Timestamp>,
    /// How many segments this device packs into one page. Learned from
    /// the frames, then kept; see `set_segment_colors`.
    pub segment_page_stride: Option<usize>,
    pub nightlight_state: Option<NotifyHumidifierNightlightParams>,
    pub target_humidity_percent: Option<u8>,
    pub humidifier_work_mode: Option<u8>,
    pub humidifier_param_by_mode: HashMap<u8, u8>,
    pub last_polled: Option<Timestamp>,
    pub active_scene: Option<ActiveSceneInfo>,
}

/// Govee doesn't report the active scene or music mode,
/// so we maintain our own idea of it, clearing it when
/// the color of the light is changed
#[derive(Clone, Debug)]
pub struct ActiveSceneInfo {
    pub name: String,
    pub color: DeviceColor,
    pub kelvin: u32,
}

/// Represents the device state; synthesized from the various
/// sources of facts that we have in the Device
#[derive(Clone, Debug)]
pub struct DeviceState {
    /// Whether the device is powered on
    pub on: bool,
    /// Whether the light function of the device is powered on
    pub light_on: Option<bool>,
    /// Whether the device is connected to the Govee cloud
    pub online: Option<bool>,
    /// The color temperature in kelvin
    pub kelvin: u32,
    /// The color
    pub color: DeviceColor,
    /// The brightness in percent (0-100)
    pub brightness: u8,
    /// The active effect mode, if known
    pub scene: Option<String>,
    /// Where the information came from
    pub source: &'static str,
    pub updated: Timestamp,
}

/// Where a device's Bluetooth address came from.
#[derive(Debug, Clone, Copy, PartialEq, Eq, Structural)]
pub enum BleAddressSource {
    /// Stated by Govee in the account metadata. Authoritative.
    Metadata,
    /// Taken from the last six octets of the device id, because the metadata
    /// carried none. A guess, and known to be off by one on H601B hardware.
    DerivedFromId,
}

#[derive(Debug, Clone)]
pub struct UndocDeviceInfo {
    pub room_name: Option<String>,
    pub entry: DeviceEntry,
}

impl Device {
    /// The layout of the pages is one that a frame can have, and the segments
    /// are those that pages can carry.
    pub open spec fn wf(&self) -> bool {
        &&& self.segment_page_stride matches Some(stride) ==> 3 <= stride <= 4
        &&& forall|k: u32| #[trigger] self.segment_colors@.contains_key(k) ==> k < 1024
    }

    /// Nothing but the SKU and the id is known.
    pub open spec fn is_blank(&self) -> bool {
        &&& self.topic_id is None
        &&& self.quirk is None
        &&& self.lan_device is None
        &&& self.last_lan_device_update is None
        &&& self.lan_device_status is None
        &&& self.last_lan_device_status_update is None
        &&& self.http_device_info is None
        &&& self.last_http_device_update is None
        &&& self.http_device_state is None
        &&& self.last_http_device_state_update is None
        &&& self.undoc_device_info is None
        &&& self.last_undoc_device_info_update is None
        &&& self.iot_device_status is None
        &&& self.last_iot_device_status_update is None
        &&& self.ble_device_status is None
        &&& self.last_ble_device_status_update is None
        &&& self.segment_colors@ == Map::<u32, SegmentColor>::empty()
        &&& !self.segment_mode_reported
        &&& self.remembered_segment_count is None
        &&& self.chained_strings is None
        &&& self.last_segment_colors_update is None
        &&& self.segment_page_stride is None
        &&& self.nightlight_state is None
        &&& self.target_humidity_percent is None
        &&& self.humidifier_work_mode is None
        &&& self.humidifier_param_by_mode@ == Map::<u8, u8>::empty()
        &&& self.last_polled is None
        &&& self.active_scene is None
    }

    /// Create a new device given just its sku and id.
    /// No other facts are known or reflected by it at this time;
    /// they will need to be added by the caller.
    pub fn new(sku: &str, id: &str) -> (r: Self)
        ensures
            r.sku@ == sku@,
            r.id@ == id@,
            r.is_blank(),
            r.wf(),
    {
        Device {
            sku: sku.to_owned(),
            id: id.to_owned(),
            topic_id: None,
            quirk: None,
            lan_device: None,
            last_lan_device_update: None,
            lan_device_status: None,
            last_lan_device_status_update: None,
            http_device_info: None,
            last_http_device_update: None,
            http_device_state: None,
            last_http_device_state_update: None,
            undoc_device_info: None,
            last_undoc_device_info_update: None,
            iot_device_status: None,
            last_iot_device_status_update: None,
            ble_device_status: None,
            last_ble_device_status_update: None,
            segment_colors: HashMap::new(),
            segment_mode_reported: false,
            remembered_segment_count: None,
            chained_strings: None,
            last_segment_colors_update: None,
            segment_page_stride: None,
            nightlight_state: None,
            target_humidity_percent: None,
            humidifier_work_mode: None,
            humidifier_param_by_mode: HashMap::new(),
            last_polled: None,
            active_scene: None,
        }
    }

    // ------------------------------------------------------------------ names

    /// The SKU, an underscore and the last four characters of the id in upper
    /// case, without colons.
    pub open spec fn default_name(&self) -> Seq<char> {
        self.sku@ + seq!['_'] + text::ascii_uppercase(
            text::utf8_tail(text::without_char(self.id@, ':'), 4),
        )
    }

    pub open spec fn name_text(&self) -> Seq<char> {
        match self.http_device_info {
            Some(info) => info.device_name@,
            None => self.default_name(),
        }
    }

    /// Returns the device name; either the name defined in the Govee App,
    /// or, if we don't have the information for some reason, then we compute
    /// a name from the SKU and the last couple of bytes from the device id,
    /// similar to the device name that would show up in a BLE scan, or
    /// the default name for the device if not otherwise configured in the
    /// Govee App.
    pub fn name(&self) -> (r: String)
        ensures
            r@ == self.name_text(),
    {
        match self.govee_name() {
            Some(name) => name.to_owned(),
            None => self.computed_name(),
        }
    }

    /// Returns the name defined for the device in the Govee App
    pub fn govee_name(&self) -> (r: Option<&str>)
        ensures
            match r {
                Some(name) => self.http_device_info matches Some(info) && name@
                    == info.device_name@,
                None => self.http_device_info is None,
            },
    {
        match &self.http_device_info {
            Some(info) => Some(info.device_name.as_str()),
            None => None,
        }
    }

    pub fn room_name(&self) -> (r: Option<&str>)
        ensures
            match r {
                Some(name) => self.undoc_device_info matches Some(info)
                    && info.room_name matches Some(room) && name@ == room@,
                None => self.undoc_device_info matches Some(info) ==> info.room_name is None,
            },
    {
        match &self.undoc_device_info {
            Some(info) => match &info.room_name {
                Some(room) => Some(room.as_str()),
                None => None,
            },
            None => None,
        }
    }

    /// compute a name from the SKU and the last couple of bytes from the
    /// device id, similar to the device name that would show up in a BLE
    /// scan, or the default name for the device if not otherwise configured
    /// in the Govee App.
    pub fn computed_name(&self) -> (r: String)
        ensures
            r@ == self.default_name(),
    {
        // The id is usually "XX:XX:XX:XX:XX:XX:XX:XX" but some devices
        // report it without colons, and in lowercase.  Normalize it.
        let id = remove_char(self.id.as_str(), ':');
        let start = utf8_tail_start(id.as_slice(), 4);
        let tail = subrange(id.as_slice(), start, id.len());
        assert(tail@ =~= text::utf8_tail(id@, 4));
        let mut upper: Vec<char> = Vec::new();
        for i in 0..tail.len()
            invariant
                upper@ == text::ascii_uppercase(tail@.take(i as int)),
        {
            upper.push(to_upper_char(tail[i]));
            assert(upper@ =~= text::ascii_uppercase(tail@.take(i + 1)));
        }
        assert(tail@.take(tail@.len() as int) =~= tail@);
        let mut name = self.sku.clone();
        name.push('_');
        append_chars(&mut name, upper.as_slice());
        assert(name@ =~= self.default_name());
        name
    }

    /// The name, and in brackets the id and the SKU.
    pub open spec fn label_text(&self) -> Seq<char> {
        self.name_text() + seq![' ', '('] + self.id@ + seq![' '] + self.sku@ + seq![')']
    }

    /// How the device is named in messages.
    pub fn label(&self) -> (r: String)
        ensures
            r@ == self.label_text(),
    {
        let mut out = self.name();
        out.push(' ');
        out.push('(');
        append_str(&mut out, self.id.as_str());
        out.push(' ');
        append_str(&mut out, self.sku.as_str());
        out.push(')');
        assert(out@ =~= self.label_text());
        out
    }

    pub fn ip_addr(&self) -> (r: Option<&str>)
        ensures
            match r {
                Some(ip) => self.lan_device matches Some(lan) && ip@ == lan.ip@,
                None => self.lan_device is None,
            },
    {
        match &self.lan_device {
            Some(lan) => Some(lan.ip.as_str()),
            None => None,
        }
    }

    /// A device has the name that it was given in the Govee app, and without one that
    /// of its model and of the end of its id, in upper case and without colons.
    pub proof fn how_a_device_is_named(&self)
        ensures
            self.http_device_info matches Some(info) ==> self.name_text() == info.device_name@,
            self.http_device_info is None ==> self.name_text() == self.default_name(),
            self.sku@.is_prefix_of(self.default_name()),
            self.default_name().len() > self.sku@.len(),
            self.default_name()[self.sku@.len() as int] == '_',
            forall|i: int|
                self.sku@.len() < i < self.default_name().len() ==> {
                    let c = #[trigger] self.default_name()[i];
                    c != ':' && !('a' <= c <= 'z')
                },
            text::all_ascii(self.id@) ==> self.default_name().len() <= self.sku@.len() + 5,
    {
        let bare = text::without_char(self.id@, ':');
        let tail = text::utf8_tail(bare, 4);
        let name = self.default_name();
        let n = self.sku@.len() as int;
        assert(self.sku@ =~= name.subrange(0, n));
        no_colon_is_left(self.id@);
        a_tail_is_an_end(bare, 4);
        assert forall|i: int| n < i < name.len() implies {
            let c = #[trigger] name[i];
            c != ':' && !('a' <= c <= 'z')
        } by {
            let c = tail[i - n - 1];
            assert(name[i] == text::upper_char(c));
            assert(bare.contains(c)) by {
                assert(tail[i - n - 1] == bare[bare.len() - tail.len() + i - n - 1]);
            }
            text::letters_have_two_cases(c);
        }
    }

    /// The name of a device that was given none ends in the last four characters of its
    /// id, colons apart, in upper case; in all of it where it is shorter.
    pub proof fn how_a_computed_name_ends(&self, k: int)
        requires
            text::all_ascii(self.id@),
            0 <= k < 4,
        ensures
            ({
                let bare = text::without_char(self.id@, ':');
                let name = self.default_name();
                let n = self.sku@.len();
                &&& bare.len() >= 4 ==> name.len() == n + 5
                &&& bare.len() < 4 ==> name.len() == n + 1 + bare.len()
                &&& k < bare.len() ==> name[name.len() - 1 - k] == text::upper_char(
                    bare[bare.len() - 1 - k],
                )
            }),
    {
        let bare = text::without_char(self.id@, ':');
        no_colon_is_left(self.id@);
        a_tail_is_an_end(bare, 4);
        an_ascii_tail_is_full(bare, 4);
        let tail = text::utf8_tail(bare, 4);
        if k < bare.len() {
            assert(tail[tail.len() - 1 - k] == bare[bare.len() - 1 - k]);
        }
    }

    /// Of a device of which nothing is known, no source tells anything, no scene is
    /// active and no segment is known.
    pub proof fn nothing_is_told_of_a_blank_device(&self)
        requires
            self.is_blank(),
        ensures
            self.lan_state() is None && self.http_state() is None && self.iot_state() is None
                && self.ble_state() is None,
            self.state() is None,
            self.last_lan_device_status_update is None,
            self.last_http_device_state_update is None,
            self.last_iot_device_status_update is None,
            self.last_ble_device_status_update is None,
            self.addressed() is None,
            self.active_scene is None,
            !self.segment_mode_reported,
            self.kind() is Light,
            self.ble_only() is None || self.ble_only() == Some(false),
    {
    }

    /// A device is called by its name, its id and its model.
    pub proof fn how_a_device_is_labelled(&self)
        ensures
            self.label_text() == self.name_text() + " ("@ + self.id@ + " "@ + self.sku@ + ")"@,
    {
        reveal_strlit(" (");
        reveal_strlit(" ");
        reveal_strlit(")");
        assert(" ("@ =~= seq![' ', '(']);
        assert(" "@ =~= seq![' ']);
        assert(")"@ =~= seq![')']);
    }
}

} // verus!
