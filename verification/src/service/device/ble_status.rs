//! What Bluetooth tells of a device, one attribute at a time.
use vstd::prelude::*;

use crate::clock::{utc_now, Timestamp};
use crate::lan_api::{DeviceColor, DeviceStatus};
use crate::service::device::Device;
use crate::text::append_str;

verus! {

/// Where the colour of a device is kept between runs.
pub open spec fn color_key(id: Seq<char>) -> Seq<char> {
    "color/"@ + id
}

impl Device {
    /// What a Bluetooth notification is merged into: what Bluetooth told before,
    /// else whatever we last knew, rather than zeroes. A session only reads back
    /// the attributes it changed, so switching a light on would otherwise report
    /// brightness 0 and colour black as though we had measured them.
    pub open spec fn ble_seed(&self) -> DeviceStatus {
        match self.ble_device_status {
            Some(status) => status,
            None => self.last_known(),
        }
    }

    /// The reported state as a light's status.
    pub open spec fn last_known(&self) -> DeviceStatus {
        match self.state() {
            Some(state) => DeviceStatus {
                on: state.on,
                brightness: state.brightness,
                color: state.color,
                color_temperature_kelvin: state.kelvin,
            },
            None => DeviceStatus::unknown(),
        }
    }

    /// A notification is merged into what Bluetooth told before; where it told
    /// nothing, into the reported state, and where nothing is known at all, into a
    /// light that is off and dark.
    pub proof fn news_is_merged_into_what_is_known(&self)
        ensures
            self.ble_device_status matches Some(status) ==> self.ble_seed() == status,
            self.ble_device_status is None && self.state() is Some ==> {
                let (seed, state) = (self.ble_seed(), self.state()->0);
                &&& seed.on == state.on && seed.brightness == state.brightness
                &&& seed.color.r == state.color.r && seed.color.g == state.color.g && seed.color.b
                    == state.color.b
                &&& seed.color_temperature_kelvin == state.kelvin
            },
            self.ble_device_status is None && self.state() is None ==> {
                let seed = self.ble_seed();
                &&& !seed.on && seed.brightness == 0 && seed.color_temperature_kelvin == 0
                &&& seed.color.r == 0 && seed.color.g == 0 && seed.color.b == 0
            },
    {
    }

    /// A report is fresh for exactly the window behind it, from the moment it came.
    pub proof fn a_report_is_fresh_for_its_window(&self, now: Timestamp, window_secs: i64)
        ensures
            self.last_ble_device_status_update is None ==> !self.fresh_at(now, window_secs),
            self.last_ble_device_status_update matches Some(updated) ==> {
                &&& self.fresh_at(now, window_secs) <==> now.since(updated) < window_secs
                    * 1_000_000_000
                &&& window_secs > 0 ==> self.fresh_at(updated, window_secs)
                &&& window_secs <= 0 ==> !self.fresh_at(updated, window_secs)
            },
    {
    }

    pub fn last_known_status(&self) -> (r: DeviceStatus)
        ensures
            r == self.last_known(),
    {
        match self.device_state() {
            Some(state) => DeviceStatus {
                on: state.on,
                brightness: state.brightness,
                color: state.color,
                color_temperature_kelvin: state.kelvin,
            },
            None => DeviceStatus::default(),
        }
    }

    /// What a Bluetooth notification is merged into.
    pub fn ble_status_seed(&self) -> (r: DeviceStatus)
        ensures
            r == self.ble_seed(),
    {
        match &self.ble_device_status {
            Some(status) => *status,
            None => self.last_known_status(),
        }
    }

    pub open spec fn with_ble_status(self, status: DeviceStatus, now: Timestamp) -> Device {
        (Device {
            ble_device_status: Some(status),
            last_ble_device_status_update: Some(now),
            ..self
        }).scene_checked()
    }

    /// Takes over a Bluetooth status. Returns whether it is news.
    pub fn set_ble_device_status_at(&mut self, status: DeviceStatus, now: Timestamp) -> (r: bool)
        ensures
            r == (old(self).ble_device_status != Some(status)),
            *final(self) == old(self).with_ble_status(status, now),
    {
        let changed = match &self.ble_device_status {
            Some(prior) => *prior != status,
            None => true,
        };
        self.ble_device_status = Some(status);
        self.last_ble_device_status_update = Some(now);
        self.clear_scene_if_color_changed();
        changed
    }

    /// Apply what a Bluetooth notification told us.
    ///
    /// Each notification covers a single attribute, so this merges into the
    /// running picture instead of replacing it. `apply` is handed the current
    /// status to modify.
    pub fn update_ble_device_status<F: FnOnce(&mut DeviceStatus)>(&mut self, apply: F) -> (r: bool)
        requires
            forall|status: &mut DeviceStatus|
                *status == old(self).ble_seed() ==> #[trigger] call_requires(apply, (status,)),
        ensures
            final(self).ble_device_status is Some,
            final(self).last_ble_device_status_update is Some,
            exists|status: &mut DeviceStatus|
                *status == old(self).ble_seed() && *final(status)
                    == final(self).ble_device_status->0 && #[trigger] call_ensures(
                    apply,
                    (status,),
                    (),
                ),
            *final(self) == old(self).with_ble_status(
                final(self).ble_device_status->0,
                final(self).last_ble_device_status_update->0,
            ),
            r == (old(self).ble_device_status != final(self).ble_device_status),
    {
        let mut status = self.ble_status_seed();
        apply(&mut status);
        let now = utc_now();
        self.set_ble_device_status_at(status, now)
    }

    /// What is kept of the colour that Bluetooth told.
    pub open spec fn kept_color(&self) -> Option<(u8, u8, u8, u32)> {
        match self.ble_device_status {
            Some(status) => if status.color.r == 0 && status.color.g == 0 && status.color.b == 0 {
                None
            } else {
                Some(
                    (
                        status.color.r,
                        status.color.g,
                        status.color.b,
                        status.color_temperature_kelvin,
                    ),
                )
            },
            None => None,
        }
    }

    /// A Bluetooth status with a colour that was kept.
    pub open spec fn recolored(status: DeviceStatus, kept: (u8, u8, u8, u32)) -> DeviceStatus {
        let (r, g, b, kelvin) = kept;
        DeviceStatus {
            color: DeviceColor { r, g, b },
            color_temperature_kelvin: kelvin,
            ..status
        }
    }

    /// A colour that was kept is shown again after a restart, with its temperature,
    /// whatever else is known then. Black is not kept.
    pub proof fn a_colour_survives_a_restart(&self, later: DeviceStatus)
        ensures
            self.kept_color() is Some <==> (self.ble_device_status matches Some(status) && (
            status.color.r != 0 || status.color.g != 0 || status.color.b != 0)),
            self.kept_color() matches Some(kept) ==> {
                let (before, after) = (self.ble_device_status->0, Self::recolored(later, kept));
                &&& after.color.r == before.color.r && after.color.g == before.color.g
                    && after.color.b == before.color.b
                &&& after.color_temperature_kelvin == before.color_temperature_kelvin
                &&& after.on == later.on && after.brightness == later.brightness
            },
    {
    }

    /// What to persist of a colour learned over Bluetooth, so that it survives a
    /// restart: the key, the colour and the temperature.
    ///
    /// Some devices never name a colour of their own, so the only colour we will
    /// ever have for one is the colour we set.
    ///
    /// Black is never remembered: it is what "no colour" looks like on this
    /// hardware, not a measurement.
    pub fn remember_ble_color(&self) -> (r: Option<(String, (u8, u8, u8, u32))>)
        ensures
            match self.ble_device_status {
                Some(status) => if status.color == DeviceColor::black() {
                    r is None
                } else {
                    r matches Some((key, kept)) && key@ == color_key(self.id@) && kept == (
                        status.color.r,
                        status.color.g,
                        status.color.b,
                        status.color_temperature_kelvin,
                    )
                },
                None => r is None,
            },
            match (r, self.kept_color()) {
                (Some((_, kept)), Some(color)) => kept == color,
                (None, None) => true,
                _ => false,
            },
    {
        match &self.ble_device_status {
            Some(status) => {
                let color = status.color;
                if color.r == 0 && color.g == 0 && color.b == 0 {
                    return None;
                }
                let mut key = "color/".to_owned();
                append_str(&mut key, self.id.as_str());
                Some((key, (color.r, color.g, color.b, status.color_temperature_kelvin)))
            },
            None => None,
        }
    }

    /// Put back the colour this device had when we last spoke to it, given what
    /// was kept of it.
    ///
    /// Returns whether anything was restored. Only sensible for a device that
    /// has no other source of truth — see `remember_ble_color`.
    pub fn restore_remembered_ble_color(&mut self, kept: Option<(u8, u8, u8, u32)>) -> (r: bool)
        ensures
            match kept {
                Some((red, green, blue, kelvin)) => {
                    let status = DeviceStatus {
                        color: DeviceColor { r: red, g: green, b: blue },
                        color_temperature_kelvin: kelvin,
                        ..old(self).ble_seed()
                    };
                    &&& status == Self::recolored(old(self).ble_seed(), kept->0)
                    &&& r == (old(self).ble_device_status != Some(status))
                    &&& exists|now: Timestamp|
                        *final(self) == #[trigger] old(self).with_ble_status(status, now)
                },
                None => !r && *final(self) == *old(self),
            },
    {
        match kept {
            Some((red, green, blue, kelvin)) => {
                let color = DeviceColor { r: red, g: green, b: blue };
                let put_back = |status: &mut DeviceStatus|
                    ensures
                        final(status).on == old(status).on,
                        final(status).brightness == old(status).brightness,
                        final(status).color == color,
                        final(status).color_temperature_kelvin == kelvin,
                    {
                        status.color = color;
                        status.color_temperature_kelvin = kelvin;
                    };
                self.update_ble_device_status(put_back)
            },
            None => false,
        }
    }

    /// Whether Bluetooth reported this device's state less than `window_secs`
    /// seconds before `now`.
    pub open spec fn fresh_at(&self, now: Timestamp, window_secs: i64) -> bool {
        self.last_ble_device_status_update matches Some(updated) && window_secs * 1_000_000_000
            > now.since(updated)
    }

    /// Whether Bluetooth reported this device's state within the window.
    ///
    /// Used to skip the post-control cloud poll: a BLE session reads back what
    /// it changed, so polling again would spend a cloud request on something we
    /// already know.
    pub fn has_fresh_ble_state(&self, window_secs: i64) -> (r: bool)
        ensures
            exists|now: Timestamp| r == #[trigger] self.fresh_at(now, window_secs),
            self.last_ble_device_status_update is None ==> !r,
    {
        self.has_fresh_ble_state_at(utc_now(), window_secs)
    }

    pub fn has_fresh_ble_state_at(&self, now: Timestamp, window_secs: i64) -> (r: bool)
        ensures
            r == self.fresh_at(now, window_secs),
    {
        match &self.last_ble_device_status_update {
            Some(updated) => now.nanos_since(updated) < (window_secs as i128) * 1_000_000_000i128,
            None => false,
        }
    }
}

} // verus!
