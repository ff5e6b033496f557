//! What the service decides: which devices there are, and when each is asked for
//! its state.
use vstd::prelude::*;

use crate::clock::Timestamp;
use crate::platform_api::HttpDeviceInfo;
use crate::service::ble_scheduler::config;
use crate::service::ble_scheduler::config::{
    BleAddressOverrides, BleExclusions, BleSchedulerConfig, MalformedOverride,
};
use crate::service::device::{BleAddressSource, Device, UndocDeviceInfo};
use crate::service::poll;
use crate::service::poll::{as_chrono, poll_sources, PollIntervals};
use crate::service::state::State;
use crate::service::transport;
use crate::service::transport::TransportId;
use crate::text;
use crate::text::append_str;
use crate::text_map::TextMap;
use crate::undoc_api::{DeviceEntry, GroupEntry};

verus! {

/// The port on which the HTTP API listens where no other was asked for.
pub const DEFAULT_HTTP_PORT: u16 = 8056;

/// How long after the start the first pass over the devices is made, in seconds.
pub const FIRST_POLL_DELAY_SECS: u64 = 20;

/// How long after one another the account is asked for its devices, in seconds.
pub const DISCOVERY_INTERVAL_SECS: u64 = 600;

/// How long devices are given to answer on the LAN, in seconds.
pub const LAN_DISCOVERY_SECS: u64 = 10;

/// The command, with what it was given.
#[derive(Clone, Copy, Debug)]
pub struct ServeCommand {
    /// The port on which the HTTP API will listen
    pub http_port: u16,
}

impl Default for ServeCommand {
    fn default() -> (r: Self)
        ensures
            r.http_port == DEFAULT_HTTP_PORT,
    {
        ServeCommand { http_port: DEFAULT_HTTP_PORT }
    }
}

// ------------------------------------------------------------------- Bluetooth

/// A device whose Bluetooth address had to be guessed.
#[derive(Debug, PartialEq, Eq)]
pub struct GuessedAddress {
    /// What the device is called.
    pub label: String,
    pub address: String,
}

/// The address that had to be guessed for a device, if there is no correction
/// of it.
pub open spec fn guessed_address(device: Device, overrides: BleAddressOverrides) -> Option<
    Seq<char>,
> {
    match (overrides.address_of(device.id@), device.address()) {
        (None, Some((address, BleAddressSource::DerivedFromId))) => Some(address),
        _ => None,
    }
}

/// Whether the notes are those of the devices with a guessed address, in order.
pub open spec fn notes_guesses(
    notes: Seq<GuessedAddress>,
    devices: Seq<&Device>,
    overrides: BleAddressOverrides,
) -> bool
    decreases devices.len(),
{
    if devices.len() == 0 {
        notes.len() == 0
    } else {
        match guessed_address(*devices.last(), overrides) {
            Some(address) => {
                &&& notes.len() > 0
                &&& notes.last().label@ == devices.last().label_text()
                &&& notes.last().address@ == address
                &&& notes_guesses(notes.drop_last(), devices.drop_last(), overrides)
            },
            None => notes_guesses(notes, devices.drop_last(), overrides),
        }
    }
}

/// Every guess is told of, under the name of its device, and none is made up: each
/// note is that of a device with a guessed address. There is one note for each.
pub proof fn every_guess_is_noted(
    notes: Seq<GuessedAddress>,
    devices: Seq<&Device>,
    overrides: BleAddressOverrides,
    i: int,
)
    requires
        notes_guesses(notes, devices, overrides),
    ensures
        notes.len() <= devices.len(),
        0 <= i < devices.len() && guessed_address(*devices[i], overrides) is Some ==> exists|k: int|
            0 <= k < notes.len() && (#[trigger] notes[k]).label@ == devices[i].label_text() && Some(
                notes[k].address@,
            ) == guessed_address(*devices[i], overrides),
        0 <= i < notes.len() ==> exists|k: int|
            0 <= k < devices.len() && notes[i].label@ == (#[trigger] devices[k]).label_text()
                && Some(notes[i].address@) == guessed_address(*devices[k], overrides),
    decreases devices.len(),
{
    if devices.len() > 0 {
        let fewer = devices.drop_last();
        let n = fewer.len() as int;
        if guessed_address(*devices.last(), overrides) is Some {
            let before = notes.drop_last();
            every_guess_is_noted(before, fewer, overrides, i);
            assert(devices[n] == devices.last());
            assert(notes[notes.len() - 1] == notes.last());
            if 0 <= i < n && guessed_address(*devices[i], overrides) is Some {
                assert(fewer[i] == devices[i]);
                let k = choose|k: int|
                    0 <= k < before.len() && (#[trigger] before[k]).label@ == fewer[i].label_text()
                        && Some(before[k].address@) == guessed_address(*fewer[i], overrides);
                assert(notes[k] == before[k]);
            }
            if 0 <= i < before.len() {
                let k = choose|k: int|
                    0 <= k < fewer.len() && before[i].label@ == (#[trigger] fewer[k]).label_text()
                        && Some(before[i].address@) == guessed_address(*fewer[k], overrides);
                assert(devices[k] == fewer[k]);
            }
        } else {
            every_guess_is_noted(notes, fewer, overrides, i);
            if 0 <= i < n {
                assert(fewer[i] == devices[i]);
            }
            if 0 <= i < notes.len() {
                let k = choose|k: int|
                    0 <= k < fewer.len() && notes[i].label@ == (#[trigger] fewer[k]).label_text()
                        && Some(notes[i].address@) == guessed_address(*fewer[k], overrides);
                assert(devices[k] == fewer[k]);
            }
        }
    }
}

/// Point out devices whose Bluetooth address we had to guess.
///
/// Govee usually states the address; when it does not, we take the last six
/// octets of the device id. That is a guess, and a measured one at that: an
/// H601B's stated address is its device id plus one, so the guess would be
/// wrong for that whole family. Saying so at startup beats letting someone
/// puzzle over a device that advertises fine and never connects.
pub fn report_derived_ble_addresses(
    devices: &Vec<&Device>,
    overrides: &BleAddressOverrides,
) -> (r: Vec<GuessedAddress>)
    requires
        overrides.wf(),
    ensures
        notes_guesses(r@, devices@, *overrides),
{
    let mut notes: Vec<GuessedAddress> = Vec::new();
    for i in 0..devices.len()
        invariant
            overrides.wf(),
            notes_guesses(notes@, devices@.take(i as int), *overrides),
    {
        let device = devices[i];
        assert(devices@.take(i + 1).drop_last() =~= devices@.take(i as int));
        if overrides.get(device.id.as_str()).is_none() {
            if let Some((address, BleAddressSource::DerivedFromId)) =
                device.ble_address_with_source() {
                let ghost before = notes@;
                notes.push(GuessedAddress { label: device.label(), address });
                assert(notes@.drop_last() =~= before);
            }
        }
    }
    assert(devices@.take(devices@.len() as int) =~= devices@);
    notes
}

/// What an entry of the exclusion list matched.
#[derive(Debug, PartialEq, Eq)]
pub struct ExclusionReport {
    pub entry: String,
    /// What the devices are called that it keeps off Bluetooth.
    pub matched: Vec<String>,
}

/// The names of the devices that an entry names, in order.
pub open spec fn named_labels(entry: Seq<char>, devices: Seq<&Device>) -> Seq<Seq<char>>
    decreases devices.len(),
{
    if devices.len() == 0 {
        Seq::<Seq<char>>::empty()
    } else {
        let before = named_labels(entry, devices.drop_last());
        if config::names_device(entry, *devices.last()) {
            before.push(devices.last().label_text())
        } else {
            before
        }
    }
}

/// An entry is said to match exactly the devices that it keeps off Bluetooth, each by
/// what it is called.
pub proof fn an_exclusion_names_its_devices(
    entry: Seq<char>,
    devices: Seq<&Device>,
    label: Seq<char>,
)
    ensures
        named_labels(entry, devices).contains(label) <==> exists|i: int|
            0 <= i < devices.len() && (#[trigger] devices[i]).label_text() == label
                && config::names_device(entry, *devices[i]),
        named_labels(entry, devices).len() <= devices.len(),
    decreases devices.len(),
{
    if devices.len() > 0 {
        let fewer = devices.drop_last();
        let before = named_labels(entry, fewer);
        let all = named_labels(entry, devices);
        let n = fewer.len() as int;
        an_exclusion_names_its_devices(entry, fewer, label);
        assert(devices[n] == devices.last());
        if config::names_device(entry, *devices.last()) {
            assert(all[all.len() - 1] == devices.last().label_text());
            assert forall|k: int| 0 <= k < before.len() implies all[k] == #[trigger] before[k] by {}
        }
        if before.contains(label) {
            let i = choose|i: int|
                0 <= i < fewer.len() && (#[trigger] fewer[i]).label_text() == label
                    && config::names_device(entry, *fewer[i]);
            assert(devices[i] == fewer[i]);
            let k = choose|k: int| 0 <= k < before.len() && before[k] == label;
            assert(all[k] == label);
        }
        if all.contains(label) && !before.contains(label) {
            let k = choose|k: int| 0 <= k < all.len() && all[k] == label;
            if k < before.len() {
                assert(before[k] == label);
            }
        }
        if exists|i: int|
            0 <= i < devices.len() && (#[trigger] devices[i]).label_text() == label
                && config::names_device(entry, *devices[i]) {
            let i = choose|i: int|
                0 <= i < devices.len() && (#[trigger] devices[i]).label_text() == label
                    && config::names_device(entry, *devices[i]);
            if i < n {
                assert(fewer[i] == devices[i]);
            }
        }
    }
}

pub open spec fn texts_of(strings: Seq<String>) -> Seq<Seq<char>> {
    strings.map_values(|s: String| s@)
}

fn labels_named_by(entry: &str, devices: &Vec<&Device>) -> (r: Vec<String>)
    ensures
        texts_of(r@) == named_labels(entry@, devices@),
{
    let mut matched: Vec<String> = Vec::new();
    assert(texts_of(matched@) =~= named_labels(entry@, devices@.take(0)));
    for i in 0..devices.len()
        invariant
            texts_of(matched@) == named_labels(entry@, devices@.take(i as int)),
    {
        assert(devices@.take(i + 1).drop_last() =~= devices@.take(i as int));
        if BleExclusions::entry_matches(entry, devices[i]) {
            let ghost before = matched@;
            let label = devices[i].label();
            matched.push(label);
            assert(texts_of(matched@) =~= texts_of(before).push(label@));
        }
    }
    assert(devices@.take(devices@.len() as int) =~= devices@);
    matched
}

/// What the Bluetooth exclusion list actually matched, entry by entry.
///
/// An entry that matches nothing is almost always a typo, and it would
/// otherwise fail silently: the device would simply keep using Bluetooth and
/// the user would be left wondering why their exclusion had no effect.
pub fn report_ble_exclusions(devices: &Vec<&Device>, exclusions: &BleExclusions) -> (r: Vec<
    ExclusionReport,
>)
    ensures
        r@.len() == exclusions@.len(),
        forall|i: int|
            0 <= i < r@.len() ==> {
                &&& (#[trigger] r@[i]).entry@ == exclusions@[i]
                &&& texts_of(r@[i].matched@) == named_labels(exclusions@[i], devices@)
            },
{
    let entries = exclusions.entries();
    let mut reports: Vec<ExclusionReport> = Vec::new();
    for i in 0..entries.len()
        invariant
            entries@ == exclusions.entries@,
            reports@.len() == i,
            forall|j: int|
                0 <= j < i ==> {
                    &&& (#[trigger] reports@[j]).entry@ == exclusions@[j]
                    &&& texts_of(reports@[j].matched@) == named_labels(exclusions@[j], devices@)
                },
    {
        let matched = labels_named_by(entries[i].as_str(), devices);
        reports.push(ExclusionReport { entry: entries[i].clone(), matched });
    }
    reports
}

/// How many sessions may run at a time.
pub open spec fn allowed_sessions(max_concurrent: Option<usize>) -> usize {
    match max_concurrent {
        Some(sessions) => if sessions >= 1 {
            sessions
        } else {
            1
        },
        None => 1,
    }
}

/// At least one session may run, and otherwise as many as are configured.
pub proof fn a_session_may_always_run(max_concurrent: Option<usize>)
    ensures
        allowed_sessions(max_concurrent) >= 1,
        max_concurrent is Some && max_concurrent->0 > 0 ==> Some(allowed_sessions(max_concurrent))
            == max_concurrent,
        max_concurrent is None || max_concurrent->0 == 0 ==> allowed_sessions(max_concurrent) == 1,
{
}

/// The configuration of the Bluetooth transport. At least one session may run.
pub fn ble_config(
    exclude: Option<&str>,
    address_map: Option<&str>,
    max_concurrent: Option<usize>,
) -> (r: Result<BleSchedulerConfig, MalformedOverride>)
    ensures
        match (address_map, r) {
            (None, Err(_)) => false,
            (Some(spec), Err(err)) => config::overrides_of(text::split_on(spec@, ',')) == Err::<
                Map<Seq<char>, Seq<char>>,
                Seq<char>,
            >(err.entry@),
            (_, Ok(c)) => {
                &&& c.wf()
                &&& c.exclusions@ == (match exclude {
                    Some(spec) => config::list_entries(text::split_on(spec@, ',')),
                    None => Seq::<Seq<char>>::empty(),
                })
                &&& match address_map {
                    Some(spec) => config::overrides_of(text::split_on(spec@, ',')) == Ok::<
                        Map<Seq<char>, Seq<char>>,
                        Seq<char>,
                    >(c.address_overrides@),
                    None => c.address_overrides@ == Map::<Seq<char>, Seq<char>>::empty(),
                }
                &&& c.max_concurrent == allowed_sessions(max_concurrent)
                &&& c.max_concurrent == (match max_concurrent {
                    Some(0) => 1,
                    Some(sessions) => sessions,
                    None => 1,
                })
                &&& c.coalesce_window_ms == 150
                &&& c.inter_frame_delay_ms == 200
                &&& c.keep_open_ms == 30_000
                &&& c.deadline_ms == 30_000
                &&& c.permit_wait_ms == 500
                &&& c.breaker_threshold == 3
                &&& c.breaker_cooldown_ms == 300_000
                &&& c.query_timeout_ms == 5_000
                &&& c.verify_writes
            },
        },
{
    let mut c = BleSchedulerConfig::default();
    if let Some(spec) = exclude {
        c.exclusions = BleExclusions::parse(spec);
    }
    assert(exclude is None ==> c.exclusions@ =~= Seq::<Seq<char>>::empty());
    if let Some(spec) = address_map {
        match BleAddressOverrides::parse(spec) {
            Ok(overrides) => {
                c.address_overrides = overrides;
            },
            Err(err) => {
                return Err(err);
            },
        }
    }
    if let Some(sessions) = max_concurrent {
        c.max_concurrent = if sessions == 0 {
            1
        } else {
            sessions
        };
    }
    Ok(c)
}

// -------------------------------------------------------------------- segments

/// Under which key a device's segment count is kept.
pub open spec fn segments_key_text(id: Seq<char>) -> Seq<char> {
    "segments/"@ + id
}

/// No two devices share a key.
pub proof fn devices_have_keys_of_their_own(id: Seq<char>, other: Seq<char>)
    ensures
        segments_key_text(id) == segments_key_text(other) <==> id == other,
        segments_key_text(id).len() == id.len() + 9,
        forall|i: int| 0 <= i < id.len() ==> segments_key_text(id)[9 + i] == #[trigger] id[i],
{
    reveal_strlit("segments/");
    assert("segments/"@.len() == 9);
    let (a, b) = (segments_key_text(id), segments_key_text(other));
    assert(a.skip(9) =~= id);
    assert(b.skip(9) =~= other);
}

pub fn segments_key(id: &str) -> (r: String)
    ensures
        r@ == segments_key_text(id@),
{
    let mut key = "segments/".to_owned();
    append_str(&mut key, id);
    key
}

/// A device once its count was restored: a count of zero is none.
pub open spec fn restored(device: Device, kept: Option<u32>) -> Device {
    match kept {
        Some(count) => if count == 0 {
            device
        } else {
            Device { remembered_segment_count: Some(count), ..device }
        },
        None => device,
    }
}

pub open spec fn kept_count(kept: TextMap<u32>, id: Seq<char>) -> Option<u32> {
    if kept.has(id) {
        Some(kept.at(id))
    } else {
        None
    }
}

/// A count that was kept is remembered, and a count of zero, which is none, does not
/// overwrite one. Nothing else of the device changes.
pub proof fn only_a_real_count_is_restored(device: Device, kept: Option<u32>)
    ensures
        ({
            let after = restored(device, kept);
            &&& kept is Some && kept->0 > 0 ==> after.remembered_segment_count == kept
            &&& kept is None || kept == Some(0u32) ==> after.remembered_segment_count
                == device.remembered_segment_count
            &&& after == (Device {
                remembered_segment_count: after.remembered_segment_count,
                ..device
            })
        }),
{
}

/// Restore segment counts learned in earlier runs, by the ids of the devices.
///
/// Discovery lives in memory, so without this it starts from nothing after
/// every restart. For a device whose count comes only from its own frames —
/// every Bluetooth-only one, and an H6054 that Govee's API never mentions — the
/// segment entities go unavailable and return over the following polls while it
/// re-converges. Restoring the count skips all of that.
pub fn restore_remembered_segments(state: &mut State, kept: &TextMap<u32>)
    requires
        old(state).wf(),
        kept.wf(),
    ensures
        final(state).wf(),
        *final(state) == (State { devices: final(state).devices, ..*old(state) }),
        forall|id: Seq<char>| #[trigger]
            final(state).devices.has(id) == old(state).devices.has(id),
        forall|id: Seq<char>|
            old(state).devices.has(id) ==> #[trigger] final(state).devices.at(id) == restored(
                old(state).devices.at(id),
                kept_count(*kept, id),
            ),
{
    let ghost start = *state;
    let n: usize = state.devices.entries.len();
    for i in 0..n
        invariant
            start == *old(state),
            start.wf(),
            state.wf(),
            kept.wf(),
            *state == (State { devices: state.devices, ..start }),
            n == start.devices.entries@.len(),
            state.devices.entries@.len() == n,
            forall|j: int|
                0 <= j < n ==> (#[trigger] state.devices.entries@[j]).0@
                    == start.devices.entries@[j].0@,
            forall|j: int|
                i <= j < n ==> (#[trigger] state.devices.entries@[j]).1
                    == start.devices.entries@[j].1,
            forall|j: int|
                0 <= j < i ==> (#[trigger] state.devices.entries@[j]).1 == restored(
                    start.devices.entries@[j].1,
                    kept_count(*kept, start.devices.entries@[j].0@),
                ),
    {
        let found = match kept.get(state.devices.entries[i].0.as_str()) {
            Some(count) => *count,
            None => 0,
        };
        if found != 0 {
            let ghost before = state.devices;
            proof {
                before.changing_a_value(i as int, &before);
                before.entry_is_found(i as int);
                crate::service::state::changing_keeps_all_wf(before, i as int);
            }
            let device = state.devices.value_mut(i);
            device.set_remembered_segment_count(found);
            proof {
                let changed = state.devices.entries@[i as int].1;
                assert(changed.wf());
                assert(crate::service::state::all_wf(state.devices));
            }
        }
    }
    proof {
        assert forall|id: Seq<char>|
            #![trigger state.devices.has(id)]
            #![trigger state.devices.at(id)]
            state.devices.has(id) == start.devices.has(id) && (start.devices.has(id)
                ==> state.devices.at(id) == restored(
                start.devices.at(id),
                kept_count(*kept, id),
            )) by {
            if start.devices.has(id) {
                let k = choose|k: int| start.devices.is_at(id, k);
                start.devices.entry_is_found(k);
                assert(state.devices.is_at(id, k));
                state.devices.entry_is_found(k);
            }
            if state.devices.has(id) {
                let k = choose|k: int| state.devices.is_at(id, k);
                assert(start.devices.is_at(id, k));
            }
        }
    }
}

// --------------------------------------------------------------------- polling

/// Whether more than `secs` seconds have passed since a point in time, or there
/// was none.
pub open spec fn is_due(last: Option<Timestamp>, now: Timestamp, secs: int) -> bool {
    match last {
        Some(last) => now.since(last) > secs * 1_000_000_000,
        None => true,
    }
}

fn due(last: &Option<Timestamp>, now: Timestamp, secs: i64) -> (r: bool)
    ensures
        r == is_due(*last, now, secs as int),
{
    match last {
        Some(last) => now.is_older_than(last, secs),
        None => true,
    }
}

/// What a Bluetooth poll reads.
#[derive(Debug, PartialEq, Eq)]
pub struct BlePoll {
    pub address: String,
    /// How many segments the device is known to have.
    pub segments: Option<u32>,
}

/// Whether a device is read over Bluetooth now: Bluetooth is in use, the device
/// has an address, it is a light, as only those have a command set we
/// understand, the executor and the circuit breaker let it, and it is due.
pub open spec fn is_polled_via_ble(
    state: State,
    device: Device,
    now: Timestamp,
    interval: i64,
    now_ms: u64,
) -> bool {
    &&& state.ble_scheduler matches Some(scheduler)
    &&& scheduler.address_text(device) is Some
    &&& device.kind() is Light
    &&& scheduler.available(device, now_ms)
    &&& is_due(device.last_polled, now, interval as int)
}

/// Decides whether to read a Bluetooth-only device's state, if it is due and
/// reachable.
///
/// That it was polled is recorded before the attempt, so that an unreachable
/// device is retried on the usual interval rather than on every tick of the poll
/// loop.
pub fn poll_via_ble(
    state: &mut State,
    device: &Device,
    now: Timestamp,
    interval: i64,
    now_ms: u64,
) -> (r: Option<BlePoll>)
    requires
        old(state).wf(),
        device.wf(),
    ensures
        final(state).wf(),
        match r {
            Some(poll) => {
                &&& is_polled_via_ble(*old(state), *device, now, interval, now_ms)
                &&& old(state).ble_scheduler->0.address_text(*device) == Some(poll.address@)
                &&& match poll.segments {
                    Some(count) => device.addressed() == Some(count as int),
                    None => device.addressed() is None,
                }
                &&& *final(state) == (State { devices: final(state).devices, ..*old(state) })
                &&& exists|known: Device| #[trigger]
                    old(state).device_or_new(device.sku@, device.id@, known) && old(
                        state,
                    ).devices.with(
                        device.id@,
                        (Device { last_polled: Some(now), ..known }),
                        &final(state).devices,
                    )
            },
            None => !is_polled_via_ble(*old(state), *device, now, interval, now_ms)
                && *final(state) == *old(state),
        },
{
    let address = match &state.ble_scheduler {
        Some(scheduler) => {
            match scheduler.address_for(device) {
                Some(address) => {
                    // Only lights have a command set we understand.
                    if !device.device_type().is_light() {
                        return None;
                    }
                    // An offline executor or an open circuit breaker means a
                    // poll would just burn a connection attempt.
                    if !scheduler.is_available_for(device, now_ms) {
                        return None;
                    }
                    address
                },
                None => {
                    return None;
                },
            }
        },
        None => {
            return None;
        },
    };
    if !due(&device.last_polled, now, interval) {
        return None;
    }
    state.note_polled(device.sku.as_str(), device.id.as_str(), now);
    Some(BlePoll { address, segments: device.segment_count() })
}

/// Which of Govee's clouds is asked for a device's state.
#[derive(Clone, Copy, Debug, PartialEq, Eq, Structural)]
pub enum CloudPoll {
    Nothing,
    /// AWS IoT, and the Platform API if AWS IoT does not take the request.
    IotThenPlatform,
    Platform,
}

/// How a device is asked for its state.
#[derive(Clone, Copy, Debug, PartialEq, Eq, Structural)]
pub enum PollPlan {
    /// Over Bluetooth, on this interval in seconds: the only way in which the
    /// state of a Bluetooth-only device ever reaches us.
    Bluetooth { interval: i64 },
    /// Over the LAN, if that is said, and then over a cloud.
    Network { lan: bool, cloud: CloudPoll },
}

/// The interval on which the cloud is asked for a device, in seconds: that of
/// the transport which is about to be used, and a minute for a kettle that is
/// on.
pub open spec fn cloud_interval(device: Device, intervals: PollIntervals) -> i64 {
    let configured = poll::usable_span(
        if device.iot_pollable() {
            intervals.iot
        } else {
            intervals.platform
        },
    );
    if device.kind() is Kettle && (device.state() matches Some(s) && s.on) && configured > 60 {
        60
    } else {
        configured
    }
}

/// Which cloud is asked. None is asked before the interval is over, nor while
/// the state that is known is fresher than it, nor for a device that answers on
/// the LAN and needs nothing of the Platform API: if that is stale it is likely
/// offline, and there is little sense in burning up request quota for it.
pub open spec fn cloud_poll(device: Device, intervals: PollIntervals, now: Timestamp) -> CloudPoll {
    let interval = cloud_interval(device, intervals);
    if !is_due(device.last_polled, now, interval as int) {
        CloudPoll::Nothing
    } else if device.state() matches Some(s) && now.since(s.updated) <= interval * 1_000_000_000 {
        CloudPoll::Nothing
    } else if device.iot_pollable() {
        if device.lan_device is Some {
            CloudPoll::Nothing
        } else {
            CloudPoll::IotThenPlatform
        }
    } else {
        CloudPoll::Platform
    }
}

pub open spec fn poll_plan(
    device: Device,
    intervals: PollIntervals,
    now: Timestamp,
    lan_client: bool,
) -> PollPlan {
    if device.ble_only() == Some(true) {
        PollPlan::Bluetooth { interval: poll::usable_span(intervals.ble) }
    } else {
        PollPlan::Network {
            lan: lan_client && device.lan_device is Some && is_due(
                device.last_lan_device_status_update,
                now,
                poll::usable_span(intervals.lan) as int,
            ),
            cloud: cloud_poll(device, intervals, now),
        }
    }
}

/// Decides how a device is asked for its state now.
pub fn poll_single_device(
    device: &Device,
    intervals: &PollIntervals,
    now: Timestamp,
    lan_client: bool,
) -> (r: PollPlan)
    ensures
        r == poll_plan(*device, *intervals, now, lan_client),
{
    if let Some(true) = device.is_ble_only_device() {
        // Bluetooth-only devices have no other source to poll. Devices that also
        // have a cloud or LAN presence keep using those; their Bluetooth writes
        // are verified within the session that issued them.
        return PollPlan::Bluetooth { interval: as_chrono(intervals.ble) };
    }
    // Some Govee devices have bad firmware that will cause the lights to flicker
    // about a minute after polling, so it is desirable to keep polling on a
    // regular basis.
    let lan = lan_client && device.lan_device.is_some() && due(
        &device.last_lan_device_status_update,
        now,
        as_chrono(intervals.lan),
    );
    // If AWS IoT is tried and fails we fall through to the Platform API still on
    // the IoT interval; the two share a default, and a failed IoT poll is rare
    // enough not to warrant a second gate.
    let needs_platform = device.needs_platform_poll();
    let interval = device.preferred_poll_interval(
        as_chrono(
            if needs_platform {
                intervals.platform
            } else {
                intervals.iot
            },
        ),
    );
    if !due(&device.last_polled, now, interval) {
        return PollPlan::Network { lan, cloud: CloudPoll::Nothing };
    }
    let needs_update = match device.device_state() {
        Some(state) => now.is_older_than(&state.updated, interval),
        None => true,
    };
    if !needs_update {
        return PollPlan::Network { lan, cloud: CloudPoll::Nothing };
    }
    if device.lan_device.is_some() && !needs_platform {
        return PollPlan::Network { lan, cloud: CloudPoll::Nothing };
    }
    if needs_platform {
        PollPlan::Network { lan, cloud: CloudPoll::Platform }
    } else {
        PollPlan::Network { lan, cloud: CloudPoll::IotThenPlatform }
    }
}

/// Sources other than the LAN, in their order.
pub open spec fn beyond_lan(sources: Seq<TransportId>) -> Seq<TransportId>
    decreases sources.len(),
{
    if sources.len() == 0 {
        sources
    } else {
        let before = beyond_lan(sources.drop_last());
        if sources.last() == TransportId::Lan {
            before
        } else {
            before.push(sources.last())
        }
    }
}

/// Which sources are asked in turn, until one of them tells the state: none
/// unless it is time to ask, and else those that may tell it. The LAN is asked on
/// its own interval.
pub open spec fn turns(
    cloud: CloudPoll,
    preferred: Option<Seq<TransportId>>,
    broker_connected: bool,
    device: Device,
) -> Seq<TransportId> {
    if cloud is Nothing {
        Seq::<TransportId>::empty()
    } else {
        beyond_lan(
            poll::telling(
                transport::order_of(poll::default_poll_order(), preferred),
                broker_connected,
                device,
            ),
        )
    }
}

/// Decides which sources are asked in turn, until one of them tells the state.
pub fn poll_turns(
    cloud: CloudPoll,
    preferred: Option<&[TransportId]>,
    broker_connected: bool,
    device: &Device,
) -> (r: Vec<TransportId>)
    ensures
        r@ == turns(
            cloud,
            match preferred {
                Some(order) => Some(order@),
                None => None,
            },
            broker_connected,
            *device,
        ),
{
    let mut asked: Vec<TransportId> = Vec::new();
    if cloud == CloudPoll::Nothing {
        assert(asked@ =~= Seq::<TransportId>::empty());
        return asked;
    }
    let sources = poll_sources(preferred, broker_connected, device);
    assert(asked@ =~= beyond_lan(sources@.take(0)));
    for i in 0..sources.len()
        invariant
            asked@ == beyond_lan(sources@.take(i as int)),
    {
        assert(sources@.take(i + 1).drop_last() =~= sources@.take(i as int));
        if sources[i] != TransportId::Lan {
            asked.push(sources[i]);
        }
    }
    assert(sources@.take(sources@.len() as int) =~= sources@);
    asked
}

proof fn only_the_lan_is_left_out(sources: Seq<TransportId>, source: TransportId)
    ensures
        beyond_lan(sources).contains(source) <==> sources.contains(source) && !(source is Lan),
    decreases sources.len(),
{
    if sources.len() > 0 {
        let head = sources.drop_last();
        let before = beyond_lan(head);
        let after = beyond_lan(sources);
        only_the_lan_is_left_out(head, source);
        assert(sources[sources.len() - 1] == sources.last());
        if sources.contains(source) {
            let i = choose|i: int| 0 <= i < sources.len() && sources[i] == source;
            if i < head.len() {
                assert(head[i] == source);
            }
        }
        if head.contains(source) {
            let i = choose|i: int| 0 <= i < head.len() && head[i] == source;
            assert(sources[i] == source);
        }
        if before.contains(source) {
            let i = choose|i: int| 0 <= i < before.len() && before[i] == source;
            assert(after[i] == source);
        }
        if after.contains(source) {
            let i = choose|i: int| 0 <= i < after.len() && after[i] == source;
            if i < before.len() {
                assert(before[i] == source);
            }
        }
        if !(sources.last() is Lan) {
            assert(after[before.len() as int] == sources.last());
        }
    }
}

/// Whatever the prefix, a source is asked exactly if it is time to ask and it may tell
/// the state of the device, but for the LAN, which has an interval of its own.
pub proof fn who_is_asked_in_turn(
    cloud: CloudPoll,
    preferred: Option<Seq<TransportId>>,
    broker_connected: bool,
    device: Device,
    source: TransportId,
)
    ensures
        turns(cloud, preferred, broker_connected, device).contains(source) <==> {
            &&& !(cloud is Nothing)
            &&& !(source is Lan)
            &&& poll::may_tell(source, broker_connected, device)
        },
{
    poll::no_source_is_removed(preferred, broker_connected, device, source);
    only_the_lan_is_left_out(
        poll::telling(
            transport::order_of(poll::default_poll_order(), preferred),
            broker_connected,
            device,
        ),
        source,
    );
}

/// Without a prefix the clouds are asked before Bluetooth, and AWS IoT before the
/// Platform API. AWS IoT is asked if it can tell the device's state and its
/// broker is connected. Once the broker is gone, the others are left.
pub proof fn the_usual_turns(cloud: CloudPoll, broker_connected: bool, device: Device)
    requires
        cloud !is Nothing,
    ensures
        ({
            let one = |source: TransportId|
                if poll::may_tell(source, broker_connected, device) {
                    seq![source]
                } else {
                    Seq::<TransportId>::empty()
                };
            turns(cloud, None, broker_connected, device) == one(TransportId::Iot) + one(
                TransportId::Platform,
            ) + one(TransportId::Ble)
        }),
        turns(cloud, None, broker_connected, device).contains(TransportId::Iot) == (
        broker_connected && device.iot_pollable()),
{
    let one = |source: TransportId|
        if poll::may_tell(source, broker_connected, device) {
            seq![source]
        } else {
            Seq::<TransportId>::empty()
        };
    let (lan, iot, platform, ble) = (
        one(TransportId::Lan),
        one(TransportId::Iot),
        one(TransportId::Platform),
        one(TransportId::Ble),
    );
    poll::the_usual_sources(broker_connected, device);
    assert(transport::order_of(poll::default_poll_order(), None) == poll::default_poll_order());
    beyond_lan_of_two(lan + iot + platform, ble);
    beyond_lan_of_two(lan + iot, platform);
    beyond_lan_of_two(lan, iot);
    reveal_with_fuel(beyond_lan, 2);
    assert(beyond_lan(lan) =~= Seq::<TransportId>::empty());
    assert(beyond_lan(iot) =~= iot);
    assert(beyond_lan(platform) =~= platform);
    assert(beyond_lan(ble) =~= ble);
    let all = iot + platform + ble;
    assert(turns(cloud, None, broker_connected, device) =~= all);
    if poll::may_tell(TransportId::Iot, broker_connected, device) {
        assert(all[0] == TransportId::Iot);
    }
}

proof fn beyond_lan_of_two(one: Seq<TransportId>, other: Seq<TransportId>)
    ensures
        beyond_lan(one + other) == beyond_lan(one) + beyond_lan(other),
    decreases other.len(),
{
    if other.len() == 0 {
        assert(one + other =~= one);
        assert(beyond_lan(one) + beyond_lan(other) =~= beyond_lan(one));
    } else {
        assert((one + other).drop_last() =~= one + other.drop_last());
        beyond_lan_of_two(one, other.drop_last());
        assert(beyond_lan(one + other) =~= beyond_lan(one) + beyond_lan(other));
    }
}

/// A device that was polled is not asked of the cloud again before its interval
/// is over, however old its state is.
pub proof fn the_cloud_is_not_asked_twice(
    device: Device,
    intervals: PollIntervals,
    polled: Timestamp,
    now: Timestamp,
)
    requires
        now.since(polled) <= cloud_interval(device, intervals) * 1_000_000_000,
    ensures
        cloud_poll((Device { last_polled: Some(polled), ..device }), intervals, now)
            == CloudPoll::Nothing,
{
    let after = Device { last_polled: Some(polled), ..device };
    assert(after.state() == device.state());
    assert(cloud_interval(after, intervals) == cloud_interval(device, intervals));
}

/// A light that answers on the LAN, and that AWS IoT can tell all of, spends
/// nothing of any cloud's quota.
pub proof fn the_lan_spares_the_clouds(device: Device, intervals: PollIntervals, now: Timestamp)
    requires
        device.lan_device is Some,
        device.iot_pollable(),
    ensures
        cloud_poll(device, intervals, now) == CloudPoll::Nothing,
{
}

/// Only a device that nothing but Bluetooth reaches is polled that way by plan, on
/// the interval of Bluetooth. Any other is asked on the LAN as often as the LAN's
/// interval says, if it answers there and there is a client.
pub proof fn how_a_device_is_polled(
    device: Device,
    intervals: PollIntervals,
    now: Timestamp,
    lan_client: bool,
)
    requires
        intervals.longest() <= crate::clock::MAX_SPAN_SECS,
    ensures
        device.ble_only() == Some(true) ==> poll_plan(device, intervals, now, lan_client) == (
        PollPlan::Bluetooth { interval: intervals.ble as i64 }),
        device.ble_only() != Some(true) ==> (poll_plan(
            device,
            intervals,
            now,
            lan_client,
        ) matches PollPlan::Network { lan, cloud } && cloud == cloud_poll(device, intervals, now) && (
        lan <==> {
            &&& lan_client
            &&& device.lan_device is Some
            &&& device.last_lan_device_status_update matches Some(last) ==> now.since(last)
                > intervals.lan * 1_000_000_000
        })),
{
}

/// A cloud is asked exactly if the device was not polled within its interval, what
/// is known of it is older than that, and the LAN does not spare the question. It
/// is AWS IoT that is asked first wherever that can tell all there is to know, and
/// the interval is that of the cloud which is asked first. A kettle that is on is
/// asked every minute at least, and nothing else is asked more often than
/// configured.
pub proof fn when_a_cloud_is_asked(device: Device, intervals: PollIntervals, now: Timestamp)
    requires
        intervals.longest() <= crate::clock::MAX_SPAN_SECS,
    ensures
        ({
            let configured = if device.iot_pollable() {
                intervals.iot as int
            } else {
                intervals.platform as int
            };
            let boiling = device.kind() is Kettle && (device.state() matches Some(s) && s.on);
            let secs = if boiling && configured > 60 {
                60
            } else {
                configured
            };
            let asked = cloud_poll(device, intervals, now);
            &&& asked !is Nothing <==> {
                &&& device.last_polled matches Some(last) ==> now.since(last) > secs * 1_000_000_000
                &&& device.state() matches Some(s) ==> now.since(s.updated) > secs * 1_000_000_000
                &&& !(device.lan_device is Some && device.iot_pollable())
            }
            &&& asked is IotThenPlatform ==> device.iot_pollable()
            &&& asked is Platform ==> !device.iot_pollable()
        }),
{
}

/// A device is read over Bluetooth only if it is a light with an address, Bluetooth
/// is there and lets it, and it was not polled within the interval; and then it is.
pub proof fn when_bluetooth_is_asked(
    state: State,
    device: Device,
    now: Timestamp,
    interval: i64,
    now_ms: u64,
)
    ensures
        is_polled_via_ble(state, device, now, interval, now_ms) <==> {
            &&& state.ble_scheduler matches Some(scheduler)
            &&& scheduler.available(device, now_ms)
            &&& scheduler.address_text(device) is Some
            &&& device.kind() is Light
            &&& device.last_polled matches Some(last) ==> now.since(last) > interval * 1_000_000_000
        },
{
}

// ----------------------------------------------------------------- enumeration

/// Whether `after` is `before` with a device as the account lists it.
pub open spec fn platform_listed(before: State, info: HttpDeviceInfo, after: State) -> bool {
    &&& after == (State { devices: after.devices, ..before })
    &&& exists|device: Device, listed: Device|
        #![trigger before.device_or_new(info.sku@, info.device@, device), before.devices.with(info.device@, listed, &after.devices)]
        {
            &&& before.device_or_new(info.sku@, info.device@, device)
            &&& before.devices.with(info.device@, listed, &after.devices)
            &&& listed.last_http_device_update is Some
            &&& listed == (Device {
                http_device_info: Some(info),
                last_http_device_update: listed.last_http_device_update,
                ..device
            })
        }
}

/// Whether the list leads from each of the states to the next.
pub open spec fn all_platform_listed(states: Seq<State>, infos: Seq<HttpDeviceInfo>) -> bool {
    &&& states.len() == infos.len() + 1
    &&& forall|i: int|
        0 <= i < infos.len() ==> platform_listed(#[trigger] states[i], infos[i], states[i + 1])
}

/// Takes over the devices that the Platform API lists, one after the other.
pub fn enumerate_devices_via_platform_api(state: &mut State, infos: Vec<HttpDeviceInfo>)
    requires
        old(state).wf(),
    ensures
        final(state).wf(),
        exists|states: Seq<State>| #[trigger]
            all_platform_listed(states, infos@) && states[0] == *old(state) && states.last()
                == *final(state),
{
    let ghost all = infos@;
    let ghost mut states: Seq<State> = seq![*state];
    let mut rest = infos;
    let ghost mut done: int = 0;
    while rest.len() > 0
        invariant
            state.wf(),
            0 <= done <= all.len(),
            rest@ == all.skip(done),
            all_platform_listed(states, all.take(done)),
            states[0] == *old(state),
            states.last() == *state,
        decreases rest@.len(),
    {
        let ghost before = *state;
        let ghost earlier = states;
        let info = rest.remove(0);
        assert(info == all[done]);
        let sku = info.sku.clone();
        let id = info.device.clone();
        let device = state.device_mut(sku.as_str(), id.as_str());
        let ghost known = *device;
        assert(before.device_or_new(sku@, id@, known));
        device.set_http_device_info(info);
        let ghost listed = *device;
        assert(before.devices.with(id@, listed, &state.devices));
        proof {
            assert(platform_listed(before, info, *state));
            states = states.push(*state);
            let listed = all.take(done + 1);
            assert forall|j: int| 0 <= j < listed.len() implies platform_listed(
                #[trigger] states[j],
                listed[j],
                states[j + 1],
            ) by {
                if j < done {
                    assert(platform_listed(earlier[j], all.take(done)[j], earlier[j + 1]));
                }
            }
            assert(rest@ =~= all.skip(done + 1));
            done = done + 1;
        }
    }
    assert(all.take(done) =~= all);
}

/// The name of a group; of two groups of one id the later counts.
pub open spec fn group_name(groups: Seq<GroupEntry>, id: u64) -> Option<String>
    decreases groups.len(),
{
    if groups.len() == 0 {
        None
    } else if groups.last().group_id == id {
        Some(groups.last().group_name)
    } else {
        group_name(groups.drop_last(), id)
    }
}

fn room_of(groups: &Vec<GroupEntry>, id: u64) -> (r: Option<&str>)
    ensures
        match (r, group_name(groups@, id)) {
            (Some(name), Some(expected)) => name@ == expected@,
            (None, None) => true,
            _ => false,
        },
{
    let mut i: usize = groups.len();
    assert(groups@.take(i as int) =~= groups@);
    while i > 0
        invariant
            i <= groups@.len(),
            group_name(groups@, id) == group_name(groups@.take(i as int), id),
        decreases i,
    {
        assert(groups@.take(i as int).drop_last() =~= groups@.take(i - 1));
        i = i - 1;
        if groups[i].group_id == id {
            return Some(groups[i].group_name.as_str());
        }
    }
    None
}

/// Whether `after` is `before` with a device as the account's metadata lists it,
/// in the room of its group.
pub open spec fn undoc_listed(
    before: State,
    entry: DeviceEntry,
    groups: Seq<GroupEntry>,
    after: State,
) -> bool {
    &&& after == (State { devices: after.devices, ..before })
    &&& exists|device: Device, info: UndocDeviceInfo, now: Timestamp|
        #![trigger before.device_or_new(entry.sku@, entry.device@, device), device.with_undoc_info(info, now)]
        {
            &&& before.device_or_new(entry.sku@, entry.device@, device)
            &&& before.devices.with(
                entry.device@,
                device.with_undoc_info(info, now),
                &after.devices,
            )
            &&& info.entry == entry
            &&& match (info.room_name, group_name(groups, entry.group_id)) {
                (Some(room), Some(name)) => room@ == name@,
                (None, None) => true,
                _ => false,
            }
        }
}

/// Whether the list leads from each of the states to the next.
pub open spec fn all_undoc_listed(
    states: Seq<State>,
    entries: Seq<DeviceEntry>,
    groups: Seq<GroupEntry>,
) -> bool {
    &&& states.len() == entries.len() + 1
    &&& forall|i: int|
        0 <= i < entries.len() ==> undoc_listed(
            #[trigger] states[i],
            entries[i],
            groups,
            states[i + 1],
        )
}

/// Takes over the devices that the account's metadata lists, one after the
/// other, with the rooms that they are in.
pub fn enumerate_devices_via_undo_api(
    state: &mut State,
    entries: Vec<DeviceEntry>,
    groups: &Vec<GroupEntry>,
)
    requires
        old(state).wf(),
    ensures
        final(state).wf(),
        exists|states: Seq<State>| #[trigger]
            all_undoc_listed(states, entries@, groups@) && states[0] == *old(state)
                && states.last() == *final(state),
{
    let ghost all = entries@;
    let ghost mut states: Seq<State> = seq![*state];
    let mut rest = entries;
    let ghost mut done: int = 0;
    while rest.len() > 0
        invariant
            state.wf(),
            0 <= done <= all.len(),
            rest@ == all.skip(done),
            all_undoc_listed(states, all.take(done), groups@),
            states[0] == *old(state),
            states.last() == *state,
        decreases rest@.len(),
    {
        let ghost before = *state;
        let ghost earlier = states;
        let entry = rest.remove(0);
        assert(entry == all[done]);
        let sku = entry.sku.clone();
        let id = entry.device.clone();
        let room = room_of(groups, entry.group_id);
        let device = state.device_mut(sku.as_str(), id.as_str());
        let ghost known = *device;
        assert(before.device_or_new(sku@, id@, known));
        device.set_undoc_device_info(entry, room);
        proof {
            assert(undoc_listed(before, entry, groups@, *state));
            states = states.push(*state);
            let listed = all.take(done + 1);
            assert forall|j: int| 0 <= j < listed.len() implies undoc_listed(
                #[trigger] states[j],
                listed[j],
                groups@,
                states[j + 1],
            ) by {
                if j < done {
                    assert(undoc_listed(earlier[j], all.take(done)[j], groups@, earlier[j + 1]));
                }
            }
            assert(rest@ =~= all.skip(done + 1));
            done = done + 1;
        }
    }
    assert(all.take(done) =~= all);
}

/// After a listing every device of the list is known, and has what the list last
/// said of it.
pub proof fn a_listed_device_is_known(states: Seq<State>, infos: Seq<HttpDeviceInfo>, i: int)
    requires
        all_platform_listed(states, infos),
        0 <= i < infos.len(),
        forall|j: int| i < j < infos.len() ==> (#[trigger] infos[j]).device@ != infos[i].device@,
    ensures
        states.last().devices.has(infos[i].device@),
        states.last().devices.at(infos[i].device@).http_device_info == Some(infos[i]),
    decreases infos.len(),
{
    let n = infos.len() - 1;
    let id = infos[i].device@;
    assert(platform_listed(states[n], infos[n], states[n + 1]));
    if i < n {
        let before = states.drop_last();
        let listed = infos.drop_last();
        assert(all_platform_listed(before, listed)) by {
            assert forall|j: int| 0 <= j < listed.len() implies platform_listed(
                #[trigger] before[j],
                listed[j],
                before[j + 1],
            ) by {
                assert(platform_listed(states[j], infos[j], states[j + 1]));
            }
        }
        a_listed_device_is_known(before, listed, i);
        assert(infos[n].device@ != id);
        assert(states[n].devices.has(id));
    }
}

/// A listing forgets no device and changes nothing but the devices of the list.
pub proof fn a_listing_leaves_the_rest_alone(
    states: Seq<State>,
    infos: Seq<HttpDeviceInfo>,
    id: Seq<char>,
)
    requires
        all_platform_listed(states, infos),
        forall|j: int| 0 <= j < infos.len() ==> (#[trigger] infos[j]).device@ != id,
    ensures
        states.last() == (State { devices: states.last().devices, ..states[0] }),
        states.last().devices.has(id) == states[0].devices.has(id),
        states[0].devices.has(id) ==> states.last().devices.at(id) == states[0].devices.at(id),
    decreases infos.len(),
{
    if infos.len() > 0 {
        let n = infos.len() - 1;
        let before = states.drop_last();
        let listed = infos.drop_last();
        assert(all_platform_listed(before, listed)) by {
            assert forall|j: int| 0 <= j < listed.len() implies platform_listed(
                #[trigger] before[j],
                listed[j],
                before[j + 1],
            ) by {
                assert(platform_listed(states[j], infos[j], states[j + 1]));
            }
        }
        a_listing_leaves_the_rest_alone(before, listed, id);
        assert(platform_listed(states[n], infos[n], states[n + 1]));
        assert(infos[n].device@ != id);
    }
}

/// After a listing every device of the account's metadata is known, with what the
/// metadata last said of it and the room that its group stands for.
pub proof fn a_listed_entry_is_known(
    states: Seq<State>,
    entries: Seq<DeviceEntry>,
    groups: Seq<GroupEntry>,
    i: int,
)
    requires
        all_undoc_listed(states, entries, groups),
        0 <= i < entries.len(),
        forall|j: int|
            i < j < entries.len() ==> (#[trigger] entries[j]).device@ != entries[i].device@,
    ensures
        states.last().devices.has(entries[i].device@),
        states.last().devices.at(entries[i].device@).undoc_device_info matches Some(info) && {
            &&& info.entry == entries[i]
            &&& info.room_name is Some <==> group_name(groups, entries[i].group_id) is Some
            &&& info.room_name matches Some(room) ==> room@ == group_name(
                groups,
                entries[i].group_id,
            )->0@
        },
    decreases entries.len(),
{
    let n = entries.len() - 1;
    let id = entries[i].device@;
    assert(undoc_listed(states[n], entries[n], groups, states[n + 1]));
    if i < n {
        let before = states.drop_last();
        let listed = entries.drop_last();
        assert(all_undoc_listed(before, listed, groups)) by {
            assert forall|j: int| 0 <= j < listed.len() implies undoc_listed(
                #[trigger] before[j],
                listed[j],
                groups,
                before[j + 1],
            ) by {
                assert(undoc_listed(states[j], entries[j], groups, states[j + 1]));
            }
        }
        a_listed_entry_is_known(before, listed, groups, i);
        assert(entries[n].device@ != id);
        assert(states[n].devices.has(id));
        assert(states[n] == before.last());
    }
}

/// Such a listing forgets no device and changes nothing but the devices of the list.
pub proof fn entries_leave_the_rest_alone(
    states: Seq<State>,
    entries: Seq<DeviceEntry>,
    groups: Seq<GroupEntry>,
    id: Seq<char>,
)
    requires
        all_undoc_listed(states, entries, groups),
        forall|j: int| 0 <= j < entries.len() ==> (#[trigger] entries[j]).device@ != id,
    ensures
        states.last() == (State { devices: states.last().devices, ..states[0] }),
        states.last().devices.has(id) == states[0].devices.has(id),
        states[0].devices.has(id) ==> states.last().devices.at(id) == states[0].devices.at(id),
    decreases entries.len(),
{
    if entries.len() > 0 {
        let n = entries.len() - 1;
        let before = states.drop_last();
        let listed = entries.drop_last();
        assert(all_undoc_listed(before, listed, groups)) by {
            assert forall|j: int| 0 <= j < listed.len() implies undoc_listed(
                #[trigger] before[j],
                listed[j],
                groups,
                before[j + 1],
            ) by {
                assert(undoc_listed(states[j], entries[j], groups, states[j + 1]));
            }
        }
        entries_leave_the_rest_alone(before, listed, groups, id);
        assert(undoc_listed(states[n], entries[n], groups, states[n + 1]));
        assert(entries[n].device@ != id);
        assert(states[n] == before.last());
    }
}

// --------------------------------------------------------------------- start-up

/// What there is to warn of when a device is listed at the start.
#[derive(Clone, Copy, Debug, PartialEq, Eq, Structural)]
pub enum StartupWarning {
    Nothing,
    /// The device should answer on the LAN and does not. It may be offline or
    /// the network may be in the way.
    LanSilent,
    /// Nothing tells what the device is.
    UnknownType,
    /// Nothing tells what the device is, and no key was configured with which
    /// Govee could be asked.
    UnknownTypeWithoutKey,
}

pub open spec fn warning_of(device: Device, platform_client: bool) -> StartupWarning {
    match device.known_quirk() {
        Some(quirk) => if quirk.lan_api_capable && device.lan_device is None {
            StartupWarning::LanSilent
        } else {
            StartupWarning::Nothing
        },
        None => if device.http_device_info is Some {
            StartupWarning::Nothing
        } else if platform_client {
            StartupWarning::UnknownType
        } else {
            StartupWarning::UnknownTypeWithoutKey
        },
    }
}

/// A model that should answer on the LAN and does not is warned of, and one that
/// does is not. Nothing is warned of where Govee or the model table tells what the
/// device is. Of an unknown one, the missing key is pointed out if there is none.
pub proof fn what_there_is_to_warn_of(device: Device, platform_client: bool)
    ensures
        device.lan_device is Some ==> warning_of(device, platform_client) is Nothing,
        device.lan_device is None ==> match device.quirk {
            Some(quirk) => warning_of(device, platform_client) is LanSilent
                <==> quirk.lan_api_capable,
            None => {
                &&& warning_of(device, platform_client) is Nothing
                    <==> device.http_device_info is Some
                &&& warning_of(device, platform_client) is UnknownType
                    <==> device.http_device_info is None && platform_client
                &&& warning_of(device, platform_client) is UnknownTypeWithoutKey
                    <==> device.http_device_info is None && !platform_client
            },
        },
        device.quirk is Some && !(warning_of(device, platform_client) is LanSilent)
            ==> warning_of(device, platform_client) is Nothing,
{
}

/// A device is in the room that its group is called, and of two groups of one id
/// the later counts.
pub proof fn the_later_group_counts(groups: Seq<GroupEntry>, at: int)
    requires
        0 <= at < groups.len(),
        forall|j: int| at < j < groups.len() ==> (#[trigger] groups[j]).group_id
            != groups[at].group_id,
    ensures
        group_name(groups, groups[at].group_id) == Some(groups[at].group_name),
    decreases groups.len(),
{
    let head = groups.drop_last();
    if at < head.len() {
        assert(groups[groups.len() - 1] == groups.last());
        assert forall|j: int| at < j < head.len() implies (#[trigger] head[j]).group_id
            != head[at].group_id by {
            assert(groups[j] == head[j]);
        }
        the_later_group_counts(head, at);
    }
}

/// A device of no group is in no room.
pub proof fn no_group_is_no_room(groups: Seq<GroupEntry>, id: u64)
    requires
        forall|j: int| 0 <= j < groups.len() ==> (#[trigger] groups[j]).group_id != id,
    ensures
        group_name(groups, id) is None,
    decreases groups.len(),
{
    if groups.len() > 0 {
        assert(groups[groups.len() - 1] == groups.last());
        assert forall|j: int| 0 <= j < groups.drop_last().len() implies (
        #[trigger] groups.drop_last()[j]).group_id != id by {
            assert(groups[j] == groups.drop_last()[j]);
        }
        no_group_is_no_room(groups.drop_last(), id);
    }
}

/// An address counts as guessed only if it was derived from the id, and nobody has
/// corrected it.
pub proof fn a_guess_is_told_of(device: Device, overrides: BleAddressOverrides)
    ensures
        overrides.address_of(device.id@) is Some ==> guessed_address(device, overrides) is None,
        overrides.address_of(device.id@) is None ==> match device.address() {
            Some((address, source)) => guessed_address(device, overrides) == (
            if source is DerivedFromId {
                Some(address)
            } else {
                None
            }),
            None => guessed_address(device, overrides) is None,
        },
{
}

pub fn startup_warning(device: &Device, platform_client: bool) -> (r: StartupWarning)
    ensures
        r == warning_of(*device, platform_client),
{
    match device.resolve_quirk() {
        Some(quirk) => {
            // If we don't see a LAN device where there should be one, it may
            // indicate a networking issue
            if quirk.lan_api_capable && device.lan_device.is_none() {
                StartupWarning::LanSilent
            } else {
                StartupWarning::Nothing
            }
        },
        None => {
            if device.http_device_info.is_some() {
                StartupWarning::Nothing
            } else if platform_client {
                StartupWarning::UnknownType
            } else {
                StartupWarning::UnknownTypeWithoutKey
            }
        },
    }
}

} // verus!
