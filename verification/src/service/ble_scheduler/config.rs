//! What the user configured for the Bluetooth transport.
use vstd::prelude::*;

use crate::service::device::Device;
use crate::text;
use crate::text::{
    chars_of, eq_ignore_ascii_case, find_char, split, string_of, subrange, to_ascii_lowercase,
    to_ascii_uppercase, trim,
};
use crate::text_map::TextMap;

verus! {

/// The entries of a comma separated list: trimmed, in lower case, and without
/// the blank ones.
pub open spec fn list_entries(pieces: Seq<Seq<char>>) -> Seq<Seq<char>>
    decreases pieces.len(),
{
    if pieces.len() == 0 {
        Seq::<Seq<char>>::empty()
    } else {
        let before = list_entries(pieces.drop_last());
        let entry = text::ascii_lowercase(text::trimmed(pieces.last()));
        if entry.len() == 0 {
            before
        } else {
            before.push(entry)
        }
    }
}

/// Devices the user wants kept off Bluetooth even though it is enabled.
///
/// Each entry is matched against the same identifiers `resolve_device` accepts —
/// device id, name, computed name, MQTT topic id — plus the SKU, so a single
/// entry can exclude one light or a whole model.
#[derive(Clone, Debug)]
pub struct BleExclusions {
    pub entries: Vec<String>,
}

impl Default for BleExclusions {
    fn default() -> (r: Self)
        ensures
            r@.len() == 0,
    {
        BleExclusions { entries: Vec::new() }
    }
}

impl View for BleExclusions {
    type V = Seq<Seq<char>>;

    open spec fn view(&self) -> Seq<Seq<char>> {
        self.entries@.map_values(|entry: String| entry@)
    }
}

/// Whether an entry names the device.
pub open spec fn names_device(entry: Seq<char>, device: Device) -> bool {
    ||| text::same_ignoring_case(entry, device.id@)
    ||| text::same_ignoring_case(entry, device.sku@)
    ||| text::same_ignoring_case(entry, device.name_text())
    ||| text::same_ignoring_case(entry, device.default_name())
    ||| device.topic_id matches Some(topic) && text::same_ignoring_case(entry, topic@)
}

/// A device is named by its id, its model, its name, the name that it would have
/// without one, or the name of its topics, in upper or lower case, and by nothing
/// else.
pub proof fn what_names_a_device(entry: Seq<char>, device: Device)
    ensures
        ({
            let low = text::ascii_lowercase(entry);
            let topic = device.topic_id;
            &&& low == text::ascii_lowercase(device.id@) ==> names_device(entry, device)
            &&& low == text::ascii_lowercase(device.sku@) ==> names_device(entry, device)
            &&& low == text::ascii_lowercase(device.name_text()) ==> names_device(entry, device)
            &&& low == text::ascii_lowercase(device.default_name()) ==> names_device(entry, device)
            &&& topic is Some && low == text::ascii_lowercase(topic->0@) ==> names_device(
                entry,
                device,
            )
            &&& low != text::ascii_lowercase(device.id@) && low != text::ascii_lowercase(
                device.sku@,
            ) && low != text::ascii_lowercase(device.name_text()) && low != text::ascii_lowercase(
                device.default_name(),
            ) && (topic is Some ==> low != text::ascii_lowercase(topic->0@)) ==> !names_device(
                entry,
                device,
            )
        }),
{
}

/// Every entry of a list that is not blank counts, in the order of the list: trimmed
/// and in lower case.
pub proof fn every_entry_counts(pieces: Seq<Seq<char>>, i: int)
    requires
        0 <= i < pieces.len(),
        text::trimmed(pieces[i]).len() > 0,
    ensures
        list_entries(pieces).contains(text::ascii_lowercase(text::trimmed(pieces[i]))),
    decreases pieces.len(),
{
    let head = pieces.drop_last();
    let before = list_entries(head);
    let after = list_entries(pieces);
    let entry = text::ascii_lowercase(text::trimmed(pieces[i]));
    if i < head.len() {
        assert(head[i] == pieces[i]);
        every_entry_counts(head, i);
        let k = choose|k: int| 0 <= k < before.len() && before[k] == entry;
        assert(after[k] == entry);
    } else {
        assert(after[before.len() as int] == entry);
    }
}

/// Nothing counts as an entry that the list does not hold, and no entry is blank.
pub proof fn no_entry_is_made_up(pieces: Seq<Seq<char>>, k: int)
    requires
        0 <= k < list_entries(pieces).len(),
    ensures
        list_entries(pieces)[k].len() > 0,
        exists|i: int|
            0 <= i < pieces.len() && list_entries(pieces)[k] == text::ascii_lowercase(
                text::trimmed(#[trigger] pieces[i]),
            ),
    decreases pieces.len(),
{
    let head = pieces.drop_last();
    if k < list_entries(head).len() {
        no_entry_is_made_up(head, k);
        let i = choose|i: int|
            0 <= i < head.len() && list_entries(head)[k] == text::ascii_lowercase(
                text::trimmed(#[trigger] head[i]),
            );
        assert(pieces[i] == head[i]);
    } else {
        assert(pieces[pieces.len() - 1] == pieces.last());
    }
}

impl BleExclusions {
    /// A list keeps a device off Bluetooth exactly if one of its entries names it.
    pub proof fn one_entry_is_enough(&self, device: Device, i: int)
        requires
            0 <= i < self@.len(),
        ensures
            names_device(self@[i], device) ==> self.names(device),
            self.names(device) ==> exists|k: int|
                0 <= k < self@.len() && names_device(#[trigger] self@[k], device),
    {
    }

    pub open spec fn names(&self, device: Device) -> bool {
        exists|i: int| 0 <= i < self@.len() && names_device(#[trigger] self@[i], device)
    }

    /// Parse a comma separated spec. Blank entries are ignored, so a trailing
    /// comma or a stray space is harmless.
    pub fn parse(spec: &str) -> (r: Self)
        ensures
            r@ == list_entries(text::split_on(spec@, ',')),
    {
        let chars = chars_of(spec);
        let pieces = split(chars.as_slice(), ',');
        let ghost all = text::split_on(spec@, ',');
        let mut entries: Vec<String> = Vec::new();
        for i in 0..pieces.len()
            invariant
                pieces@.len() == all.len(),
                forall|j: int| 0 <= j < pieces@.len() ==> (#[trigger] pieces@[j])@ == all[j],
                entries@.map_values(|entry: String| entry@) == list_entries(all.take(i as int)),
        {
            assert(all.take(i + 1).drop_last() =~= all.take(i as int));
            assert(pieces@[i as int]@ == all[i as int]);
            let trimmed = string_of(trim(pieces[i].as_slice()).as_slice());
            let entry = to_ascii_lowercase(trimmed.as_str());
            let ghost before = entries@;
            if entry.as_str().unicode_len() != 0 {
                entries.push(entry);
                assert(entries@.map_values(|entry: String| entry@) =~= before.map_values(
                    |entry: String| entry@,
                ).push(entry@));
            }
        }
        assert(all.take(all.len() as int) =~= all);
        BleExclusions { entries }
    }

    pub fn is_empty(&self) -> (r: bool)
        ensures
            r == (self@.len() == 0),
    {
        self.entries.len() == 0
    }

    pub fn entries(&self) -> (r: &[String])
        ensures
            r@ == self.entries@,
    {
        self.entries.as_slice()
    }

    /// Whether this entry names the device.
    pub fn entry_matches(entry: &str, device: &Device) -> (r: bool)
        ensures
            r == names_device(entry@, *device),
    {
        if eq_ignore_ascii_case(entry, device.id.as_str()) || eq_ignore_ascii_case(
            entry,
            device.sku.as_str(),
        ) {
            return true;
        }
        let name = device.name();
        let computed = device.computed_name();
        if eq_ignore_ascii_case(entry, name.as_str()) || eq_ignore_ascii_case(
            entry,
            computed.as_str(),
        ) {
            return true;
        }
        match &device.topic_id {
            Some(topic) => eq_ignore_ascii_case(entry, topic.as_str()),
            None => false,
        }
    }

    pub fn excludes(&self, device: &Device) -> (r: bool)
        ensures
            r == self.names(*device),
    {
        for i in 0..self.entries.len()
            invariant
                forall|j: int| 0 <= j < i ==> !names_device(#[trigger] self@[j], *device),
        {
            assert(self@[i as int] == self.entries@[i as int]@);
            if Self::entry_matches(self.entries[i].as_str(), device) {
                return true;
            }
        }
        false
    }

    /// An empty list keeps no device off Bluetooth.
    pub proof fn nothing_excludes_nothing(&self, device: Device)
        requires
            self@.len() == 0,
        ensures
            !self.names(device),
    {
    }
}

/// An override that is no pair.
#[derive(Clone, Debug, PartialEq, Eq)]
pub struct MalformedOverride {
    pub entry: String,
}

/// The addresses by the ids of their devices, or the first entry that is no
/// pair. Ids are in lower case and addresses in upper case, both trimmed; of two
/// entries for one id the later counts.
pub open spec fn overrides_of(pieces: Seq<Seq<char>>) -> Result<
    Map<Seq<char>, Seq<char>>,
    Seq<char>,
>
    decreases pieces.len(),
{
    if pieces.len() == 0 {
        Ok(Map::<Seq<char>, Seq<char>>::empty())
    } else {
        let entry = text::trimmed(pieces.last());
        match overrides_of(pieces.drop_last()) {
            Ok(before) => if entry.len() == 0 {
                Ok(before)
            } else {
                match text::index_of_char(entry, '=') {
                    Some(i) => Ok(
                        before.insert(
                            text::ascii_lowercase(text::trimmed(entry.take(i))),
                            text::ascii_uppercase(text::trimmed(entry.skip(i + 1))),
                        ),
                    ),
                    None => Err(entry),
                }
            },
            Err(malformed) => Err(malformed),
        }
    }
}

/// A pair that is added to a list gives its device its address, whatever stood there
/// before, and leaves every other device alone. The address is what stands behind
/// the first equals sign, in upper case.
pub proof fn the_last_pair_of_a_device_counts(
    pieces: Seq<Seq<char>>,
    id: Seq<char>,
    address: Seq<char>,
    other: Seq<char>,
)
    requires
        overrides_of(pieces) is Ok,
        text::trimmed(id + seq!['='] + address) == id + seq!['='] + address,
        !id.contains('='),
    ensures
        overrides_of(pieces.push(id + seq!['='] + address)) matches Ok(after) && {
            let before = overrides_of(pieces)->Ok_0;
            let key = text::ascii_lowercase(text::trimmed(id));
            &&& after.contains_key(key)
            &&& after[key] == text::ascii_uppercase(text::trimmed(address))
            &&& other != key ==> after.contains_key(other) == before.contains_key(other)
            &&& other != key && before.contains_key(other) ==> after[other] == before[other]
        },
{
    let entry = id + seq!['='] + address;
    let all = pieces.push(entry);
    assert(all.drop_last() =~= pieces);
    assert(entry[id.len() as int] == '=');
    assert(entry.take(id.len() as int) =~= id);
    text::index_of_char_is(entry, '=', id.len() as int);
    assert(entry.skip((id.len() + 1) as int) =~= address);
}

/// An entry without an equals sign is refused and named, and a blank one is passed
/// over.
pub proof fn an_entry_is_a_pair_or_blank(pieces: Seq<Seq<char>>, entry: Seq<char>)
    requires
        overrides_of(pieces) is Ok,
    ensures
        text::trimmed(entry).len() == 0 ==> overrides_of(pieces.push(entry)) == overrides_of(pieces),
        text::trimmed(entry).len() > 0 && !text::trimmed(entry).contains('=') ==> overrides_of(
            pieces.push(entry),
        ) == Err::<Map<Seq<char>, Seq<char>>, Seq<char>>(text::trimmed(entry)),
{
    assert(pieces.push(entry).drop_last() =~= pieces);
    let t = text::trimmed(entry);
    if !t.contains('=') {
        text::no_index_of_char(t, '=');
    }
}

/// Bluetooth addresses the user has corrected by hand.
///
/// Needed because Govee's metadata is not always right. One H601B reported an
/// address one higher than the one derived from its device id; that address
/// advertised strongly but refused every connection, while the derived one
/// worked on a sibling device. Until that is understood, the escape hatch has
/// to exist.
pub struct BleAddressOverrides {
    pub by_device_id: TextMap<String>,
}

impl Default for BleAddressOverrides {
    fn default() -> (r: Self)
        ensures
            r.wf(),
            r@ == Map::<Seq<char>, Seq<char>>::empty(),
    {
        let r = BleAddressOverrides { by_device_id: TextMap::new() };
        proof {
            r.by_device_id.keys_are_counted();
            assert(r@ =~= Map::<Seq<char>, Seq<char>>::empty());
        }
        r
    }
}

impl View for BleAddressOverrides {
    type V = Map<Seq<char>, Seq<char>>;

    open spec fn view(&self) -> Map<Seq<char>, Seq<char>> {
        self.by_device_id.keys().mk_map(|id: Seq<char>| self.by_device_id.at(id)@)
    }
}

impl BleAddressOverrides {
    pub open spec fn wf(&self) -> bool {
        self.by_device_id.wf()
    }

    /// The corrected address of a device.
    pub open spec fn address_of(&self, device_id: Seq<char>) -> Option<Seq<char>> {
        let id = text::ascii_lowercase(device_id);
        if self@.contains_key(id) {
            Some(self@[id])
        } else {
            None
        }
    }

    /// A correction holds for a device however its id is spelled, in upper or lower
    /// case.
    pub proof fn a_device_is_corrected_in_any_case(&self, id: Seq<char>, other: Seq<char>)
        requires
            text::same_ignoring_case(id, other),
        ensures
            self.address_of(id) == self.address_of(other),
            self@.contains_key(text::ascii_lowercase(id)) ==> self.address_of(other) == Some(
                self@[text::ascii_lowercase(id)],
            ),
            !self@.contains_key(text::ascii_lowercase(id)) ==> self.address_of(other) is None,
    {
    }

    /// Parse `device-id=AA:BB:CC:DD:EE:FF` pairs, comma separated.
    pub fn parse(spec: &str) -> (r: Result<Self, MalformedOverride>)
        ensures
            match (overrides_of(text::split_on(spec@, ',')), r) {
                (Ok(expected), Ok(overrides)) => overrides.wf() && overrides@ == expected,
                (Err(entry), Err(err)) => err.entry@ == entry,
                _ => false,
            },
    {
        let chars = chars_of(spec);
        let pieces = split(chars.as_slice(), ',');
        let ghost all = text::split_on(spec@, ',');
        let mut overrides = BleAddressOverrides::default();
        for i in 0..pieces.len()
            invariant
                all == text::split_on(spec@, ','),
                pieces@.len() == all.len(),
                forall|j: int| 0 <= j < pieces@.len() ==> (#[trigger] pieces@[j])@ == all[j],
                overrides.wf(),
                overrides_of(all.take(i as int)) == Ok::<Map<Seq<char>, Seq<char>>, Seq<char>>(
                    overrides@,
                ),
        {
            let ghost before = overrides@;
            assert(all.take(i + 1).drop_last() =~= all.take(i as int));
            assert(pieces@[i as int]@ == all[i as int]);
            let entry = trim(pieces[i].as_slice());
            if entry.len() != 0 {
                match find_char(entry.as_slice(), '=') {
                    Some(at) => {
                        let id = subrange(entry.as_slice(), 0, at);
                        let address = subrange(entry.as_slice(), at + 1, entry.len());
                        assert(id@ =~= entry@.take(at as int));
                        assert(address@ =~= entry@.skip(at + 1));
                        let id = string_of(trim(id.as_slice()).as_slice());
                        let address = string_of(trim(address.as_slice()).as_slice());
                        let id = to_ascii_lowercase(id.as_str());
                        let address = to_ascii_uppercase(address.as_str());
                        let ghost map = overrides.by_device_id;
                        let ghost key = id@;
                        let ghost value = address@;
                        overrides.by_device_id.insert(id, address);
                        proof {
                            map.keys_are_counted();
                            overrides.by_device_id.keys_are_counted();
                            assert(overrides@ =~= before.insert(key, value));
                        }
                    },
                    None => {
                        proof {
                            malformed_stays(all, i + 1);
                        }
                        return Err(MalformedOverride { entry: string_of(entry.as_slice()) });
                    },
                }
            }
        }
        assert(all.take(all.len() as int) =~= all);
        Ok(overrides)
    }

    pub fn get(&self, device_id: &str) -> (r: Option<&str>)
        requires
            self.wf(),
        ensures
            match r {
                Some(address) => self.address_of(device_id@) == Some(address@),
                None => self.address_of(device_id@) is None,
            },
    {
        proof {
            self.by_device_id.keys_are_counted();
        }
        let id = to_ascii_lowercase(device_id);
        match self.by_device_id.get(id.as_str()) {
            Some(address) => Some(address.as_str()),
            None => None,
        }
    }

    /// How many devices have a corrected address.
    pub fn entries(&self) -> (r: usize)
        requires
            self.wf(),
        ensures
            r == self@.dom().len(),
    {
        proof {
            self.by_device_id.keys_are_counted();
            assert(self@.dom() =~= self.by_device_id.keys());
        }
        self.by_device_id.len()
    }
}

proof fn malformed_stays(all: Seq<Seq<char>>, i: int)
    requires
        0 <= i <= all.len(),
        overrides_of(all.take(i)) is Err,
    ensures
        overrides_of(all) == overrides_of(all.take(i)),
    decreases all.len() - i,
{
    if i < all.len() {
        assert(all.take(i + 1).drop_last() =~= all.take(i));
        malformed_stays(all, i + 1);
    } else {
        assert(all.take(i) =~= all);
    }
}

/// The settings of the scheduler. Spans of time are in milliseconds.
pub struct BleSchedulerConfig {
    /// How long to gather commands for one device before sending them.
    /// Long enough to catch Home Assistant's habit of sending power, brightness
    /// and colour as separate messages; short enough not to feel laggy.
    pub coalesce_window_ms: u64,
    /// Gap between frames within a session. Govee devices drop commands sent
    /// closer together than this.
    pub inter_frame_delay_ms: u64,
    /// Sessions in flight across all devices.
    pub max_concurrent: usize,
    /// How long the executor should hold the connection open afterwards.
    pub keep_open_ms: u64,
    /// The whole budget for a job, queue time and execution together. The
    /// executor enforces it and answers with a timeout rather than running on.
    pub deadline_ms: u64,
    /// How long to wait for a free session slot before declining and letting
    /// another transport serve the command.
    pub permit_wait_ms: u64,
    /// Consecutive failures before BLE is disabled for a device.
    pub breaker_threshold: u32,
    /// How long BLE stays disabled for a device once the breaker opens.
    pub breaker_cooldown_ms: u64,
    /// How long to wait for a device to answer a status query.
    pub query_timeout_ms: u64,
    /// Devices to keep off Bluetooth while it stays enabled for everything else.
    pub exclusions: BleExclusions,
    /// Hand-corrected Bluetooth addresses.
    pub address_overrides: BleAddressOverrides,
    /// Read back the attributes we just changed, in the same session.
    ///
    /// Costs no extra connection and catches a frame the device dropped, which
    /// matters because writes are unacknowledged.
    pub verify_writes: bool,
}

impl BleSchedulerConfig {
    pub open spec fn wf(&self) -> bool {
        self.address_overrides.wf()
    }
}

impl Default for BleSchedulerConfig {
    fn default() -> (r: Self)
        ensures
            r.wf(),
            r.coalesce_window_ms == 150,
            r.inter_frame_delay_ms == 200,
            r.max_concurrent == 1,
            r.keep_open_ms == 30_000,
            r.deadline_ms == 30_000,
            r.permit_wait_ms == 500,
            r.breaker_threshold == 3,
            r.breaker_cooldown_ms == 300_000,
            r.query_timeout_ms == 5_000,
            r.exclusions@.len() == 0,
            r.address_overrides@ == Map::<Seq<char>, Seq<char>>::empty(),
            r.verify_writes,
    {
        BleSchedulerConfig {
            coalesce_window_ms: 150,
            inter_frame_delay_ms: 200,
            max_concurrent: 1,
            keep_open_ms: 30_000,
            deadline_ms: 30_000,
            permit_wait_ms: 500,
            breaker_threshold: 3,
            breaker_cooldown_ms: 300_000,
            query_timeout_ms: 5_000,
            exclusions: BleExclusions::default(),
            address_overrides: BleAddressOverrides::default(),
            verify_writes: true,
        }
    }
}

} // verus!
