//! The scheduler: what waits for which device, which devices are set aside, and
//! how many sessions are under way.
use vstd::prelude::*;

use crate::random_id;
use crate::service::ble_bridge::{BleBridge, ErrorKind, JobOp, JobRequest};
use crate::service::ble_scheduler::config::BleSchedulerConfig;
use crate::service::ble_scheduler::pending;
use crate::service::ble_scheduler::pending::{FrameError, MergeError, PendingOps};
use crate::service::ble_scheduler::query;
use crate::service::ble_scheduler::query::Query;
use crate::service::ble_scheduler::session;
use crate::service::ble_scheduler::session::{
    exchange, NoSessionSlot, NothingToDo, SessionError,
};
use crate::service::device::{BleAddressSource, Device};
use crate::service::transport::DeviceOp;
use crate::text::append_str;
use crate::text_map::TextMap;

verus! {

// --------------------------------------------------------------------- breaker

/// Failures of a device in a row, and until when it is set aside. Points in time
/// are in milliseconds of a clock that only runs forward.
#[derive(Clone, Copy, Debug, PartialEq, Eq)]
pub struct Breaker {
    pub consecutive_failures: u32,
    pub open_until_ms: Option<u64>,
}

impl Default for Breaker {
    fn default() -> (r: Self)
        ensures
            r == Breaker::closed(),
    {
        Breaker { consecutive_failures: 0, open_until_ms: None }
    }
}

impl Breaker {
    /// The breaker of a device that works.
    pub open spec fn closed() -> Breaker {
        Breaker { consecutive_failures: 0, open_until_ms: None }
    }

    pub open spec fn open_at(&self, now_ms: u64) -> bool {
        self.open_until_ms matches Some(until) && now_ms < until
    }

    pub fn is_open(&self, now_ms: u64) -> (r: bool)
        ensures
            r == self.open_at(now_ms),
    {
        match self.open_until_ms {
            Some(until) => now_ms < until,
            None => false,
        }
    }

    /// The breaker after one more failure. A job that burned its whole budget
    /// is not an ordinary failure and opens it at once; others do so from the
    /// threshold on.
    pub open spec fn failed(
        self,
        expensive: bool,
        threshold: u32,
        now_ms: u64,
        cooldown_ms: u64,
    ) -> Breaker {
        Breaker {
            consecutive_failures: (self.consecutive_failures + 1) as u32,
            open_until_ms: if expensive || self.consecutive_failures + 1 >= threshold {
                Some((now_ms + cooldown_ms) as u64)
            } else {
                self.open_until_ms
            },
        }
    }

    /// What is recorded of a device once a session has failed. Never reaching the
    /// radio leaves it as it is.
    pub open spec fn noted(
        recorded: Option<Breaker>,
        error: SessionError,
        threshold: u32,
        now_ms: u64,
        cooldown_ms: u64,
    ) -> Option<Breaker> {
        if counts(error) {
            let before = match recorded {
                Some(breaker) => breaker,
                None => Breaker::closed(),
            };
            Some(before.failed(is_expensive(error), threshold, now_ms, cooldown_ms))
        } else {
            recorded
        }
    }

    /// What is recorded of a device once sessions have failed in one way at one
    /// time after the other, with none that went well in between.
    pub open spec fn noted_often(
        recorded: Option<Breaker>,
        error: SessionError,
        threshold: u32,
        times: Seq<u64>,
        cooldown_ms: u64,
    ) -> Option<Breaker>
        decreases times.len(),
    {
        if times.len() == 0 {
            recorded
        } else {
            Breaker::noted(
                Breaker::noted_often(recorded, error, threshold, times.drop_last(), cooldown_ms),
                error,
                threshold,
                times.last(),
                cooldown_ms,
            )
        }
    }

    /// Failures of a device that works are counted, whenever they come. Quick ones
    /// set it aside exactly from the threshold on, and a job that burned its whole
    /// budget does so at once; each time until the cooldown after the last of them
    /// is over. Never reaching the radio records nothing.
    pub proof fn the_threshold_decides(
        error: SessionError,
        threshold: u32,
        times: Seq<u64>,
        cooldown_ms: u64,
    )
        requires
            0 < times.len() <= u32::MAX,
            forall|i: int| 0 <= i < times.len() ==> #[trigger] times[i] + cooldown_ms <= u64::MAX,
        ensures
            ({
                let after = Breaker::noted_often(None, error, threshold, times, cooldown_ms);
                if !counts(error) {
                    after is None
                } else {
                    &&& after matches Some(breaker)
                    &&& breaker.consecutive_failures == times.len()
                    &&& breaker.open_until_ms == (if is_expensive(error) || times.len()
                        >= threshold {
                        Some((times.last() + cooldown_ms) as u64)
                    } else {
                        None
                    })
                    &&& cooldown_ms > 0 ==> breaker.open_at(times.last()) == (is_expensive(error)
                        || times.len() >= threshold)
                    &&& !breaker.open_at((times.last() + cooldown_ms) as u64)
                }
            }),
        decreases times.len(),
    {
        let before = times.drop_last();
        assert(times[times.len() - 1] + cooldown_ms <= u64::MAX);
        if before.len() > 0 {
            assert forall|i: int| 0 <= i < before.len() implies #[trigger] before[i] + cooldown_ms
                <= u64::MAX by {
                assert(times[i] + cooldown_ms <= u64::MAX);
            }
            Breaker::the_threshold_decides(error, threshold, before, cooldown_ms);
        }
    }

    /// An open breaker lets the device be tried again from the moment that its
    /// cooldown is over, and not before.
    pub proof fn a_breaker_is_open_until_its_time(self, now_ms: u64)
        ensures
            self.open_until_ms is None ==> !self.open_at(now_ms),
            self.open_until_ms matches Some(until) ==> (self.open_at(now_ms) <==> now_ms < until),
    {
    }

    /// A job that burned its whole budget sets the device aside at once, whatever
    /// was recorded of it.
    pub proof fn a_timeout_opens_at_once(self, threshold: u32, now_ms: u64, cooldown_ms: u64)
        requires
            0 < cooldown_ms,
            now_ms + cooldown_ms <= u64::MAX,
        ensures
            self.failed(true, threshold, now_ms, cooldown_ms).open_at(now_ms),
    {
    }
}

/// What a failure did to the breaker of a device.
#[derive(Clone, Copy, Debug, PartialEq, Eq, Structural)]
pub enum FailureNote {
    /// Never reaching the radio says nothing about the device.
    Ignored,
    /// One more failure, and the device is still tried.
    Counted,
    /// The device has just been set aside.
    Opened,
    /// The device had been set aside before, and is so again.
    StillOpen,
}

/// Whether a failure counts against the device.
pub open spec fn counts(error: SessionError) -> bool {
    !(error is NoSessionSlot)
}

/// Whether a failure cost its whole budget.
pub open spec fn is_expensive(error: SessionError) -> bool {
    error matches SessionError::JobFailed(failed) && failed.kind == ErrorKind::Timeout
}

// ---------------------------------------------------------------------- queues

/// What waits for one device. A waiter is known by a number that its owner
/// picked.
#[derive(Debug)]
pub struct DeviceQueue {
    pub address: String,
    /// `Some(count)` when this device is addressed as segments; see
    /// `PendingOps::frames`.
    pub segments: Option<u32>,
    pub pending: PendingOps,
    pub waiters: Vec<u64>,
    pub flush_scheduled: bool,
}

impl DeviceQueue {
    pub open spec fn is_blank(&self) -> bool {
        &&& self.address@.len() == 0
        &&& self.segments is None
        &&& self.pending == PendingOps::nothing()
        &&& self.waiters@.len() == 0
        &&& !self.flush_scheduled
    }
}

impl DeviceQueue {
    /// Nothing waits in a new queue.
    pub proof fn nothing_waits_in_a_new_queue(&self)
        requires
            self.is_blank(),
        ensures
            self.pending.power is None && self.pending.brightness is None,
            self.pending.color is None && self.pending.kelvin is None,
            self.waiters@.len() == 0,
            !self.flush_scheduled,
            self.address@.len() == 0,
            self.segments is None,
    {
    }
}

impl Default for DeviceQueue {
    fn default() -> (r: Self)
        ensures
            r.is_blank(),
    {
        DeviceQueue {
            address: String::new(),
            segments: None,
            pending: PendingOps::default(),
            waiters: Vec::new(),
            flush_scheduled: false,
        }
    }
}

/// A session that is due.
#[derive(Debug)]
pub struct DueSession {
    pub address: String,
    pub segments: Option<u32>,
    pub pending: PendingOps,
    pub waiters: Vec<u64>,
}

impl DueSession {
    /// The frames of the session. Writes only: the read-back is scheduled
    /// afterwards, off the caller's critical path.
    pub fn frames(&self) -> (r: Result<Vec<Vec<u8>>, FrameError>)
        ensures
            match (self.pending.wire_frames(self.segments), r) {
                (Ok(expected), Ok(frames)) => pending::are_frames(frames@, expected),
                (Err(expected), Err(err)) => err == expected,
                _ => false,
            },
    {
        self.pending.frames(self.segments)
    }
}

/// What is done once a session is over.
#[derive(Debug)]
pub enum SessionStep {
    /// The breaker learns that the device works.
    NoteSuccess,
    /// The breaker learns of the failure.
    NoteFailure,
    /// Believe what was sent, and publish it if that is news.
    Believe,
    /// Tell those who wait how it went.
    Release,
    /// Ask the device to confirm what was sent.
    ReadBack(Vec<Query>),
}

/// Why a session that was due could not be run.
#[derive(Clone, Copy, Debug, PartialEq, Eq, Structural)]
pub enum RunError {
    Frame(FrameError),
    NothingToSend,
}

pub struct BleScheduler {
    pub config: BleSchedulerConfig,
    pub bridge: BleBridge,
    /// How many sessions are under way.
    pub in_flight: usize,
    pub devices: TextMap<DeviceQueue>,
    pub breakers: TextMap<Breaker>,
    /// Devices already asked, fruitlessly, whether they have segments.
    pub probed_for_segments: TextMap<bool>,
}

impl BleScheduler {
    pub open spec fn wf(&self) -> bool {
        &&& self.config.wf()
        &&& self.bridge.wf()
        &&& self.devices.wf()
        &&& self.breakers.wf()
        &&& self.probed_for_segments.wf()
        &&& self.in_flight <= self.slots()
    }

    /// How many sessions may be under way at once.
    pub open spec fn slots(&self) -> nat {
        if self.config.max_concurrent == 0 {
            1
        } else {
            self.config.max_concurrent as nat
        }
    }

    /// What is recorded of a device's failures.
    pub open spec fn recorded(&self, device_id: Seq<char>) -> Option<Breaker> {
        if self.breakers.has(device_id) {
            Some(self.breakers.at(device_id))
        } else {
            None
        }
    }

    pub open spec fn breaker(&self, device_id: Seq<char>) -> Breaker {
        if self.breakers.has(device_id) {
            self.breakers.at(device_id)
        } else {
            Breaker::closed()
        }
    }

    pub fn new(bridge: BleBridge, config: BleSchedulerConfig) -> (r: Self)
        requires
            bridge.wf(),
            config.wf(),
        ensures
            r.wf(),
            r.bridge == bridge,
            r.config == config,
            r.in_flight == 0,
            forall|id: Seq<char>| !#[trigger] r.devices.has(id),
            forall|id: Seq<char>| !#[trigger] r.breakers.has(id),
            forall|id: Seq<char>| !#[trigger] r.probed_for_segments.has(id),
    {
        BleScheduler {
            config,
            bridge,
            in_flight: 0,
            devices: TextMap::new(),
            breakers: TextMap::new(),
            probed_for_segments: TextMap::new(),
        }
    }

    pub fn bridge(&self) -> (r: &BleBridge)
        ensures
            *r == self.bridge,
    {
        &self.bridge
    }

    // ---------------------------------------------------------------- addresses

    pub open spec fn address_text(&self, device: Device) -> Option<Seq<char>> {
        match self.config.address_overrides.address_of(device.id@) {
            Some(address) => Some(address),
            None => match device.address() {
                Some((address, _)) => Some(address),
                None => None,
            },
        }
    }

    /// The address to use for a device, honouring any hand-corrected override.
    pub fn address_for(&self, device: &Device) -> (r: Option<String>)
        requires
            self.wf(),
        ensures
            match r {
                Some(address) => self.address_text(*device) == Some(address@),
                None => self.address_text(*device) is None,
            },
    {
        match self.config.address_overrides.get(device.id.as_str()) {
            Some(address) => Some(address.to_owned()),
            None => device.ble_address(),
        }
    }

    pub open spec fn note_text(&self, device: Device) -> Seq<char> {
        match (self.config.address_overrides.address_of(device.id@), device.address()) {
            (None, Some((address, BleAddressSource::DerivedFromId))) => " (address "@ + address
                + " was guessed from the device id; correct it with --ble-address-map if that is wrong)"@,
            _ => Seq::<char>::empty(),
        }
    }

    /// A parenthetical naming the address we used, when it was a guess.
    ///
    /// Govee states an address for most devices, but not all, and the fallback
    /// derived from the device id is reliably one too low for the H601B family.
    /// A failure on a guessed address looks exactly like a device that is out
    /// of range, so the message has to say which one it was.
    pub fn address_note(&self, device: &Device) -> (r: String)
        requires
            self.wf(),
        ensures
            r@ == self.note_text(*device),
    {
        if self.config.address_overrides.get(device.id.as_str()).is_some() {
            return String::new();
        }
        match device.ble_address_with_source() {
            Some((address, BleAddressSource::DerivedFromId)) => {
                let mut out = " (address ".to_owned();
                append_str(&mut out, address.as_str());
                append_str(
                    &mut out,
                    " was guessed from the device id; correct it with --ble-address-map if that is wrong)",
                );
                out
            },
            _ => String::new(),
        }
    }

    pub open spec fn available(&self, device: Device, now_ms: u64) -> bool {
        &&& !self.config.exclusions.names(device)
        &&& self.bridge.status.online
        &&& !self.breaker(device.id@).open_at(now_ms)
    }

    /// Whether BLE is currently worth attempting for a device.
    pub fn is_available_for(&self, device: &Device, now_ms: u64) -> (r: bool)
        requires
            self.wf(),
        ensures
            r == self.available(*device, now_ms),
    {
        if self.config.exclusions.excludes(device) {
            return false;
        }
        if !self.bridge.is_online() {
            return false;
        }
        match self.breakers.get(device.id.as_str()) {
            Some(breaker) => !breaker.is_open(now_ms),
            None => true,
        }
    }

    // --------------------------------------------------------------------- gate

    /// Whether `after` is this scheduler once a session slot was asked for.
    pub open spec fn begins(&self, got: bool, after: BleScheduler) -> bool {
        &&& got == (self.in_flight < self.slots())
        &&& after == (BleScheduler { in_flight: after.in_flight, ..*self })
        &&& after.in_flight == self.in_flight + (if got {
            1int
        } else {
            0
        })
    }

    /// Whether `after` is this scheduler once a session slot was given back.
    pub open spec fn ends(&self, after: BleScheduler) -> bool {
        &&& after == (BleScheduler { in_flight: after.in_flight, ..*self })
        &&& after.in_flight == self.in_flight - 1
    }

    /// There are as many slots as are configured, and always one. A slot is refused
    /// exactly while all are taken, and one that is given back is free again.
    pub proof fn slots_come_back(
        first: BleScheduler,
        got: bool,
        second: BleScheduler,
        third: BleScheduler,
        again: bool,
        last: BleScheduler,
    )
        requires
            first.wf(),
            first.begins(got, second),
            second.in_flight > 0,
            second.ends(third),
            third.begins(again, last),
        ensures
            first.config.max_concurrent > 0 ==> first.slots() == first.config.max_concurrent,
            first.config.max_concurrent == 0 ==> first.slots() == 1,
            got <==> first.in_flight < first.slots(),
            got ==> third == first,
            !got ==> second == first,
            again,
            last.in_flight == second.in_flight,
            second.in_flight <= second.slots(),
    {
    }

    /// Takes a session slot, if one is free.
    pub fn try_begin_session(&mut self) -> (r: Result<(), NoSessionSlot>)
        requires
            old(self).wf(),
        ensures
            final(self).wf(),
            old(self).begins(r is Ok, *final(self)),
            match r {
                Ok(()) => {
                    &&& old(self).in_flight < old(self).slots()
                    &&& *final(self) == (BleScheduler {
                        in_flight: (old(self).in_flight + 1) as usize,
                        ..*old(self)
                    })
                },
                Err(busy) => {
                    &&& old(self).in_flight == old(self).slots()
                    &&& busy.slots == old(self).config.max_concurrent
                    &&& *final(self) == *old(self)
                },
            },
    {
        let slots: usize = if self.config.max_concurrent == 0 {
            1
        } else {
            self.config.max_concurrent
        };
        if self.in_flight < slots {
            self.in_flight = self.in_flight + 1;
            Ok(())
        } else {
            Err(NoSessionSlot { slots: self.config.max_concurrent })
        }
    }

    /// Gives a session slot back.
    pub fn end_session(&mut self)
        requires
            old(self).wf(),
            old(self).in_flight > 0,
        ensures
            final(self).wf(),
            old(self).ends(*final(self)),
            *final(self) == (BleScheduler {
                in_flight: (old(self).in_flight - 1) as usize,
                ..*old(self)
            }),
    {
        self.in_flight = self.in_flight - 1;
    }

    // ------------------------------------------------------------------- queues

    /// What is pending for a device.
    pub open spec fn pending_for(&self, device_id: Seq<char>) -> PendingOps {
        if self.devices.has(device_id) {
            self.devices.at(device_id).pending
        } else {
            PendingOps::nothing()
        }
    }

    pub open spec fn waiters_for(&self, device_id: Seq<char>) -> Seq<u64> {
        if self.devices.has(device_id) {
            self.devices.at(device_id).waiters@
        } else {
            Seq::<u64>::empty()
        }
    }

    pub open spec fn flush_due(&self, device_id: Seq<char>) -> bool {
        self.devices.has(device_id) && self.devices.at(device_id).flush_scheduled
    }

    /// Nothing but the queue of one device is different in `after`.
    pub open spec fn only_queue_differs(&self, after: &BleScheduler, device_id: Seq<char>) -> bool {
        &&& *after == (BleScheduler { devices: after.devices, ..*self })
        &&& forall|other: Seq<char>|
            other != device_id ==> #[trigger] after.devices.has(other) == self.devices.has(other)
        &&& forall|other: Seq<char>|
            other != device_id && self.devices.has(other) ==> #[trigger] after.devices.at(other)
                == self.devices.at(other)
    }

    /// Whether `after` is this scheduler once operations were queued for a device and
    /// someone waits for them.
    pub open spec fn queues(
        &self,
        device_id: Seq<char>,
        address: Seq<char>,
        ops: Seq<DeviceOp>,
        waiter: u64,
        after: BleScheduler,
    ) -> bool {
        &&& pending::merged_all(self.pending_for(device_id), ops) == (
            after.pending_for(device_id),
            None::<MergeError>,
        )
        &&& after.waiters_for(device_id) == self.waiters_for(device_id).push(waiter)
        &&& after.devices.has(device_id) && after.devices.at(device_id).address@ == address
        &&& after.flush_due(device_id)
    }

    /// Whether `after` is this scheduler once it handed over what was queued for a
    /// device.
    pub open spec fn hands_over(
        &self,
        device_id: Seq<char>,
        due: DueSession,
        after: BleScheduler,
    ) -> bool {
        &&& self.devices.has(device_id)
        &&& due.pending == self.pending_for(device_id)
        &&& due.waiters@ == self.waiters_for(device_id)
        &&& due.address@ == self.devices.at(device_id).address@
        &&& after.pending_for(device_id) == PendingOps::nothing()
        &&& after.waiters_for(device_id).len() == 0
        &&& !after.flush_due(device_id)
    }

    /// Commands that arrive one after the other go out in one session, as if they had
    /// been given together, to the address that was given last; everyone who waits for
    /// any of them waits for that session, and nothing is sent twice.
    pub proof fn commands_go_out_together(
        first: BleScheduler,
        second: BleScheduler,
        third: BleScheduler,
        last: BleScheduler,
        device_id: Seq<char>,
        one: (Seq<char>, Seq<DeviceOp>, u64),
        other: (Seq<char>, Seq<DeviceOp>, u64),
        due: DueSession,
    )
        requires
            first.queues(device_id, one.0, one.1, one.2, second),
            second.queues(device_id, other.0, other.1, other.2, third),
            third.hands_over(device_id, due, last),
        ensures
            due.pending == pending::merged_all(first.pending_for(device_id), one.1 + other.1).0,
            due.waiters@ == first.waiters_for(device_id).push(one.2).push(other.2),
            due.address@ == other.0,
            third.devices.at(device_id).flush_scheduled,
            last.devices.has(device_id) ==> !last.devices.at(device_id).flush_scheduled,
            last.pending_for(device_id) == PendingOps::nothing(),
            last.waiters_for(device_id).len() == 0,
            !last.flush_due(device_id),
    {
        pending::batches_collapse(first.pending_for(device_id), one.1, other.1);
    }

    /// A device is due once something was asked of it that was not sent yet, and no
    /// longer when that was handed over.
    pub proof fn when_a_device_is_due(
        &self,
        device_id: Seq<char>,
        address: Seq<char>,
        ops: Seq<DeviceOp>,
        waiter: u64,
        queued: BleScheduler,
        due: DueSession,
        after: BleScheduler,
    )
        requires
            self.queues(device_id, address, ops, waiter, queued),
            queued.hands_over(device_id, due, after),
        ensures
            queued.is_due(device_id) <==> due.pending != PendingOps::nothing(),
            queued.is_due(device_id) <==> {
                ||| due.pending.power is Some
                ||| due.pending.brightness is Some
                ||| due.pending.color is Some
                ||| due.pending.kelvin is Some
            },
            !after.is_due(device_id),
    {
    }

    /// What is queued for a device, or handed over, is no other device's matter: its
    /// queue stays, and so do the breakers, the slots and what was probed.
    pub proof fn other_queues_stay(
        &self,
        after: BleScheduler,
        device_id: Seq<char>,
        other: Seq<char>,
    )
        requires
            self.only_queue_differs(&after, device_id),
            other != device_id,
        ensures
            after.pending_for(other) == self.pending_for(other),
            after.waiters_for(other) == self.waiters_for(other),
            after.breaker(other) == self.breaker(other),
            after.breaker(device_id) == self.breaker(device_id),
            after.in_flight == self.in_flight,
            after.probed_for_segments == self.probed_for_segments,
            after.bridge == self.bridge,
    {
    }

    /// Queue one or more operations, to be carried out by the session that the
    /// waiter waits for. Returns whether a flush is to be scheduled.
    ///
    /// Everything handed over in one call lands in the same session, which is
    /// what turns "on, 60%, warm white" into a single connection carrying three
    /// frames. The coalescing window on top of that catches commands that
    /// arrive separately but close together.
    ///
    /// An operation that cannot go out over Bluetooth is an error. The ones
    /// before it stay queued, and the waiter does not wait.
    pub fn apply(&mut self, device: &Device, address: &str, ops: &[DeviceOp], waiter: u64) -> (r:
        Result<bool, MergeError>)
        requires
            old(self).wf(),
            device.wf(),
        ensures
            final(self).wf(),
            old(self).only_queue_differs(final(self), device.id@),
            final(self).devices.has(device.id@),
            r is Ok ==> old(self).queues(device.id@, address@, ops@, waiter, *final(self)),
            ({
                let queue = final(self).devices.at(device.id@);
                let (merged, error) = pending::merged_all(
                    old(self).pending_for(device.id@),
                    ops@,
                );
                &&& queue.address@ == address@
                &&& match queue.segments {
                    Some(count) => device.addressed() == Some(count as int),
                    None => device.addressed() is None,
                }
                &&& queue.pending == merged
                &&& match error {
                    Some(err) => {
                        &&& r == Err::<bool, MergeError>(err)
                        &&& queue.waiters@ == old(self).waiters_for(device.id@)
                        &&& queue.flush_scheduled == old(self).flush_due(device.id@)
                    },
                    None => {
                        &&& r == Ok::<bool, MergeError>(!old(self).flush_due(device.id@))
                        &&& queue.waiters@ == old(self).waiters_for(device.id@).push(waiter)
                        &&& queue.flush_scheduled
                    },
                }
            }),
    {
        let ghost before = *self;
        if !self.devices.contains_key(device.id.as_str()) {
            self.devices.insert(device.id.clone(), DeviceQueue::default());
        }
        let mut queue = match self.devices.remove(device.id.as_str()) {
            Some(queue) => queue,
            None => DeviceQueue::default(),
        };
        assert(queue.pending == before.pending_for(device.id@));
        assert(queue.waiters@ =~= before.waiters_for(device.id@));
        assert(queue.flush_scheduled == before.flush_due(device.id@));
        queue.address = address.to_owned();
        queue.segments = device.segment_count();
        let result = match queue.pending.merge_all(ops) {
            Ok(()) => {
                queue.waiters.push(waiter);
                let schedule = !queue.flush_scheduled;
                queue.flush_scheduled = true;
                Ok(schedule)
            },
            Err(err) => Err(err),
        };
        self.devices.insert(device.id.clone(), queue);
        result
    }

    /// Whether a flush of a device's queue has something to send.
    pub open spec fn is_due(&self, device_id: Seq<char>) -> bool {
        self.devices.has(device_id) && self.pending_for(device_id) != PendingOps::nothing()
    }

    /// Takes the session of a device that is due, once the window has passed.
    pub fn take_due(&mut self, device_id: &str) -> (r: Option<DueSession>)
        requires
            old(self).wf(),
        ensures
            final(self).wf(),
            old(self).only_queue_differs(final(self), device_id@),
            final(self).devices.has(device_id@) == old(self).devices.has(device_id@),
            !final(self).flush_due(device_id@),
            r matches Some(due) ==> old(self).hands_over(device_id@, due, *final(self)),
            match r {
                Some(due) => {
                    let queue = old(self).devices.at(device_id@);
                    &&& old(self).is_due(device_id@)
                    &&& due.address@ == queue.address@
                    &&& due.segments == queue.segments
                    &&& due.pending == queue.pending
                    &&& due.waiters@ == queue.waiters@
                    &&& final(self).pending_for(device_id@) == PendingOps::nothing()
                    &&& final(self).waiters_for(device_id@).len() == 0
                },
                None => {
                    &&& !old(self).is_due(device_id@)
                    &&& final(self).pending_for(device_id@) == PendingOps::nothing()
                    &&& final(self).waiters_for(device_id@) == old(self).waiters_for(device_id@)
                },
            },
    {
        let mut queue = match self.devices.remove(device_id) {
            Some(queue) => queue,
            None => {
                assert(self.waiters_for(device_id@) =~= old(self).waiters_for(device_id@));
                return None;
            },
        };
        queue.flush_scheduled = false;
        if queue.pending.is_empty() {
            self.devices.insert(device_id.to_owned(), queue);
            return None;
        }
        let due = DueSession {
            address: queue.address.clone(),
            segments: queue.segments,
            pending: queue.pending,
            waiters: queue.waiters,
        };
        self.devices.insert(
            device_id.to_owned(),
            DeviceQueue {
                address: queue.address,
                segments: queue.segments,
                pending: PendingOps::default(),
                waiters: Vec::new(),
                flush_scheduled: false,
            },
        );
        Some(due)
    }

    /// What to ask a device once its session is over: what the session changed,
    /// if it went well and reading back is configured.
    ///
    /// Reading back what we just wrote is worth doing, but not worth waiting
    /// for: the callers are released before.
    pub fn read_back(&self, pending: &PendingOps, ok: bool) -> (r: Vec<Query>)
        ensures
            r@ == (if ok && self.config.verify_writes {
                pending.worth_asking()
            } else {
                Seq::<Query>::empty()
            }),
    {
        if ok && self.config.verify_writes {
            pending.verification_queries()
        } else {
            Vec::new()
        }
    }

    /// What follows a session, in order. The breaker takes its outcome. What was
    /// sent is believed, if it was sent. Those who wait are released. Only then is
    /// the device asked to confirm it, if reading back is configured and there is
    /// anything to ask.
    pub open spec fn is_aftermath(
        &self,
        steps: Seq<SessionStep>,
        pending: PendingOps,
        ok: bool,
    ) -> bool {
        let asks = ok && self.config.verify_writes && pending.worth_asking().len() > 0;
        if !ok {
            &&& steps.len() == 2
            &&& steps[0] == SessionStep::NoteFailure
            &&& steps[1] == SessionStep::Release
        } else {
            &&& steps.len() == (if asks {
                4int
            } else {
                3int
            })
            &&& steps[0] == SessionStep::NoteSuccess
            &&& steps[1] == SessionStep::Believe
            &&& steps[2] == SessionStep::Release
            &&& asks ==> (steps[3] matches SessionStep::ReadBack(queries) && queries@
                == pending.worth_asking())
        }
    }

    /// What follows a session that was due, in order.
    pub fn after_session(&self, due: &DueSession, ok: bool) -> (r: Vec<SessionStep>)
        ensures
            self.is_aftermath(r@, due.pending, ok),
    {
        let mut steps: Vec<SessionStep> = Vec::new();
        if !ok {
            steps.push(SessionStep::NoteFailure);
            steps.push(SessionStep::Release);
            return steps;
        }
        steps.push(SessionStep::NoteSuccess);
        steps.push(SessionStep::Believe);
        steps.push(SessionStep::Release);
        let queries = self.read_back(&due.pending, ok);
        if queries.len() > 0 {
            steps.push(SessionStep::ReadBack(queries));
        }
        steps
    }

    /// Those who wait for a session are released exactly once, and before the
    /// device is read back. What was sent is believed only after it was sent, and
    /// before the device has its own say.
    pub proof fn callers_do_not_wait_for_the_read_back(
        &self,
        steps: Seq<SessionStep>,
        pending: PendingOps,
        ok: bool,
        i: int,
        j: int,
    )
        requires
            self.is_aftermath(steps, pending, ok),
            0 <= i < steps.len(),
            0 <= j < steps.len(),
        ensures
            exists|k: int| 0 <= k < steps.len() && #[trigger] steps[k] == SessionStep::Release,
            steps[i] == SessionStep::Release && steps[j] == SessionStep::Release ==> i == j,
            steps[i] == SessionStep::Release && steps[j] is ReadBack ==> i < j,
            steps[i] == SessionStep::Believe ==> ok,
            steps[i] == SessionStep::Believe && steps[j] is ReadBack ==> i < j,
            steps[i] is ReadBack ==> ok && self.config.verify_writes,
    {
        if ok {
            assert(steps[2] == SessionStep::Release);
        } else {
            assert(steps[1] == SessionStep::Release);
        }
    }

    /// The breaker learns of every session before anyone else does, and of its very
    /// outcome. What was sent is believed after every session that went well. The
    /// device is asked to confirm exactly what was sent, if that is configured.
    pub proof fn every_session_is_learned_from(
        &self,
        steps: Seq<SessionStep>,
        pending: PendingOps,
        ok: bool,
    )
        requires
            self.is_aftermath(steps, pending, ok),
        ensures
            ok ==> steps[0] is NoteSuccess,
            !ok ==> steps[0] is NoteFailure,
            forall|i: int|
                0 < i < steps.len() ==> !(#[trigger] steps[i] is NoteSuccess) && !(
                steps[i] is NoteFailure),
            ok ==> exists|k: int| 0 <= k < steps.len() && #[trigger] steps[k] is Believe,
            ok && self.config.verify_writes && pending != PendingOps::nothing() ==> (
            steps.last() matches SessionStep::ReadBack(queries) && queries@
                == pending.worth_asking()),
    {
        if ok {
            assert(steps[1] is Believe);
        }
        pending.only_what_was_sent_is_asked_about(Query::Power);
        if pending != PendingOps::nothing() {
            assert(pending.worth_asking().contains(Query::Power));
        }
    }

    /// Bluetooth is worth attempting for a device exactly while the executor is
    /// there, the user has not ruled the device out, and its breaker is not open. A
    /// device of which no failure is recorded has no open breaker.
    pub proof fn when_bluetooth_is_worth_attempting(&self, device: Device, now_ms: u64)
        ensures
            self.available(device, now_ms) ==> self.bridge.status.online,
            self.available(device, now_ms) ==> !self.config.exclusions.names(device),
            (self.breakers.has(device.id@) && (self.breakers.at(
                device.id@,
            ).open_until_ms matches Some(until) && now_ms < until)) ==> !self.available(
                device,
                now_ms,
            ),
            self.bridge.status.online && !self.config.exclusions.names(device) && (
            self.breakers.has(device.id@) ==> (self.breakers.at(
                device.id@,
            ).open_until_ms matches Some(until) ==> until <= now_ms)) ==> self.available(
                device,
                now_ms,
            ),
    {
    }

    /// A correction by hand is the address of a device, whatever else is known of it;
    /// without one it is the device's own.
    pub proof fn a_correction_by_hand_counts(&self, device: Device)
        ensures
            self.config.address_overrides.address_of(device.id@) matches Some(address)
                ==> self.address_text(device) == Some(address),
            self.config.address_overrides.address_of(device.id@) is None ==> match device.address() {
                Some((address, _)) => self.address_text(device) == Some(address),
                None => self.address_text(device) is None,
            },
            self.config.address_overrides.address_of(device.id@) is Some ==> self.note_text(
                device,
            ).len() == 0,
    {
    }

    /// A session that went well closes the breaker of its device. One that failed
    /// counts, unless it never reached the radio, and an open breaker stays open for
    /// no less than it was.
    pub proof fn what_a_breaker_learns(
        &self,
        device_id: Seq<char>,
        result: Result<(), SessionError>,
        now_ms: u64,
    )
        requires
            self.breaker(device_id).consecutive_failures < u32::MAX,
            now_ms + self.config.breaker_cooldown_ms <= u64::MAX,
        ensures
            ({
                let before = self.breaker(device_id);
                let after = self.breaker_after(device_id, result, now_ms);
                &&& result is Ok ==> after.consecutive_failures == 0 && after.open_until_ms is None
                &&& (result matches Err(err) && err is NoSessionSlot) ==> after == before
                &&& (result matches Err(err) && !(err is NoSessionSlot)) ==> {
                    &&& after.consecutive_failures == before.consecutive_failures + 1
                    &&& after.consecutive_failures >= self.config.breaker_threshold
                        ==> (after.open_until_ms matches Some(until) && until == now_ms
                        + self.config.breaker_cooldown_ms)
                    &&& before.open_until_ms is Some ==> after.open_until_ms is Some
                }
                &&& (result matches Err(SessionError::JobFailed(failed)) && failed.kind
                    == ErrorKind::Timeout) ==> (after.open_until_ms matches Some(until) && until
                    == now_ms + self.config.breaker_cooldown_ms)
                &&& (result matches Err(err) && (err matches SessionError::JobFailed(failed)
                    ==> failed.kind != ErrorKind::Timeout)) && before.consecutive_failures + 1
                    < self.config.breaker_threshold ==> after.open_until_ms == before.open_until_ms
            }),
    {
    }

    /// Whether `job` carries out what a user asked for: it writes the frames and then
    /// asks the questions.
    pub open spec fn is_command(
        &self,
        job: JobRequest,
        address: Seq<char>,
        frames: Seq<Vec<u8>>,
        queries: Seq<Query>,
    ) -> bool {
        session::is_job(job, job.id@, self.config, address, frames, queries, "user"@)
    }

    /// Whether `job` asks questions and changes nothing.
    pub open spec fn is_poll(
        &self,
        job: JobRequest,
        address: Seq<char>,
        queries: Seq<Query>,
    ) -> bool {
        session::is_job(
            job,
            job.id@,
            self.config,
            address,
            Seq::<Vec<u8>>::empty(),
            queries,
            "poll"@,
        )
    }

    /// The job of a session that is due writes the frames of what is pending, in order,
    /// and asks nothing, so nobody waits for an answer. The job of a poll writes
    /// nothing, and gives way to a user's.
    pub proof fn a_command_only_writes_and_a_poll_only_asks(
        &self,
        command: JobRequest,
        poll: JobRequest,
        address: Seq<char>,
        frames: Seq<Vec<u8>>,
        queries: Seq<Query>,
        k: int,
    )
        requires
            self.is_command(command, address, frames, Seq::<Query>::empty()),
            self.is_poll(poll, address, queries),
        ensures
            command.priority@ == "user"@,
            poll.priority@ == "poll"@,
            command.priority@ != poll.priority@,
            0 <= k < frames.len() ==> 2 * k < command.ops@.len() && (command.ops@[2 * k] matches JobOp::Write(
                spec,
            ) && crate::base64::base64_data(spec.data@) == Some(frames[k]@)),
            0 <= k < command.ops@.len() ==> !(command.ops@[k] is Query),
            0 <= k < poll.ops@.len() ==> !(poll.ops@[k] is Write),
            0 <= k < queries.len() ==> 2 * k < poll.ops@.len() && (poll.ops@[2 * k] matches JobOp::Query(
                spec,
            ) && crate::base64::base64_data(spec.data@) == Some(
                crate::ble::frame::finished(queries[k].payload()),
            )),
    {
        reveal_strlit("user");
        reveal_strlit("poll");
        assert("user"@[0] != "poll"@[0]);
        let (delay, timeout) = (self.config.inter_frame_delay_ms, self.config.query_timeout_ms);
        let none = Seq::<Query>::empty();
        let nothing = Seq::<Vec<u8>>::empty();
        if 0 <= k < frames.len() {
            session::a_session_writes_before_it_asks(
                command.ops@,
                frames,
                none,
                delay,
                timeout,
                2 * k,
            );
        }
        if 0 <= k < command.ops@.len() {
            session::a_session_writes_before_it_asks(command.ops@, frames, none, delay, timeout, k);
        }
        if 0 <= k < poll.ops@.len() {
            session::a_session_writes_before_it_asks(
                poll.ops@,
                nothing,
                queries,
                delay,
                timeout,
                k,
            );
        }
        if 0 <= k < queries.len() {
            session::a_session_writes_before_it_asks(
                poll.ops@,
                nothing,
                queries,
                delay,
                timeout,
                2 * k,
            );
        }
    }

    /// The job of a session that is due.
    pub fn run_session(&self, due: &DueSession) -> (r: Result<JobRequest, RunError>)
        ensures
            match due.pending.wire_frames(due.segments) {
                Ok(expected) => if expected.len() == 0 {
                    r == Err::<JobRequest, RunError>(RunError::NothingToSend)
                } else {
                    r matches Ok(job) && random_id::is_uuid(job.id@) && exists|
                        frames: Seq<Vec<u8>>,
                    | #[trigger]
                        pending::are_frames(frames, expected) && self.is_command(
                            job,
                            due.address@,
                            frames,
                            Seq::<Query>::empty(),
                        ) && session::is_job(
                            job,
                            job.id@,
                            self.config,
                            due.address@,
                            frames,
                            Seq::<Query>::empty(),
                            "user"@,
                        )
                },
                Err(err) => r == Err::<JobRequest, RunError>(RunError::Frame(err)),
            },
    {
        match due.frames() {
            Ok(frames) => {
                if frames.len() == 0 {
                    return Err(RunError::NothingToSend);
                }
                proof {
                    let expected = due.pending.wire_frames(due.segments)->Ok_0;
                    due.pending.frames_are_valid(due.segments);
                    assert forall|i: int| 0 <= i < frames@.len() implies (
                    #[trigger] frames@[i])@.len() <= usize::MAX / 512 by {
                        assert(crate::ble::frame::is_valid_frame(expected[i]));
                    }
                }
                // Writes only. The read-back is scheduled afterwards, off the
                // caller's critical path; see `read_back`.
                let queries: Vec<Query> = Vec::new();
                assert(queries@ =~= Seq::<Query>::empty());
                match exchange(
                    &self.config,
                    due.address.as_str(),
                    frames.as_slice(),
                    queries.as_slice(),
                    "user",
                ) {
                    Ok(job) => Ok(job),
                    Err(_) => Err(RunError::NothingToSend),
                }
            },
            Err(err) => Err(RunError::Frame(err)),
        }
    }

    /// The job that sends frames a caller has already encoded, and reads back
    /// the segments that they touch, in one radio session.
    ///
    /// Segment colour does not fit the shape of a `DeviceOp` — it carries a set
    /// of segment indices rather than one value — and it is batched a layer
    /// above. That layer encodes and hands the frames over.
    pub fn send_frames(&self, address: &str, frames: &[Vec<u8>], read_back: &[u32]) -> (r: Result<
        JobRequest,
        NothingToDo,
    >)
        requires
            session::are_encodable(frames@),
        ensures
            match r {
                Ok(job) => {
                    &&& frames@.len() > 0
                    &&& random_id::is_uuid(job.id@)
                    &&& exists|queries: Seq<Query>| #[trigger]
                        query::reads_back(read_back@, queries) && self.is_command(
                            job,
                            address@,
                            frames@,
                            queries,
                        ) && session::is_job(
                            job,
                            job.id@,
                            self.config,
                            address@,
                            frames@,
                            queries,
                            "user"@,
                        )
                },
                Err(_) => frames@.len() == 0,
            },
    {
        if frames.len() == 0 {
            return Err(NothingToDo);
        }
        let queries = Query::pages_covering(read_back);
        assert(query::reads_back(read_back@, queries@));
        exchange(&self.config, address, frames, queries.as_slice(), "user")
    }

    /// The job that asks questions and changes nothing. It gives way to what a
    /// user asked for.
    pub fn ask(&self, address: &str, queries: &[Query]) -> (r: Result<JobRequest, NothingToDo>)
        ensures
            match r {
                Ok(job) => queries@.len() > 0 && random_id::is_uuid(job.id@) && self.is_poll(
                    job,
                    address@,
                    queries@,
                ) && session::is_job(
                    job,
                    job.id@,
                    self.config,
                    address@,
                    Seq::<Vec<u8>>::empty(),
                    queries@,
                    "poll"@,
                ),
                Err(_) => queries@.len() == 0,
            },
    {
        let frames: Vec<Vec<u8>> = Vec::new();
        assert(frames@ =~= Seq::<Vec<u8>>::empty());
        exchange(&self.config, address, frames.as_slice(), queries, "poll")
    }

    // ---------------------------------------------------------------- discovery

    /// Whether `after` is this scheduler once it was asked whether a device is to be
    /// asked about segments, and this is the answer.
    pub open spec fn probes(
        &self,
        device_id: Seq<char>,
        known: Option<u32>,
        probe: bool,
        after: BleScheduler,
    ) -> bool {
        &&& probe == (known is Some || !self.probed_for_segments.has(device_id))
        &&& forall|id: Seq<char>| #[trigger]
            after.probed_for_segments.has(id) == (self.probed_for_segments.has(id) || (known is None
                && id == device_id))
    }

    /// A device that is known to have segments is asked about them every time. Any
    /// other is asked once: the first time, and never again, however often other
    /// devices are asked in between.
    pub proof fn silence_is_asked_for_once(
        first: BleScheduler,
        second: BleScheduler,
        third: BleScheduler,
        last: BleScheduler,
        device_id: Seq<char>,
        other: Seq<char>,
        known: (Option<u32>, Option<u32>, Option<u32>),
        answers: (bool, bool, bool),
    )
        requires
            first.probes(device_id, known.0, answers.0, second),
            second.probes(other, known.1, answers.1, third),
            third.probes(device_id, known.2, answers.2, last),
        ensures
            known.0 is Some ==> answers.0,
            known.2 is Some ==> answers.2,
            !first.probed_for_segments.has(device_id) ==> answers.0,
            known.0 is None && known.2 is None ==> !answers.2,
            known.0 is Some && known.2 is None && other != device_id ==> (answers.2
                <==> !first.probed_for_segments.has(device_id)),
    {
    }

    /// Whether to ask a device about segments during this poll.
    ///
    /// A device that has segments is asked every time — the pages are its state
    /// and we want them fresh. A device that has never mentioned any is asked
    /// **once per run**, because an executor predating the `optional` flag on
    /// queries treats the silence as a failed job.
    pub fn may_probe_segments(&mut self, device_id: &str, known: Option<u32>) -> (r: bool)
        requires
            old(self).wf(),
        ensures
            final(self).wf(),
            *final(self) == (BleScheduler {
                probed_for_segments: final(self).probed_for_segments,
                ..*old(self)
            }),
            old(self).probes(device_id@, known, r, *final(self)),
            r == (known is Some || !old(self).probed_for_segments.has(device_id@)),
            forall|id: Seq<char>| #[trigger]
                final(self).probed_for_segments.has(id) == (old(self).probed_for_segments.has(id)
                    || (known is None && id == device_id@)),
    {
        if known.is_some() {
            return true;
        }
        if self.probed_for_segments.contains_key(device_id) {
            return false;
        }
        self.probed_for_segments.insert(device_id.to_owned(), true);
        true
    }

    /// What follows the session that read a device's state: the breaker takes
    /// its outcome, and if it went well the segments are asked for in a session
    /// of their own, whose failure counts for nothing.
    ///
    /// `known` is what we believe the device has, and drives how far the segment
    /// discovery reaches — see `Query::discover_segments`.
    pub fn poll(
        &mut self,
        device_id: &str,
        known: Option<u32>,
        result: &Result<(), SessionError>,
        now_ms: u64,
    ) -> (r: Vec<Query>)
        requires
            old(self).wf(),
            (result matches Err(err) && counts(*err)) ==> old(self).breaker(
                device_id@,
            ).consecutive_failures < u32::MAX && now_ms + old(self).config.breaker_cooldown_ms
                <= u64::MAX,
        ensures
            final(self).wf(),
            *final(self) == (BleScheduler {
                breakers: final(self).breakers,
                probed_for_segments: final(self).probed_for_segments,
                ..*old(self)
            }),
            final(self).breaker(device_id@) == old(self).breaker_after(
                device_id@,
                *result,
                now_ms,
            ),
            forall|id: Seq<char>|
                id != device_id@ ==> #[trigger] final(self).breaker(id) == old(self).breaker(id),
            r@ == (if result is Ok && (known is Some || !old(self).probed_for_segments.has(
                device_id@,
            )) {
                query::pages_up_to(query::pages_wanted(known))
            } else {
                Seq::<Query>::empty()
            }),
            forall|id: Seq<char>| #[trigger]
                final(self).probed_for_segments.has(id) == (old(self).probed_for_segments.has(id)
                    || (result is Ok && known is None && id == device_id@)),
            result is Ok ==> old(self).probes(device_id@, known, r@.len() > 0, *final(self)),
    {
        match result {
            Ok(()) => {
                self.note_success(device_id);
                let ghost noted = *self;
                let probe = self.may_probe_segments(device_id, known);
                assert forall|id: Seq<char>| id != device_id@ implies #[trigger] self.breaker(id)
                    == old(self).breaker(id) by {
                    assert(self.breaker(id) == noted.breaker(id));
                }
                if probe {
                    Query::discover_segments(known)
                } else {
                    Vec::new()
                }
            },
            Err(err) => {
                self.note_failure(device_id, err, now_ms);
                Vec::new()
            },
        }
    }

    // ------------------------------------------------------------------ breakers

    /// The breaker of a device once a session has ended.
    pub open spec fn breaker_after(
        &self,
        device_id: Seq<char>,
        result: Result<(), SessionError>,
        now_ms: u64,
    ) -> Breaker {
        match result {
            Ok(_) => Breaker::closed(),
            Err(err) => if counts(err) {
                self.breaker(device_id).failed(
                    is_expensive(err),
                    self.config.breaker_threshold,
                    now_ms,
                    self.config.breaker_cooldown_ms,
                )
            } else {
                self.breaker(device_id)
            },
        }
    }

    /// What is told of a failure, given the breaker before it.
    pub open spec fn failure_note(
        breaker: Breaker,
        err: SessionError,
        threshold: u32,
    ) -> FailureNote {
        if !counts(err) {
            FailureNote::Ignored
        } else if !is_expensive(err) && breaker.consecutive_failures + 1 < threshold {
            FailureNote::Counted
        } else if breaker.open_until_ms is Some {
            FailureNote::StillOpen
        } else {
            FailureNote::Opened
        }
    }

    /// A device is said to be set aside exactly if this failure set it aside, and to
    /// be so again exactly if an earlier one had. A failure that is ignored changes
    /// nothing, and any other is counted.
    pub proof fn a_failure_is_told_as_it_counts(
        &self,
        device_id: Seq<char>,
        err: SessionError,
        now_ms: u64,
    )
        requires
            self.breaker(device_id).consecutive_failures < u32::MAX,
            now_ms + self.config.breaker_cooldown_ms <= u64::MAX,
        ensures
            ({
                let before = self.breaker(device_id);
                let after = self.breaker_after(device_id, Err(err), now_ms);
                let note = Self::failure_note(before, err, self.config.breaker_threshold);
                &&& note is Ignored <==> err is NoSessionSlot
                &&& note is Ignored ==> after == before
                &&& !(note is Ignored) ==> after.consecutive_failures
                    == before.consecutive_failures + 1
                &&& note is Opened <==> before.open_until_ms is None && after.open_until_ms is Some
                &&& note is StillOpen ==> before.open_until_ms is Some && after.open_until_ms
                    == Some((now_ms + self.config.breaker_cooldown_ms) as u64)
                &&& note is Counted ==> after.open_until_ms == before.open_until_ms
            }),
    {
    }

    /// A success is news of a recovery exactly if the device had failed since the last
    /// one.
    pub open spec fn has_recovered(before: Breaker, after: Breaker) -> bool {
        before != after && after == Breaker::closed()
    }

    /// What a success tells: a device is reported as recovered exactly if it had been
    /// failing or was set aside, and afterwards it is neither.
    pub proof fn a_recovery_is_told(before: Breaker, after: Breaker)
        requires
            after == Breaker::closed(),
        ensures
            Self::has_recovered(before, after) <==> before.consecutive_failures > 0
                || before.open_until_ms is Some,
            after.consecutive_failures == 0 && after.open_until_ms is None,
    {
    }

    /// Takes the outcome of a session. Returns whether a device that had been
    /// failing has recovered.
    pub fn note_success(&mut self, device_id: &str) -> (r: bool)
        requires
            old(self).wf(),
        ensures
            final(self).wf(),
            *final(self) == (BleScheduler { breakers: final(self).breakers, ..*old(self) }),
            final(self).breaker(device_id@) == Breaker::closed(),
            forall|id: Seq<char>|
                id != device_id@ ==> #[trigger] final(self).breaker(id) == old(self).breaker(id),
            forall|id: Seq<char>| #[trigger]
                final(self).breakers.has(id) == old(self).breakers.has(id),
            r == (old(self).breaker(device_id@).consecutive_failures > 0 || old(self).breaker(
                device_id@,
            ).open_until_ms is Some),
            r == Self::has_recovered(
                old(self).breaker(device_id@),
                final(self).breaker(device_id@),
            ),
    {
        match self.breakers.get(device_id) {
            Some(breaker) => {
                let recovered = breaker.consecutive_failures > 0 || breaker.open_until_ms.is_some();
                self.breakers.insert(device_id.to_owned(), Breaker::default());
                recovered
            },
            None => false,
        }
    }

    /// Takes the failure of a session.
    pub fn note_failure(&mut self, device_id: &str, err: &SessionError, now_ms: u64) -> (r:
        FailureNote)
        requires
            old(self).wf(),
            counts(*err) ==> old(self).breaker(device_id@).consecutive_failures < u32::MAX
                && now_ms + old(self).config.breaker_cooldown_ms <= u64::MAX,
        ensures
            final(self).wf(),
            *final(self) == (BleScheduler { breakers: final(self).breakers, ..*old(self) }),
            final(self).recorded(device_id@) == Breaker::noted(
                old(self).recorded(device_id@),
                *err,
                old(self).config.breaker_threshold,
                now_ms,
                old(self).config.breaker_cooldown_ms,
            ),
            final(self).breaker(device_id@) == old(self).breaker_after(
                device_id@,
                Err(*err),
                now_ms,
            ),
            forall|id: Seq<char>|
                id != device_id@ ==> #[trigger] final(self).breaker(id) == old(self).breaker(id),
            forall|id: Seq<char>| #[trigger]
                final(self).breakers.has(id) == (old(self).breakers.has(id) || (counts(*err) && id
                    == device_id@)),
            r == Self::failure_note(
                old(self).breaker(device_id@),
                *err,
                old(self).config.breaker_threshold,
            ),
            r == (if !counts(*err) {
                FailureNote::Ignored
            } else if is_expensive(*err) || old(self).breaker(device_id@).consecutive_failures + 1
                >= old(self).config.breaker_threshold {
                if old(self).breaker(device_id@).open_until_ms is Some {
                    FailureNote::StillOpen
                } else {
                    FailureNote::Opened
                }
            } else {
                FailureNote::Counted
            }),
    {
        // Never reaching the radio says nothing about the device. Counting it
        // would let a busy moment set aside a light that is answering fine.
        if let SessionError::NoSessionSlot(_) = err {
            return FailureNote::Ignored;
        }
        let mut breaker: Breaker = match self.breakers.get(device_id) {
            Some(breaker) => *breaker,
            None => Breaker::default(),
        };
        breaker.consecutive_failures = breaker.consecutive_failures + 1;

        // A job that burned its whole budget is not an ordinary failure: it cost
        // the caller 30 seconds and says the device is not answering. Waiting
        // for two more of those before setting the device aside spends a minute
        // proving what we already know.
        let expensive = match err {
            SessionError::JobFailed(failed) => match failed.kind {
                ErrorKind::Timeout => true,
                _ => false,
            },
            _ => false,
        };
        let note = if expensive || breaker.consecutive_failures >= self.config.breaker_threshold {
            let was_open = breaker.open_until_ms.is_some();
            breaker.open_until_ms = Some(now_ms + self.config.breaker_cooldown_ms);
            if was_open {
                FailureNote::StillOpen
            } else {
                FailureNote::Opened
            }
        } else {
            FailureNote::Counted
        };
        self.breakers.insert(device_id.to_owned(), breaker);
        note
    }

    /// When to try again after a failure that the executor reported.
    pub open spec fn delay_after(kind: ErrorKind, retry_after_ms: Option<u64>) -> Option<u64> {
        if kind is BadRequest {
            None
        } else if retry_after_ms is Some {
            retry_after_ms
        } else {
            Some(1000)
        }
    }

    /// Everything but a malformed request is tried again, when the executor says; where
    /// it says nothing, after a second.
    pub proof fn what_is_tried_again(kind: ErrorKind, retry_after_ms: Option<u64>)
        ensures
            Self::delay_after(kind, retry_after_ms) is None <==> kind == ErrorKind::BadRequest,
            kind != ErrorKind::BadRequest && retry_after_ms is Some ==> Self::delay_after(
                kind,
                retry_after_ms,
            ) == retry_after_ms,
            kind != ErrorKind::BadRequest && retry_after_ms is None ==> Self::delay_after(
                kind,
                retry_after_ms,
            ) == Some(1000u64),
    {
    }

    /// When to try again after a failure that the executor reported, in
    /// milliseconds, honouring its hint.
    pub fn retry_delay(kind: ErrorKind, retry_after_ms: Option<u64>) -> (r: Option<u64>)
        ensures
            r == Self::delay_after(kind, retry_after_ms),
            r == (if kind == ErrorKind::BadRequest {
                None
            } else {
                match retry_after_ms {
                    Some(hint) => Some(hint),
                    None => Some(1000),
                }
            }),
    {
        if !kind.is_retryable() {
            return None;
        }
        match retry_after_ms {
            Some(hint) => Some(hint),
            None => Some(1000),
        }
    }
}

} // verus!
