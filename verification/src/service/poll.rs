//! How often each transport may be asked for a device's state.
//!
//! Polling is not one cost but four. A LAN query is a UDP packet on your own
//! network; an AWS IoT status request rides a connection we already hold; a
//! Platform API call spends a share of a daily quota Govee does not let us
//! measure — it returns no rate-limit headers at all; and a Bluetooth poll
//! occupies a proxy connection slot for a second or two. A single number would
//! force those four against each other, so each gets its own.
//!
//! All intervals are in whole seconds.
use vstd::prelude::*;

use crate::clock::{span_from_std, MAX_SPAN_SECS};
use crate::platform_api::DeviceType;
use crate::service::device::Device;
use crate::service::transport;
use crate::service::transport::{resolve_within, TransportId};
use crate::text;
use crate::text::{append_decimal, append_str};

verus! {

/// Applies to AWS IoT, the Platform API and Bluetooth.
pub const DEFAULT_INTERVAL: u64 = 900;

/// The LAN default is much shorter on purpose: it costs nothing, and some Govee
/// firmware flickers about a minute after a poll, which regular polling keeps
/// predictable rather than random.
pub const DEFAULT_LAN_INTERVAL: u64 = 30;

/// The poll loop cannot honour an interval shorter than its own tick, so the
/// tick follows the shortest configured interval — down to this floor.
pub const MIN_TICK: u64 = 5;

/// The tick never grows beyond this, so a device that becomes due is noticed
/// promptly even when every interval is long.
pub const MAX_TICK: u64 = 30;

/// How long after a command a device is read back.
pub const DEFAULT_AFTER_CONTROL: u64 = 5;

/// What an interval becomes that is too long to compute with.
pub const FALLBACK_INTERVAL: i64 = 900;

/// How long after the longest interval a device counts as missing.
pub const STALENESS_GRACE: i64 = 30;

/// The poll options of the command line.
#[derive(Clone, Copy, Debug)]
pub struct PollArguments {
    /// How many seconds a device's state may be stale before it is polled
    /// again. Applies to AWS IoT, the Platform API and Bluetooth; the LAN has
    /// its own setting because it costs nothing.
    pub poll_interval: Option<u64>,
    /// Seconds between LAN status queries.
    pub poll_interval_lan: Option<u64>,
    /// Seconds between AWS IoT status requests. This is the channel that
    /// carries per-segment colours, so lowering it refreshes segment entities
    /// sooner.
    pub poll_interval_iot: Option<u64>,
    /// Seconds between Platform API polls. The one to raise if you are worried
    /// about Govee's daily request quota.
    pub poll_interval_platform: Option<u64>,
    /// Seconds between Bluetooth polls of Bluetooth-only devices.
    pub poll_interval_ble: Option<u64>,
    /// Seconds to wait after a command before reading the device back. The
    /// status that a cloud returns is not guaranteed to be coherent with a
    /// command that was issued a moment earlier.
    pub poll_after_control: Option<u64>,
}

impl Default for PollArguments {
    fn default() -> (r: Self)
        ensures
            r.poll_interval is None,
            r.poll_interval_lan is None,
            r.poll_interval_iot is None,
            r.poll_interval_platform is None,
            r.poll_interval_ble is None,
            r.poll_after_control is None,
    {
        PollArguments {
            poll_interval: None,
            poll_interval_lan: None,
            poll_interval_iot: None,
            poll_interval_platform: None,
            poll_interval_ble: None,
            poll_after_control: None,
        }
    }
}

/// The order option of the command line.
#[derive(Clone, Debug)]
pub struct PollOrderArguments {
    /// Where a device's state is read from, and in what order. A priority prefix:
    /// it promotes what is named and never removes the rest.
    pub poll_order: Vec<TransportId>,
}

impl Default for PollOrderArguments {
    fn default() -> (r: Self)
        ensures
            r.poll_order@.len() == 0,
    {
        PollOrderArguments { poll_order: Vec::new() }
    }
}

impl PollOrderArguments {
    /// Whether this is the prefix that a flag or the environment gives.
    pub open spec fn is_order<E>(
        self,
        env: Result<Option<Vec<TransportId>>, E>,
        chosen: Result<Option<Vec<TransportId>>, E>,
    ) -> bool {
        if self.poll_order@.len() > 0 {
            chosen is Ok && chosen->Ok_0 == Some(self.poll_order)
        } else {
            chosen == env
        }
    }

    /// A flag beats the environment, even one that cannot be read. Without a flag the
    /// environment has the say.
    pub proof fn a_flag_gives_the_order<E>(
        self,
        env: Result<Option<Vec<TransportId>>, E>,
        chosen: Result<Option<Vec<TransportId>>, E>,
    )
        requires
            self.is_order(env, chosen),
        ensures
            self.poll_order@.len() > 0 ==> chosen is Ok && chosen->Ok_0 is Some
                && chosen->Ok_0->0@ == self.poll_order@,
            self.poll_order@.len() == 0 ==> (chosen is Err <==> env is Err),
            self.poll_order@.len() == 0 && env is Ok ==> chosen->Ok_0 == env->Ok_0,
            self.poll_order@.len() == 0 && env is Err ==> chosen->Err_0 == env->Err_0,
    {
    }

    /// The prefix, where one was given: by a flag, or else by the environment.
    pub fn order<E>(self, env: Result<Option<Vec<TransportId>>, E>) -> (r: Result<
        Option<Vec<TransportId>>,
        E,
    >)
        ensures
            self.is_order(env, r),
            r == (if self.poll_order@.len() == 0 {
                env
            } else {
                Ok(Some(self.poll_order))
            }),
    {
        if self.poll_order.len() == 0 {
            env
        } else {
            Ok(Some(self.poll_order))
        }
    }
}

/// The sources of a device's state, in the order in which they are read.
pub open spec fn default_poll_order() -> Seq<TransportId> {
    seq![TransportId::Lan, TransportId::Iot, TransportId::Platform, TransportId::Ble]
}

/// Whether a source may tell a device's state. AWS IoT tells nothing while the
/// broker is gone: a publish to it succeeds locally and the reply simply never
/// arrives, so the connection is what decides.
pub open spec fn may_tell(source: TransportId, broker_connected: bool, device: Device) -> bool {
    match source {
        TransportId::Lan => device.lan_device is Some,
        TransportId::Iot => broker_connected && device.iot_pollable(),
        TransportId::Platform => device.http_device_info is Some && !(device.kind() is Other),
        TransportId::Ble => device.kind() is Light,
        TransportId::Nightlight => false,
    }
}

fn can_tell(source: TransportId, broker_connected: bool, device: &Device) -> (r: bool)
    ensures
        r == may_tell(source, broker_connected, *device),
{
    match source {
        TransportId::Lan => device.pollable_via_lan(),
        TransportId::Iot => broker_connected && device.pollable_via_iot(),
        TransportId::Platform => device.http_device_info.is_some() && match device.device_type() {
            DeviceType::Other(_) => false,
            _ => true,
        },
        TransportId::Ble => device.device_type().is_light(),
        TransportId::Nightlight => false,
    }
}

/// Those of the sources that may tell a device's state, in their order.
pub open spec fn telling(order: Seq<TransportId>, broker_connected: bool, device: Device) -> Seq<
    TransportId,
>
    decreases order.len(),
{
    if order.len() == 0 {
        order
    } else {
        let before = telling(order.drop_last(), broker_connected, device);
        if may_tell(order.last(), broker_connected, device) {
            before.push(order.last())
        } else {
            before
        }
    }
}

/// Where a device's state is read from: each source in turn, until one tells it.
/// When the internet goes, both clouds stop answering and Bluetooth keeps
/// reporting whatever is in range of a proxy.
pub fn poll_sources(
    preferred: Option<&[TransportId]>,
    broker_connected: bool,
    device: &Device,
) -> (r: Vec<TransportId>)
    ensures
        r@ == telling(
            transport::order_of(
                default_poll_order(),
                match preferred {
                    Some(order) => Some(order@),
                    None => None,
                },
            ),
            broker_connected,
            *device,
        ),
{
    let default: Vec<TransportId> = vec![
        TransportId::Lan,
        TransportId::Iot,
        TransportId::Platform,
        TransportId::Ble,
    ];
    assert(default@ =~= default_poll_order());
    let order = resolve_within(default, preferred);
    let mut sources: Vec<TransportId> = Vec::new();
    assert(sources@ =~= telling(order@.take(0), broker_connected, *device));
    for i in 0..order.len()
        invariant
            sources@ == telling(order@.take(i as int), broker_connected, *device),
    {
        assert(order@.take(i + 1).drop_last() =~= order@.take(i as int));
        if can_tell(order[i], broker_connected, device) {
            sources.push(order[i]);
        }
    }
    assert(order@.take(order@.len() as int) =~= order@);
    sources
}

proof fn telling_keeps_what_may(
    order: Seq<TransportId>,
    broker_connected: bool,
    device: Device,
    source: TransportId,
)
    ensures
        telling(order, broker_connected, device).contains(source) == (order.contains(source)
            && may_tell(source, broker_connected, device)),
    decreases order.len(),
{
    if order.len() > 0 {
        let head = order.drop_last();
        telling_keeps_what_may(head, broker_connected, device, source);
        let before = telling(head, broker_connected, device);
        let after = telling(order, broker_connected, device);
        assert(order =~= head.push(order.last()));
        if order.contains(source) {
            let i = choose|i: int| 0 <= i < order.len() && order[i] == source;
            if i < head.len() {
                assert(head[i] == source);
            }
        }
        if head.contains(source) {
            let i = choose|i: int| 0 <= i < head.len() && head[i] == source;
            assert(order[i] == source);
        }
        if before.contains(source) {
            let i = choose|i: int| 0 <= i < before.len() && before[i] == source;
            assert(after[i] == source);
        }
        if after.contains(source) {
            let i = choose|i: int| 0 <= i < after.len() && after[i] == source;
            if i < before.len() {
                assert(before[i] == source);
            }
        }
        if may_tell(order.last(), broker_connected, device) {
            assert(after[before.len() as int] == order.last());
        }
        assert(order[order.len() - 1] == order.last());
    }
}

/// Sources are read in the order that was resolved: of two that are read, the first
/// comes first there.
pub proof fn sources_keep_their_order(
    order: Seq<TransportId>,
    broker_connected: bool,
    device: Device,
    i: int,
    j: int,
) -> (places: (int, int))
    requires
        0 <= i < j < telling(order, broker_connected, device).len(),
    ensures
        0 <= places.0 < places.1 < order.len(),
        order[places.0] == telling(order, broker_connected, device)[i],
        order[places.1] == telling(order, broker_connected, device)[j],
    decreases order.len(),
{
    let head = order.drop_last();
    let before = telling(head, broker_connected, device);
    if j < before.len() {
        sources_keep_their_order(head, broker_connected, device, i, j)
    } else {
        telling_keeps_what_may(head, broker_connected, device, before[i]);
        assert(before.contains(before[i]));
        let first = choose|k: int| 0 <= k < head.len() && head[k] == before[i];
        (first, order.len() - 1)
    }
}

/// A prefix promotes what it names and never removes the rest: every source that
/// may tell a device's state is read in its turn, and no other.
pub proof fn no_source_is_removed(
    preferred: Option<Seq<TransportId>>,
    broker_connected: bool,
    device: Device,
    source: TransportId,
)
    ensures
        telling(
            transport::order_of(default_poll_order(), preferred),
            broker_connected,
            device,
        ).contains(source) == may_tell(source, broker_connected, device),
{
    let order = transport::order_of(default_poll_order(), preferred);
    telling_keeps_what_may(order, broker_connected, device, source);
    if let Some(prefix) = preferred {
        transport::an_override_only_reorders(default_poll_order(), prefix, source);
    }
    let default = default_poll_order();
    assert(default[0] == TransportId::Lan && default[1] == TransportId::Iot && default[2]
        == TransportId::Platform && default[3] == TransportId::Ble);
}

/// Without a prefix the local network comes first, then the clouds, then
/// Bluetooth, each where it may tell anything.
pub proof fn the_usual_sources(broker_connected: bool, device: Device)
    ensures
        ({
            let one = |source: TransportId|
                if may_tell(source, broker_connected, device) {
                    seq![source]
                } else {
                    Seq::<TransportId>::empty()
                };
            telling(default_poll_order(), broker_connected, device) == one(TransportId::Lan) + one(
                TransportId::Iot,
            ) + one(TransportId::Platform) + one(TransportId::Ble)
        }),
{
    let order = default_poll_order();
    assert(order.drop_last() =~= seq![TransportId::Lan, TransportId::Iot, TransportId::Platform]);
    assert(order.drop_last().drop_last() =~= seq![TransportId::Lan, TransportId::Iot]);
    assert(order.drop_last().drop_last().drop_last() =~= seq![TransportId::Lan]);
    assert(order.drop_last().drop_last().drop_last().drop_last() =~= Seq::<TransportId>::empty());
    reveal_with_fuel(telling, 5);
}

/// What the environment says of the intervals.
pub struct PollEnvironment<E> {
    pub general: Result<Option<u64>, E>,
    pub lan: Result<Option<u64>, E>,
    pub iot: Result<Option<u64>, E>,
    pub platform: Result<Option<u64>, E>,
    pub ble: Result<Option<u64>, E>,
}

/// Why an interval was refused.
#[derive(Clone, Copy, Debug, PartialEq, Eq)]
pub enum PollError<E> {
    /// The interval of this name must be at least a second.
    Zero(&'static str),
    /// The environment could not be read.
    Environment(E),
}

/// The flag if it was given, else what the environment says. Zero would mean
/// "poll continuously", which is never what someone means by it, and is refused.
pub open spec fn resolved<E>(
    flag: Option<u64>,
    env: Result<Option<u64>, E>,
    var: &'static str,
) -> Result<Option<u64>, PollError<E>> {
    match (flag, env) {
        (Some(0), _) => Err(PollError::Zero(var)),
        (Some(seconds), _) => Ok(Some(seconds)),
        (None, Ok(Some(0))) => Err(PollError::Zero(var)),
        (None, Ok(seconds)) => Ok(seconds),
        (None, Err(err)) => Err(PollError::Environment(err)),
    }
}

pub fn resolve<E>(flag: Option<u64>, env: Result<Option<u64>, E>, var: &'static str) -> (r: Result<
    Option<u64>,
    PollError<E>,
>)
    ensures
        r == resolved(flag, env, var),
{
    let seconds = match flag {
        Some(value) => Some(value),
        None => match env {
            Ok(value) => value,
            Err(err) => {
                return Err(PollError::Environment(err));
            },
        },
    };
    match seconds {
        // Zero would mean "poll continuously", which is never what someone
        // means by it, and for the Platform API it would empty the quota in
        // minutes. Refuse rather than interpret.
        Some(0) => Err(PollError::Zero(var)),
        Some(value) => Ok(Some(value)),
        None => Ok(None),
    }
}

/// An interval, or the default where none was given.
pub open spec fn or_default<E>(
    interval: Result<Option<u64>, PollError<E>>,
    default: u64,
) -> Result<u64, PollError<E>> {
    match interval {
        Ok(Some(seconds)) => Ok(seconds),
        Ok(None) => Ok(default),
        Err(err) => Err(err),
    }
}

fn with_default<E>(interval: Result<Option<u64>, PollError<E>>, default: u64) -> (r: Result<
    u64,
    PollError<E>,
>)
    ensures
        r == or_default(interval, default),
{
    match interval {
        Ok(Some(seconds)) => Ok(seconds),
        Ok(None) => Ok(default),
        Err(err) => Err(err),
    }
}

impl PollArguments {
    /// The intervals, or the first error: the general one, the LAN's, that of
    /// AWS IoT, that of the Platform API, that of Bluetooth.
    pub open spec fn configured_intervals<E>(&self, env: PollEnvironment<E>) -> Result<
        PollIntervals,
        PollError<E>,
    > {
        match or_default(
            resolved(self.poll_interval, env.general, "GOVEE_POLL_INTERVAL"),
            DEFAULT_INTERVAL,
        ) {
            Err(err) => Err(err),
            Ok(general) => match (
                or_default(
                    resolved(self.poll_interval_lan, env.lan, "GOVEE_POLL_INTERVAL_LAN"),
                    DEFAULT_LAN_INTERVAL,
                ),
                or_default(
                    resolved(self.poll_interval_iot, env.iot, "GOVEE_POLL_INTERVAL_IOT"),
                    general,
                ),
                or_default(
                    resolved(
                        self.poll_interval_platform,
                        env.platform,
                        "GOVEE_POLL_INTERVAL_PLATFORM",
                    ),
                    general,
                ),
                or_default(
                    resolved(self.poll_interval_ble, env.ble, "GOVEE_POLL_INTERVAL_BLE"),
                    general,
                ),
            ) {
                (Err(err), _, _, _) => Err(err),
                (_, Err(err), _, _) => Err(err),
                (_, _, Err(err), _) => Err(err),
                (_, _, _, Err(err)) => Err(err),
                (Ok(lan), Ok(iot), Ok(platform), Ok(ble)) => Ok(
                    PollIntervals { lan, iot, platform, ble },
                ),
            },
        }
    }

    pub fn intervals<E>(&self, env: PollEnvironment<E>) -> (r: Result<PollIntervals, PollError<E>>)
        ensures
            r == self.configured_intervals(env),
    {
        let general = match with_default(
            resolve(self.poll_interval, env.general, "GOVEE_POLL_INTERVAL"),
            DEFAULT_INTERVAL,
        ) {
            Ok(seconds) => seconds,
            Err(err) => {
                return Err(err);
            },
        };
        let lan = match with_default(
            resolve(self.poll_interval_lan, env.lan, "GOVEE_POLL_INTERVAL_LAN"),
            DEFAULT_LAN_INTERVAL,
        ) {
            Ok(seconds) => seconds,
            Err(err) => {
                return Err(err);
            },
        };
        let iot = match with_default(
            resolve(self.poll_interval_iot, env.iot, "GOVEE_POLL_INTERVAL_IOT"),
            general,
        ) {
            Ok(seconds) => seconds,
            Err(err) => {
                return Err(err);
            },
        };
        let platform = match with_default(
            resolve(self.poll_interval_platform, env.platform, "GOVEE_POLL_INTERVAL_PLATFORM"),
            general,
        ) {
            Ok(seconds) => seconds,
            Err(err) => {
                return Err(err);
            },
        };
        match with_default(
            resolve(self.poll_interval_ble, env.ble, "GOVEE_POLL_INTERVAL_BLE"),
            general,
        ) {
            Ok(ble) => Ok(PollIntervals { lan, iot, platform, ble }),
            Err(err) => Err(err),
        }
    }

    /// How long after a command a device is read back.
    pub open spec fn read_back_delay<E>(&self, env: Result<Option<u64>, E>) -> Result<u64, E> {
        if self.poll_after_control is Some {
            Ok(self.poll_after_control->0)
        } else {
            match env {
                Ok(seconds) => Ok(
                    if seconds is Some {
                        seconds->0
                    } else {
                        DEFAULT_AFTER_CONTROL
                    },
                ),
                Err(err) => Err(err),
            }
        }
    }

    /// A flag beats the environment, and where neither says anything a device is given
    /// five seconds. Zero is allowed here.
    pub proof fn how_long_a_read_back_waits<E>(&self, env: Result<Option<u64>, E>)
        ensures
            self.poll_after_control matches Some(seconds) ==> self.read_back_delay(env) == Ok::<
                u64,
                E,
            >(seconds),
            self.poll_after_control is None && env is Err ==> self.read_back_delay(env) is Err
                && self.read_back_delay(env)->Err_0 == env->Err_0,
            self.poll_after_control is None && env is Ok && env->Ok_0 is Some
                ==> self.read_back_delay(env) == Ok::<u64, E>(env->Ok_0->0),
            self.poll_after_control is None && env is Ok && env->Ok_0 is None
                ==> self.read_back_delay(env) == Ok::<u64, E>(5),
    {
    }

    /// How long after a command a device is read back, in seconds.
    pub fn after_control<E>(&self, env: Result<Option<u64>, E>) -> (r: Result<u64, E>)
        ensures
            r == self.read_back_delay(env),
            r == (match (self.poll_after_control, env) {
                (Some(seconds), _) => Ok(seconds),
                (None, Ok(Some(seconds))) => Ok(seconds),
                (None, Ok(None)) => Ok(DEFAULT_AFTER_CONTROL),
                (None, Err(err)) => Err(err),
            }),
    {
        match self.poll_after_control {
            Some(seconds) => Ok(seconds),
            None => match env {
                Ok(Some(seconds)) => Ok(seconds),
                Ok(None) => Ok(DEFAULT_AFTER_CONTROL),
                Err(err) => Err(err),
            },
        }
    }

    /// No configuration polls continuously.
    pub proof fn no_interval_is_zero<E>(&self, env: PollEnvironment<E>)
        ensures
            self.configured_intervals(env) matches Ok(intervals) ==> {
                &&& intervals.lan > 0
                &&& intervals.iot > 0
                &&& intervals.platform > 0
                &&& intervals.ble > 0
            },
    {
    }
}

#[derive(Clone, Copy, Debug, PartialEq, Eq, Structural)]
pub struct PollIntervals {
    pub lan: u64,
    pub iot: u64,
    pub platform: u64,
    pub ble: u64,
}

impl Default for PollIntervals {
    fn default() -> (r: Self)
        ensures
            r == PollIntervals::standard(),
    {
        PollIntervals {
            lan: DEFAULT_LAN_INTERVAL,
            iot: DEFAULT_INTERVAL,
            platform: DEFAULT_INTERVAL,
            ble: DEFAULT_INTERVAL,
        }
    }
}

pub open spec fn larger(a: u64, b: u64) -> u64 {
    if a > b {
        a
    } else {
        b
    }
}

pub open spec fn smaller(a: u64, b: u64) -> u64 {
    if a < b {
        a
    } else {
        b
    }
}

/// A span as far as it can be computed with, in seconds.
pub open spec fn usable_span(secs: u64) -> i64 {
    if secs <= MAX_SPAN_SECS {
        secs as i64
    } else {
        FALLBACK_INTERVAL
    }
}

/// A span as far as it can be computed with, in seconds.
pub fn as_chrono(secs: u64) -> (r: i64)
    ensures
        r == usable_span(secs),
        0 <= r <= MAX_SPAN_SECS,
{
    match span_from_std(secs) {
        Some(span) => span,
        None => FALLBACK_INTERVAL,
    }
}

impl PollIntervals {
    pub open spec fn standard() -> PollIntervals {
        PollIntervals { lan: 30, iot: 900, platform: 900, ble: 900 }
    }

    pub open spec fn longest(&self) -> u64 {
        larger(larger(self.lan, self.iot), larger(self.platform, self.ble))
    }

    pub open spec fn shortest(&self) -> u64 {
        smaller(smaller(self.lan, self.iot), smaller(self.platform, self.ble))
    }

    /// The intervals once others were published.
    pub open spec fn installed(self, before: Option<PollIntervals>) -> Option<PollIntervals> {
        if before is Some {
            before
        } else {
            Some(self)
        }
    }

    /// The intervals that apply.
    pub open spec fn in_force(published: Option<PollIntervals>) -> PollIntervals {
        if published is Some {
            published->0
        } else {
            PollIntervals::standard()
        }
    }

    /// The intervals that are published first apply from then on, whatever is
    /// published later. Before that the defaults do.
    pub proof fn the_first_intervals_stay(self, later: PollIntervals)
        ensures
            PollIntervals::in_force(self.installed(None)) == self,
            PollIntervals::in_force(later.installed(self.installed(None))) == self,
            PollIntervals::in_force(None).lan == 30,
            PollIntervals::in_force(None).iot == 900,
            PollIntervals::in_force(None).platform == 900,
            PollIntervals::in_force(None).ble == 900,
    {
    }

    /// When a device counts as missing, in seconds after its last report.
    pub open spec fn missing_after(&self) -> int {
        usable_span(self.longest()) + STALENESS_GRACE
    }

    /// A device counts as missing half a minute after the longest interval, so one that
    /// is polled on time never does. A longer interval is never less patient, unless it
    /// is too long to compute with.
    pub proof fn when_a_device_is_missing(&self, longer: PollIntervals)
        requires
            self.lan <= longer.lan <= MAX_SPAN_SECS,
            self.iot <= longer.iot <= MAX_SPAN_SECS,
            self.platform <= longer.platform <= MAX_SPAN_SECS,
            self.ble <= longer.ble <= MAX_SPAN_SECS,
        ensures
            self.missing_after() >= self.lan + 30,
            self.missing_after() >= self.iot + 30,
            self.missing_after() >= self.platform + 30,
            self.missing_after() >= self.ble + 30,
            self.missing_after() == self.lan + 30 || self.missing_after() == self.iot + 30
                || self.missing_after() == self.platform + 30 || self.missing_after() == self.ble
                + 30,
            longer.missing_after() >= self.missing_after(),
    {
    }

    /// Publish these as the process-wide intervals. Those that came first stay.
    pub fn install(self, configured: &mut Option<PollIntervals>)
        ensures
            *final(configured) == self.installed(*old(configured)),
            *final(configured) == (match *old(configured) {
                Some(first) => Some(first),
                None => Some(self),
            }),
    {
        if configured.is_none() {
            *configured = Some(self);
        }
    }

    /// What was installed at startup, or the defaults before that has happened.
    pub fn configured(configured: &Option<PollIntervals>) -> (r: Self)
        ensures
            r == PollIntervals::in_force(*configured),
            r == (match *configured {
                Some(intervals) => intervals,
                None => PollIntervals::standard(),
            }),
    {
        match configured {
            Some(intervals) => *intervals,
            None => PollIntervals::default(),
        }
    }

    /// How old a device's state may be, in seconds, before we call it missing
    /// rather than merely unpolled.
    ///
    /// Keyed to the *longest* interval, because a device polled on that one is
    /// legitimately quiet for that long, plus a grace period for the poll
    /// itself to run. Keying it to anything shorter would mark healthy devices
    /// missing the moment someone raised an interval to save quota.
    pub fn staleness_threshold(&self) -> (r: i64)
        requires
            usable_span(self.longest()) + STALENESS_GRACE <= MAX_SPAN_SECS,
        ensures
            r == self.missing_after(),
            r == usable_span(self.longest()) + STALENESS_GRACE,
    {
        let mut longest: u64 = self.lan;
        if self.iot > longest {
            longest = self.iot;
        }
        if self.platform > longest {
            longest = self.platform;
        }
        if self.ble > longest {
            longest = self.ble;
        }
        as_chrono(longest) + STALENESS_GRACE
    }

    /// Raising an interval makes no device missing that is polled on time: the
    /// threshold is later than every interval.
    pub proof fn a_poll_on_time_is_not_missing(&self)
        requires
            self.longest() <= MAX_SPAN_SECS,
        ensures
            usable_span(self.longest()) + STALENESS_GRACE > self.lan,
            usable_span(self.longest()) + STALENESS_GRACE > self.iot,
            usable_span(self.longest()) + STALENESS_GRACE > self.platform,
            usable_span(self.longest()) + STALENESS_GRACE > self.ble,
    {
    }

    pub open spec fn pause(&self) -> u64 {
        if self.shortest() < MIN_TICK {
            MIN_TICK
        } else if self.shortest() > MAX_TICK {
            MAX_TICK
        } else {
            self.shortest()
        }
    }

    /// How long the poll loop should sleep between passes, in seconds.
    ///
    /// Nothing can be polled more often than the loop runs, so a short interval
    /// would silently round up to the tick without this.
    pub fn tick(&self) -> (r: u64)
        ensures
            r == self.pause(),
    {
        let mut shortest: u64 = self.lan;
        if self.iot < shortest {
            shortest = self.iot;
        }
        if self.platform < shortest {
            shortest = self.platform;
        }
        if self.ble < shortest {
            shortest = self.ble;
        }
        if shortest < MIN_TICK {
            MIN_TICK
        } else if shortest > MAX_TICK {
            MAX_TICK
        } else {
            shortest
        }
    }

    /// The loop is neither a busy wait nor too slow for any interval that it can
    /// honour.
    pub proof fn the_tick_honours_the_intervals(&self)
        ensures
            MIN_TICK <= self.pause() <= MAX_TICK,
            self.shortest() >= MIN_TICK ==> self.pause() <= self.lan && self.pause() <= self.iot
                && self.pause() <= self.platform && self.pause() <= self.ble,
    {
    }

    pub open spec fn description(&self) -> Seq<char> {
        "lan="@ + text::decimal(self.lan as nat) + "s iot="@ + text::decimal(self.iot as nat)
            + "s platform="@ + text::decimal(self.platform as nat) + "s ble="@ + text::decimal(
            self.ble as nat,
        ) + "s (loop tick "@ + text::decimal(self.pause() as nat) + "s)"@
    }

    pub fn describe(&self) -> (r: String)
        ensures
            r@ == self.description(),
    {
        let mut out = "lan=".to_owned();
        append_decimal(&mut out, self.lan);
        append_str(&mut out, "s iot=");
        append_decimal(&mut out, self.iot);
        append_str(&mut out, "s platform=");
        append_decimal(&mut out, self.platform);
        append_str(&mut out, "s ble=");
        append_decimal(&mut out, self.ble);
        append_str(&mut out, "s (loop tick ");
        append_decimal(&mut out, self.tick());
        append_str(&mut out, "s)");
        out
    }
}

/// A flag beats the environment for each interval of its own, and zero is refused
/// wherever it stands. Without either, the LAN has its own default, and the other
/// three follow the general interval, which has one too.
pub proof fn how_an_interval_is_configured<E>(args: PollArguments, env: PollEnvironment<E>)
    ensures
        args.configured_intervals(env) matches Ok(intervals) ==> {
            &&& args.poll_interval_lan matches Some(secs) ==> intervals.lan == secs
            &&& args.poll_interval_lan is None ==> (env.lan matches Ok(Some(secs)) ==> intervals.lan
                == secs)
            &&& args.poll_interval_lan is None && env.lan == Ok::<Option<u64>, E>(None)
                ==> intervals.lan == 30
            &&& args.poll_interval_iot matches Some(secs) ==> intervals.iot == secs
            &&& args.poll_interval_iot is None ==> (env.iot matches Ok(Some(secs)) ==> intervals.iot
                == secs)
            &&& args.poll_interval_platform matches Some(secs) ==> intervals.platform == secs
            &&& args.poll_interval_platform is None ==> (env.platform matches Ok(Some(secs))
                ==> intervals.platform == secs)
            &&& args.poll_interval_ble matches Some(secs) ==> intervals.ble == secs
            &&& args.poll_interval_ble is None ==> (env.ble matches Ok(Some(secs)) ==> intervals.ble
                == secs)
            &&& {
                let general = match (args.poll_interval, env.general) {
                    (Some(secs), _) => secs,
                    (None, Ok(Some(secs))) => secs,
                    _ => 900,
                };
                &&& args.poll_interval_iot is None && env.iot == Ok::<Option<u64>, E>(None)
                    ==> intervals.iot == general
                &&& args.poll_interval_platform is None && env.platform == Ok::<Option<u64>, E>(
                    None,
                ) ==> intervals.platform == general
                &&& args.poll_interval_ble is None && env.ble == Ok::<Option<u64>, E>(None)
                    ==> intervals.ble == general
            }
        },
        args.poll_interval == Some(0u64) || args.poll_interval_lan == Some(0u64)
            || args.poll_interval_iot == Some(0u64) || args.poll_interval_platform == Some(0u64)
            || args.poll_interval_ble == Some(0u64) ==> args.configured_intervals(env) is Err,
        args.poll_interval != Some(0u64)
            && args.poll_interval_lan != Some(0u64) && args.poll_interval_iot != Some(0u64)
            && args.poll_interval_platform != Some(0u64) && args.poll_interval_ble != Some(0u64) && (
        args.poll_interval is Some || (env.general is Ok && env.general->Ok_0 != Some(0u64))) && (
        args.poll_interval_lan is Some || (env.lan is Ok && env.lan->Ok_0 != Some(0u64))) && (
        args.poll_interval_iot is Some || (env.iot is Ok && env.iot->Ok_0 != Some(0u64))) && (
        args.poll_interval_platform is Some || (env.platform is Ok && env.platform->Ok_0 != Some(
            0u64,
        ))) && (args.poll_interval_ble is Some || (env.ble is Ok && env.ble->Ok_0 != Some(0u64)))
            ==> args.configured_intervals(env) is Ok,
{
}

/// An interval of zero is refused under the name of its own variable, whether a flag or
/// the environment gave it, and the first that is wrong is named. What the environment
/// cannot tell is passed on where no flag was given.
pub proof fn which_interval_is_refused<E>(args: PollArguments, env: PollEnvironment<E>)
    ensures
        args.poll_interval == Some(0u64) || (args.poll_interval is None && env.general == Ok::<
            Option<u64>,
            E,
        >(Some(0))) ==> args.configured_intervals(env) == Err::<PollIntervals, PollError<E>>(
            PollError::Zero("GOVEE_POLL_INTERVAL"),
        ),
        args.poll_interval is None && env.general is Err ==> args.configured_intervals(env)
            == Err::<PollIntervals, PollError<E>>(PollError::Environment(env.general->Err_0)),
        ({
            let general_is_fine = match args.poll_interval {
                Some(secs) => secs > 0,
                None => env.general is Ok && env.general->Ok_0 != Some(0u64),
            };
            &&& general_is_fine && (args.poll_interval_lan == Some(0u64) || (
            args.poll_interval_lan is None && env.lan == Ok::<Option<u64>, E>(Some(0))))
                ==> args.configured_intervals(env) == Err::<PollIntervals, PollError<E>>(
                PollError::Zero("GOVEE_POLL_INTERVAL_LAN"),
            )
            &&& general_is_fine && args.poll_interval_lan is None && env.lan is Err
                ==> args.configured_intervals(env) == Err::<PollIntervals, PollError<E>>(
                PollError::Environment(env.lan->Err_0),
            )
            &&& general_is_fine && (args.poll_interval_lan matches Some(secs) && secs > 0) && (
            args.poll_interval_iot == Some(0u64) || (args.poll_interval_iot is None && env.iot
                == Ok::<Option<u64>, E>(Some(0)))) ==> args.configured_intervals(env) == Err::<
                PollIntervals,
                PollError<E>,
            >(PollError::Zero("GOVEE_POLL_INTERVAL_IOT"))
            &&& general_is_fine && (args.poll_interval_lan matches Some(secs) && secs > 0) && (
            args.poll_interval_iot matches Some(secs) && secs > 0) && (args.poll_interval_platform
                == Some(0u64) || (args.poll_interval_platform is None && env.platform == Ok::<
                Option<u64>,
                E,
            >(Some(0)))) ==> args.configured_intervals(env) == Err::<
                PollIntervals,
                PollError<E>,
            >(PollError::Zero("GOVEE_POLL_INTERVAL_PLATFORM"))
            &&& general_is_fine && (args.poll_interval_lan matches Some(secs) && secs > 0) && (
            args.poll_interval_iot matches Some(secs) && secs > 0) && (
            args.poll_interval_platform matches Some(secs) && secs > 0) && (args.poll_interval_ble
                == Some(0u64) || (args.poll_interval_ble is None && env.ble == Ok::<
                Option<u64>,
                E,
            >(Some(0)))) ==> args.configured_intervals(env) == Err::<
                PollIntervals,
                PollError<E>,
            >(PollError::Zero("GOVEE_POLL_INTERVAL_BLE"))
        }),
{
}

/// The longest of the intervals is one of them and none is longer, and so with the
/// shortest. An interval that is too long to compute with counts as fifteen minutes,
/// and any other as what it is.
pub proof fn the_longest_and_the_shortest(intervals: PollIntervals, secs: u64)
    ensures
        intervals.longest() >= intervals.lan && intervals.longest() >= intervals.iot
            && intervals.longest() >= intervals.platform && intervals.longest() >= intervals.ble,
        intervals.longest() == intervals.lan || intervals.longest() == intervals.iot
            || intervals.longest() == intervals.platform || intervals.longest() == intervals.ble,
        intervals.shortest() <= intervals.lan && intervals.shortest() <= intervals.iot
            && intervals.shortest() <= intervals.platform && intervals.shortest() <= intervals.ble,
        intervals.shortest() == intervals.lan || intervals.shortest() == intervals.iot
            || intervals.shortest() == intervals.platform || intervals.shortest() == intervals.ble,
        5 <= intervals.shortest() <= 30 ==> intervals.pause() == intervals.shortest(),
        intervals.shortest() < 5 ==> intervals.pause() == 5,
        intervals.shortest() > 30 ==> intervals.pause() == 30,
        secs <= MAX_SPAN_SECS ==> usable_span(secs) == secs,
        secs > MAX_SPAN_SECS ==> usable_span(secs) == 900,
{
}

/// A device that answers on the LAN may tell its state there, and a light over
/// Bluetooth; AWS IoT may while its broker is connected, where it can tell all there
/// is to know; and the Platform API may of a device that the account lists and whose
/// type is documented. A nightlight tells nothing of its device.
pub proof fn who_may_tell(broker_connected: bool, device: Device)
    ensures
        may_tell(TransportId::Lan, broker_connected, device) <==> device.lan_device is Some,
        may_tell(TransportId::Iot, broker_connected, device) <==> broker_connected
            && device.iot_pollable(),
        may_tell(TransportId::Platform, broker_connected, device) <==> (
        device.http_device_info matches Some(info) && !(info.device_type is Other)),
        may_tell(TransportId::Ble, broker_connected, device) <==> device.kind() is Light,
        !may_tell(TransportId::Nightlight, broker_connected, device),
{
}

} // verus!
