//! Client for the `govee_ble_executor` Home Assistant integration.
//!
//! The add-on has no Bluetooth stack of its own, and it cannot talk to the
//! ESPHome proxies directly either: a proxy accepts exactly one advertisement
//! subscriber, so we would spend our time stealing the subscription from Home
//! Assistant. Instead a companion integration executes GATT operations inside
//! Home Assistant and we exchange jobs with it over the MQTT connection we
//! already hold.
use vstd::prelude::*;

use crate::text;
use crate::text::{append_str, str_eq, trim_end_slashes};
use crate::text_map::TextMap;

verus! {

pub const DEFAULT_TOPIC_PREFIX: &'static str = "gv2mqtt/ble";

/// The Bluetooth options of the command line. An option that is not given is
/// taken from the environment, which is looked at only then.
#[derive(Debug)]
pub struct BleArguments {
    /// MQTT topic prefix shared with the govee_ble_executor Home Assistant
    /// integration. Must match the value configured there.
    pub ble_topic_prefix: Option<String>,
    /// Disable the BLE transport entirely, even if the executor is online.
    pub no_ble: bool,
    /// How many Bluetooth sessions may run at once, across all devices.
    pub ble_max_concurrent: Option<usize>,
    /// Correct the Bluetooth address for specific devices, as a comma separated
    /// list of `device-id=AA:BB:CC:DD:EE:FF` pairs.
    pub ble_address_map: Option<String>,
    /// Keep individual devices off Bluetooth while leaving it enabled for
    /// everything else. Comma separated; each entry matches a device id, SKU or
    /// name.
    pub ble_exclude: Option<String>,
}

impl Default for BleArguments {
    fn default() -> (r: Self)
        ensures
            r.ble_topic_prefix is None,
            !r.no_ble,
            r.ble_max_concurrent is None,
            r.ble_address_map is None,
            r.ble_exclude is None,
    {
        BleArguments {
            ble_topic_prefix: None,
            no_ble: false,
            ble_max_concurrent: None,
            ble_address_map: None,
            ble_exclude: None,
        }
    }
}

/// The flag if it was given, else what the environment says.
pub open spec fn flag_or_env<T, E>(flag: Option<T>, env: Result<Option<T>, E>) -> Result<
    Option<T>,
    E,
> {
    if flag is Some {
        Ok(flag)
    } else {
        env
    }
}

impl BleArguments {
    pub fn topic_prefix<E>(&self, env: Result<Option<String>, E>) -> (r: Result<String, E>)
        ensures
            match (flag_or_env(self.ble_topic_prefix, env), r) {
                (Ok(Some(prefix)), Ok(p)) => p@ == prefix@,
                (Ok(None), Ok(p)) => p@ == DEFAULT_TOPIC_PREFIX@,
                (Err(err), Err(e)) => e == err,
                _ => false,
            },
    {
        match &self.ble_topic_prefix {
            Some(prefix) => Ok(prefix.clone()),
            None => match env {
                Ok(Some(prefix)) => Ok(prefix),
                Ok(None) => Ok(DEFAULT_TOPIC_PREFIX.to_owned()),
                Err(err) => Err(err),
            },
        }
    }

    pub fn max_concurrent<E>(&self, env: Result<Option<usize>, E>) -> (r: Result<Option<usize>, E>)
        ensures
            r == flag_or_env(self.ble_max_concurrent, env),
    {
        match self.ble_max_concurrent {
            Some(value) => Ok(Some(value)),
            None => env,
        }
    }

    pub fn address_map<E>(&self, env: Result<Option<String>, E>) -> (r: Result<Option<String>, E>)
        ensures
            r == flag_or_env(self.ble_address_map, env),
    {
        match &self.ble_address_map {
            Some(spec) => Ok(Some(spec.clone())),
            None => env,
        }
    }

    /// Raw exclusion spec, from the flag or the environment.
    pub fn exclude_spec<E>(&self, env: Result<Option<String>, E>) -> (r: Result<Option<String>, E>)
        ensures
            r == flag_or_env(self.ble_exclude, env),
    {
        match &self.ble_exclude {
            Some(spec) => Ok(Some(spec.clone())),
            None => env,
        }
    }

    pub fn is_disabled<E>(&self, env: Result<Option<bool>, E>) -> (r: Result<bool, E>)
        ensures
            r == is_switched_off(self.no_ble, env),
            r == (if self.no_ble {
                Ok(true)
            } else {
                match env {
                    Ok(Some(disabled)) => Ok(disabled),
                    Ok(None) => Ok(false),
                    Err(err) => Err(err),
                }
            }),
    {
        if self.no_ble {
            return Ok(true);
        }
        match env {
            Ok(Some(disabled)) => Ok(disabled),
            Ok(None) => Ok(false),
            Err(err) => Err(err),
        }
    }
}

// ---------------------------------------------------------------- wire format

#[derive(Debug)]
pub struct JobRequest {
    pub id: String,
    pub address: String,
    pub priority: &'static str,
    pub keep_open_ms: u64,
    pub deadline_ms: u64,
    pub ops: Vec<JobOp>,
}

/// One step of a session.
#[derive(Debug)]
pub enum JobOp {
    Write(WriteSpec),
    /// A pause, in milliseconds.
    Delay(u64),
    Query(QuerySpec),
}

#[derive(Debug)]
pub struct WriteSpec {
    pub char: &'static str,
    /// The frame, as base64 text.
    pub data: String,
    pub response: bool,
}

#[derive(Debug)]
pub struct QuerySpec {
    pub write_char: &'static str,
    pub notify_char: &'static str,
    /// The frame, as base64 text.
    pub data: String,
    pub timeout_ms: u64,
    /// Whether silence is an acceptable answer.
    ///
    /// A speculative question — "do you have segments?" — is answered by a
    /// device that does and ignored by one that does not. Without this the
    /// silence failed the whole job and the circuit breaker took a working
    /// Bluetooth-only light out of service on every poll.
    pub optional: bool,
    /// Whether silence means that the rest of the job is pointless: the first
    /// page that goes unanswered says that there are no more.
    pub stop_if_unanswered: bool,
    /// The bytes, as base64 text, that a notification must start with to count
    /// as this query's answer. A device also talks unprompted, and a write earns
    /// a receipt that would otherwise be taken for the answer.
    pub expect_prefix: Option<String>,
}

#[derive(Debug, Clone)]
pub struct JobResponse {
    pub id: String,
    pub ok: bool,
    pub results: Vec<JobResult>,
    pub duration_ms: u64,
    pub error: Option<JobError>,
}

#[derive(Debug, Clone)]
pub struct JobResult {
    pub kind: String,
    /// What a notification carried, as base64 text.
    pub data: Option<String>,
}

#[derive(Debug, Clone)]
pub struct JobError {
    pub kind: ErrorKind,
    pub message: String,
    pub retry_after_ms: Option<u64>,
}

/// Why a job failed. The scheduler branches on this, so an unrecognised value
/// must not be fatal.
#[derive(Debug, Clone, Copy, PartialEq, Eq, Structural)]
pub enum ErrorKind {
    BadRequest,
    NotFound,
    OutOfSlots,
    ConnectFailed,
    GattError,
    Timeout,
    Internal,
    Unknown,
}

impl ErrorKind {
    /// The kind that a name on the wire stands for; a name that is not known
    /// stands for `Unknown`.
    pub open spec fn named(name: Seq<char>) -> ErrorKind {
        if name == "bad_request"@ {
            ErrorKind::BadRequest
        } else if name == "not_found"@ {
            ErrorKind::NotFound
        } else if name == "out_of_slots"@ {
            ErrorKind::OutOfSlots
        } else if name == "connect_failed"@ {
            ErrorKind::ConnectFailed
        } else if name == "gatt_error"@ {
            ErrorKind::GattError
        } else if name == "timeout"@ {
            ErrorKind::Timeout
        } else if name == "internal"@ {
            ErrorKind::Internal
        } else {
            ErrorKind::Unknown
        }
    }

    /// Every kind has a name on the wire that stands for it and for no other, and no
    /// other text stands for it.
    pub proof fn a_kind_has_one_name(name: Seq<char>)
        ensures
            ErrorKind::named(name) is BadRequest <==> name == "bad_request"@,
            ErrorKind::named(name) is NotFound <==> name == "not_found"@,
            ErrorKind::named(name) is OutOfSlots <==> name == "out_of_slots"@,
            ErrorKind::named(name) is ConnectFailed <==> name == "connect_failed"@,
            ErrorKind::named(name) is GattError <==> name == "gatt_error"@,
            ErrorKind::named(name) is Timeout <==> name == "timeout"@,
            ErrorKind::named(name) is Internal <==> name == "internal"@,
    {
        reveal_strlit("bad_request");
        reveal_strlit("not_found");
        reveal_strlit("out_of_slots");
        reveal_strlit("connect_failed");
        reveal_strlit("gatt_error");
        reveal_strlit("timeout");
        reveal_strlit("internal");
        assert("bad_request"@.len() == 11);
        assert("not_found"@.len() == 9);
        assert("out_of_slots"@.len() == 12);
        assert("connect_failed"@.len() == 14);
        assert("gatt_error"@.len() == 10);
        assert("timeout"@.len() == 7);
        assert("internal"@.len() == 8);
    }

    pub fn from_name(name: &str) -> (r: ErrorKind)
        ensures
            r == ErrorKind::named(name@),
    {
        if str_eq(name, "bad_request") {
            ErrorKind::BadRequest
        } else if str_eq(name, "not_found") {
            ErrorKind::NotFound
        } else if str_eq(name, "out_of_slots") {
            ErrorKind::OutOfSlots
        } else if str_eq(name, "connect_failed") {
            ErrorKind::ConnectFailed
        } else if str_eq(name, "gatt_error") {
            ErrorKind::GattError
        } else if str_eq(name, "timeout") {
            ErrorKind::Timeout
        } else if str_eq(name, "internal") {
            ErrorKind::Internal
        } else {
            ErrorKind::Unknown
        }
    }

    /// Whether trying the same device again shortly is worthwhile. A malformed
    /// request is our own bug and will fail identically next time.
    pub fn is_retryable(&self) -> (r: bool)
        ensures
            r == (*self != ErrorKind::BadRequest),
    {
        match self {
            ErrorKind::BadRequest => false,
            _ => true,
        }
    }
}

#[derive(Debug, Clone)]
pub struct ProxySlots {
    pub source: String,
    pub slots: u32,
    pub free: u32,
    pub allocated: Vec<String>,
}

#[derive(Debug, Clone)]
pub struct BridgeStatus {
    pub online: bool,
    pub max_concurrent: usize,
    pub queue_depth: usize,
    pub proxies: Vec<ProxySlots>,
}

impl Default for BridgeStatus {
    fn default() -> (r: Self)
        ensures
            !r.online,
            r.max_concurrent == 0,
            r.queue_depth == 0,
            r.proxies@.len() == 0,
    {
        BridgeStatus { online: false, max_concurrent: 0, queue_depth: 0, proxies: Vec::new() }
    }
}

/// The free connection slots of the proxies, together.
pub open spec fn total_free(proxies: Seq<ProxySlots>) -> nat
    decreases proxies.len(),
{
    if proxies.len() == 0 {
        0
    } else {
        total_free(proxies.drop_last()) + proxies.last().free as nat
    }
}

proof fn total_free_grows(proxies: Seq<ProxySlots>, i: int)
    requires
        0 <= i <= proxies.len(),
    ensures
        total_free(proxies.take(i)) <= total_free(proxies),
    decreases proxies.len() - i,
{
    if i < proxies.len() {
        total_free_grows(proxies, i + 1);
        assert(proxies.take(i + 1).drop_last() =~= proxies.take(i));
    } else {
        assert(proxies.take(i) =~= proxies);
    }
}

impl BridgeStatus {
    /// Total free connection slots across every proxy that has reported its
    /// capacity. Proxies reporting `slots == 0` have not told us anything yet,
    /// and the executor already filters those out.
    pub fn free_slots(&self) -> (r: u32)
        requires
            total_free(self.proxies@) <= u32::MAX,
        ensures
            r == total_free(self.proxies@),
    {
        let mut total: u32 = 0;
        for i in 0..self.proxies.len()
            invariant
                total_free(self.proxies@) <= u32::MAX,
                total == total_free(self.proxies@.take(i as int)),
        {
            proof {
                total_free_grows(self.proxies@, i + 1);
                assert(self.proxies@.take(i + 1).drop_last() =~= self.proxies@.take(i as int));
            }
            total = total + self.proxies[i].free;
        }
        assert(self.proxies@.take(self.proxies@.len() as int) =~= self.proxies@);
        total
    }
}

// --------------------------------------------------------------------- bridge

/// What came of waiting for a response.
#[derive(Clone, Copy, Debug, PartialEq, Eq, Structural)]
pub enum SubmitError {
    /// There is no MQTT client to publish the job with.
    NoClient,
    /// The job could not be published.
    NotPublished,
    /// The waiter was dropped before the response came.
    Cancelled,
    /// The executor did not answer in time.
    TimedOut,
}

/// Our end of the exchange with the executor.
///
/// A waiter is known by a number that its owner picked.
pub struct BleBridge {
    pub prefix: String,
    pub pending: TextMap<u64>,
    pub status: BridgeStatus,
}

/// What happens to the jobs that are under way.
pub enum BridgeStep {
    /// A job was submitted, for a waiter.
    Submitted(Seq<char>, u64),
    /// A job was answered.
    Answered(Seq<char>),
    /// A job was given up.
    GivenUp(Seq<char>, SubmitError),
}

impl BridgeStep {
    /// The job that the step is about.
    pub open spec fn job(self) -> Seq<char> {
        match self {
            BridgeStep::Submitted(id, _) => id,
            BridgeStep::Answered(id) => id,
            BridgeStep::GivenUp(id, _) => id,
        }
    }

    /// Who waits for which job, once the step was made. A waiter that was dropped
    /// leaves its entry for the response to clear.
    pub open spec fn taken(self, pending: Map<Seq<char>, u64>) -> Map<Seq<char>, u64> {
        match self {
            BridgeStep::Submitted(id, waiter) => pending.insert(id, waiter),
            BridgeStep::Answered(id) => pending.remove(id),
            BridgeStep::GivenUp(id, error) => match error {
                SubmitError::NotPublished | SubmitError::TimedOut => pending.remove(id),
                SubmitError::NoClient | SubmitError::Cancelled => pending,
            },
        }
    }
}

/// Who waits for which job, once all of the steps were made.
pub open spec fn all_taken(pending: Map<Seq<char>, u64>, steps: Seq<BridgeStep>) -> Map<
    Seq<char>,
    u64,
>
    decreases steps.len(),
{
    if steps.len() == 0 {
        pending
    } else {
        steps.last().taken(all_taken(pending, steps.drop_last()))
    }
}

/// A response reaches the waiter that submitted its job, whatever other jobs are
/// submitted, answered or given up in between.
pub proof fn a_response_reaches_its_waiter(
    pending: Map<Seq<char>, u64>,
    id: Seq<char>,
    waiter: u64,
    steps: Seq<BridgeStep>,
)
    requires
        forall|i: int| 0 <= i < steps.len() ==> (#[trigger] steps[i]).job() != id,
    ensures
        ({
            let later = all_taken(BridgeStep::Submitted(id, waiter).taken(pending), steps);
            later.contains_key(id) && later[id] == waiter
        }),
    decreases steps.len(),
{
    if steps.len() > 0 {
        let n = steps.len() - 1;
        assert(steps[n].job() != id);
        assert forall|i: int| 0 <= i < n implies (#[trigger] steps.drop_last()[i]).job() != id by {
            assert(steps[i].job() != id);
        }
        a_response_reaches_its_waiter(pending, id, waiter, steps.drop_last());
    }
}

/// An answer ends the wait for its job and for no other; a job that was not published
/// or not answered in time is waited for no longer; and one that could not even be
/// tried, or whose waiter is gone, changes nothing.
pub proof fn what_ends_a_wait(pending: Map<Seq<char>, u64>, id: Seq<char>, other: Seq<char>)
    ensures
        !BridgeStep::Answered(id).taken(pending).contains_key(id),
        !BridgeStep::GivenUp(id, SubmitError::TimedOut).taken(pending).contains_key(id),
        !BridgeStep::GivenUp(id, SubmitError::NotPublished).taken(pending).contains_key(id),
        BridgeStep::GivenUp(id, SubmitError::NoClient).taken(pending) == pending,
        BridgeStep::GivenUp(id, SubmitError::Cancelled).taken(pending) == pending,
        other != id && pending.contains_key(other) ==> {
            &&& BridgeStep::Answered(id).taken(pending).contains_key(other)
            &&& BridgeStep::Answered(id).taken(pending)[other] == pending[other]
            &&& BridgeStep::GivenUp(id, SubmitError::TimedOut).taken(pending).contains_key(other)
            &&& BridgeStep::GivenUp(id, SubmitError::TimedOut).taken(pending)[other]
                == pending[other]
            &&& BridgeStep::GivenUp(id, SubmitError::NotPublished).taken(pending).contains_key(other)
            &&& BridgeStep::GivenUp(id, SubmitError::NotPublished).taken(pending)[other]
                == pending[other]
        },
{
}

/// Every proxy adds its free slots to those of the others, and no other number of it.
pub proof fn every_proxy_adds_its_free_slots(proxies: Seq<ProxySlots>, proxy: ProxySlots)
    ensures
        total_free(Seq::<ProxySlots>::empty()) == 0,
        total_free(proxies.push(proxy)) == total_free(proxies) + proxy.free,
{
    assert(proxies.push(proxy).drop_last() =~= proxies);
}

/// A flag beats the environment, and the environment beats nothing at all.
pub proof fn a_flag_beats_the_environment<T, E>(flag: Option<T>, env: Result<Option<T>, E>)
    ensures
        flag is Some ==> (flag_or_env(flag, env) matches Ok(value) && value == flag),
        flag is None ==> flag_or_env(flag, env) == env,
{
}

/// The prefix of the topics, as it was configured but without slashes at its end.
pub open spec fn bare_prefix(prefix: Seq<char>) -> Seq<char> {
    text::trim_end_if(prefix, |c: char| c == '/')
}

/// Where jobs are published.
pub open spec fn requests_under(prefix: Seq<char>) -> Seq<char> {
    prefix + "/req"@
}

/// Where the executor answers them.
pub open spec fn responses_under(prefix: Seq<char>) -> Seq<char> {
    prefix + "/res"@
}

/// Where the executor says how it is.
pub open spec fn status_under(prefix: Seq<char>) -> Seq<char> {
    prefix + "/status"@
}

/// Slashes at the end of a prefix count for nothing, and nothing else of it is taken.
/// The three topics start with the prefix, and are told apart.
pub proof fn topics_stand_under_their_prefix(prefix: Seq<char>)
    ensures
        prefix.len() > 0 && prefix.last() != '/' ==> bare_prefix(prefix) == prefix,
        bare_prefix(prefix.push('/')) == bare_prefix(prefix),
        bare_prefix(prefix).len() > 0 ==> bare_prefix(prefix).last() != '/',
        requests_under(prefix).len() == prefix.len() + 4 && requests_under(prefix).take(
            prefix.len() as int,
        ) == prefix,
        responses_under(prefix).len() == prefix.len() + 4 && responses_under(prefix).take(
            prefix.len() as int,
        ) == prefix,
        status_under(prefix).len() == prefix.len() + 7 && status_under(prefix).take(
            prefix.len() as int,
        ) == prefix,
        requests_under(prefix)[prefix.len() as int] == '/',
        responses_under(prefix)[prefix.len() as int] == '/',
        status_under(prefix)[prefix.len() as int] == '/',
        requests_under(prefix) != responses_under(prefix),
        requests_under(prefix) != status_under(prefix),
        responses_under(prefix) != status_under(prefix),
        requests_under(prefix).last() == 'q',
{
    reveal_strlit("/req");
    reveal_strlit("/res");
    reveal_strlit("/status");
    let drop = |c: char| c == '/';
    assert(prefix.push('/').drop_last() =~= prefix);
    no_slash_is_left(prefix);
    let n = prefix.len() as int;
    assert(requests_under(prefix).take(n) =~= prefix);
    assert(responses_under(prefix).take(n) =~= prefix);
    assert(status_under(prefix).take(n) =~= prefix);
    assert(requests_under(prefix)[n + 3] == 'q');
    assert(responses_under(prefix)[n + 3] == 's');
}

proof fn no_slash_is_left(prefix: Seq<char>)
    ensures
        bare_prefix(prefix).len() > 0 ==> bare_prefix(prefix).last() != '/',
    decreases prefix.len(),
{
    if prefix.len() > 0 && prefix.last() == '/' {
        no_slash_is_left(prefix.drop_last());
    }
}

/// Whether Bluetooth is off, given a flag and what the environment says.
pub open spec fn is_switched_off<E>(flag: bool, env: Result<Option<bool>, E>) -> Result<bool, E> {
    match env {
        Ok(said) => Ok(flag || said == Some(true)),
        Err(err) => if flag {
            Ok(true)
        } else {
            Err(err)
        },
    }
}

/// A flag switches Bluetooth off, whatever the environment says or cannot say. Without
/// it the environment decides, and Bluetooth is on where it says nothing.
pub proof fn what_switches_bluetooth_off<E>(flag: bool, env: Result<Option<bool>, E>)
    ensures
        flag ==> is_switched_off(flag, env) == Ok::<bool, E>(true),
        !flag && env is Err ==> is_switched_off(flag, env) is Err && is_switched_off(
            flag,
            env,
        )->Err_0 == env->Err_0,
        !flag && env is Ok && env->Ok_0 is Some ==> is_switched_off(flag, env) == Ok::<bool, E>(
            env->Ok_0->0,
        ),
        !flag && env is Ok && env->Ok_0 is None ==> is_switched_off(flag, env) == Ok::<bool, E>(
            false,
        ),
{
}

impl BleBridge {
    /// Whether the executor came or went between two states of the bridge.
    pub open spec fn came_or_went(&self, after: BleBridge) -> bool {
        self.status.online != after.status.online
    }

    /// That the executor came or went is told once: the same status again is no news,
    /// and going offline twice is news once.
    pub proof fn a_change_is_told_once(first: BleBridge, second: BleBridge, third: BleBridge)
        requires
            second.status.online == third.status.online,
        ensures
            !second.came_or_went(third),
            first.came_or_went(second) <==> first.came_or_went(third),
            first.came_or_went(second) <==> (first.status.online && !second.status.online) || (
            !first.status.online && second.status.online),
    {
    }

    pub open spec fn wf(&self) -> bool {
        self.pending.wf()
    }

    /// Whether someone waits for the response to a job.
    pub open spec fn awaits(&self, job_id: Seq<char>) -> bool {
        self.pending.has(job_id)
    }

    pub fn new(prefix: String) -> (r: Self)
        ensures
            r.wf(),
            r.prefix@ == bare_prefix(prefix@),
            r.prefix@ == text::trim_end_if(prefix@, |c: char| c == '/'),
            r.pending@ == Map::<Seq<char>, u64>::empty(),
            forall|id: Seq<char>| !#[trigger] r.awaits(id),
            !r.status.online,
            r.status.max_concurrent == 0,
            r.status.queue_depth == 0,
            r.status.proxies@.len() == 0,
    {
        BleBridge {
            prefix: trim_end_slashes(prefix.as_str()),
            pending: TextMap::new(),
            status: BridgeStatus::default(),
        }
    }

    fn topic(&self, leaf: &str) -> (r: String)
        ensures
            r@ == self.prefix@ + leaf@,
    {
        let mut out = self.prefix.clone();
        append_str(&mut out, leaf);
        out
    }

    pub fn request_topic(&self) -> (r: String)
        ensures
            r@ == requests_under(self.prefix@),
            r@ == self.prefix@ + "/req"@,
    {
        self.topic("/req")
    }

    pub fn response_topic(&self) -> (r: String)
        ensures
            r@ == responses_under(self.prefix@),
            r@ == self.prefix@ + "/res"@,
    {
        self.topic("/res")
    }

    pub fn status_topic(&self) -> (r: String)
        ensures
            r@ == status_under(self.prefix@),
            r@ == self.prefix@ + "/status"@,
    {
        self.topic("/status")
    }

    /// Full status, for diagnostics.
    pub fn status(&self) -> (r: &BridgeStatus)
        ensures
            *r == self.status,
    {
        &self.status
    }

    pub fn is_online(&self) -> (r: bool)
        ensures
            r == self.status.online,
    {
        self.status.online
    }

    /// Takes over a status; returns whether the executor came or went.
    pub fn set_status(&mut self, status: BridgeStatus) -> (r: bool)
        ensures
            *final(self) == (BleBridge { status, ..*old(self) }),
            r == old(self).came_or_went(*final(self)),
            r == (old(self).status.online != status.online),
    {
        let changed = self.status.online != status.online;
        self.status = status;
        changed
    }

    /// Mark the executor offline without waiting for it to say so, e.g. when our
    /// own MQTT connection drops and we can no longer trust the retained status.
    pub fn mark_offline(&mut self) -> (r: bool)
        ensures
            *final(self) == (BleBridge {
                status: BridgeStatus { online: false, ..old(self).status },
                ..*old(self)
            }),
            r == old(self).came_or_went(*final(self)),
            r == old(self).status.online,
    {
        let was_online = self.status.online;
        self.status.online = false;
        was_online
    }

    /// Finds out who waits for a response. A response that nobody waits for came
    /// after our own timeout, or answers a job of a previous run.
    pub fn handle_response(&mut self, response: &JobResponse) -> (r: Option<u64>)
        requires
            old(self).wf(),
        ensures
            final(self).wf(),
            *final(self) == (BleBridge { pending: final(self).pending, ..*old(self) }),
            match r {
                Some(waiter) => old(self).awaits(response.id@) && waiter == old(self).pending.at(
                    response.id@,
                ),
                None => !old(self).awaits(response.id@),
            },
            final(self).pending@ == BridgeStep::Answered(response.id@).taken(old(self).pending@),
            forall|id: Seq<char>| #[trigger]
                final(self).awaits(id) == (id != response.id@ && old(self).awaits(id)),
    {
        self.pending.remove(response.id.as_str())
    }

    /// Starts to wait for the response to a job that is about to be published.
    pub fn submit(&mut self, job: &JobRequest, waiter: u64)
        requires
            old(self).wf(),
        ensures
            final(self).wf(),
            *final(self) == (BleBridge { pending: final(self).pending, ..*old(self) }),
            final(self).pending@ == BridgeStep::Submitted(job.id@, waiter).taken(
                old(self).pending@,
            ),
            forall|id: Seq<char>| #[trigger]
                final(self).awaits(id) == (id == job.id@ || old(self).awaits(id)),
    {
        self.pending.insert(job.id.clone(), waiter);
    }

    /// Stops waiting: the job was not published, or was not answered in time.
    /// A waiter that was dropped leaves its entry for the response to clear.
    pub fn give_up(&mut self, job_id: &str, error: SubmitError)
        requires
            old(self).wf(),
        ensures
            final(self).wf(),
            *final(self) == (BleBridge { pending: final(self).pending, ..*old(self) }),
            final(self).pending@ == BridgeStep::GivenUp(job_id@, error).taken(old(self).pending@),
            forall|id: Seq<char>| #[trigger]
                final(self).awaits(id) == (old(self).awaits(id) && !(id == job_id@ && (error
                    == SubmitError::NotPublished || error == SubmitError::TimedOut))),
    {
        match error {
            SubmitError::NotPublished | SubmitError::TimedOut => {
                self.pending.remove(job_id);
            },
            SubmitError::NoClient | SubmitError::Cancelled => {},
        }
    }
}

} // verus!
