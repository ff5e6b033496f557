//! Radio sessions: the job that is handed to the executor, and its outcome.
use vstd::prelude::*;

use crate::base64;
use crate::base64::base64_encode;
use crate::ble::frame;
use crate::random_id;
use crate::random_id::new_uuid;
use crate::service::ble_bridge::{
    ErrorKind, JobOp, JobRequest, JobResponse, QuerySpec, WriteSpec,
};
use crate::service::ble_scheduler::config::BleSchedulerConfig;
use crate::service::ble_scheduler::query::Query;
use crate::text;
use crate::text::to_uppercase;

verus! {

/// Govee's GATT characteristics. Identical across every model seen so far.
pub const GOVEE_WRITE_CHAR: &'static str = "00010203-0405-0607-0809-0a0b0c0d2b11";

pub const GOVEE_NOTIFY_CHAR: &'static str = "00010203-0405-0607-0809-0a0b0c0d2b10";

/// How much longer than the executor's own budget we wait for its answer. Our
/// timeout only has to tell "the executor is gone" from "the executor is about
/// to answer".
pub const ANSWER_MARGIN_MS: u64 = 15_000;

/// The executor answered, and said no.
#[derive(Clone, Debug, PartialEq, Eq)]
pub struct JobFailed {
    pub kind: ErrorKind,
    pub message: String,
}

/// We gave up waiting for a session slot and never reached the radio.
///
/// Deliberately distinct from a device failure: nothing was learned about the
/// device, so it must not count towards its circuit breaker.
#[derive(Clone, Copy, Debug, PartialEq, Eq, Structural)]
pub struct NoSessionSlot {
    pub slots: usize,
}

/// Why a session came to nothing.
#[derive(Debug, PartialEq, Eq)]
pub enum SessionError {
    NoSessionSlot(NoSessionSlot),
    JobFailed(JobFailed),
    /// The executor reported a failure and no reason.
    FailedWithoutReason,
    /// There was nothing to send or to ask.
    NothingToDo,
    /// Anything else, such as an executor that does not answer.
    Other,
}

/// There is nothing to send or to ask.
#[derive(Clone, Copy, Debug, PartialEq, Eq, Structural)]
pub struct NothingToDo;

/// A write of a frame.
pub open spec fn writes(op: JobOp, frame: Seq<u8>) -> bool {
    op matches JobOp::Write(spec) && {
        &&& spec.char@ == GOVEE_WRITE_CHAR@
        &&& spec.data@ == base64::base64_text(frame)
        &&& base64::base64_data(spec.data@) == Some(frame)
        &&& !spec.response
    }
}

/// A query, which accepts only a reply with its own header. Silence is accepted
/// only for the speculative ones, and ends the list of their pages.
pub open spec fn asks(op: JobOp, query: Query, timeout_ms: u64) -> bool {
    op matches JobOp::Query(spec) && {
        &&& spec.write_char@ == GOVEE_WRITE_CHAR@
        &&& spec.notify_char@ == GOVEE_NOTIFY_CHAR@
        &&& spec.data@ == base64::base64_text(frame::finished(query.payload()))
        &&& base64::base64_data(spec.data@) == Some(frame::finished(query.payload()))
        &&& spec.timeout_ms == query.wait(timeout_ms)
        &&& spec.optional == (query is Segments)
        &&& spec.stop_if_unanswered == (query is Segments)
        &&& spec.expect_prefix matches Some(prefix) && prefix@ == base64::base64_text(
            query.header(),
        )
    }
}

/// The steps of a session: the frames and then the queries, with a pause between
/// any two of them.
pub open spec fn is_session(
    ops: Seq<JobOp>,
    frames: Seq<Vec<u8>>,
    queries: Seq<Query>,
    delay_ms: u64,
    timeout_ms: u64,
) -> bool {
    let n = frames.len() + queries.len();
    &&& ops.len() == (if n == 0 {
        0
    } else {
        2 * n - 1
    })
    &&& forall|k: int| 0 <= k < frames.len() ==> writes(#[trigger] ops[2 * k], frames[k]@)
    &&& forall|k: int|
        frames.len() <= k < n ==> asks(
            #[trigger] ops[2 * k],
            queries[k - frames.len()],
            timeout_ms,
        )
    &&& forall|k: int| 0 <= k < n - 1 ==> #[trigger] ops[2 * k + 1] == JobOp::Delay(delay_ms)
}

/// The frames are short enough to be encoded.
pub open spec fn are_encodable(frames: Seq<Vec<u8>>) -> bool {
    forall|i: int| 0 <= i < frames.len() ==> (#[trigger] frames[i])@.len() <= usize::MAX / 512
}

/// Whether `job` is the session, under the given id.
pub open spec fn is_job(
    job: JobRequest,
    id: Seq<char>,
    config: BleSchedulerConfig,
    address: Seq<char>,
    frames: Seq<Vec<u8>>,
    queries: Seq<Query>,
    priority: Seq<char>,
) -> bool {
    &&& job.id@ == id
    &&& job.address@ == text::unicode_uppercase(address)
    &&& text::all_ascii(address) ==> job.address@ == text::ascii_uppercase(address)
    &&& job.priority@ == priority
    &&& job.keep_open_ms == config.keep_open_ms
    &&& job.deadline_ms == config.deadline_ms
    &&& is_session(
        job.ops@,
        frames,
        queries,
        config.inter_frame_delay_ms,
        config.query_timeout_ms,
    )
}

fn write_op(frame: &[u8]) -> (r: JobOp)
    requires
        frame@.len() <= usize::MAX / 512,
    ensures
        writes(r, frame@),
{
    JobOp::Write(
        WriteSpec { char: GOVEE_WRITE_CHAR, data: base64_encode(frame), response: false },
    )
}

fn query_op(query: &Query, timeout_ms: u64) -> (r: JobOp)
    ensures
        asks(r, *query, timeout_ms),
{
    let sent = query.frame();
    let prefix = query.expect_prefix();
    JobOp::Query(
        QuerySpec {
            write_char: GOVEE_WRITE_CHAR,
            notify_char: GOVEE_NOTIFY_CHAR,
            data: base64_encode(sent.as_slice()),
            timeout_ms: query.timeout(timeout_ms),
            optional: query.is_speculative(),
            // Pages are contiguous, so the first silence ends the list.
            stop_if_unanswered: query.is_speculative(),
            expect_prefix: Some(base64_encode(prefix.as_slice())),
        },
    )
}

/// The session under a given id.
pub fn build_job(
    id: String,
    config: &BleSchedulerConfig,
    address: &str,
    frames: &[Vec<u8>],
    queries: &[Query],
    priority: &'static str,
) -> (r: Result<JobRequest, NothingToDo>)
    requires
        are_encodable(frames@),
    ensures
        match r {
            Ok(job) => {
                &&& frames@.len() + queries@.len() > 0
                &&& is_job(job, id@, *config, address@, frames@, queries@, priority@)
            },
            Err(_) => frames@.len() + queries@.len() == 0,
        },
{
    let mut ops: Vec<JobOp> = Vec::new();
    let ghost delay = config.inter_frame_delay_ms;
    let ghost timeout = config.query_timeout_ms;
    for i in 0..frames.len()
        invariant
            are_encodable(frames@),
            delay == config.inter_frame_delay_ms,
            ops@.len() == (if i == 0 {
                0
            } else {
                2 * i - 1
            }),
            forall|k: int| 0 <= k < i ==> writes(#[trigger] ops@[2 * k], frames@[k]@),
            forall|k: int| 0 <= k < i - 1 ==> #[trigger] ops@[2 * k + 1] == JobOp::Delay(delay),
    {
        if ops.len() != 0 {
            ops.push(JobOp::Delay(config.inter_frame_delay_ms));
        }
        ops.push(write_op(frames[i].as_slice()));
    }
    let ghost sent = frames@.len();
    for j in 0..queries.len()
        invariant
            delay == config.inter_frame_delay_ms,
            timeout == config.query_timeout_ms,
            sent == frames@.len(),
            ops@.len() == (if sent + j == 0 {
                0
            } else {
                2 * (sent + j) - 1
            }),
            forall|k: int| 0 <= k < sent ==> writes(#[trigger] ops@[2 * k], frames@[k]@),
            forall|k: int|
                sent <= k < sent + j ==> asks(
                    #[trigger] ops@[2 * k],
                    queries@[k - sent],
                    timeout,
                ),
            forall|k: int|
                0 <= k < sent + j - 1 ==> #[trigger] ops@[2 * k + 1] == JobOp::Delay(delay),
    {
        if ops.len() != 0 {
            ops.push(JobOp::Delay(config.inter_frame_delay_ms));
        }
        ops.push(query_op(&queries[j], config.query_timeout_ms));
    }
    if ops.len() == 0 {
        return Err(NothingToDo);
    }
    Ok(
        JobRequest {
            id,
            address: to_uppercase(address),
            priority,
            keep_open_ms: config.keep_open_ms,
            deadline_ms: config.deadline_ms,
            ops,
        },
    )
}

/// Build one session to hand to the executor, under a new random id.
pub fn exchange(
    config: &BleSchedulerConfig,
    address: &str,
    frames: &[Vec<u8>],
    queries: &[Query],
    priority: &'static str,
) -> (r: Result<JobRequest, NothingToDo>)
    requires
        are_encodable(frames@),
    ensures
        match r {
            Ok(job) => {
                &&& frames@.len() + queries@.len() > 0
                &&& random_id::is_uuid(job.id@)
                &&& is_job(job, job.id@, *config, address@, frames@, queries@, priority@)
            },
            Err(_) => frames@.len() + queries@.len() == 0,
        },
{
    build_job(new_uuid(), config, address, frames, queries, priority)
}

/// How long to wait for the executor's answer.
pub open spec fn patience(config: BleSchedulerConfig) -> int {
    config.deadline_ms + ANSWER_MARGIN_MS
}

/// The executor is given its whole budget and fifteen seconds more, so that its own
/// word on a timeout comes first.
pub proof fn the_executor_may_use_its_budget(config: BleSchedulerConfig)
    ensures
        patience(config) - config.deadline_ms == 15_000,
{
}

/// How long to wait for the executor's answer, in milliseconds.
pub fn answer_timeout(config: &BleSchedulerConfig) -> (r: u64)
    requires
        config.deadline_ms + ANSWER_MARGIN_MS <= u64::MAX,
    ensures
        r == patience(*config),
        r == config.deadline_ms + ANSWER_MARGIN_MS,
{
    config.deadline_ms + ANSWER_MARGIN_MS
}

/// Whether this is what a response says of its session.
pub open spec fn is_outcome(response: JobResponse, outcome: Result<(), SessionError>) -> bool {
    match outcome {
        Ok(_) => response.ok,
        Err(SessionError::JobFailed(failed)) => !response.ok && (response.error matches Some(error)
            && failed.kind == error.kind && failed.message@ == error.message@),
        Err(SessionError::FailedWithoutReason) => !response.ok && response.error is None,
        Err(_) => false,
    }
}

/// A session went well exactly if the executor says so. Otherwise its reason is the
/// executor's, word for word, and a timeout is not taken for anything else.
pub proof fn the_executor_has_the_say(response: JobResponse, outcome: Result<(), SessionError>)
    requires
        is_outcome(response, outcome),
    ensures
        outcome is Ok <==> response.ok,
        !response.ok && response.error is Some ==> (outcome matches Err(
            SessionError::JobFailed(failed),
        ) && failed.kind == response.error->0.kind && failed.message@
            == response.error->0.message@),
        !response.ok && response.error is None ==> outcome == Err::<(), SessionError>(
            SessionError::FailedWithoutReason,
        ),
{
}

/// What a response says of its session.
pub fn session_outcome(response: &JobResponse) -> (r: Result<(), SessionError>)
    ensures
        is_outcome(*response, r),
        if response.ok {
            r is Ok
        } else {
            match (response.error, r) {
                (Some(error), Err(SessionError::JobFailed(failed))) => {
                    failed.kind == error.kind && failed.message@ == error.message@
                },
                (None, Err(SessionError::FailedWithoutReason)) => true,
                _ => false,
            }
        },
{
    if response.ok {
        return Ok(());
    }
    match &response.error {
        Some(error) => Err(
            SessionError::JobFailed(
                JobFailed { kind: error.kind, message: error.message.clone() },
            ),
        ),
        None => Err(SessionError::FailedWithoutReason),
    }
}

/// A session writes its frames first, in their order, each as it is, and asks its
/// questions after them; between any two steps there is a pause, and nothing else is
/// done.
pub proof fn a_session_writes_before_it_asks(
    ops: Seq<JobOp>,
    frames: Seq<Vec<u8>>,
    queries: Seq<Query>,
    delay_ms: u64,
    timeout_ms: u64,
    k: int,
)
    requires
        is_session(ops, frames, queries, delay_ms, timeout_ms),
        0 <= k < ops.len(),
    ensures
        ops.len() == 2 * (frames.len() + queries.len()) - 1,
        k % 2 == 1 ==> (ops[k] matches JobOp::Delay(ms) && ms == delay_ms),
        k % 2 == 0 && k / 2 < frames.len() ==> (ops[k] matches JobOp::Write(spec)
            && base64::base64_data(spec.data@) == Some(frames[k / 2]@) && !spec.response
            && spec.char@ == "00010203-0405-0607-0809-0a0b0c0d2b11"@),
        k % 2 == 0 && k / 2 >= frames.len() ==> (ops[k] matches JobOp::Query(spec) && {
            let query = queries[k / 2 - frames.len()];
            &&& base64::base64_data(spec.data@) == Some(frame::finished(query.payload()))
            &&& spec.timeout_ms == query.wait(timeout_ms)
            &&& spec.optional <==> query is Segments
            &&& spec.stop_if_unanswered <==> query is Segments
            &&& spec.expect_prefix matches Some(prefix) && prefix@ == base64::base64_text(
                query.header(),
            )
            &&& spec.write_char@ == "00010203-0405-0607-0809-0a0b0c0d2b11"@
            &&& spec.notify_char@ == "00010203-0405-0607-0809-0a0b0c0d2b10"@
        }),
{
    if k % 2 == 1 {
        assert(ops[2 * (k / 2) + 1] == ops[k]);
    } else {
        assert(ops[2 * (k / 2)] == ops[k]);
        if k / 2 < frames.len() {
            assert(writes(ops[2 * (k / 2)], frames[k / 2]@));
        } else {
            assert(asks(ops[2 * (k / 2)], queries[k / 2 - frames.len()], timeout_ms));
        }
    }
}

/// A job carries what the user configured, and goes to the address in upper case.
pub proof fn a_job_is_as_configured(
    job: JobRequest,
    id: Seq<char>,
    config: BleSchedulerConfig,
    address: Seq<char>,
    frames: Seq<Vec<u8>>,
    queries: Seq<Query>,
    priority: Seq<char>,
)
    requires
        is_job(job, id, config, address, frames, queries, priority),
    ensures
        job.id@ == id,
        job.priority@ == priority,
        job.keep_open_ms == config.keep_open_ms,
        job.deadline_ms == config.deadline_ms,
        text::all_ascii(address) ==> job.address@.len() == address.len() && forall|i: int|
            0 <= i < address.len() ==> #[trigger] job.address@[i] == text::upper_char(address[i]),
        is_session(
            job.ops@,
            frames,
            queries,
            config.inter_frame_delay_ms,
            config.query_timeout_ms,
        ),
{
}

} // verus!
