//! Trying the transports one after the other.
use vstd::prelude::*;

use crate::service::device::Device;
use crate::service::transport;
use crate::service::transport::{resolve_order, DeviceOp, Handled, TransportId};
use crate::text;
use crate::text::{append_decimal, append_str};

verus! {

/// What came of handing the operations to a transport.
#[derive(Clone, Copy, Debug, PartialEq, Eq, Structural)]
pub enum Attempt {
    Handled,
    Declined,
    Failed,
}

/// What to do next.
#[derive(Clone, Copy, Debug, PartialEq, Eq, Structural)]
pub enum RouteStep {
    /// Hand the operations to this transport.
    Try(TransportId),
    /// They have been carried out.
    Done,
    /// Report the transport's error.
    Abort,
    /// Every transport has had its turn.
    Exhausted,
}

/// How a run ends.
#[derive(Clone, Copy, Debug, PartialEq, Eq, Structural)]
pub enum Verdict {
    ServedBy(TransportId),
    AbortedBy(TransportId),
    Exhausted,
}

/// Whether the next transport gets its turn after this one.
pub open spec fn moves_on(id: TransportId, attempt: Attempt) -> bool {
    attempt == Attempt::Declined || (attempt == Attempt::Failed && id == TransportId::Ble)
}

/// How a run over `order` ends from place `at` on, where `outcome` says what
/// comes of handing the operations to a transport.
pub open spec fn verdict(
    order: Seq<TransportId>,
    outcome: spec_fn(TransportId) -> Attempt,
    at: int,
) -> Verdict
    decreases order.len() - at,
{
    if at < 0 || at >= order.len() {
        Verdict::Exhausted
    } else if outcome(order[at]) == Attempt::Handled {
        Verdict::ServedBy(order[at])
    } else if moves_on(order[at], outcome(order[at])) {
        verdict(order, outcome, at + 1)
    } else {
        Verdict::AbortedBy(order[at])
    }
}

/// A transport has the last word exactly if every one before it declined, or is
/// Bluetooth and failed: a failure anywhere else ends the run.
pub proof fn the_last_word_is_earned(
    order: Seq<TransportId>,
    outcome: spec_fn(TransportId) -> Attempt,
    at: int,
)
    requires
        0 <= at <= order.len(),
    ensures
        match verdict(order, outcome, at) {
            Verdict::ServedBy(id) => exists|k: int|
                at <= k < order.len() && #[trigger] order[k] == id && outcome(id)
                    == Attempt::Handled && forall|j: int|
                    at <= j < k ==> moves_on(#[trigger] order[j], outcome(order[j])),
            Verdict::AbortedBy(id) => exists|k: int|
                at <= k < order.len() && #[trigger] order[k] == id && outcome(id)
                    == Attempt::Failed && id != TransportId::Ble && forall|j: int|
                    at <= j < k ==> moves_on(#[trigger] order[j], outcome(order[j])),
            Verdict::Exhausted => forall|j: int|
                at <= j < order.len() ==> moves_on(#[trigger] order[j], outcome(order[j])),
        },
    decreases order.len() - at,
{
    if at < order.len() {
        if outcome(order[at]) != Attempt::Handled && moves_on(order[at], outcome(order[at])) {
            the_last_word_is_earned(order, outcome, at + 1);
            match verdict(order, outcome, at) {
                Verdict::ServedBy(id) => {
                    let k = choose|k: int|
                        at + 1 <= k < order.len() && #[trigger] order[k] == id && outcome(id)
                            == Attempt::Handled && forall|j: int|
                            at + 1 <= j < k ==> moves_on(#[trigger] order[j], outcome(order[j]));
                    assert(order[k] == id);
                },
                Verdict::AbortedBy(id) => {
                    let k = choose|k: int|
                        at + 1 <= k < order.len() && #[trigger] order[k] == id && outcome(id)
                            == Attempt::Failed && id != TransportId::Ble && forall|j: int|
                            at + 1 <= j < k ==> moves_on(#[trigger] order[j], outcome(order[j]));
                    assert(order[k] == id);
                },
                Verdict::Exhausted => {},
            }
        } else {
            assert(order[at] == order[at]);
        }
    }
}

/// A transport that declines hands over to the next one. One that fails does so
/// only if it is Bluetooth: anywhere else a failure is reported, and nothing is
/// tried a second time on a slower path.
pub proof fn only_bluetooth_is_passed_over(id: TransportId, attempt: Attempt)
    ensures
        attempt is Declined ==> moves_on(id, attempt),
        attempt is Handled ==> !moves_on(id, attempt),
        attempt is Failed ==> (moves_on(id, attempt) <==> id is Ble),
{
}

/// The first transport that does not hand over ends the run: the operations are
/// carried out by it, or its failure is reported. With none, every transport has
/// had its turn.
pub proof fn the_first_that_takes_on_ends_the_run(
    order: Seq<TransportId>,
    outcome: spec_fn(TransportId) -> Attempt,
    at: int,
    k: int,
)
    requires
        0 <= at <= k <= order.len(),
        forall|j: int|
            at <= j < k ==> outcome(#[trigger] order[j]) is Declined || (outcome(order[j]) is Failed
                && order[j] is Ble),
    ensures
        k < order.len() && outcome(order[k]) is Handled ==> verdict(order, outcome, at)
            == Verdict::ServedBy(order[k]),
        k < order.len() && outcome(order[k]) is Failed && !(order[k] is Ble) ==> verdict(
            order,
            outcome,
            at,
        ) == Verdict::AbortedBy(order[k]),
        k == order.len() ==> verdict(order, outcome, at) is Exhausted,
    decreases k - at,
{
    if at < k {
        the_first_that_takes_on_ends_the_run(order, outcome, at + 1, k);
    }
}

/// What follows what came of the transport at place `at`, and the place that the run
/// has reached then.
pub open spec fn goes_on(order: Seq<TransportId>, at: int, attempt: Attempt) -> (RouteStep, int) {
    match attempt {
        Attempt::Handled => (RouteStep::Done, at),
        Attempt::Failed if order[at] != TransportId::Ble => (RouteStep::Abort, at),
        _ => if at + 1 < order.len() {
            (RouteStep::Try(order[at + 1]), at + 1)
        } else {
            (RouteStep::Exhausted, at + 1)
        },
    }
}

/// A run is over once the operations have been carried out, and it gives up only
/// after the last transport; until then the next transport has its turn. The failure
/// of a transport other than Bluetooth is reported at once.
pub proof fn how_a_run_goes_on(order: Seq<TransportId>, at: int, attempt: Attempt)
    requires
        0 <= at < order.len(),
    ensures
        ({
            let (step, place) = goes_on(order, at, attempt);
            &&& step is Done <==> attempt is Handled
            &&& step is Abort <==> attempt is Failed && !(order[at] is Ble)
            &&& step is Exhausted <==> at + 1 == order.len() && (attempt is Declined || (
            attempt is Failed && order[at] is Ble))
            &&& step matches RouteStep::Try(id) ==> at + 1 < order.len() && id == order[at + 1]
                && place == at + 1
            &&& attempt is Declined && at + 1 < order.len() ==> step is Try
        }),
{
}

/// A run of one batch of operations over the transports.
#[derive(Debug)]
pub struct Router {
    pub order: Vec<TransportId>,
    /// The place of the transport whose turn it is.
    pub at: usize,
    /// The transports that have declined, or failed and been passed over.
    pub declined: Vec<TransportId>,
}

impl Router {
    pub open spec fn wf(&self) -> bool {
        &&& self.at <= self.order@.len()
        &&& self.declined@ == self.order@.take(self.at as int)
    }

    /// What to do at the place that the run has reached.
    pub open spec fn turn(&self) -> RouteStep {
        if self.at < self.order@.len() {
            RouteStep::Try(self.order@[self.at as int])
        } else {
            RouteStep::Exhausted
        }
    }

    /// Every transport has its turn at its own place, and behind the last there is none.
    pub proof fn whose_turn_it_is(&self)
        ensures
            self.at < self.order@.len() ==> self.turn() == RouteStep::Try(
                self.order@[self.at as int],
            ),
            self.at >= self.order@.len() ==> self.turn() is Exhausted,
    {
    }

    pub fn new(order: Vec<TransportId>) -> (r: Self)
        ensures
            r.wf(),
            r.order@ == order@,
            r.at == 0,
    {
        let declined: Vec<TransportId> = Vec::new();
        assert(declined@ =~= order@.take(0));
        Router { order, at: 0, declined }
    }

    pub fn next(&self) -> (r: RouteStep)
        requires
            self.wf(),
        ensures
            r == self.turn(),
    {
        if self.at < self.order.len() {
            RouteStep::Try(self.order[self.at])
        } else {
            RouteStep::Exhausted
        }
    }

    /// Takes what came of the transport whose turn it was.
    pub fn report(&mut self, attempt: Attempt) -> (r: RouteStep)
        requires
            old(self).wf(),
            old(self).turn() is Try,
        ensures
            final(self).wf(),
            final(self).order@ == old(self).order@,
            (r, final(self).at as int) == goes_on(old(self).order@, old(self).at as int, attempt),
            ({
                let id = old(self).order@[old(self).at as int];
                if attempt == Attempt::Handled {
                    r == RouteStep::Done && final(self).at == old(self).at
                } else if moves_on(id, attempt) {
                    r == final(self).turn() && final(self).at == old(self).at + 1
                } else {
                    r == RouteStep::Abort && final(self).at == old(self).at
                }
            }),
    {
        let id = self.order[self.at];
        match attempt {
            Attempt::Handled => RouteStep::Done,
            Attempt::Failed if !id.fallback_on_error() => RouteStep::Abort,
            _ => {
                self.declined.push(id);
                assert(self.at < self.order.len());
                self.at = self.at + 1;
                assert(self.declined@ =~= self.order@.take(self.at as int));
                self.next()
            },
        }
    }

    /// The steps of the machine lead to the verdict.
    pub proof fn steps_lead_to_the_verdict(
        &self,
        attempt: Attempt,
        outcome: spec_fn(TransportId) -> Attempt,
    )
        requires
            self.wf(),
            self.turn() is Try,
            attempt == outcome(self.order@[self.at as int]),
        ensures
            ({
                let id = self.order@[self.at as int];
                verdict(self.order@, outcome, self.at as int) == if attempt == Attempt::Handled {
                    Verdict::ServedBy(id)
                } else if moves_on(id, attempt) {
                    verdict(self.order@, outcome, self.at + 1)
                } else {
                    Verdict::AbortedBy(id)
                }
            }),
    {
    }
}

/// Starts a run of one operation, trying each eligible transport in priority
/// order.
pub fn execute_op(op: &DeviceOp, override_order: Option<&[TransportId]>) -> (r: Router)
    ensures
        r.wf(),
        r.at == 0,
        r.order@ == transport::order_of(
            op.default_order(),
            match override_order {
                Some(preferred) => Some(preferred@),
                None => None,
            },
        ),
{
    Router::new(resolve_order(op, override_order))
}

/// Starts a run of several operations as one unit; there is nothing to do for
/// none.
///
/// The transport order is decided by the first operation; a batch is only ever
/// built from operations that belong together, and splitting one across two
/// transports would leave a light half configured.
pub fn execute_ops(ops: &[DeviceOp], override_order: Option<&[TransportId]>) -> (r: Option<Router>)
    ensures
        match r {
            Some(router) => {
                &&& ops@.len() > 0
                &&& router.wf()
                &&& router.at == 0
                &&& router.order@ == transport::order_of(
                    ops@[0].default_order(),
                    match override_order {
                        Some(preferred) => Some(preferred@),
                        None => None,
                    },
                )
            },
            None => ops@.len() == 0,
        },
{
    if ops.len() == 0 {
        None
    } else {
        Some(execute_op(&ops[0], override_order))
    }
}

/// The names of transports.
pub open spec fn labels(ids: Seq<TransportId>) -> Seq<Seq<char>> {
    Seq::new(ids.len(), |i: int| ids[i].label_text())
}

/// What is reported when no transport carried the operations.
pub open spec fn unable_text(
    first: DeviceOp,
    device: Device,
    declined: Seq<TransportId>,
) -> Seq<char> {
    "Unable to "@ + first.description() + " for "@ + device.label_text()
        + " (no transport available; declined: "@ + text::join_with(labels(declined), ", "@)
        + seq![')']
}

fn append_labels(out: &mut String, ids: &Vec<TransportId>)
    ensures
        final(out)@ == old(out)@ + text::join_with(labels(ids@), ", "@),
{
    assert(labels(ids@.take(0)) =~= Seq::<Seq<char>>::empty());
    assert(out@ =~= old(out)@ + text::join_with(labels(ids@.take(0)), ", "@));
    for i in 0..ids.len()
        invariant
            out@ == old(out)@ + text::join_with(labels(ids@.take(i as int)), ", "@),
    {
        let ghost next = labels(ids@.take(i + 1));
        assert(next.drop_last() =~= labels(ids@.take(i as int)));
        assert(next.last() == ids@[i as int].label_text());
        if i > 0 {
            append_str(out, ", ");
        }
        append_str(out, ids[i].label());
        if i == 0 {
            assert(next[0] == ids@[0].label_text());
            assert(labels(ids@.take(0)) =~= Seq::<Seq<char>>::empty());
        }
        assert(out@ =~= old(out)@ + text::join_with(next, ", "@));
    }
    assert(ids@.take(ids@.len() as int) =~= ids@);
}

pub fn unable_message(first: &DeviceOp, device: &Device, declined: &Vec<TransportId>) -> (r: String)
    ensures
        r@ == unable_text(*first, *device, declined@),
{
    let mut out = "Unable to ".to_owned();
    append_str(&mut out, first.describe().as_str());
    append_str(&mut out, " for ");
    append_str(&mut out, device.label().as_str());
    append_str(&mut out, " (no transport available; declined: ");
    append_labels(&mut out, declined);
    out.push(')');
    assert(out@ =~= unable_text(*first, *device, declined@));
    out
}

// ------------------------------------------------------------------- one batch

/// What to do next with a batch.
#[derive(Clone, Copy, Debug, PartialEq, Eq, Structural)]
pub enum BatchStep {
    /// Carry out the operation at this place.
    Next(usize),
    /// The transport is done with the batch.
    Answer(Handled),
    /// Something has taken effect and the rest cannot: an error, not a fallback,
    /// since retrying elsewhere would apply the earlier operations twice.
    Partial,
}

/// What follows what came of the operation behind the first `applied`, and how many
/// have taken effect then.
pub open spec fn batch_goes_on(total: int, applied: int, handled: Handled) -> (BatchStep, int) {
    match handled {
        Handled::Yes => if applied + 1 < total {
            (BatchStep::Next((applied + 1) as usize), applied + 1)
        } else {
            (BatchStep::Answer(Handled::Yes), applied + 1)
        },
        Handled::NotSupported => if applied == 0 {
            (BatchStep::Answer(Handled::NotSupported), applied)
        } else {
            (BatchStep::Partial, applied)
        },
    }
}

/// A batch is carried out once every operation of it has been. A transport declines it
/// only while nothing has taken effect; after that it is an error, since another
/// transport would apply the first operations again.
pub proof fn a_batch_is_not_declined_halfway(total: int, applied: int, handled: Handled)
    requires
        0 <= applied < total <= usize::MAX,
    ensures
        ({
            let (step, after) = batch_goes_on(total, applied, handled);
            &&& step == BatchStep::Answer(Handled::Yes) <==> handled is Yes && applied + 1 == total
            &&& step == BatchStep::Answer(Handled::NotSupported) <==> handled is NotSupported
                && applied == 0
            &&& step is Partial <==> handled is NotSupported && applied > 0
            &&& step matches BatchStep::Next(next) ==> handled is Yes && next == applied + 1
            &&& handled is Yes ==> after == applied + 1
            &&& handled is NotSupported ==> after == applied
        }),
{
}

/// A batch that a transport carries out one operation at a time.
#[derive(Clone, Copy, Debug, PartialEq, Eq, Structural)]
pub struct Batch {
    pub total: usize,
    pub applied: usize,
}

impl Batch {
    pub open spec fn wf(&self) -> bool {
        self.applied <= self.total
    }

    pub open spec fn turn(&self) -> BatchStep {
        if self.applied < self.total {
            BatchStep::Next(self.applied)
        } else {
            BatchStep::Answer(Handled::Yes)
        }
    }

    /// Every operation has its turn at its own place, and behind the last the batch has
    /// been carried out.
    pub proof fn which_operation_is_next(&self)
        ensures
            self.applied < self.total ==> self.turn() == BatchStep::Next(self.applied),
            self.applied >= self.total ==> self.turn() == BatchStep::Answer(Handled::Yes),
    {
    }

    pub fn new(total: usize) -> (r: Self)
        ensures
            r.wf(),
            r.total == total,
            r.applied == 0,
    {
        Batch { total, applied: 0 }
    }

    pub fn next(&self) -> (r: BatchStep)
        ensures
            r == self.turn(),
    {
        if self.applied < self.total {
            BatchStep::Next(self.applied)
        } else {
            BatchStep::Answer(Handled::Yes)
        }
    }

    /// Takes what came of the operation whose turn it was.
    pub fn report(&mut self, handled: Handled) -> (r: BatchStep)
        requires
            old(self).wf(),
            old(self).turn() is Next,
        ensures
            final(self).wf(),
            final(self).total == old(self).total,
            (r, final(self).applied as int) == batch_goes_on(
                old(self).total as int,
                old(self).applied as int,
                handled,
            ),
            match handled {
                Handled::Yes => final(self).applied == old(self).applied + 1 && r
                    == final(self).turn(),
                Handled::NotSupported => *final(self) == *old(self) && r == (if old(self).applied
                    == 0 {
                    BatchStep::Answer(Handled::NotSupported)
                } else {
                    BatchStep::Partial
                }),
            },
    {
        match handled {
            Handled::Yes => {
                self.applied = self.applied + 1;
                self.next()
            },
            Handled::NotSupported => if self.applied == 0 {
                BatchStep::Answer(Handled::NotSupported)
            } else {
                BatchStep::Partial
            },
        }
    }
}

/// What is reported of a batch that took effect in part.
pub open spec fn partial_text(
    id: TransportId,
    batch: Batch,
    device: Device,
    refused: DeviceOp,
) -> Seq<char> {
    id.label_text() + " applied "@ + text::decimal(batch.applied as nat) + " of "@ + text::decimal(
        batch.total as nat,
    ) + " changes to "@ + device.label_text() + " and then could not "@ + refused.description()
}

pub fn partial_message(id: TransportId, batch: &Batch, device: &Device, refused: &DeviceOp) -> (r:
    String)
    ensures
        r@ == partial_text(id, *batch, *device, *refused),
{
    let mut out = id.label().to_owned();
    append_str(&mut out, " applied ");
    append_decimal(&mut out, batch.applied as u64);
    append_str(&mut out, " of ");
    append_decimal(&mut out, batch.total as u64);
    append_str(&mut out, " changes to ");
    append_str(&mut out, device.label().as_str());
    append_str(&mut out, " and then could not ");
    append_str(&mut out, refused.describe().as_str());
    out
}

} // verus!
