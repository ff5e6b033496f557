//! Batching for per-segment commands.
//!
//! Govee's `segmentedColorRgb` and `segmentedBrightness` capabilities take an
//! *array* of segment indices, but Home Assistant models each segment as its
//! own light entity and so sends one command per segment. Left alone that
//! turns a scene over a fifteen-segment device into fifteen cloud requests.
//!
//! This collects the commands that arrive together, groups them by the value
//! they ask for, and issues one request per distinct value.
use vstd::prelude::*;

use crate::base64;
use crate::ble::frame;
use crate::ble::segment;
use crate::ble::segment::{
    SegmentColor, SegmentOutOfRange, SetSegmentBrightness, SetSegmentColorRgb,
};
use crate::lan_api::DeviceColor;
use crate::platform_api::HttpDeviceInfo;
use crate::service::ble_scheduler::pending::encode as encode_frame;
use crate::service::ble_scheduler::scheduler::BleScheduler;
use crate::service::device::Device;
use crate::text::append_str;
use crate::text_map::TextMap;

verus! {

/// How long to gather segment commands before sending them, in milliseconds.
///
/// Home Assistant fans a service call out across entities concurrently, so the
/// members of one scene land within a few milliseconds of each other.
pub const WINDOW_MS: u64 = 150;

// ---------------------------------------------------------------------- groups

/// A value that segments are grouped by.
pub trait GroupKey: Sized + Copy {
    fn same(&self, other: &Self) -> (r: bool)
        ensures
            r == (*self == *other),
    ;
}

impl GroupKey for u8 {
    fn same(&self, other: &Self) -> (r: bool) {
        *self == *other
    }
}

impl GroupKey for DeviceColor {
    fn same(&self, other: &Self) -> (r: bool) {
        *self == *other
    }
}

/// Segments by the value that they want, the values in the order in which they
/// came.
pub struct Groups<K> {
    pub groups: Vec<(K, Vec<u32>)>,
}

impl<K: GroupKey> Groups<K> {
    /// No value has two groups, and no group is without segments.
    pub open spec fn wf(&self) -> bool {
        &&& forall|i: int, j: int|
            0 <= i < j < self.groups@.len() ==> (#[trigger] self.groups@[i]).0 != (
            #[trigger] self.groups@[j]).0
        &&& forall|i: int|
            0 <= i < self.groups@.len() ==> (#[trigger] self.groups@[i]).1@.len() > 0
    }

    /// The values that are wanted.
    pub open spec fn values(&self) -> Set<K> {
        self.groups@.map_values(|group: (K, Vec<u32>)| group.0).to_set()
    }

    /// There is one group for each distinct value that a segment wants.
    pub proof fn one_group_per_value(&self)
        requires
            self.wf(),
        ensures
            self.values().finite(),
            self.values().len() == self.groups@.len(),
            forall|key: K| #[trigger] self.values().contains(key) == (self.wanting(key).len() > 0),
    {
        let values = self.groups@.map_values(|group: (K, Vec<u32>)| group.0);
        assert(values.no_duplicates()) by {
            assert forall|i: int, j: int| 0 <= i < values.len() && 0 <= j < values.len() && i
                != j implies values[i] != values[j] by {
                if i < j {
                    assert(self.groups@[i].0 != self.groups@[j].0);
                } else {
                    assert(self.groups@[j].0 != self.groups@[i].0);
                }
            }
        }
        values.unique_seq_to_set();
        assert forall|key: K| #[trigger] self.values().contains(key) == (self.wanting(key).len()
            > 0) by {
            if self.values().contains(key) {
                let i = choose|i: int| 0 <= i < values.len() && values[i] == key;
                self.wanting_at(i);
                assert(self.groups@[i].0 == key);
            }
            if self.wanting(key).len() > 0 {
                let i = choose|i: int| self.is_at(key, i);
                assert(values[i] == key);
            }
        }
    }

    proof fn wanting_is_grouped(&self, segment: u32)
        requires
            self.wf(),
        ensures
            all_segments(self.groups@).contains(segment) <==> exists|key: K|
                (#[trigger] self.wanting(key)).contains(segment),
    {
        all_segments_are_those_of_a_group(self.groups@, segment);
        if all_segments(self.groups@).contains(segment) {
            let i = choose|i: int|
                0 <= i < self.groups@.len() && (#[trigger] self.groups@[i]).1@.contains(segment);
            self.wanting_at(i);
            assert(self.wanting(self.groups@[i].0).contains(segment));
        }
        if exists|key: K| (#[trigger] self.wanting(key)).contains(segment) {
            let key = choose|key: K| (#[trigger] self.wanting(key)).contains(segment);
            let i = choose|i: int| self.is_at(key, i);
            assert(self.is_at(key, i));
            assert(self.groups@[i].1@.contains(segment));
        }
    }

    pub open spec fn is_at(&self, key: K, i: int) -> bool {
        0 <= i < self.groups@.len() && self.groups@[i].0 == key
    }

    /// The segments that want a value, in the order in which they asked for it.
    pub open spec fn wanting(&self, key: K) -> Seq<u32> {
        if exists|i: int| self.is_at(key, i) {
            self.groups@[choose|i: int| self.is_at(key, i)].1@
        } else {
            Seq::<u32>::empty()
        }
    }

    pub proof fn wanting_at(&self, i: int)
        requires
            self.wf(),
            0 <= i < self.groups@.len(),
        ensures
            self.wanting(self.groups@[i].0) == self.groups@[i].1@,
    {
        let key = self.groups@[i].0;
        assert(self.is_at(key, i));
        let k = choose|k: int| self.is_at(key, k);
        assert(self.is_at(key, k));
        if k < i {
            assert(self.groups@[k].0 != self.groups@[i].0);
        } else if i < k {
            assert(self.groups@[i].0 != self.groups@[k].0);
        }
    }

    pub fn new() -> (r: Self)
        ensures
            r.wf(),
            r.groups@.len() == 0,
            forall|key: K| (#[trigger] r.wanting(key)).len() == 0,
    {
        Groups { groups: Vec::new() }
    }

    pub fn len(&self) -> (r: usize)
        ensures
            r == self.groups@.len(),
    {
        self.groups.len()
    }

    pub fn get(&self, key: K) -> (r: Option<&Vec<u32>>)
        requires
            self.wf(),
        ensures
            match r {
                Some(segments) => segments@ == self.wanting(key) && exists|i: int|
                    self.is_at(key, i),
                None => forall|i: int| !self.is_at(key, i),
            },
    {
        for i in 0..self.groups.len()
            invariant
                self.wf(),
                forall|j: int| 0 <= j < i ==> (#[trigger] self.groups@[j]).0 != key,
        {
            if self.groups[i].0.same(&key) {
                proof {
                    self.wanting_at(i as int);
                    assert(self.is_at(key, i as int));
                }
                return Some(&self.groups[i].1);
            }
        }
        None
    }

    /// Adds a segment to those that want a value.
    pub fn add(&mut self, key: K, segment: u32)
        requires
            old(self).wf(),
        ensures
            final(self).wf(),
            final(self).wanting(key) == old(self).wanting(key).push(segment),
            forall|other: K|
                other != key ==> #[trigger] final(self).wanting(other) == old(self).wanting(other),
            final(self).groups@.len() == old(self).groups@.len() + (if old(self).wanting(key).len()
                > 0 {
                0int
            } else {
                1int
            }),
            final(self).total() == old(self).total() + 1,
    {
        let ghost before = *self;
        let n: usize = self.groups.len();
        for i in 0..n
            invariant
                n == before.groups@.len(),
                *self == before,
                before == *old(self),
                self.wf(),
                forall|j: int| 0 <= j < i ==> (#[trigger] self.groups@[j]).0 != key,
        {
            if self.groups[i].0.same(&key) {
                self.groups[i].1.push(segment);
                proof {
                    before.wanting_at(i as int);
                    assert(before.is_at(key, i as int));
                    assert(self.groups@.len() == before.groups@.len());
                    assert forall|j: int| 0 <= j < self.groups@.len() implies (
                    #[trigger] self.groups@[j]).0 == before.groups@[j].0 by {}
                    assert(self.wf()) by {
                        assert forall|a: int, b: int| 0 <= a < b < self.groups@.len() implies (
                        #[trigger] self.groups@[a]).0 != (#[trigger] self.groups@[b]).0 by {
                            assert(before.groups@[a].0 != before.groups@[b].0);
                        }
                    }
                    self.wanting_at(i as int);
                    assert forall|other: K| other != key implies #[trigger] self.wanting(other)
                        == before.wanting(other) by {
                        self.same_elsewhere(&before, other);
                    }
                    Self::total_after_push(before.groups@, self.groups@, i as int, segment);
                }
                return;
            }
        }
        let mut segments: Vec<u32> = Vec::new();
        segments.push(segment);
        self.groups.push((key, segments));
        proof {
            let n = before.groups@.len() as int;
            assert(self.groups@[n] == (key, segments));
            assert forall|j: int| 0 <= j < n implies #[trigger] self.groups@[j]
                == before.groups@[j] by {}
            assert forall|a: int, b: int| 0 <= a < b < self.groups@.len() implies (
            #[trigger] self.groups@[a]).0 != (#[trigger] self.groups@[b]).0 by {
                if b == n {
                    assert(before.groups@[a].0 != key);
                } else {
                    assert(before.groups@[a].0 != before.groups@[b].0);
                }
            }
            self.wanting_at(n);
            assert forall|i: int| !before.is_at(key, i) by {}
            assert(segments@ =~= before.wanting(key).push(segment));
            assert forall|other: K| other != key implies #[trigger] self.wanting(other)
                == before.wanting(other) by {
                self.same_elsewhere(&before, other);
            }
            assert(self.groups@.drop_last() =~= before.groups@);
        }
    }

    /// What another value wants is the same if its groups are.
    proof fn same_elsewhere(&self, before: &Self, other: K)
        requires
            self.wf(),
            before.wf(),
            forall|i: int| #[trigger] before.is_at(other, i) ==> self.is_at(other, i)
                && self.groups@[i] == before.groups@[i],
            forall|i: int| #[trigger] self.is_at(other, i) ==> before.is_at(other, i),
        ensures
            self.wanting(other) == before.wanting(other),
    {
        if exists|i: int| before.is_at(other, i) {
            let i = choose|i: int| before.is_at(other, i);
            before.wanting_at(i);
            self.wanting_at(i);
        } else {
            assert(forall|i: int| !self.is_at(other, i));
        }
    }

    /// How many changes the groups hold.
    pub open spec fn total(&self) -> nat {
        total_of(self.groups@)
    }

    proof fn total_after_push(
        before: Seq<(K, Vec<u32>)>,
        after: Seq<(K, Vec<u32>)>,
        i: int,
        segment: u32,
    )
        requires
            before.len() == after.len(),
            0 <= i < before.len(),
            after[i].1@ == before[i].1@.push(segment),
            forall|j: int| 0 <= j < before.len() && j != i ==> #[trigger] after[j] == before[j],
        ensures
            total_of(after) == total_of(before) + 1,
        decreases before.len(),
    {
        if i == before.len() - 1 {
            assert(after.drop_last() =~= before.drop_last());
        } else {
            assert(after.last() == before.last());
            Self::total_after_push(before.drop_last(), after.drop_last(), i, segment);
        }
    }
}

/// How many segments the groups hold, together.
pub open spec fn total_of<K>(groups: Seq<(K, Vec<u32>)>) -> nat
    decreases groups.len(),
{
    if groups.len() == 0 {
        0
    } else {
        total_of(groups.drop_last()) + groups.last().1@.len()
    }
}

/// The segments of the groups, one group behind the other.
pub open spec fn all_segments<K>(groups: Seq<(K, Vec<u32>)>) -> Seq<u32>
    decreases groups.len(),
{
    if groups.len() == 0 {
        Seq::<u32>::empty()
    } else {
        all_segments(groups.drop_last()) + groups.last().1@
    }
}

proof fn all_segments_are_counted<K>(groups: Seq<(K, Vec<u32>)>)
    ensures
        all_segments(groups).len() == total_of(groups),
    decreases groups.len(),
{
    if groups.len() > 0 {
        all_segments_are_counted(groups.drop_last());
    }
}

proof fn all_segments_are_those_of_a_group<K>(groups: Seq<(K, Vec<u32>)>, segment: u32)
    ensures
        all_segments(groups).contains(segment) <==> exists|i: int|
            0 <= i < groups.len() && (#[trigger] groups[i]).1@.contains(segment),
    decreases groups.len(),
{
    if groups.len() > 0 {
        let fewer = groups.drop_last();
        let before = all_segments(fewer);
        let last = groups.last().1@;
        all_segments_are_those_of_a_group(fewer, segment);
        if all_segments(groups).contains(segment) {
            let k = choose|k: int| 0 <= k < (before + last).len() && (before + last)[k] == segment;
            if k < before.len() {
                assert(before[k] == segment);
                let i = choose|i: int|
                    0 <= i < fewer.len() && (#[trigger] fewer[i]).1@.contains(segment);
                assert(groups[i].1@.contains(segment));
            } else {
                assert(last[k - before.len()] == segment);
                assert(groups[groups.len() - 1].1@.contains(segment));
            }
        }
        if exists|i: int| 0 <= i < groups.len() && (#[trigger] groups[i]).1@.contains(segment) {
            let i = choose|i: int|
                0 <= i < groups.len() && (#[trigger] groups[i]).1@.contains(segment);
            if i < fewer.len() {
                assert(fewer[i].1@.contains(segment));
                let k = choose|k: int| 0 <= k < before.len() && before[k] == segment;
                assert((before + last)[k] == segment);
            } else {
                let k = choose|k: int| 0 <= k < last.len() && last[k] == segment;
                assert((before + last)[before.len() + k] == segment);
            }
        }
    }
}

fn append_segments<K>(out: &mut Vec<u32>, groups: &Vec<(K, Vec<u32>)>)
    ensures
        final(out)@ == old(out)@ + all_segments(groups@),
{
    assert(out@ =~= old(out)@ + all_segments(groups@.take(0)));
    for i in 0..groups.len()
        invariant
            out@ == old(out)@ + all_segments(groups@.take(i as int)),
    {
        assert(groups@.take(i + 1).drop_last() =~= groups@.take(i as int));
        let segments = &groups[i].1;
        let ghost before = out@;
        for k in 0..segments.len()
            invariant
                *segments == groups@[i as int].1,
                out@ == before + segments@.take(k as int),
        {
            out.push(segments[k]);
            assert(segments@.take(k + 1) =~= segments@.take(k as int).push(segments@[k as int]));
        }
        assert(segments@.take(segments@.len() as int) =~= segments@);
        assert(out@ =~= old(out)@ + all_segments(groups@.take(i + 1)));
    }
    assert(groups@.take(groups@.len() as int) =~= groups@);
}

// --------------------------------------------------------------------- pending

/// What waits for the segments of one device. A waiter is known by a number that
/// its owner picked.
pub struct Pending {
    /// Segments wanting each colour.
    pub rgb: Groups<DeviceColor>,
    /// Segments wanting each brightness.
    pub brightness: Groups<u8>,
    pub waiters: Vec<u64>,
    pub flush_scheduled: bool,
}

impl Default for Pending {
    fn default() -> (r: Self)
        ensures
            r.wf(),
            r.is_blank(),
    {
        Pending {
            rgb: Groups::new(),
            brightness: Groups::new(),
            waiters: Vec::new(),
            flush_scheduled: false,
        }
    }
}

/// The frame that gives segments a colour.
pub open spec fn color_frame(group: (DeviceColor, Vec<u32>)) -> Seq<u8> {
    frame::finished(
        SetSegmentColorRgb::payload_of(
            (group.0.r, group.0.g, group.0.b),
            segment::mask_of(group.1@),
        ),
    )
}

/// The frame that gives segments a brightness.
pub open spec fn brightness_frame(group: (u8, Vec<u32>)) -> Seq<u8> {
    frame::finished(
        SetSegmentBrightness::payload_of(group.0, segment::mask_of(group.1@)),
    )
}

/// What is asked of the Platform API.
#[derive(Debug, PartialEq, Eq)]
pub enum SegmentRequest {
    Brightness { segments: Vec<u32>, percent: u8 },
    Color { segments: Vec<u32>, color: DeviceColor },
}

/// What became of a batch on one of the channels that carry frames.
#[derive(Debug)]
pub enum Channel<T> {
    /// There was nothing to send, which is as good as sent.
    NothingToSend,
    /// The channel cannot be used for this device.
    Declined,
    /// This is what to send.
    Send(T),
    /// A segment of the batch has no place in a frame.
    Failed(SegmentOutOfRange),
}

/// A radio session for a batch.
#[derive(Debug)]
pub struct SegmentSession {
    pub address: String,
    pub frames: Vec<Vec<u8>>,
    /// The segments to read back.
    pub touched: Vec<u32>,
}

impl Pending {
    pub open spec fn wf(&self) -> bool {
        self.rgb.wf() && self.brightness.wf()
    }

    pub open spec fn is_blank(&self) -> bool {
        &&& self.rgb.groups@.len() == 0
        &&& self.brightness.groups@.len() == 0
        &&& self.waiters@.len() == 0
        &&& !self.flush_scheduled
    }

    /// Nothing is asked for.
    pub open spec fn asks_nothing(&self) -> bool {
        self.rgb.groups@.len() == 0 && self.brightness.groups@.len() == 0
    }

    /// Record one segment's wishes, grouped by the value asked for.
    pub fn add(&mut self, segment: u32, brightness: Option<u8>, rgb: Option<(u8, u8, u8)>)
        requires
            old(self).wf(),
        ensures
            final(self).wf(),
            final(self).waiters == old(self).waiters,
            final(self).flush_scheduled == old(self).flush_scheduled,
            match brightness {
                Some(percent) => {
                    &&& final(self).brightness.wanting(percent) == old(self).brightness.wanting(
                        percent,
                    ).push(segment)
                    &&& forall|other: u8|
                        other != percent ==> #[trigger] final(self).brightness.wanting(other)
                            == old(self).brightness.wanting(other)
                    &&& final(self).brightness.groups@.len() == old(self).brightness.groups@.len()
                        + (if old(self).brightness.wanting(percent).len() > 0 {
                        0int
                    } else {
                        1int
                    })
                    &&& final(self).brightness.total() == old(self).brightness.total() + 1
                },
                None => final(self).brightness == old(self).brightness,
            },
            match rgb {
                Some((r, g, b)) => {
                    let color = DeviceColor { r, g, b };
                    &&& final(self).rgb.wanting(color) == old(self).rgb.wanting(color).push(segment)
                    &&& forall|other: DeviceColor|
                        other != color ==> #[trigger] final(self).rgb.wanting(other) == old(
                            self,
                        ).rgb.wanting(other)
                    &&& final(self).rgb.groups@.len() == old(self).rgb.groups@.len() + (if old(
                        self,
                    ).rgb.wanting(color).len() > 0 {
                        0int
                    } else {
                        1int
                    })
                    &&& final(self).rgb.total() == old(self).rgb.total() + 1
                },
                None => final(self).rgb == old(self).rgb,
            },
    {
        if let Some(percent) = brightness {
            self.brightness.add(percent, segment);
        }
        if let Some((r, g, b)) = rgb {
            self.rgb.add(DeviceColor { r, g, b }, segment);
        }
    }

    /// How many requests this batch will cost.
    pub fn request_count(&self) -> (r: usize)
        requires
            self.brightness.groups@.len() + self.rgb.groups@.len() <= usize::MAX,
        ensures
            r == self.brightness.groups@.len() + self.rgb.groups@.len(),
    {
        self.brightness.len() + self.rgb.len()
    }

    /// What the Platform API costs: requests, and the changes in them.
    ///
    /// Reached only when neither AWS IoT nor Bluetooth carried the batch, so
    /// there is nothing to subtract: both colour and brightness now travel as
    /// frames, and they travel together or not at all.
    pub fn platform_only(&self) -> (r: (usize, usize))
        requires
            self.brightness.groups@.len() + self.rgb.groups@.len() <= usize::MAX,
        ensures
            r.0 == self.brightness.groups@.len() + self.rgb.groups@.len(),
            r.1 == self.brightness.total() + self.rgb.total(),
    {
        let touched = self.touched();
        proof {
            all_segments_are_counted(self.rgb.groups@);
            all_segments_are_counted(self.brightness.groups@);
        }
        (self.request_count(), touched.len())
    }

    /// The segments that the batch touches: those of the colours, and then those of the
    /// brightnesses.
    pub open spec fn touched_segments(&self) -> Seq<u32> {
        all_segments(self.rgb.groups@) + all_segments(self.brightness.groups@)
    }

    /// A batch asks for nothing exactly if no segment wants anything, and a new batch is
    /// one that asks for nothing and that nobody waits for.
    pub proof fn what_asks_for_nothing(&self)
        requires
            self.wf(),
        ensures
            self.asks_nothing() <==> self.group_count() == 0,
            self.asks_nothing() ==> forall|color: DeviceColor|
                #[trigger] self.rgb.wanting(color) == Seq::<u32>::empty(),
            self.asks_nothing() ==> forall|percent: u8|
                #[trigger] self.brightness.wanting(percent) == Seq::<u32>::empty(),
            self.asks_nothing() <==> self.touched_segments().len() == 0,
            self.is_blank() ==> self.asks_nothing() && self.waiters@.len() == 0
                && !self.flush_scheduled,
    {
        all_segments_are_counted(self.rgb.groups@);
        all_segments_are_counted(self.brightness.groups@);
        reveal_with_fuel(all_segments, 2);
        if self.rgb.groups@.len() > 0 {
            let n = self.rgb.groups@.len() - 1;
            assert(self.rgb.groups@[n].1@.len() > 0);
        }
        if self.brightness.groups@.len() > 0 {
            let n = self.brightness.groups@.len() - 1;
            assert(self.brightness.groups@[n].1@.len() > 0);
        }
    }

    /// Every segment that wants a colour or a brightness is read back, and no other.
    /// There are as many changes as segments that want something.
    pub proof fn every_wanting_segment_is_touched(&self, segment: u32)
        requires
            self.wf(),
        ensures
            self.touched_segments().contains(segment) <==> (exists|color: DeviceColor|
                (#[trigger] self.rgb.wanting(color)).contains(segment)) || (exists|percent: u8|
                (#[trigger] self.brightness.wanting(percent)).contains(segment)),
            self.touched_segments().len() == self.brightness.total() + self.rgb.total(),
    {
        let colors = all_segments(self.rgb.groups@);
        let rest = all_segments(self.brightness.groups@);
        all_segments_are_counted(self.rgb.groups@);
        all_segments_are_counted(self.brightness.groups@);
        self.rgb.wanting_is_grouped(segment);
        self.brightness.wanting_is_grouped(segment);
        if colors.contains(segment) {
            let i = choose|i: int| 0 <= i < colors.len() && colors[i] == segment;
            assert((colors + rest)[i] == segment);
        }
        if rest.contains(segment) {
            let i = choose|i: int| 0 <= i < rest.len() && rest[i] == segment;
            assert((colors + rest)[colors.len() + i] == segment);
        }
        if (colors + rest).contains(segment) {
            let i = choose|i: int| 0 <= i < (colors + rest).len() && (colors + rest)[i] == segment;
            if i < colors.len() {
                assert(colors[i] == segment);
            } else {
                assert(rest[i - colors.len()] == segment);
            }
        }
    }

    /// Every segment the batch touches, for the read-back.
    pub fn touched(&self) -> (r: Vec<u32>)
        ensures
            r@ == self.touched_segments(),
            r@ == all_segments(self.rgb.groups@) + all_segments(self.brightness.groups@),
    {
        let mut out: Vec<u32> = Vec::new();
        append_segments(&mut out, &self.rgb.groups);
        append_segments(&mut out, &self.brightness.groups);
        assert(out@ =~= all_segments(self.rgb.groups@) + all_segments(self.brightness.groups@));
        out
    }

    /// The segments of group `i`, counting the colours and then the brightnesses.
    pub open spec fn group_segments(&self, i: int) -> Seq<u32> {
        if i < self.rgb.groups@.len() {
            self.rgb.groups@[i].1@
        } else {
            self.brightness.groups@[i - self.rgb.groups@.len()].1@
        }
    }

    /// The frame of group `i`.
    pub open spec fn group_frame(&self, i: int) -> Seq<u8> {
        if i < self.rgb.groups@.len() {
            color_frame(self.rgb.groups@[i])
        } else {
            brightness_frame(self.brightness.groups@[i - self.rgb.groups@.len()])
        }
    }

    pub open spec fn group_count(&self) -> nat {
        self.rgb.groups@.len() + self.brightness.groups@.len()
    }

    /// A batch costs one frame, or one request, for each distinct colour and each
    /// distinct brightness that a segment wants.
    pub proof fn one_request_per_value(&self)
        requires
            self.wf(),
        ensures
            self.group_count() == self.rgb.values().len() + self.brightness.values().len(),
            self.rgb.values().finite(),
            self.brightness.values().finite(),
            forall|color: DeviceColor| #[trigger]
                self.rgb.values().contains(color) == (self.rgb.wanting(color).len() > 0),
            forall|percent: u8| #[trigger]
                self.brightness.values().contains(percent) == (self.brightness.wanting(
                    percent,
                ).len() > 0),
    {
        self.rgb.one_group_per_value();
        self.brightness.one_group_per_value();
    }

    /// Every segment of the first `n` groups has a place in a frame.
    pub open spec fn encodable(&self, n: int) -> bool {
        forall|i: int|
            0 <= i < n ==> segment::all_addressable(#[trigger] self.group_segments(i))
    }

    /// The frames of the batch, one for each distinct value.
    pub open spec fn are_frames(&self, frames: Seq<Vec<u8>>) -> bool {
        &&& frames.len() == self.group_count()
        &&& forall|i: int| 0 <= i < frames.len() ==> (#[trigger] frames[i])@ == self.group_frame(i)
    }

    /// The first segment that has no place in a frame.
    pub open spec fn refuses(&self, err: SegmentOutOfRange) -> bool {
        exists|i: int|
            0 <= i < self.group_count() && self.encodable(i) && segment::is_first_out_of_range(
                #[trigger] self.group_segments(i),
                err.segment,
            )
    }

    /// One frame per distinct value, each naming its own segments.
    ///
    /// Colour and brightness travel together: they are independent frames and a
    /// device applies several from one message, so a batch that changes both
    /// costs one message rather than two.
    pub fn encode(&self) -> (r: Result<Vec<Vec<u8>>, SegmentOutOfRange>)
        ensures
            match r {
                Ok(frames) => {
                    &&& self.encodable(self.group_count() as int)
                    &&& self.are_frames(frames@)
                    &&& forall|i: int|
                        0 <= i < frames@.len() ==> frame::is_valid_frame(
                            (#[trigger] frames@[i])@,
                        )
                },
                Err(err) => self.refuses(err),
            },
    {
        let mut frames: Vec<Vec<u8>> = Vec::new();
        let colors: usize = self.rgb.groups.len();
        for i in 0..colors
            invariant
                colors == self.rgb.groups@.len(),
                frames@.len() == i,
                self.encodable(i as int),
                forall|j: int|
                    0 <= j < i ==> (#[trigger] frames@[j])@ == self.group_frame(j)
                        && frame::is_valid_frame(frames@[j]@),
        {
            let group = &self.rgb.groups[i];
            let color = group.0;
            assert(self.group_segments(i as int) == group.1@);
            match SetSegmentColorRgb::for_segments(
                group.1.as_slice(),
                (color.r, color.g, color.b),
            ) {
                Ok(command) => {
                    proof {
                        frame::finished_is_valid(command.payload());
                    }
                    frames.push(encode_frame(&command));
                },
                Err(err) => {
                    return Err(err);
                },
            }
        }
        for i in 0..self.brightness.groups.len()
            invariant
                colors == self.rgb.groups@.len(),
                frames@.len() == colors + i,
                self.encodable(colors + i),
                forall|j: int|
                    0 <= j < colors + i ==> (#[trigger] frames@[j])@ == self.group_frame(j)
                        && frame::is_valid_frame(frames@[j]@),
        {
            let group = &self.brightness.groups[i];
            assert(self.group_segments(colors + i) == group.1@);
            match SetSegmentBrightness::for_segments(group.1.as_slice(), group.0) {
                Ok(command) => {
                    proof {
                        frame::finished_is_valid(command.payload());
                    }
                    frames.push(encode_frame(&command));
                },
                Err(err) => {
                    return Err(err);
                },
            }
        }
        Ok(frames)
    }

    // ---------------------------------------------------------------- channels

    /// The texts carry the frames of the batch, each as it is.
    pub open spec fn are_texts(&self, texts: Seq<String>) -> bool {
        &&& texts.len() == self.group_count()
        &&& forall|i: int|
            0 <= i < texts.len() ==> {
                &&& (#[trigger] texts[i])@ == base64::base64_text(self.group_frame(i))
                &&& base64::base64_data(texts[i]@) == Some(self.group_frame(i))
            }
    }

    /// Whether a batch may go out over AWS IoT.
    pub open spec fn iot_usable(iot_available: bool, device: Device) -> bool {
        iot_available && device.has_topic()
    }

    /// Decides whether the batch goes out as raw frames over AWS IoT.
    ///
    /// Every value rides in one `ptReal` message: the frames are independent,
    /// each naming its own segments, and a device applies several from one
    /// message. The frames are complete as they are; finishing them again would
    /// spoil their checksums.
    pub fn send_via_iot(&self, iot_available: bool, device: &Device) -> (r: Channel<Vec<String>>)
        ensures
            if self.asks_nothing() {
                r is NothingToSend
            } else if !Self::iot_usable(iot_available, *device) {
                r is Declined
            } else {
                match r {
                    Channel::Send(texts) => self.encodable(self.group_count() as int)
                        && self.are_texts(texts@),
                    Channel::Failed(err) => self.refuses(err),
                    _ => false,
                }
            },
    {
        if self.rgb.len() == 0 && self.brightness.len() == 0 {
            return Channel::NothingToSend;
        }
        if !iot_available || !device.has_iot_topic() {
            return Channel::Declined;
        }
        let frames = match self.encode() {
            Ok(frames) => frames,
            Err(err) => {
                return Channel::Failed(err);
            },
        };
        let mut texts: Vec<String> = Vec::new();
        for i in 0..frames.len()
            invariant
                self.are_frames(frames@),
                forall|k: int|
                    0 <= k < frames@.len() ==> frame::is_valid_frame((#[trigger] frames@[k])@),
                texts@.len() == i,
                forall|j: int|
                    0 <= j < i ==> {
                        &&& (#[trigger] texts@[j])@ == base64::base64_text(self.group_frame(j))
                        &&& base64::base64_data(texts@[j]@) == Some(self.group_frame(j))
                    },
        {
            assert(frame::is_valid_frame(frames@[i as int]@));
            assert(frames@[i as int]@ == self.group_frame(i as int));
            texts.push(crate::base64::base64_encode(frames[i].as_slice()));
        }
        Channel::Send(texts)
    }

    /// Decides whether the batch goes out as raw frames over Bluetooth.
    ///
    /// Declines quietly when Bluetooth is off, excluded for this device, the
    /// executor is absent, or the circuit breaker is open — those are routing
    /// decisions, and the Platform API is still there.
    pub fn send_via_ble(
        &self,
        scheduler: &Option<BleScheduler>,
        device: &Device,
        now_ms: u64,
    ) -> (r: Channel<SegmentSession>)
        requires
            scheduler matches Some(s) ==> s.wf(),
        ensures
            if self.asks_nothing() {
                r is NothingToSend
            } else {
                match scheduler {
                    Some(s) => if s.address_text(*device) is None || !s.available(
                        *device,
                        now_ms,
                    ) {
                        r is Declined
                    } else {
                        match r {
                            Channel::Send(session) => {
                                &&& self.encodable(self.group_count() as int)
                                &&& s.address_text(*device) == Some(session.address@)
                                &&& self.are_frames(session.frames@)
                                &&& session.touched@ == all_segments(self.rgb.groups@)
                                    + all_segments(self.brightness.groups@)
                            },
                            Channel::Failed(err) => self.refuses(err),
                            _ => false,
                        }
                    },
                    None => r is Declined,
                }
            },
    {
        if self.rgb.len() == 0 && self.brightness.len() == 0 {
            return Channel::NothingToSend;
        }
        match scheduler {
            Some(scheduler) => {
                let address = match scheduler.address_for(device) {
                    Some(address) => address,
                    None => {
                        return Channel::Declined;
                    },
                };
                if !scheduler.is_available_for(device, now_ms) {
                    return Channel::Declined;
                }
                match self.encode() {
                    Ok(frames) => Channel::Send(
                        SegmentSession { address, frames, touched: self.touched() },
                    ),
                    Err(err) => Channel::Failed(err),
                }
            },
            None => Channel::Declined,
        }
    }

    /// What is asked of the Platform API, one request for each distinct value:
    /// the brightnesses and then the colours.
    pub open spec fn are_requests(&self, requests: Seq<SegmentRequest>) -> bool {
        let b = self.brightness.groups@;
        let c = self.rgb.groups@;
        &&& requests.len() == b.len() + c.len()
        &&& forall|i: int|
            0 <= i < b.len() ==> ((#[trigger] requests[i]) matches SegmentRequest::Brightness {
                segments,
                percent,
            } && segments@ == b[i].1@ && percent == b[i].0)
        &&& forall|i: int|
            b.len() <= i < requests.len() ==> ((
            #[trigger] requests[i]) matches SegmentRequest::Color { segments, color } && segments@
                == c[i - b.len()].1@ && color == c[i - b.len()].0)
    }

    pub fn platform_requests(&self) -> (r: Vec<SegmentRequest>)
        ensures
            self.are_requests(r@),
    {
        let mut requests: Vec<SegmentRequest> = Vec::new();
        let ghost b = self.brightness.groups@;
        let ghost c = self.rgb.groups@;
        for i in 0..self.brightness.groups.len()
            invariant
                b == self.brightness.groups@,
                requests@.len() == i,
                forall|j: int|
                    0 <= j < i ==> ((
                    #[trigger] requests@[j]) matches SegmentRequest::Brightness {
                        segments,
                        percent,
                    } && segments@ == b[j].1@ && percent == b[j].0),
        {
            let group = &self.brightness.groups[i];
            requests.push(
                SegmentRequest::Brightness { segments: copy_segments(&group.1), percent: group.0 },
            );
        }
        for i in 0..self.rgb.groups.len()
            invariant
                b == self.brightness.groups@,
                c == self.rgb.groups@,
                requests@.len() == b.len() + i,
                forall|j: int|
                    0 <= j < b.len() ==> ((
                    #[trigger] requests@[j]) matches SegmentRequest::Brightness {
                        segments,
                        percent,
                    } && segments@ == b[j].1@ && percent == b[j].0),
                forall|j: int|
                    b.len() <= j < b.len() + i ==> ((
                    #[trigger] requests@[j]) matches SegmentRequest::Color { segments, color }
                        && segments@ == c[j - b.len()].1@ && color == c[j - b.len()].0),
        {
            let group = &self.rgb.groups[i];
            requests.push(
                SegmentRequest::Color { segments: copy_segments(&group.1), color: group.0 },
            );
        }
        requests
    }
}

fn copy_segments(segments: &Vec<u32>) -> (r: Vec<u32>)
    ensures
        r@ == segments@,
{
    let mut out: Vec<u32> = Vec::new();
    for i in 0..segments.len()
        invariant
            out@ == segments@.take(i as int),
    {
        out.push(segments[i]);
        assert(segments@.take(i + 1) =~= segments@.take(i as int).push(segments@[i as int]));
    }
    assert(segments@.take(segments@.len() as int) =~= segments@);
    out
}

// ------------------------------------------------------------------- remembering

/// The picture of the segments with the colour that was commanded for some of
/// them, and whether it differs. Segments that were never reported stay unknown.
pub open spec fn commanded(
    before: (Map<u32, SegmentColor>, bool),
    segments: Seq<u32>,
    color: DeviceColor,
) -> (Map<u32, SegmentColor>, bool)
    decreases segments.len(),
{
    if segments.len() == 0 {
        before
    } else {
        let (map, changed) = commanded(before, segments.drop_last(), color);
        let segment = segments.last();
        if map.contains_key(segment) {
            let shown = SegmentColor {
                brightness: map[segment].brightness,
                r: color.r,
                g: color.g,
                b: color.b,
            };
            (map.insert(segment, shown), changed || map[segment] != shown)
        } else {
            (map, changed)
        }
    }
}

/// The picture of the segments after all colours of a batch.
pub open spec fn commanded_all(
    map: Map<u32, SegmentColor>,
    groups: Seq<(DeviceColor, Vec<u32>)>,
) -> (Map<u32, SegmentColor>, bool)
    decreases groups.len(),
{
    if groups.len() == 0 {
        (map, false)
    } else {
        commanded(
            commanded_all(map, groups.drop_last()),
            groups.last().1@,
            groups.last().0,
        )
    }
}

/// Write the commanded colours into the device's own picture. Returns whether
/// it changed.
///
/// Without this the segment topic keeps carrying the colour the device last
/// *reported* until a poll brings a fresh page. The device's own report still
/// corrects this when it arrives.
///
/// Brightness is deliberately not recorded.
pub fn remember_what_we_asked_for(device: &mut Device, pending: &Pending) -> (r: bool)
    requires
        old(device).wf(),
    ensures
        final(device).wf(),
        *final(device) == (Device { segment_colors: final(device).segment_colors, ..*old(device) }),
        (final(device).segment_colors@, r) == commanded_all(
            old(device).segment_colors@,
            pending.rgb.groups@,
        ),
{
    let groups = &pending.rgb.groups;
    let mut changed = false;
    for i in 0..groups.len()
        invariant
            *groups == pending.rgb.groups,
            device.wf(),
            *device == (Device { segment_colors: device.segment_colors, ..*old(device) }),
            (device.segment_colors@, changed) == commanded_all(
                old(device).segment_colors@,
                groups@.take(i as int),
            ),
    {
        assert(groups@.take(i + 1).drop_last() =~= groups@.take(i as int));
        let color = groups[i].0;
        let segments = &groups[i].1;
        let ghost before = (device.segment_colors@, changed);
        for k in 0..segments.len()
            invariant
                device.wf(),
                *device == (Device { segment_colors: device.segment_colors, ..*old(device) }),
                (device.segment_colors@, changed) == commanded(
                    before,
                    segments@.take(k as int),
                    color,
                ),
        {
            assert(segments@.take(k + 1).drop_last() =~= segments@.take(k as int));
            let one = device.set_commanded_segment_color(
                segments[k],
                color.r,
                color.g,
                color.b,
            );
            changed = changed || one;
        }
        assert(segments@.take(segments@.len() as int) =~= segments@);
    }
    assert(groups@.take(groups@.len() as int) =~= groups@);
    changed
}

// --------------------------------------------------------------------- channels

/// The channel that a batch is handed to next.
#[derive(Clone, Copy, Debug, PartialEq, Eq, Structural)]
pub enum Route {
    /// AWS IoT first: one message carries the whole batch, and it spends no
    /// Platform API quota.
    Iot,
    /// Bluetooth carries the same frames, and for a segmented device that has no
    /// cloud path it is the only thing that can. Tried after AWS IoT because a
    /// radio session is slower and holds a proxy connection slot.
    Ble,
    Platform,
    /// The batch has been carried.
    Done,
}

impl Route {
    pub open spec fn following(self, sent: bool) -> Route {
        if sent {
            Route::Done
        } else {
            match self {
                Route::Iot => Route::Ble,
                Route::Ble => Route::Platform,
                Route::Platform => Route::Done,
                Route::Done => Route::Done,
            }
        }
    }

    /// The channel that follows one that has had its turn. A channel that failed
    /// has not sent the batch: falling back rather than failing.
    pub fn next(self, sent: bool) -> (r: Route)
        ensures
            r == self.following(sent),
    {
        if sent {
            return Route::Done;
        }
        match self {
            Route::Iot => Route::Ble,
            Route::Ble => Route::Platform,
            Route::Platform => Route::Done,
            Route::Done => Route::Done,
        }
    }
}

/// What the Platform API is asked for, or why it cannot be.
pub fn platform_target(client_available: bool, device: &Device) -> (r: Result<
    &HttpDeviceInfo,
    String,
>)
    ensures
        match (device.http_device_info, r) {
            (Some(info), Ok(target)) => client_available && *target == info,
            (_, Err(message)) => if !client_available {
                message@ == "set segments for "@ + device.label_text()
                    + ": Platform API unavailable"@
            } else {
                device.http_device_info is None && message@ == "set segments for "@
                    + device.label_text() + ": no HTTP device info"@
            },
            _ => false,
        },
{
    let mut message = "set segments for ".to_owned();
    append_str(&mut message, device.label().as_str());
    if !client_available {
        append_str(&mut message, ": Platform API unavailable");
        return Err(message);
    }
    match &device.http_device_info {
        Some(info) => Ok(info),
        None => {
            append_str(&mut message, ": no HTTP device info");
            Err(message)
        },
    }
}

// --------------------------------------------------------------------- batcher

/// What waits for the segments of all devices.
pub struct SegmentBatcher {
    pub devices: TextMap<Pending>,
}

impl Default for SegmentBatcher {
    fn default() -> (r: Self)
        ensures
            r.wf(),
            forall|id: Seq<char>| !#[trigger] r.devices.has(id),
    {
        SegmentBatcher { devices: TextMap::new() }
    }
}

/// What became of a change that was asked for.
#[derive(Clone, Copy, Debug, PartialEq, Eq, Structural)]
pub enum Queued {
    /// Nothing was asked for.
    Nothing,
    /// The waiter waits for the batch that carries the change.
    Waits,
    /// So does this one, and the batch is to be flushed after the window.
    WaitsAndFlushes,
}

impl SegmentBatcher {
    pub open spec fn wf(&self) -> bool {
        &&& self.devices.wf()
        &&& forall|id: Seq<char>| self.devices.has(id) ==> (#[trigger] self.devices.at(id)).wf()
    }

    /// Nothing but the batch of one device is different in `after`.
    pub open spec fn only_batch_differs(&self, after: &SegmentBatcher, device_id: Seq<char>) -> bool {
        &&& forall|other: Seq<char>|
            other != device_id ==> #[trigger] after.devices.has(other) == self.devices.has(other)
        &&& forall|other: Seq<char>|
            other != device_id && self.devices.has(other) ==> #[trigger] after.devices.at(other)
                == self.devices.at(other)
    }

    pub open spec fn wanting_color(&self, device_id: Seq<char>, color: DeviceColor) -> Seq<u32> {
        if self.devices.has(device_id) {
            self.devices.at(device_id).rgb.wanting(color)
        } else {
            Seq::<u32>::empty()
        }
    }

    pub open spec fn wanting_brightness(&self, device_id: Seq<char>, percent: u8) -> Seq<u32> {
        if self.devices.has(device_id) {
            self.devices.at(device_id).brightness.wanting(percent)
        } else {
            Seq::<u32>::empty()
        }
    }

    pub open spec fn waiters_for(&self, device_id: Seq<char>) -> Seq<u64> {
        if self.devices.has(device_id) {
            self.devices.at(device_id).waiters@
        } else {
            Seq::<u64>::empty()
        }
    }

    pub open spec fn flush_due(&self, device_id: Seq<char>) -> bool {
        self.devices.has(device_id) && self.devices.at(device_id).flush_scheduled
    }

    /// Whether `after` is this batcher once a change to a segment was queued and
    /// someone waits for it.
    pub open spec fn queues(
        &self,
        device_id: Seq<char>,
        segment: u32,
        brightness: Option<u8>,
        rgb: Option<(u8, u8, u8)>,
        waiter: u64,
        after: SegmentBatcher,
    ) -> bool {
        &&& after.waiters_for(device_id) == self.waiters_for(device_id).push(waiter)
        &&& after.flush_due(device_id)
        &&& forall|percent: u8| #[trigger]
            after.wanting_brightness(device_id, percent) == (if brightness == Some(percent) {
                self.wanting_brightness(device_id, percent).push(segment)
            } else {
                self.wanting_brightness(device_id, percent)
            })
        &&& forall|color: DeviceColor| #[trigger]
            after.wanting_color(device_id, color) == (if rgb == Some((color.r, color.g, color.b)) {
                self.wanting_color(device_id, color).push(segment)
            } else {
                self.wanting_color(device_id, color)
            })
    }

    /// Whether `after` is this batcher once it handed over what was queued for a
    /// device.
    pub open spec fn hands_over(
        &self,
        device_id: Seq<char>,
        pending: Pending,
        after: SegmentBatcher,
    ) -> bool {
        &&& self.devices.has(device_id)
        &&& pending.rgb == self.devices.at(device_id).rgb
        &&& pending.brightness == self.devices.at(device_id).brightness
        &&& pending.waiters@ == self.waiters_for(device_id)
        &&& after.waiters_for(device_id).len() == 0
        &&& !after.flush_due(device_id)
    }

    /// Changes to two segments go out in one batch: each segment is among those that
    /// want its colour and its brightness, those that want the same share a group, and
    /// everyone who waits for either waits for that batch.
    pub proof fn changes_go_out_together(
        first: SegmentBatcher,
        second: SegmentBatcher,
        third: SegmentBatcher,
        last: SegmentBatcher,
        device_id: Seq<char>,
        one: (u32, Option<u8>, Option<(u8, u8, u8)>, u64),
        other: (u32, Option<u8>, Option<(u8, u8, u8)>, u64),
        pending: Pending,
    )
        requires
            first.queues(device_id, one.0, one.1, one.2, one.3, second),
            second.queues(device_id, other.0, other.1, other.2, other.3, third),
            third.hands_over(device_id, pending, last),
        ensures
            one.1 is Some ==> pending.brightness.wanting(one.1->0).contains(one.0),
            other.1 is Some ==> pending.brightness.wanting(other.1->0).contains(other.0),
            one.2 matches Some((r, g, b)) ==> pending.rgb.wanting(
                DeviceColor { r, g, b },
            ).contains(one.0),
            other.2 matches Some((r, g, b)) ==> pending.rgb.wanting(
                DeviceColor { r, g, b },
            ).contains(other.0),
            pending.waiters@ == first.waiters_for(device_id).push(one.3).push(other.3),
            last.waiters_for(device_id).len() == 0,
            third.devices.at(device_id).flush_scheduled,
            last.devices.has(device_id) ==> !last.devices.at(device_id).flush_scheduled,
            !last.flush_due(device_id),
            forall|percent: u8|
                one.1 != Some(percent) && other.1 != Some(percent)
                    ==> #[trigger] pending.brightness.wanting(percent) == first.wanting_brightness(
                    device_id,
                    percent,
                ),
            forall|color: DeviceColor|
                one.2 != Some((color.r, color.g, color.b)) && other.2 != Some(
                    (color.r, color.g, color.b),
                ) ==> #[trigger] pending.rgb.wanting(color) == first.wanting_color(device_id, color),
    {
        if let Some(p) = one.1 {
            let start = first.wanting_brightness(device_id, p);
            assert(second.wanting_brightness(device_id, p) == start.push(one.0));
            assert(start.push(one.0)[start.len() as int] == one.0);
            assert(third.wanting_brightness(device_id, p) == pending.brightness.wanting(p));
            assert(pending.brightness.wanting(p)[start.len() as int] == one.0);
        }
        if let Some(p) = other.1 {
            let start = second.wanting_brightness(device_id, p);
            assert(third.wanting_brightness(device_id, p) == start.push(other.0));
            assert(start.push(other.0)[start.len() as int] == other.0);
            assert(third.wanting_brightness(device_id, p) == pending.brightness.wanting(p));
        }
        if let Some((r, g, b)) = one.2 {
            let c = DeviceColor { r, g, b };
            let start = first.wanting_color(device_id, c);
            assert(second.wanting_color(device_id, c) == start.push(one.0));
            assert(start.push(one.0)[start.len() as int] == one.0);
            assert(third.wanting_color(device_id, c) == pending.rgb.wanting(c));
            assert(pending.rgb.wanting(c)[start.len() as int] == one.0);
        }
        if let Some((r, g, b)) = other.2 {
            let c = DeviceColor { r, g, b };
            let start = second.wanting_color(device_id, c);
            assert(third.wanting_color(device_id, c) == start.push(other.0));
            assert(start.push(other.0)[start.len() as int] == other.0);
            assert(third.wanting_color(device_id, c) == pending.rgb.wanting(c));
        }
        assert forall|percent: u8|
            one.1 != Some(percent) && other.1 != Some(
                percent,
            ) implies #[trigger] pending.brightness.wanting(percent) == first.wanting_brightness(
            device_id,
            percent,
        ) by {
            assert(third.wanting_brightness(device_id, percent) == pending.brightness.wanting(
                percent,
            ));
            assert(second.wanting_brightness(device_id, percent) == first.wanting_brightness(
                device_id,
                percent,
            ));
        }
        assert forall|color: DeviceColor|
            one.2 != Some((color.r, color.g, color.b)) && other.2 != Some(
                (color.r, color.g, color.b),
            ) implies #[trigger] pending.rgb.wanting(color) == first.wanting_color(
            device_id,
            color,
        ) by {
            assert(third.wanting_color(device_id, color) == pending.rgb.wanting(color));
            assert(second.wanting_color(device_id, color) == first.wanting_color(
                device_id,
                color,
            ));
        }
    }

    /// What is queued for a device, or handed over, is no other device's matter.
    pub proof fn other_batches_stay(
        &self,
        after: SegmentBatcher,
        device_id: Seq<char>,
        other: Seq<char>,
        color: DeviceColor,
        percent: u8,
    )
        requires
            self.only_batch_differs(&after, device_id),
            other != device_id,
        ensures
            after.wanting_color(other, color) == self.wanting_color(other, color),
            after.wanting_brightness(other, percent) == self.wanting_brightness(other, percent),
            after.waiters_for(other) == self.waiters_for(other),
            after.flush_due(other) == self.flush_due(other),
    {
    }

    /// Queue a change to one segment, for the request that carries it.
    pub fn apply(
        &mut self,
        device_id: &str,
        segment: u32,
        brightness: Option<u8>,
        rgb: Option<(u8, u8, u8)>,
        waiter: u64,
    ) -> (r: Queued)
        requires
            old(self).wf(),
        ensures
            final(self).wf(),
            old(self).only_batch_differs(final(self), device_id@),
            brightness is Some || rgb is Some ==> old(self).queues(
                device_id@,
                segment,
                brightness,
                rgb,
                waiter,
                *final(self),
            ),
            if brightness is None && rgb is None {
                r == Queued::Nothing && *final(self) == *old(self)
            } else {
                &&& r == (if old(self).flush_due(device_id@) {
                    Queued::Waits
                } else {
                    Queued::WaitsAndFlushes
                })
                &&& final(self).flush_due(device_id@)
                &&& final(self).waiters_for(device_id@) == old(self).waiters_for(device_id@).push(
                    waiter,
                )
                &&& forall|percent: u8| #[trigger]
                    final(self).wanting_brightness(device_id@, percent) == (if brightness == Some(
                        percent,
                    ) {
                        old(self).wanting_brightness(device_id@, percent).push(segment)
                    } else {
                        old(self).wanting_brightness(device_id@, percent)
                    })
                &&& forall|color: DeviceColor| #[trigger]
                    final(self).wanting_color(device_id@, color) == (if rgb == Some(
                        (color.r, color.g, color.b),
                    ) {
                        old(self).wanting_color(device_id@, color).push(segment)
                    } else {
                        old(self).wanting_color(device_id@, color)
                    })
            },
    {
        if brightness.is_none() && rgb.is_none() {
            return Queued::Nothing;
        }
        let ghost before = *self;
        let mut pending = match self.devices.remove(device_id) {
            Some(pending) => pending,
            None => Pending::default(),
        };
        let ghost start = pending;
        assert(start.waiters@ =~= before.waiters_for(device_id@));
        assert forall|percent: u8| #[trigger] start.brightness.wanting(percent)
            == before.wanting_brightness(device_id@, percent) by {
            if !before.devices.has(device_id@) {
                assert(start.brightness.wanting(percent) =~= Seq::<u32>::empty());
            }
        }
        assert forall|color: DeviceColor| #[trigger] start.rgb.wanting(color)
            == before.wanting_color(device_id@, color) by {
            if !before.devices.has(device_id@) {
                assert(start.rgb.wanting(color) =~= Seq::<u32>::empty());
            }
        }
        pending.add(segment, brightness, rgb);
        pending.waiters.push(waiter);
        let result = if pending.flush_scheduled {
            Queued::Waits
        } else {
            pending.flush_scheduled = true;
            Queued::WaitsAndFlushes
        };
        let ghost added = pending;
        self.devices.insert(device_id.to_owned(), pending);
        proof {
            assert forall|percent: u8| #[trigger] self.wanting_brightness(device_id@, percent)
                == (if brightness == Some(percent) {
                before.wanting_brightness(device_id@, percent).push(segment)
            } else {
                before.wanting_brightness(device_id@, percent)
            }) by {
                assert(self.wanting_brightness(device_id@, percent) == added.brightness.wanting(
                    percent,
                ));
                assert(start.brightness.wanting(percent) == before.wanting_brightness(
                    device_id@,
                    percent,
                ));
            }
            assert forall|color: DeviceColor| #[trigger] self.wanting_color(device_id@, color) == (
            if rgb == Some((color.r, color.g, color.b)) {
                before.wanting_color(device_id@, color).push(segment)
            } else {
                before.wanting_color(device_id@, color)
            }) by {
                assert(self.wanting_color(device_id@, color) == added.rgb.wanting(color));
                assert(start.rgb.wanting(color) == before.wanting_color(device_id@, color));
            }
            assert forall|id: Seq<char>| self.devices.has(id) implies (
            #[trigger] self.devices.at(id)).wf() by {
                if id != device_id@ {
                    assert(before.devices.at(id).wf());
                }
            }
        }
        result
    }

    /// Takes the batch of a device, once the window has passed.
    pub fn flush_after_window(&mut self, device_id: &str) -> (r: Option<Pending>)
        requires
            old(self).wf(),
        ensures
            final(self).wf(),
            old(self).only_batch_differs(final(self), device_id@),
            r matches Some(pending) ==> old(self).hands_over(device_id@, pending, *final(self)),
            match r {
                Some(pending) => {
                    &&& old(self).devices.has(device_id@)
                    &&& pending == (Pending {
                        flush_scheduled: false,
                        ..old(self).devices.at(device_id@)
                    })
                    &&& pending.wf()
                    &&& final(self).devices.has(device_id@)
                    &&& final(self).devices.at(device_id@).is_blank()
                },
                None => !old(self).devices.has(device_id@) && !final(self).devices.has(device_id@),
            },
    {
        let ghost before = *self;
        match self.devices.remove(device_id) {
            Some(pending) => {
                let mut pending = pending;
                assert(before.devices.at(device_id@).wf());
                pending.flush_scheduled = false;
                let blank = Pending::default();
                self.devices.insert(device_id.to_owned(), blank);
                proof {
                    assert forall|id: Seq<char>| self.devices.has(id) implies (
                    #[trigger] self.devices.at(id)).wf() by {
                        if id != device_id@ {
                            assert(before.devices.at(id).wf());
                        }
                    }
                }
                Some(pending)
            },
            None => {
                proof {
                    assert forall|id: Seq<char>| self.devices.has(id) implies (
                    #[trigger] self.devices.at(id)).wf() by {
                        if id != device_id@ {
                            assert(before.devices.at(id).wf());
                        }
                    }
                }
                None
            },
        }
    }
}

/// Both channels carry the same bytes: what goes out over AWS IoT decodes to
/// what goes out over the radio, and each of these frames is valid.
pub proof fn both_channels_carry_the_same_bytes(
    pending: Pending,
    texts: Seq<String>,
    frames: Seq<Vec<u8>>,
    i: int,
)
    requires
        pending.encodable(pending.group_count() as int),
        pending.are_texts(texts),
        pending.are_frames(frames),
        0 <= i < pending.group_count(),
    ensures
        base64::base64_data(texts[i]@) == Some(frames[i]@),
        frame::is_valid_frame(frames[i]@),
{
    assert(segment::all_addressable(pending.group_segments(i)));
    segment::masks_exist(pending.group_segments(i));
    let mask = segment::mask_of(pending.group_segments(i));
    assert(frames[i]@ == pending.group_frame(i));
    assert(texts[i]@ == base64::base64_text(pending.group_frame(i)));
    if i < pending.rgb.groups@.len() {
        let c = pending.rgb.groups@[i].0;
        frame::finished_is_valid(SetSegmentColorRgb::payload_of((c.r, c.g, c.b), mask));
    } else {
        let percent = pending.brightness.groups@[i - pending.rgb.groups@.len()].0;
        frame::finished_is_valid(SetSegmentBrightness::payload_of(percent, mask));
    }
}

/// A segment that wants a colour finds itself named in a frame with that very
/// colour, and so does one that wants a brightness.
pub proof fn every_wish_goes_out(
    pending: Pending,
    frames: Seq<Vec<u8>>,
    segment: u32,
    color: DeviceColor,
    percent: u8,
)
    requires
        pending.wf(),
        pending.encodable(pending.group_count() as int),
        pending.are_frames(frames),
    ensures
        pending.rgb.wanting(color).contains(segment) ==> exists|i: int|
            0 <= i < frames.len() && (SetSegmentColorRgb::parsed(
                (#[trigger] frames[i])@,
            ) matches Some((r, g, b, mask)) && r == color.r && g == color.g && b == color.b
                && segment::mask_names(mask, segment as nat)),
        pending.brightness.wanting(percent).contains(segment) ==> exists|i: int|
            0 <= i < frames.len() && (SetSegmentBrightness::parsed(
                (#[trigger] frames[i])@,
            ) matches Some((sent, mask)) && sent == percent && segment::mask_names(
                mask,
                segment as nat,
            )),
{
    let colors = pending.rgb.groups@.len() as int;
    if pending.rgb.wanting(color).contains(segment) {
        let i = choose|i: int| pending.rgb.is_at(color, i);
        assert(pending.rgb.is_at(color, i));
        pending.rgb.wanting_at(i);
        let named = pending.group_segments(i);
        assert(segment::all_addressable(named));
        segment::a_segment_command_is_read_back((color.r, color.g, color.b), 0, named);
        assert(frames[i]@ == pending.group_frame(i));
    }
    if pending.brightness.wanting(percent).contains(segment) {
        let k = choose|k: int| pending.brightness.is_at(percent, k);
        assert(pending.brightness.is_at(percent, k));
        pending.brightness.wanting_at(k);
        let named = pending.group_segments(colors + k);
        assert(segment::all_addressable(named));
        segment::a_segment_command_is_read_back((0, 0, 0), percent, named);
        assert(frames[colors + k]@ == pending.group_frame(colors + k));
    }
}

/// No frame gives a segment a colour or a brightness that it does not want.
pub proof fn no_wish_is_made_up(pending: Pending, frames: Seq<Vec<u8>>, i: int, segment: u32)
    requires
        pending.wf(),
        pending.encodable(pending.group_count() as int),
        pending.are_frames(frames),
        0 <= i < frames.len(),
    ensures
        i < pending.rgb.groups@.len() ==> (SetSegmentColorRgb::parsed(frames[i]@) matches Some(
            (r, g, b, mask),
        ) && (segment::mask_names(mask, segment as nat) ==> pending.rgb.wanting(
            DeviceColor { r, g, b },
        ).contains(segment))),
        i >= pending.rgb.groups@.len() ==> (SetSegmentBrightness::parsed(frames[i]@) matches Some(
            (percent, mask),
        ) && (segment::mask_names(mask, segment as nat) ==> pending.brightness.wanting(
            percent,
        ).contains(segment))),
{
    let colors = pending.rgb.groups@.len() as int;
    let named = pending.group_segments(i);
    assert(segment::all_addressable(named));
    assert(frames[i]@ == pending.group_frame(i));
    if i < colors {
        let c = pending.rgb.groups@[i].0;
        pending.rgb.wanting_at(i);
        segment::a_segment_command_is_read_back((c.r, c.g, c.b), 0, named);
    } else {
        pending.brightness.wanting_at(i - colors);
        segment::a_segment_command_is_read_back(
            (0, 0, 0),
            pending.brightness.groups@[i - colors].0,
            named,
        );
    }
}

/// The Platform API is asked for every wish as well, with the same segments.
pub proof fn every_wish_is_asked_for(
    pending: Pending,
    requests: Seq<SegmentRequest>,
    color: DeviceColor,
    percent: u8,
)
    requires
        pending.wf(),
        pending.are_requests(requests),
    ensures
        requests.len() == pending.group_count(),
        pending.rgb.wanting(color).len() > 0 ==> exists|i: int|
            0 <= i < requests.len() && (#[trigger] requests[i] matches SegmentRequest::Color {
                segments,
                color: sent,
            } && sent == color && segments@ == pending.rgb.wanting(color)),
        pending.brightness.wanting(percent).len() > 0 ==> exists|i: int|
            0 <= i < requests.len() && (#[trigger] requests[i] matches SegmentRequest::Brightness {
                segments,
                percent: sent,
            } && sent == percent && segments@ == pending.brightness.wanting(percent)),
{
    let dims = pending.brightness.groups@.len() as int;
    if pending.rgb.wanting(color).len() > 0 {
        let i = choose|i: int| pending.rgb.is_at(color, i);
        assert(pending.rgb.is_at(color, i));
        pending.rgb.wanting_at(i);
        assert(requests[dims + i] is Color);
    }
    if pending.brightness.wanting(percent).len() > 0 {
        let k = choose|k: int| pending.brightness.is_at(percent, k);
        assert(pending.brightness.is_at(percent, k));
        pending.brightness.wanting_at(k);
        assert(requests[k] is Brightness);
    }
}

/// A batch that was sent is done. One that was not goes on: to Bluetooth after AWS
/// IoT, and to the Platform API after both, so that it is handed to no channel
/// twice.
pub proof fn every_channel_has_one_turn(route: Route)
    ensures
        route.following(true) is Done,
        Route::Iot.following(false) is Ble,
        Route::Iot.following(false).following(false) is Platform,
        Route::Iot.following(false).following(false).following(false) is Done,
        route is Done ==> route.following(false) is Done,
{
}

/// A batch may go out over AWS IoT wherever there is a connection and the account
/// names a topic for the device.
pub proof fn a_topic_carries_a_batch(iot_available: bool, device: Device)
    ensures
        Pending::iot_usable(iot_available, device) <==> iot_available && (
        device.undoc_device_info matches Some(info)
            && info.entry.device_ext.device_settings.topic is Some),
{
}

proof fn commanded_is_shown(
    before: (Map<u32, SegmentColor>, bool),
    segments: Seq<u32>,
    color: DeviceColor,
    segment: u32,
)
    ensures
        ({
            let (after, changed) = commanded(before, segments, color);
            &&& after.contains_key(segment) == before.0.contains_key(segment)
            &&& before.0.contains_key(segment) ==> after[segment].brightness
                == before.0[segment].brightness
            &&& before.0.contains_key(segment) && segments.contains(segment) ==> after[segment].r
                == color.r && after[segment].g == color.g && after[segment].b == color.b
            &&& before.0.contains_key(segment) && !segments.contains(segment) ==> after[segment]
                == before.0[segment]
            &&& before.1 ==> changed
            &&& !changed && before.0.contains_key(segment) ==> after[segment] == before.0[segment]
        }),
    decreases segments.len(),
{
    if segments.len() > 0 {
        let head = segments.drop_last();
        commanded_is_shown(before, head, color, segment);
        commanded_is_shown(before, head, color, segments.last());
        assert(segments[segments.len() - 1] == segments.last());
        if segments.contains(segment) && !head.contains(segment) {
            let k = choose|k: int| 0 <= k < segments.len() && segments[k] == segment;
            if k < head.len() {
                assert(head[k] == segment);
            }
        }
        if head.contains(segment) {
            let k = choose|k: int| 0 <= k < head.len() && head[k] == segment;
            assert(segments[k] == segment);
        }
    }
}

/// Whether a segment that is known already shows a colour, or is not known at all.
pub open spec fn shows_already(
    map: Map<u32, SegmentColor>,
    segment: u32,
    color: DeviceColor,
) -> bool {
    map.contains_key(segment) ==> map[segment].r == color.r && map[segment].g == color.g
        && map[segment].b == color.b
}

proof fn a_shown_colour_is_kept(map: Map<u32, SegmentColor>, segments: Seq<u32>, color: DeviceColor)
    requires
        forall|k: int|
            0 <= k < segments.len() ==> shows_already(map, #[trigger] segments[k], color),
    ensures
        commanded((map, false), segments, color) == (map, false),
    decreases segments.len(),
{
    if segments.len() > 0 {
        let head = segments.drop_last();
        assert forall|k: int| 0 <= k < head.len() implies shows_already(
            map,
            #[trigger] head[k],
            color,
        ) by {
            assert(segments[k] == head[k]);
        }
        a_shown_colour_is_kept(map, head, color);
        let segment = segments[segments.len() - 1];
        assert(shows_already(map, segment, color));
        if map.contains_key(segment) {
            assert(map.insert(segment, map[segment]) =~= map);
        }
    }
}

/// A colour that every segment shows already is no news, nor is one for segments that
/// are not known.
pub proof fn the_same_colour_again_is_no_news(
    map: Map<u32, SegmentColor>,
    groups: Seq<(DeviceColor, Vec<u32>)>,
)
    requires
        forall|i: int, k: int|
            0 <= i < groups.len() && 0 <= k < groups[i].1@.len() ==> (map.contains_key(
                #[trigger] groups[i].1@[k],
            ) ==> map[groups[i].1@[k]].r == groups[i].0.r && map[groups[i].1@[k]].g
                == groups[i].0.g && map[groups[i].1@[k]].b == groups[i].0.b),
    ensures
        !commanded_all(map, groups).1,
        commanded_all(map, groups).0 == map,
    decreases groups.len(),
{
    if groups.len() > 0 {
        let head = groups.drop_last();
        let n = groups.len() - 1;
        assert forall|i: int, k: int|
            0 <= i < head.len() && 0 <= k < head[i].1@.len() && map.contains_key(
                #[trigger] head[i].1@[k],
            ) implies map[head[i].1@[k]].r == head[i].0.r && map[head[i].1@[k]].g == head[i].0.g
            && map[head[i].1@[k]].b == head[i].0.b by {
            assert(groups[i].1@[k] == head[i].1@[k]);
        }
        the_same_colour_again_is_no_news(map, head);
        assert forall|k: int| 0 <= k < groups.last().1@.len() implies shows_already(
            map,
            #[trigger] groups.last().1@[k],
            groups.last().0,
        ) by {
            assert(groups[n].1@[k] == groups.last().1@[k]);
        }
        a_shown_colour_is_kept(map, groups.last().1@, groups.last().0);
    }
}

/// A segment that was given a colour shows it from then on, at the brightness that it
/// had. One that the device never reported stays unknown, and one that nothing was
/// asked of keeps its colour. Nothing is news unless some segment shows another
/// colour.
pub proof fn what_was_asked_for_is_remembered(
    map: Map<u32, SegmentColor>,
    groups: Seq<(DeviceColor, Vec<u32>)>,
    segment: u32,
)
    ensures
        ({
            let (after, changed) = commanded_all(map, groups);
            &&& after.contains_key(segment) == map.contains_key(segment)
            &&& map.contains_key(segment) ==> after[segment].brightness == map[segment].brightness
            &&& map.contains_key(segment) && groups.len() > 0 && groups.last().1@.contains(segment)
                ==> after[segment].r == groups.last().0.r && after[segment].g == groups.last().0.g
                && after[segment].b == groups.last().0.b
            &&& map.contains_key(segment) && (forall|i: int|
                0 <= i < groups.len() ==> !(#[trigger] groups[i]).1@.contains(segment))
                ==> after[segment] == map[segment]
            &&& !changed && map.contains_key(segment) ==> after[segment] == map[segment]
        }),
    decreases groups.len(),
{
    if groups.len() > 0 {
        let head = groups.drop_last();
        what_was_asked_for_is_remembered(map, head, segment);
        commanded_is_shown(commanded_all(map, head), groups.last().1@, groups.last().0, segment);
        assert(groups[groups.len() - 1] == groups.last());
        assert forall|i: int| 0 <= i < head.len() implies head[i] == #[trigger] groups[i] by {}
    }
}

/// Of the colours of a batch, a segment shows the last that names it.
pub proof fn the_last_colour_of_a_segment_counts(
    map: Map<u32, SegmentColor>,
    groups: Seq<(DeviceColor, Vec<u32>)>,
    segment: u32,
    at: int,
)
    requires
        map.contains_key(segment),
        0 <= at < groups.len(),
        groups[at].1@.contains(segment),
        forall|j: int| at < j < groups.len() ==> !(#[trigger] groups[j]).1@.contains(segment),
    ensures
        ({
            let after = commanded_all(map, groups).0[segment];
            after.r == groups[at].0.r && after.g == groups[at].0.g && after.b == groups[at].0.b
        }),
    decreases groups.len(),
{
    what_was_asked_for_is_remembered(map, groups, segment);
    let head = groups.drop_last();
    if at < head.len() {
        assert(groups[groups.len() - 1] == groups.last());
        assert forall|j: int| at < j < head.len() implies !(#[trigger] head[j]).1@.contains(
            segment,
        ) by {
            assert(groups[j] == head[j]);
        }
        the_last_colour_of_a_segment_counts(map, head, segment, at);
        what_was_asked_for_is_remembered(map, head, segment);
        commanded_is_shown(commanded_all(map, head), groups.last().1@, groups.last().0, segment);
    }
}

} // verus!
