//! The segments of a device.
use std::collections::HashMap;
use vstd::prelude::*;
use vstd::std_specs::hash::*;

use crate::ble::segment::{
    NotifySegmentColors, SegmentColor, ADDRESSABLE_SEGMENTS, SEGMENTS_PER_PAGE,
};
use crate::clock::{utc_now, Timestamp};
use crate::service::device::Device;
use crate::service::quirks;
use crate::service::quirks::segments_per_chained_string;

verus! {

/// The highest key of a map.
pub open spec fn is_highest(m: Map<u32, SegmentColor>, k: u32) -> bool {
    m.contains_key(k) && forall|j: u32| #[trigger] m.contains_key(j) ==> j <= k
}

/// One more than the highest key of a map.
pub open spec fn past_highest(m: Map<u32, SegmentColor>) -> Option<int> {
    if exists|k: u32| is_highest(m, k) {
        Some(1 + (choose|k: u32| is_highest(m, k)))
    } else {
        None
    }
}

fn highest_key(m: &HashMap<u32, SegmentColor>) -> (r: Option<u32>)
    ensures
        match r {
            Some(k) => is_highest(m@, k) && past_highest(m@) == Some(k + 1),
            None => past_highest(m@) is None && forall|j: u32| !#[trigger] m@.contains_key(j),
        },
{
    broadcast use group_hash_axioms;

    let mut best: Option<u32> = None;
    let ghost mut seen: Seq<u32> = Seq::empty();
    for k in it: m.keys()
        invariant
            it.seq().unref().to_set() == m@.dom(),
            it.seq().unref().len() == it.seq().len(),
            seen =~= it.seq().unref().take(it.index() as int),
            it.index() == it.seq().len() ==> seen.to_set() == m@.dom(),
            match best {
                None => seen.len() == 0,
                Some(b) => seen.contains(b) && forall|i: int|
                    0 <= i < seen.len() ==> #[trigger] seen[i] <= b,
            },
    {
        let ghost before = seen;
        proof {
            seen = seen.push(*k);
            assert(seen[before.len() as int] == *k);
            if it.index() + 1 == it.seq().len() {
                assert(seen =~= it.seq().unref());
            }
            if best is Some && before.contains(best->0) {
                let q = choose|q: int| 0 <= q < before.len() && before[q] == best->0;
                assert(seen[q] == best->0);
            }
        }
        match best {
            Some(b) => {
                if *k > b {
                    best = Some(*k);
                }
            },
            None => {
                best = Some(*k);
            },
        }
    }
    proof {
        assert forall|j: u32| m@.contains_key(j) implies seen.contains(j) by {
            assert(seen.to_set().contains(j));
        }
        match best {
            Some(b) => {
                assert(seen.to_set().contains(b));
                assert(is_highest(m@, b));
                let c = choose|k: u32| is_highest(m@, k);
                assert(is_highest(m@, c));
                assert(m@.contains_key(c) && m@.contains_key(b));
            },
            None => {
                assert forall|k: u32| !is_highest(m@, k) by {
                    if m@.contains_key(k) {
                        assert(seen.contains(k));
                    }
                }
            },
        }
    }
    best
}

/// The widest layout that a batch of pages shows.
pub open spec fn widest(pages: Seq<NotifySegmentColors>) -> nat {
    if exists|i: int| 0 <= i < pages.len() && (#[trigger] pages[i]).groups() == 4 {
        4
    } else {
        3
    }
}

/// What is known of the segments after the first `n` groups of a page.
pub open spec fn page_merged(
    m: Map<u32, SegmentColor>,
    page: NotifySegmentColors,
    stride: nat,
    n: nat,
) -> Map<u32, SegmentColor>
    decreases n,
{
    if n == 0 {
        m
    } else {
        let before = page_merged(m, page, stride, (n - 1) as nat);
        let group = page.segments@[n - 1];
        if group.names_a_segment() {
            before.insert((page.first_index(stride) + n - 1) as u32, group)
        } else {
            before
        }
    }
}

/// What is known of the segments after a batch of pages.
pub open spec fn pages_merged(
    m: Map<u32, SegmentColor>,
    pages: Seq<NotifySegmentColors>,
    stride: nat,
) -> Map<u32, SegmentColor>
    decreases pages.len(),
{
    if pages.len() == 0 {
        m
    } else {
        page_merged(pages_merged(m, pages.drop_last(), stride), pages.last(), stride, stride)
    }
}

/// Padding and invented groups leave no trace: every segment that merging a page
/// adds is one that the page names, with the colour that it names.
pub proof fn page_merged_is_exact(
    m: Map<u32, SegmentColor>,
    page: NotifySegmentColors,
    stride: nat,
    n: nat,
)
    requires
        n <= stride <= 4,
    ensures
        forall|k: u32| #[trigger]
            page_merged(m, page, stride, n).contains_key(k) <==> m.contains_key(k) || (exists|i: int|
                0 <= i < n && (#[trigger] page.segments@[i]).names_a_segment() && k
                    == page.first_index(stride) + i),
        forall|i: int|
            0 <= i < n && (#[trigger] page.segments@[i]).names_a_segment() ==> page_merged(
                m,
                page,
                stride,
                n,
            )[(page.first_index(stride) + i) as u32] == page.segments@[i],
        forall|k: u32|
            m.contains_key(k) && !(page.first_index(stride) <= k < page.first_index(stride) + n)
                ==> #[trigger] page_merged(m, page, stride, n)[k] == m[k],
    decreases n,
{
    page_fits(page, stride);
    if n > 0 {
        let prior = (n - 1) as nat;
        page_merged_is_exact(m, page, stride, prior);
        let before = page_merged(m, page, stride, prior);
        let after = page_merged(m, page, stride, n);
        let group = page.segments@[n - 1];
        let first = page.first_index(stride);
        assert forall|k: u32| #[trigger] after.contains_key(k) <==> m.contains_key(k) || (
        exists|i: int|
            0 <= i < n && (#[trigger] page.segments@[i]).names_a_segment() && k == first + i) by {
            assert(before.contains_key(k) <==> m.contains_key(k) || (exists|i: int|
                0 <= i < prior && (#[trigger] page.segments@[i]).names_a_segment() && k == first
                    + i));
            if after.contains_key(k) && !before.contains_key(k) {
                assert(page.segments@[n - 1].names_a_segment() && k == first + (n - 1));
            }
        }
    }
}

/// Where a page's groups stand among the segments.
proof fn groups_stand_in_a_row(page: NotifySegmentColors, stride: nat)
    requires
        stride <= 4,
        page.page > 0,
    ensures
        page.first_index(stride) == (page.page - 1) * stride,
{
    let p = page.page as int;
    assert((p - 1) * stride >= 0) by (nonlinear_arith)
        requires
            p >= 1,
            stride >= 0,
    ;
}

/// Whether a group is one of a segment: something is lit or dimmed in it, and its
/// brightness is a percentage.
pub proof fn what_counts_as_a_segment(group: SegmentColor)
    ensures
        group.names_a_segment() <==> group.brightness <= 100 && (group.brightness != 0 || group.r
            != 0 || group.g != 0 || group.b != 0),
{
}

/// A segment has the colour that the last page names for it: the segment after as
/// many as the pages before hold, and the groups before it on its page.
pub proof fn the_last_page_counts(
    m: Map<u32, SegmentColor>,
    pages: Seq<NotifySegmentColors>,
    stride: nat,
    at: int,
    n: int,
    segment: u32,
)
    requires
        3 <= stride <= 4,
        0 <= at < pages.len(),
        0 <= n < stride,
        pages[at].page > 0,
        segment == (pages[at].page - 1) * stride + n,
        pages[at].segments@[n].names_a_segment(),
        forall|j: int, k: int|
            at < j < pages.len() && 0 <= k < stride && (#[trigger] pages[j].segments@[k]
                ).names_a_segment() ==> pages[j].first_index(stride) + k != segment,
    ensures
        pages_merged(m, pages, stride).contains_key(segment),
        pages_merged(m, pages, stride)[segment] == pages[at].segments@[n],
    decreases pages.len(),
{
    let head = pages.drop_last();
    let before = pages_merged(m, head, stride);
    let last = pages.last();
    page_merged_is_exact(before, last, stride, stride);
    groups_stand_in_a_row(pages[at], stride);
    if at < head.len() {
        assert(pages[pages.len() - 1] == last);
        assert forall|j: int, k: int|
            at < j < head.len() && 0 <= k < stride && (#[trigger] head[j].segments@[k]
                ).names_a_segment() implies head[j].first_index(stride) + k != segment by {
            assert(pages[j].segments@[k] == head[j].segments@[k]);
        }
        the_last_page_counts(m, head, stride, at, n, segment);
        a_page_leaves_the_rest(before, last, stride, stride, segment);
    } else {
        assert(last.segments@[n].names_a_segment());
        assert(page_merged(before, last, stride, stride)[(last.first_index(stride) + n) as u32]
            == last.segments@[n]);
    }
}

/// A segment that a page does not name keeps what is known of it.
proof fn a_page_leaves_the_rest(
    m: Map<u32, SegmentColor>,
    page: NotifySegmentColors,
    stride: nat,
    n: nat,
    segment: u32,
)
    requires
        n <= stride <= 4,
        forall|k: int|
            0 <= k < n && (#[trigger] page.segments@[k]).names_a_segment() ==> page.first_index(
                stride,
            ) + k != segment,
    ensures
        page_merged(m, page, stride, n).contains_key(segment) == m.contains_key(segment),
        m.contains_key(segment) ==> page_merged(m, page, stride, n)[segment] == m[segment],
    decreases n,
{
    page_fits(page, stride);
    if n > 0 {
        a_page_leaves_the_rest(m, page, stride, (n - 1) as nat, segment);
        assert(page.segments@[n - 1] == page.segments@[n - 1]);
    }
}

/// A segment that no page of a batch names keeps what is known of it, and is not
/// made up.
pub proof fn unnamed_segments_stay(
    m: Map<u32, SegmentColor>,
    pages: Seq<NotifySegmentColors>,
    stride: nat,
    segment: u32,
)
    requires
        stride <= 4,
        forall|j: int, k: int|
            0 <= j < pages.len() && 0 <= k < stride && (#[trigger] pages[j].segments@[k]
                ).names_a_segment() ==> pages[j].first_index(stride) + k != segment,
    ensures
        pages_merged(m, pages, stride).contains_key(segment) == m.contains_key(segment),
        m.contains_key(segment) ==> pages_merged(m, pages, stride)[segment] == m[segment],
    decreases pages.len(),
{
    if pages.len() > 0 {
        let head = pages.drop_last();
        assert forall|j: int, k: int|
            0 <= j < head.len() && 0 <= k < stride && (#[trigger] head[j].segments@[k]
                ).names_a_segment() implies head[j].first_index(stride) + k != segment by {
            assert(pages[j].segments@[k] == head[j].segments@[k]);
        }
        unnamed_segments_stay(m, head, stride, segment);
        assert forall|k: int|
            0 <= k < stride && (#[trigger] pages.last().segments@[k]).names_a_segment() implies
            pages.last().first_index(stride) + k != segment by {
            assert(pages[pages.len() - 1].segments@[k] == pages.last().segments@[k]);
        }
        a_page_leaves_the_rest(
            pages_merged(m, head, stride),
            pages.last(),
            stride,
            stride,
            segment,
        );
    }
}

proof fn page_fits(page: NotifySegmentColors, stride: nat)
    requires
        stride <= 4,
    ensures
        page.first_index(stride) <= 1016,
{
    let p = page.page as int;
    assert((p - 1) * stride <= 254 * 4) by (nonlinear_arith)
        requires
            p <= 255,
            stride <= 4,
            p - 1 <= 254,
            0 <= stride,
    ;
}

impl Device {
    /// How many segments a page of this device carries, going by what it has
    /// shown and by this batch: never fewer than it has shown before.
    pub open spec fn stride_after(&self, pages: Seq<NotifySegmentColors>) -> nat {
        match self.segment_page_stride {
            Some(known) => if known as nat > widest(pages) {
                known as nat
            } else {
                widest(pages)
            },
            None => widest(pages),
        }
    }

    /// Merge a status message's segment pages into the picture.
    ///
    /// Takes the whole batch rather than one page, because how many segments a
    /// page carries is a property of the device and cannot be read reliably
    /// from a single frame: a three-group device pads with zeroes, and a
    /// four-group device whose last segment is switched off looks identical.
    /// Across a batch, one page using its fourth group settles it, and the
    /// answer is kept so a later batch that happens to end in black cannot shift
    /// the whole map.
    ///
    /// Pages are merged rather than replacing the map wholesale, so a device
    /// that reports only some of them still updates the segments it did report.
    ///
    /// Returns whether the segment *count* moved, in either direction, because
    /// either way Home Assistant's set of entities is now wrong.
    pub fn set_segment_colors(&mut self, pages: &[NotifySegmentColors]) -> (r: bool)
        requires
            old(self).wf(),
        ensures
            final(self).wf(),
            exists|now: Timestamp| #[trigger] old(self).takes_pages(pages@, now, *final(self), r),
    {
        self.set_segment_colors_at(pages, utc_now())
    }

    /// Whether `after` is this device once it has taken a batch of pages, and
    /// `moved` whether its segment count moved.
    pub open spec fn takes_pages(
        &self,
        pages: Seq<NotifySegmentColors>,
        now: Timestamp,
        after: Device,
        moved: bool,
    ) -> bool {
        if pages.len() == 0 {
            after == *self && !moved
        } else {
            &&& after == (Device {
                segment_page_stride: Some(self.stride_after(pages) as usize),
                segment_colors: after.segment_colors,
                last_segment_colors_update: Some(now),
                ..*self
            })
            &&& after.segment_colors@ == pages_merged(
                self.segment_colors@,
                pages,
                self.stride_after(pages),
            )
            &&& moved == (after.addressed() != self.addressed())
        }
    }

    pub fn set_segment_colors_at(&mut self, pages: &[NotifySegmentColors], now: Timestamp) -> (r:
        bool)
        requires
            old(self).wf(),
        ensures
            final(self).wf(),
            old(self).takes_pages(pages@, now, *final(self), r),
    {
        broadcast use group_hash_axioms;

        if pages.len() == 0 {
            return false;
        }
        let ghost start = *self;
        let known_before = self.segment_count();

        let mut observed: usize = SEGMENTS_PER_PAGE;
        for i in 0..pages.len()
            invariant
                observed == widest(pages@.take(i as int)),
        {
            let ghost done = pages@.take(i as int);
            let ghost next = pages@.take(i + 1);
            assert(next =~= done.push(pages@[i as int]));
            let groups = pages[i].groups_used();
            if groups > observed {
                observed = groups;
            }
            proof {
                if exists|k: int| 0 <= k < done.len() && (#[trigger] done[k]).groups() == 4 {
                    let k = choose|k: int| 0 <= k < done.len() && (#[trigger] done[k]).groups() == 4;
                    assert(next[k].groups() == 4);
                }
                if exists|k: int| 0 <= k < next.len() && (#[trigger] next[k]).groups() == 4 {
                    let k = choose|k: int| 0 <= k < next.len() && (#[trigger] next[k]).groups() == 4;
                    if k < done.len() {
                        assert(done[k].groups() == 4);
                    }
                }
                assert(next[i as int].groups() == groups);
            }
        }
        assert(pages@.take(pages@.len() as int) =~= pages@);
        // Sticky at the widest layout ever seen for this device.
        let stride: usize = match self.segment_page_stride {
            Some(known) => if known > observed {
                known
            } else {
                observed
            },
            None => observed,
        };
        assert(stride == start.stride_after(pages@));
        self.segment_page_stride = Some(stride);

        for p in 0..pages.len()
            invariant
                3 <= stride <= 4,
                stride == start.stride_after(pages@),
                *self == (Device {
                    segment_page_stride: Some(stride),
                    segment_colors: self.segment_colors,
                    ..start
                }),
                self.segment_colors@ == pages_merged(
                    start.segment_colors@,
                    pages@.take(p as int),
                    stride as nat,
                ),
                forall|k: u32| #[trigger] self.segment_colors@.contains_key(k) ==> k < 1024,
        {
            let page = &pages[p];
            let first = page.first_segment_index(stride);
            let ghost before = self.segment_colors@;
            assert(pages@.take(p + 1).drop_last() =~= pages@.take(p as int));
            for n in 0..stride
                invariant
                    3 <= stride <= 4,
                    stride == start.stride_after(pages@),
                    *page == pages@[p as int],
                    first == page.first_index(stride as nat),
                    first <= 1016,
                    *self == (Device {
                        segment_page_stride: Some(stride),
                        segment_colors: self.segment_colors,
                        ..start
                    }),
                    self.segment_colors@ == page_merged(before, *page, stride as nat, n as nat),
                    forall|k: u32| #[trigger] self.segment_colors@.contains_key(k) ==> k < 1024,
            {
                let segment = page.segments[n];
                if segment.is_a_segment() {
                    self.segment_colors.insert(first + n as u32, segment);
                }
            }
        }
        assert(pages@.take(pages@.len() as int) =~= pages@);
        self.last_segment_colors_update = Some(now);
        self.segment_count() != known_before
    }

    /// A page of the device carries four segments once any page ever used its fourth
    /// group, and three before that: a batch that ends in black does not move the
    /// segments.
    pub proof fn the_widest_page_decides(&self, pages: Seq<NotifySegmentColors>)
        requires
            self.wf(),
        ensures
            3 <= self.stride_after(pages) <= 4,
            self.segment_page_stride == Some(4usize) ==> self.stride_after(pages) == 4,
            (exists|i: int|
                0 <= i < pages.len() && {
                    let fourth = (#[trigger] pages[i]).segments@[3];
                    fourth.brightness != 0 || fourth.r != 0 || fourth.g != 0 || fourth.b != 0
                }) ==> self.stride_after(pages) == 4,
            self.stride_after(pages) == 4 ==> self.segment_page_stride == Some(4usize) || exists|
                i: int,
            |
                0 <= i < pages.len() && {
                    let fourth = (#[trigger] pages[i]).segments@[3];
                    fourth.brightness != 0 || fourth.r != 0 || fourth.g != 0 || fourth.b != 0
                },
    {
        if exists|i: int|
            0 <= i < pages.len() && {
                let fourth = (#[trigger] pages[i]).segments@[3];
                fourth.brightness != 0 || fourth.r != 0 || fourth.g != 0 || fourth.b != 0
            } {
            let i = choose|i: int|
                0 <= i < pages.len() && {
                    let fourth = (#[trigger] pages[i]).segments@[3];
                    fourth.brightness != 0 || fourth.r != 0 || fourth.g != 0 || fourth.b != 0
                };
            assert(pages[i].groups() == 4);
        }
        if exists|i: int| 0 <= i < pages.len() && (#[trigger] pages[i]).groups() == 4 {
            let i = choose|i: int| 0 <= i < pages.len() && (#[trigger] pages[i]).groups() == 4;
            assert(pages[i].segments@[3] != SegmentColor::padding());
        }
    }

    /// What the last page of a batch to name a segment shows of it is what is known of it
    /// afterwards. A segment that no page names keeps what was known of it.
    pub proof fn what_pages_show_is_known(
        &self,
        pages: Seq<NotifySegmentColors>,
        now: Timestamp,
        after: Device,
        moved: bool,
        at: int,
        n: int,
        segment: u32,
    )
        requires
            self.wf(),
            self.takes_pages(pages, now, after, moved),
            forall|j: int, k: int|
                at < j < pages.len() && 0 <= k < self.stride_after(pages) && (
                #[trigger] pages[j].segments@[k]).names_a_segment() ==> pages[j].first_index(
                    self.stride_after(pages),
                ) + k != segment,
            -1 <= at < pages.len(),
        ensures
            pages.len() > 0 ==> after.segment_page_stride == Some(
                self.stride_after(pages) as usize,
            ),
            at >= 0 && 0 <= n < self.stride_after(pages) && pages[at].page > 0 && segment == (
            pages[at].page - 1) * self.stride_after(pages) + n
                && pages[at].segments@[n].names_a_segment()
                ==> after.segment_colors@.contains_key(segment) && after.segment_colors@[segment]
                == pages[at].segments@[n],
            at < 0 ==> after.segment_colors@.contains_key(segment)
                == self.segment_colors@.contains_key(segment),
            at < 0 && self.segment_colors@.contains_key(segment) ==> after.segment_colors@[segment]
                == self.segment_colors@[segment],
    {
        let stride = self.stride_after(pages);
        self.the_widest_page_decides(pages);
        if at < 0 {
            unnamed_segments_stay(self.segment_colors@, pages, stride, segment);
        } else if 0 <= n < stride && pages[at].page > 0 && segment == (pages[at].page - 1) * stride
            + n && pages[at].segments@[n].names_a_segment() {
            the_last_page_counts(self.segment_colors@, pages, stride, at, n, segment);
        }
    }

    /// A batch of pages changes the segments and how they are packed, and nothing
    /// else of the device; and that its count moved is told exactly if it did.
    pub proof fn pages_change_the_segments(
        &self,
        pages: Seq<NotifySegmentColors>,
        now: Timestamp,
        after: Device,
        moved: bool,
    )
        requires
            self.takes_pages(pages, now, after, moved),
        ensures
            moved <==> after.addressed() != self.addressed(),
            pages.len() == 0 ==> after == *self,
            pages.len() > 0 ==> after.last_segment_colors_update == Some(now),
            after.remembered_segment_count == self.remembered_segment_count,
            after.chained_strings == self.chained_strings,
            after.segment_mode_reported == self.segment_mode_reported,
            after.ble_device_status == self.ble_device_status,
            after.iot_device_status == self.iot_device_status,
            after.sku == self.sku && after.id == self.id,
            after.http_device_info == self.http_device_info,
    {
    }

    /// Writes the colour that was commanded for a segment into the picture of
    /// it. Brightness stays as the device reported it, and a segment that it
    /// never reported stays unknown. Returns whether the picture changed.
    pub fn set_commanded_segment_color(&mut self, segment: u32, r: u8, g: u8, b: u8) -> (changed:
        bool)
        requires
            old(self).wf(),
        ensures
            final(self).wf(),
            *final(self) == (Device { segment_colors: final(self).segment_colors, ..*old(self) }),
            match old(self).color_of(segment) {
                Some(known) => {
                    let commanded = SegmentColor { brightness: known.brightness, r, g, b };
                    &&& final(self).segment_colors@ == old(self).segment_colors@.insert(
                        segment,
                        commanded,
                    )
                    &&& changed == (known != commanded)
                },
                None => {
                    &&& final(self).segment_colors@ == old(self).segment_colors@
                    &&& !changed
                },
            },
    {
        broadcast use group_hash_axioms;

        match self.segment_color(segment) {
            Some(known) => {
                let commanded = SegmentColor { brightness: known.brightness, r, g, b };
                self.segment_colors.insert(segment, commanded);
                known != commanded
            },
            None => false,
        }
    }

    /// The colour last reported for a segment.
    pub open spec fn color_of(&self, segment: u32) -> Option<SegmentColor> {
        if self.segment_colors@.contains_key(segment) {
            Some(self.segment_colors@[segment])
        } else {
            None
        }
    }

    /// A segment has the colour that is known of it, and no other segment's.
    pub proof fn a_segment_has_its_own_colour(&self, segment: u32)
        ensures
            self.color_of(segment) is Some <==> self.segment_colors@.contains_key(segment),
            self.color_of(segment) matches Some(color) ==> color == self.segment_colors@[segment],
    {
    }

    /// Colour last reported for one segment.
    ///
    /// A page always carries three slots, so the map can hold entries past the
    /// device's real segment count. Callers only ask about segments that have
    /// an entity, which keeps that filler out of Home Assistant.
    pub fn segment_color(&self, segment: u32) -> (r: Option<SegmentColor>)
        ensures
            r == self.color_of(segment),
    {
        broadcast use group_hash_axioms;

        match self.segment_colors.get(&segment) {
            Some(color) => Some(*color),
            None => None,
        }
    }

    // ----------------------------------------------------------------- counts

    /// Segments that the device has told us about: in this run, else before.
    pub open spec fn reported(&self) -> Option<int> {
        match past_highest(self.segment_colors@) {
            Some(count) => Some(count),
            None => match self.remembered_segment_count {
                Some(count) => Some(count as int),
                None => None,
            },
        }
    }

    /// Segments that Govee's metadata claims.
    pub open spec fn claimed(&self) -> Option<int> {
        match self.http_device_info {
            Some(info) => match info.segmented_rgb {
                Some((_, end)) => Some(end as int),
                None => None,
            },
            None => None,
        }
    }

    /// How far a segment command may address: the larger of what the device
    /// reported and what Govee claims, and no more than a mask can name.
    pub open spec fn addressed(&self) -> Option<int> {
        let larger = match (self.reported(), self.claimed()) {
            (Some(a), Some(b)) => if a > b {
                Some(a)
            } else {
                Some(b)
            },
            (Some(a), None) => Some(a),
            (None, b) => b,
        };
        match larger {
            Some(count) => if count > ADDRESSABLE_SEGMENTS {
                Some(ADDRESSABLE_SEGMENTS as int)
            } else {
                Some(count)
            },
            None => None,
        }
    }

    /// How many segments get a control: those of the chained strings if that
    /// can be told, else the smaller of what the device reported and what Govee
    /// claims.
    pub open spec fn visible(&self) -> Option<int> {
        match self.chained() {
            Some(count) => Some(count),
            None => match (self.reported(), self.claimed()) {
                (Some(a), Some(b)) => if a < b {
                    Some(a)
                } else {
                    Some(b)
                },
                (Some(a), None) => Some(a),
                (None, b) => b,
            },
        }
    }

    /// The segments of the chained strings.
    pub open spec fn chained(&self) -> Option<int> {
        match (self.chained_strings, quirks::string_length(self.sku@)) {
            (Some(strings), Some(per_string)) => Some(strings * per_string),
            _ => None,
        }
    }

    /// A mask over every segment that a device is taken to have can be encoded,
    /// and no control is missing from it unless it outgrows every mask.
    pub proof fn every_visible_segment_is_addressed(&self)
        requires
            self.chained() is None,
        ensures
            self.addressed() matches Some(count) ==> count <= ADDRESSABLE_SEGMENTS,
            self.visible() is Some == self.addressed() is Some,
            self.visible() matches Some(count) ==> (self.addressed()->0 >= count
                || self.addressed()->0 == ADDRESSABLE_SEGMENTS),
    {
    }

    /// What the device showed in this run counts, whatever was remembered of an
    /// earlier one. Where no chained string decides, no control goes past the last
    /// segment that the device showed nor past what Govee claims, and nothing that
    /// both allow is left out. A command reaches as far as either of them, up to
    /// what a mask can name.
    pub proof fn segments_that_were_shown_are_counted(&self, last: u32)
        requires
            self.segment_colors@.contains_key(last),
            forall|k: u32| #[trigger] self.segment_colors@.contains_key(k) ==> k <= last,
        ensures
            self.segmented(),
            self.chained_strings is None ==> (self.visible() matches Some(count) && {
                let claim = self.http_device_info matches Some(info) && info.segmented_rgb is Some;
                let (_, end) = self.http_device_info->0.segmented_rgb->0;
                &&& count <= last + 1
                &&& claim ==> count <= end && (count == last + 1 || count == end)
                &&& !claim ==> count == last + 1
            }),
            self.addressed() matches Some(count) && {
                let claim = self.http_device_info matches Some(info) && info.segmented_rgb is Some;
                let (_, end) = self.http_device_info->0.segmented_rgb->0;
                &&& count <= ADDRESSABLE_SEGMENTS
                &&& count > last || count == ADDRESSABLE_SEGMENTS
                &&& claim ==> count >= end || count == ADDRESSABLE_SEGMENTS
                &&& count <= last + 1 || (claim && count <= end)
            },
    {
        assert(is_highest(self.segment_colors@, last));
        let found = choose|k: u32| is_highest(self.segment_colors@, k);
        assert(is_highest(self.segment_colors@, found));
        assert(self.segment_colors@.contains_key(found));
        assert(past_highest(self.segment_colors@) == Some(last + 1));
    }

    /// Before the device has shown any segment, what was remembered of it fills the
    /// gap, and where nothing was, Govee's claim alone counts. With neither, no
    /// count is made up.
    pub proof fn a_remembered_count_fills_the_gap(&self)
        requires
            forall|k: u32| !#[trigger] self.segment_colors@.contains_key(k),
            self.chained_strings is None,
        ensures
            ({
                let claim = self.http_device_info matches Some(info) && info.segmented_rgb is Some;
                let (_, end) = self.http_device_info->0.segmented_rgb->0;
                match self.remembered_segment_count {
                    Some(known) => {
                        &&& self.visible() matches Some(count)
                        &&& count <= known
                        &&& claim ==> count <= end && (count == known || count == end)
                        &&& !claim ==> count == known
                        &&& self.addressed() matches Some(reach)
                        &&& reach >= known || reach == ADDRESSABLE_SEGMENTS
                        &&& claim ==> reach >= end || reach == ADDRESSABLE_SEGMENTS
                        &&& reach <= known || (claim && reach <= end)
                    },
                    None => if claim {
                        &&& self.visible() == Some(end as int)
                        &&& self.addressed() matches Some(reach)
                        &&& reach == end || (reach < end && reach == ADDRESSABLE_SEGMENTS)
                    } else {
                        self.visible() is None && self.addressed() is None
                    },
                }
            }),
            self.addressed() matches Some(reach) ==> reach <= ADDRESSABLE_SEGMENTS,
            self.segmented() <==> {
                ||| self.segment_mode_reported
                ||| (self.remembered_segment_count matches Some(known) && known > 0)
                ||| (self.http_device_info matches Some(info) && info.segmented_rgb is Some)
            },
    {
        assert forall|k: u32| !is_highest(self.segment_colors@, k) by {}
    }

    /// Chained strings of a known length settle the count, whatever else was
    /// learned: each string has the same number of bulbs, so twice the strings make
    /// twice the controls. The length of the one chainable model is fifteen.
    pub proof fn every_chained_string_has_the_same_length(&self, other: Device)
        requires
            self.sku@ == other.sku@,
            self.chained_strings is Some,
            other.chained_strings is Some,
            self.chained() is Some,
        ensures
            self.sku@ == "H7020"@,
            self.visible() matches Some(here) && (other.visible() matches Some(there) && {
                &&& here * other.chained_strings->0 == there * self.chained_strings->0
                &&& here == 15 * self.chained_strings->0
            }),
    {
        let (a, b) = (self.chained_strings->0 as int, other.chained_strings->0 as int);
        assert((a * 15) * b == (b * 15) * a) by (nonlinear_arith);
    }

    /// A device that is not known to be chainable has no chained segments, and
    /// neither has one that named no strings.
    pub proof fn only_named_strings_are_chained(&self)
        ensures
            self.chained_strings is None || self.sku@ != "H7020"@ ==> self.chained() is None,
            self.chained_strings is Some && self.sku@ == "H7020"@ ==> self.chained() is Some,
    {
    }

    /// How far a segment command may address, when this device has segments.
    ///
    /// The **larger** of what the device reported and what Govee claims,
    /// because for addressing the two errors are not symmetric: mask bits past
    /// the end reach nothing, while a count that is too small would leave
    /// segments untouched.
    ///
    /// Capped at what a segment frame can actually address. A count beyond that
    /// buys nothing, and left uncapped it is worse than useless: a segment that
    /// no mask can name makes the whole command fail.
    ///
    /// This is not the number to show a user — see `visible_segment_count`.
    pub fn segment_count(&self) -> (r: Option<u32>)
        requires
            self.wf(),
        ensures
            match r {
                Some(count) => self.addressed() == Some(count as int),
                None => self.addressed() is None,
            },
    {
        let larger: Option<u32> = match (self.reported_segment_count(), self.claimed_segment_count()) {
            (Some(a), Some(b)) => if a > b {
                Some(a)
            } else {
                Some(b)
            },
            (Some(a), None) => Some(a),
            (None, b) => b,
        };
        match larger {
            Some(count) => if count > ADDRESSABLE_SEGMENTS {
                Some(ADDRESSABLE_SEGMENTS)
            } else {
                Some(count)
            },
            None => None,
        }
    }

    /// How many segments to give Home Assistant entities for.
    ///
    /// Here the errors *are* asymmetric the other way: an entity too many is a
    /// control that does nothing, which is worse than one missing. Both sources
    /// over-report, in different ways, so the **smaller** wins when we have
    /// both.
    ///
    /// A chainable device answers outright and beats both: the strings that it
    /// says are attached times the length of one.
    pub fn visible_segment_count(&self) -> (r: Option<u32>)
        requires
            self.wf(),
            self.chained() matches Some(count) ==> count <= u32::MAX,
        ensures
            match r {
                Some(count) => self.visible() == Some(count as int),
                None => self.visible() is None,
            },
    {
        if let Some(chained) = self.chained_segment_count() {
            return Some(chained);
        }
        match (self.reported_segment_count(), self.claimed_segment_count()) {
            (Some(a), Some(b)) => if a < b {
                Some(a)
            } else {
                Some(b)
            },
            (Some(a), None) => Some(a),
            (None, b) => b,
        }
    }

    /// Segments the device itself has told us about.
    ///
    /// This run's answer wins outright where there is one, and the remembered
    /// count only fills the gap before the device has spoken: a poll maps a
    /// device completely, so a current answer is complete by construction.
    pub fn reported_segment_count(&self) -> (r: Option<u32>)
        requires
            self.wf(),
        ensures
            match r {
                Some(count) => self.reported() == Some(count as int),
                None => self.reported() is None,
            },
    {
        match highest_key(&self.segment_colors) {
            Some(highest) => {
                assert(self.segment_colors@.contains_key(highest));
                Some(highest + 1)
            },
            None => self.remembered_segment_count,
        }
    }

    /// Whether `after` is this device once it said how many strings are chained.
    pub open spec fn says_strings(&self, strings: u32, news: bool, after: Device) -> bool {
        &&& after == (Device { chained_strings: after.chained_strings, ..*self })
        &&& after.chained_strings == Some(strings)
        &&& news == (after.chained_strings != self.chained_strings)
    }

    /// The same count again is no news, and another is. The last count is known.
    pub proof fn a_count_is_news_once(
        first: Device,
        second: Device,
        third: Device,
        counts: (u32, u32),
        news: (bool, bool),
    )
        requires
            first.says_strings(counts.0, news.0, second),
            second.says_strings(counts.1, news.1, third),
        ensures
            news.1 <==> counts.1 != counts.0,
            news.0 <==> first.chained_strings is None || first.chained_strings->0 != counts.0,
            third.chained_strings == Some(counts.1),
            third.segment_colors == first.segment_colors,
            third.remembered_segment_count == first.remembered_segment_count,
    {
    }

    /// Record how many strings the device says are chained together.
    ///
    /// Returns whether this is news, because it changes how many segment
    /// entities Home Assistant should have and those are published at startup.
    pub fn set_chained_strings(&mut self, strings: u32) -> (r: bool)
        ensures
            old(self).says_strings(strings, r, *final(self)),
            r == (old(self).chained_strings != Some(strings)),
            *final(self) == (Device { chained_strings: Some(strings), ..*old(self) }),
    {
        let changed = match self.chained_strings {
            Some(known) => known != strings,
            None => true,
        };
        self.chained_strings = Some(strings);
        changed
    }

    /// How many segments this device drives, when that can be worked out.
    ///
    /// The device says how many strings are attached and a per-model constant
    /// says how long one is; neither alone is enough. `None` for everything that
    /// cannot be chained, which is almost everything.
    fn chained_segment_count(&self) -> (r: Option<u32>)
        requires
            self.chained() matches Some(count) ==> count <= u32::MAX,
        ensures
            match r {
                Some(count) => self.chained() == Some(count as int),
                None => self.chained() is None,
            },
    {
        match (self.chained_strings, segments_per_chained_string(self.sku.as_str())) {
            (Some(strings), Some(per_string)) => Some(strings * per_string),
            _ => None,
        }
    }

    /// Restore a segment count learned in an earlier run.
    pub fn set_remembered_segment_count(&mut self, count: u32)
        ensures
            *final(self) == (Device { remembered_segment_count: Some(count), ..*old(self) }),
    {
        self.remembered_segment_count = Some(count);
    }

    /// Segments Govee's metadata claims. Unreliable in both directions: it
    /// offers none at all for a twelve-segment H6054.
    fn claimed_segment_count(&self) -> (r: Option<u32>)
        ensures
            match r {
                Some(count) => self.claimed() == Some(count as int),
                None => self.claimed() is None,
            },
    {
        match &self.http_device_info {
            Some(info) => match info.supports_segmented_rgb() {
                Some((_, end)) => Some(end),
                None => None,
            },
            None => None,
        }
    }

    /// Whether the device is addressed as a set of segments: it has said so
    /// itself, now or in an earlier run, or Govee's metadata says so.
    pub open spec fn segmented(&self) -> bool {
        ||| self.segment_mode_reported
        ||| exists|k: u32| #[trigger] self.segment_colors@.contains_key(k)
        ||| self.remembered_segment_count matches Some(count) && count > 0
        ||| self.claimed() is Some
    }

    /// Whether this device is addressed as a set of segments.
    ///
    /// Segmented devices accept the whole-device power frame but ignore the
    /// whole-strip colour command.
    pub fn is_segmented(&self) -> (r: bool)
        ensures
            r == self.segmented(),
    {
        // The device's own word first. Govee's metadata misses this entirely
        // for an H6054 — twelve segments it never mentions — and a
        // Bluetooth-only device has no metadata at all.
        if self.segment_mode_reported {
            return true;
        }
        if let Some(highest) = highest_key(&self.segment_colors) {
            assert(self.segment_colors@.contains_key(highest));
            return true;
        }
        if let Some(count) = self.remembered_segment_count {
            if count > 0 {
                return true;
            }
        }
        match self.claimed_segment_count() {
            Some(_) => true,
            None => false,
        }
    }

    /// Record that a device named itself as segmented. Returns whether this is
    /// news.
    pub fn set_segment_mode_reported(&mut self) -> (r: bool)
        ensures
            r == !old(self).segment_mode_reported,
            *final(self) == (Device { segment_mode_reported: true, ..*old(self) }),
    {
        let news = !self.segment_mode_reported;
        self.segment_mode_reported = true;
        news
    }
}

} // verus!
