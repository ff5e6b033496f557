//! The questions that a device can be asked.
use vstd::prelude::*;

use crate::ble::bytes;
use crate::ble::bytes::{
    query_device_brightness, query_device_color, query_device_power, query_segment_colors,
};
use crate::ble::frame;
use crate::ble::segment::SEGMENTS_PER_PAGE;

verus! {

/// How long to wait for an answer to a question the device may not implement,
/// in milliseconds.
///
/// Well under the ordinary query timeout: a device that has segments replies
/// almost at once, so the wait only ever costs anything when the answer is
/// silence.
pub const SPECULATIVE_QUERY_TIMEOUT_MS: u64 = 2000;

/// A bound on one poll's sweep over the segment pages. Some devices answer
/// *every* page they are asked for, inventing segments beyond the ones they
/// have, and this is what bounds them.
pub const MAX_DISCOVERY_PAGES: u32 = 6;

/// How many pages are read back after a command.
pub const MAX_READ_BACK_PAGES: usize = 4;

/// A status attribute we can ask a device about.
#[derive(Clone, Copy, Debug, PartialEq, Eq, Structural)]
pub enum Query {
    Power,
    Brightness,
    Color,
    /// One page of segment colours. Pages are numbered from 1 and a device
    /// answers only for pages it has, so asking past the end is how the extent
    /// is discovered rather than an error.
    Segments(u8),
}

/// The pages from the first up to `n`.
pub open spec fn pages_up_to(n: nat) -> Seq<Query> {
    Seq::new(n, |i: int| Query::Segments((i + 1) as u8))
}

/// How many pages a poll asks for.
pub open spec fn pages_wanted(known: Option<u32>) -> nat {
    match known {
        None => MAX_DISCOVERY_PAGES as nat,
        Some(count) => {
            let one_past = (count + SEGMENTS_PER_PAGE - 1) / SEGMENTS_PER_PAGE as int + 1;
            if one_past < MAX_DISCOVERY_PAGES {
                one_past as nat
            } else {
                MAX_DISCOVERY_PAGES as nat
            }
        },
    }
}

/// The page that carries a segment, at three segments a page.
pub open spec fn page_of(segment: u32) -> u8 {
    ((segment / 3 + 1) % 256) as u8
}

/// Whether a page carries one of the segments.
pub open spec fn is_touched(segments: Seq<u32>, page: u8) -> bool {
    exists|i: int| 0 <= i < segments.len() && page_of(#[trigger] segments[i]) == page
}

/// The pages that carry the segments, in rising order and each once; where there
/// are more than `most`, the lowest of them.
pub open spec fn are_lowest_pages(segments: Seq<u32>, pages: Seq<u8>, most: nat) -> bool {
    &&& pages.len() <= most
    &&& forall|i: int, j: int| 0 <= i < j < pages.len() ==> pages[i] < pages[j]
    &&& forall|i: int| 0 <= i < pages.len() ==> is_touched(segments, #[trigger] pages[i])
    &&& forall|page: u8| #[trigger]
        is_touched(segments, page) ==> pages.contains(page) || (pages.len() == most && forall|
            i: int,
        |
            0 <= i < pages.len() ==> pages[i] < page)
}

/// The pages of segment queries.
pub open spec fn pages_asked(queries: Seq<Query>) -> Seq<u8> {
    queries.map_values(|query: Query| query->Segments_0)
}

/// The queries that read back these segments.
pub open spec fn reads_back(segments: Seq<u32>, queries: Seq<Query>) -> bool {
    &&& forall|i: int| 0 <= i < queries.len() ==> #[trigger] queries[i] is Segments
    &&& are_lowest_pages(segments, pages_asked(queries), MAX_READ_BACK_PAGES as nat)
}

impl Query {
    /// The attributes of a light.
    pub open spec fn all() -> Seq<Query> {
        seq![Query::Power, Query::Brightness, Query::Color]
    }

    /// A poll asks for every attribute of a light, each once, and for no segments.
    pub proof fn a_poll_asks_for_every_attribute(query: Query)
        ensures
            Query::all().contains(query) <==> query is Power || query is Brightness
                || query is Color,
            Query::all().no_duplicates(),
    {
        assert(Query::all()[0] is Power);
        assert(Query::all()[1] is Brightness);
        assert(Query::all()[2] is Color);
    }

    pub fn all_queries() -> (r: Vec<Query>)
        ensures
            r@ == Query::all(),
    {
        let all: Vec<Query> = vec![Query::Power, Query::Brightness, Query::Color];
        assert(all@ =~= Query::all());
        all
    }

    /// Whether an unanswered query is an acceptable outcome.
    ///
    /// Only the segment pages are speculative: a device without segments
    /// ignores the question, and treating that silence as a failed job took a
    /// working Bluetooth-only light out of service on every poll. Power,
    /// brightness and colour are answered by every light we talk to, so silence
    /// there really is a fault.
    pub fn is_speculative(&self) -> (r: bool)
        ensures
            r == (*self is Segments),
    {
        matches!(self, Query::Segments(_))
    }

    /// How long a query waits for its answer, in milliseconds.
    pub open spec fn wait(&self, configured_ms: u64) -> u64 {
        if *self is Segments && SPECULATIVE_QUERY_TIMEOUT_MS < configured_ms {
            SPECULATIVE_QUERY_TIMEOUT_MS
        } else {
            configured_ms
        }
    }

    /// How long to wait for an answer.
    ///
    /// A speculative query gets a shorter deadline than the configured one: a
    /// device that has segments answers in milliseconds, so the full timeout is
    /// spent waiting only on silence.
    pub fn timeout(&self, configured_ms: u64) -> (r: u64)
        ensures
            r == self.wait(configured_ms),
    {
        if self.is_speculative() && SPECULATIVE_QUERY_TIMEOUT_MS < configured_ms {
            SPECULATIVE_QUERY_TIMEOUT_MS
        } else {
            configured_ms
        }
    }

    /// Segment pages to ask for during a poll, given what we already know.
    ///
    /// A device with no segments simply does not answer, so probing page 1
    /// costs one query and is how a Bluetooth-only device — which the Platform
    /// API does not describe at all — can ever reveal that it has segments.
    ///
    /// With nothing known every page is asked for: the executor stops at the
    /// first unanswered one. Otherwise one past the end, in case it has grown.
    pub fn discover_segments(known: Option<u32>) -> (r: Vec<Query>)
        ensures
            r@ == pages_up_to(pages_wanted(known)),
    {
        let want: u32 = match known {
            None => MAX_DISCOVERY_PAGES,
            Some(count) => {
                let per_page: u32 = SEGMENTS_PER_PAGE as u32;
                let full: u32 = count / per_page;
                let pages: u32 = if count % per_page == 0 {
                    full
                } else {
                    full + 1
                };
                assert(pages == (count + 2) / 3);
                if pages + 1 < MAX_DISCOVERY_PAGES {
                    pages + 1
                } else {
                    MAX_DISCOVERY_PAGES
                }
            },
        };
        let mut queries: Vec<Query> = Vec::new();
        for i in 0..want
            invariant
                want <= 6,
                queries@ == pages_up_to(i as nat),
        {
            queries.push(Query::Segments((i + 1) as u8));
            assert(queries@ =~= pages_up_to((i + 1) as nat));
        }
        queries
    }

    /// Discovery cannot outgrow what a command can address: the pages that a
    /// poll asks for hold fewer segments than a mask can name, whatever the
    /// device claims to have.
    pub proof fn discovery_stays_addressable(known: Option<u32>)
        ensures
            1 <= pages_wanted(known) <= MAX_DISCOVERY_PAGES,
            pages_wanted(known) * SEGMENTS_PER_PAGE
                < crate::ble::segment::ADDRESSABLE_SEGMENTS,
    {
    }

    /// A poll asks for the pages from the first on, without a gap. They hold every
    /// segment that the device is known to have and one page more, in case it has
    /// grown, unless that is more than a poll asks for; and no more than that one.
    pub proof fn a_poll_reaches_past_what_is_known(known: Option<u32>, i: int)
        ensures
            ({
                let asked = pages_up_to(pages_wanted(known));
                &&& 0 <= i < asked.len() ==> (asked[i] matches Query::Segments(page) && page == i
                    + 1)
                &&& known is None ==> asked.len() == 6
                &&& known matches Some(count) ==> {
                    &&& 3 * (asked.len() - 1) >= count || asked.len() == 6
                    &&& 3 * (asked.len() - 2) < count || asked.len() == 1
                }
            }),
    {
    }

    /// A segment stands on the page that is asked for it: three to a page, and pages
    /// count from one.
    pub proof fn a_segment_stands_on_its_page(segment: u32)
        requires
            segment < 765,
        ensures
            3 * (page_of(segment) - 1) <= segment < 3 * page_of(segment),
    {
    }

    /// A segment that was changed is read back, unless there are more pages than are
    /// read back at all; and no page is asked for twice or without reason.
    pub proof fn what_was_changed_is_read_back(segments: Seq<u32>, queries: Seq<Query>, i: int)
        requires
            reads_back(segments, queries),
            0 <= i < segments.len(),
            segments[i] < 765,
        ensures
            queries.len() <= 4,
            queries.len() < 4 ==> exists|k: int|
                0 <= k < queries.len() && (#[trigger] queries[k] matches Query::Segments(page) && 3
                    * (page - 1) <= segments[i] < 3 * page),
            forall|k: int, l: int| 0 <= k < l < queries.len() ==> queries[k] != queries[l],
    {
        let page = page_of(segments[i]);
        let pages = pages_asked(queries);
        assert(is_touched(segments, page));
        if queries.len() < 4 {
            assert(pages.contains(page));
            let k = choose|k: int| 0 <= k < pages.len() && pages[k] == page;
            assert(pages[k] == queries[k]->Segments_0);
            assert(queries[k] is Segments);
        }
        assert forall|k: int, l: int| 0 <= k < l < queries.len() implies queries[k]
            != queries[l] by {
            assert(pages[k] < pages[l]);
            assert(pages[k] == queries[k]->Segments_0 && pages[l] == queries[l]->Segments_0);
        }
    }

    /// Only a question that a device may not understand is cut short, and none waits
    /// longer than configured.
    pub proof fn how_long_an_answer_is_waited_for(&self, configured_ms: u64)
        ensures
            self.wait(configured_ms) <= configured_ms,
            !(*self is Segments) ==> self.wait(configured_ms) == configured_ms,
            *self is Segments ==> self.wait(configured_ms) <= 2000,
            configured_ms <= 2000 ==> self.wait(configured_ms) == configured_ms,
    {
    }

    /// A device sees which attribute it is asked for: one for power, four for
    /// brightness, five for colour, and a page of segments by its number. A reply to
    /// one question does not pass for a reply to another.
    pub proof fn questions_are_told_apart(&self, other: Query)
        requires
            *self != other,
        ensures
            self.header()[0] == 0xaa,
            *self is Power ==> self.header()[1] == 0x01,
            *self is Brightness ==> self.header()[1] == 0x04,
            *self is Color ==> self.header()[1] == 0x05,
            *self matches Query::Segments(page) ==> self.header()[1] == 0xa5 && self.header()[2]
                == page,
            !self.header().is_prefix_of(frame::finished(other.payload())),
    {
        let header = self.header();
        let sent = frame::finished(other.payload());
        if header.is_prefix_of(sent) {
            assert(header[1] == sent.subrange(0, header.len() as int)[1]);
            if header.len() == 3 {
                assert(header[2] == sent.subrange(0, 3)[2]);
            }
        }
    }

    /// The segment pages that would carry these segment indices.
    ///
    /// Asked with the common three-per-page stride: a device that packs four
    /// answers with its own layout anyway, and `Device::set_segment_colors`
    /// works the stride out from the reply. Bounded, because each query is a
    /// write plus a notify round trip and a scene should not turn into a long
    /// radio session.
    pub fn pages_covering(segments: &[u32]) -> (r: Vec<Query>)
        ensures
            reads_back(segments@, r@),
    {
        let mut queries: Vec<Query> = Vec::new();
        let ghost mut pages: Seq<u8> = Seq::empty();
        let mut exhausted = false;
        assert(pages_asked(queries@) =~= pages);
        while queries.len() < MAX_READ_BACK_PAGES && !exhausted
            invariant
                queries@.len() <= MAX_READ_BACK_PAGES,
                queries@.len() == pages.len(),
                forall|i: int| 0 <= i < queries@.len() ==> #[trigger] queries@[i] is Segments,
                pages_asked(queries@) == pages,
                forall|i: int, j: int| 0 <= i < j < pages.len() ==> pages[i] < pages[j],
                forall|i: int| 0 <= i < pages.len() ==> is_touched(segments@, #[trigger] pages[i]),
                forall|page: u8| #[trigger]
                    is_touched(segments@, page) && !pages.contains(page) ==> !exhausted && forall|
                        i: int,
                    |
                        0 <= i < pages.len() ==> pages[i] < page,
            decreases MAX_READ_BACK_PAGES - queries@.len() + (if exhausted {
                0int
            } else {
                1int
            }),
        {
            match Self::lowest_page_above(segments, queries.as_slice(), Ghost(pages)) {
                Some(page) => {
                    let ghost before = pages;
                    queries.push(Query::Segments(page));
                    proof {
                        pages = pages.push(page);
                        assert(pages_asked(queries@) =~= pages);
                        assert(pages[before.len() as int] == page);
                        assert(!before.contains(page));
                        assert forall|p: u8| #[trigger]
                            is_touched(segments@, p) && !pages.contains(p) implies !exhausted
                            && forall|i: int| 0 <= i < pages.len() ==> pages[i] < p by {
                            assert(!before.contains(p)) by {
                                if before.contains(p) {
                                    let k = choose|k: int| 0 <= k < before.len() && before[k] == p;
                                    assert(pages[k] == p);
                                }
                            }
                            assert(p != page);
                        }
                    }
                },
                None => {
                    exhausted = true;
                },
            }
        }
        queries
    }

    /// The lowest page of the segments that is not among those asked for.
    fn lowest_page_above(segments: &[u32], asked: &[Query], Ghost(pages): Ghost<Seq<u8>>) -> (r:
        Option<u8>)
        requires
            pages_asked(asked@) == pages,
            forall|i: int| 0 <= i < asked@.len() ==> #[trigger] asked@[i] is Segments,
        ensures
            match r {
                Some(page) => {
                    &&& is_touched(segments@, page)
                    &&& !pages.contains(page)
                    &&& forall|p: u8| #[trigger]
                        is_touched(segments@, p) && !pages.contains(p) ==> page <= p
                },
                None => forall|p: u8| #[trigger] is_touched(segments@, p) ==> pages.contains(p),
            },
    {
        let mut best: Option<u8> = None;
        for i in 0..segments.len()
            invariant
                pages_asked(asked@) == pages,
                forall|k: int| 0 <= k < asked@.len() ==> #[trigger] asked@[k] is Segments,
                match best {
                    Some(page) => {
                        &&& is_touched(segments@, page)
                        &&& !pages.contains(page)
                        &&& forall|j: int|
                            0 <= j < i && !pages.contains(page_of(#[trigger] segments@[j]))
                                ==> page <= page_of(segments@[j])
                    },
                    None => forall|j: int|
                        0 <= j < i ==> pages.contains(page_of(#[trigger] segments@[j])),
                },
        {
            let page: u8 = ((segments[i] / 3 + 1) % 256) as u8;
            assert(page == page_of(segments@[i as int]));
            assert(is_touched(segments@, page));
            let mut known = false;
            for k in 0..asked.len()
                invariant
                    pages_asked(asked@) == pages,
                    forall|q: int| 0 <= q < asked@.len() ==> #[trigger] asked@[q] is Segments,
                    known == (exists|q: int| 0 <= q < k && pages[q] == page),
            {
                assert(pages[k as int] == asked@[k as int]->Segments_0);
                if let Query::Segments(p) = asked[k] {
                    if p == page {
                        known = true;
                    }
                }
            }
            assert(known == pages.contains(page));
            if !known {
                match best {
                    Some(b) => {
                        if page < b {
                            best = Some(page);
                        }
                    },
                    None => {
                        best = Some(page);
                    },
                }
            }
        }
        best
    }

    /// The bytes that a query starts with.
    pub open spec fn payload(&self) -> Seq<u8> {
        match self {
            Query::Power => bytes::power_query(),
            Query::Brightness => bytes::brightness_query(),
            Query::Color => bytes::color_query(),
            Query::Segments(page) => bytes::segment_query(*page),
        }
    }

    /// The header of a query and its reply: two bytes, and for a page of
    /// segments the page number too, since a device answering the wrong page
    /// would otherwise shift the whole map.
    pub open spec fn header(&self) -> Seq<u8> {
        match self {
            Query::Power => seq![0xaau8, 0x01],
            Query::Brightness => seq![0xaau8, 0x04],
            Query::Color => seq![0xaau8, 0x05],
            Query::Segments(page) => seq![0xaau8, 0xa5, *page],
        }
    }

    /// The header a reply to this query has to start with.
    ///
    /// That shared header is exactly what tells a reply apart from the receipt a
    /// write earns, which carries the `33` opcode instead.
    pub fn expect_prefix(&self) -> (r: Vec<u8>)
        ensures
            r@ == self.header(),
    {
        let prefix: Vec<u8> = match self {
            Query::Power => vec![0xaa, 0x01],
            Query::Brightness => vec![0xaa, 0x04],
            Query::Color => vec![0xaa, 0x05],
            Query::Segments(page) => vec![0xaa, 0xa5, *page],
        };
        assert(prefix@ =~= self.header());
        prefix
    }

    pub fn frame(&self) -> (r: Vec<u8>)
        ensures
            r@ == frame::finished(self.payload()),
            r@.len() == 20,
    {
        let encoded = match self {
            Query::Power => query_device_power(),
            Query::Brightness => query_device_brightness(),
            Query::Color => query_device_color(),
            Query::Segments(page) => query_segment_colors(*page),
        };
        encoded.into_bytes()
    }

    /// A query's frame is valid, starts with the header that its reply has to
    /// start with, and no receipt of a write does.
    pub proof fn replies_share_the_header(&self, receipt: Seq<u8>)
        requires
            receipt.len() > 0,
            receipt[0] == 0x33,
        ensures
            frame::is_valid_frame(frame::finished(self.payload())),
            self.header().is_prefix_of(frame::finished(self.payload())),
            !self.header().is_prefix_of(receipt),
    {
        let header = self.header();
        let sent = frame::finished(self.payload());
        frame::finished_is_valid(self.payload());
        assert(header =~= sent.subrange(0, header.len() as int));
        if header.is_prefix_of(receipt) {
            assert(header[0] == receipt.subrange(0, header.len() as int)[0]);
        }
    }
}

} // verus!
