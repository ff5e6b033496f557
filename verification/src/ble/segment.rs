//! Segment packets: the pages that a device reports, and the masks that commands
//! address segments with.
use vstd::prelude::*;

use crate::ble::frame;
use crate::ble::frame::finish;
use crate::ble::packets;
use crate::ble::packets::{command_field_bytes, notification_body, SEGMENT_MODE};

verus! {

/// How many segments a page carries on most devices.
pub const SEGMENTS_PER_PAGE: usize = 3;

/// How many groups fit in a page.
pub const GROUPS_PER_PAGE: usize = 4;

/// The bytes of a segment mask.
pub const SEGMENT_MASK_BYTES: usize = 7;

/// The segments that a mask can name are those below this.
pub const ADDRESSABLE_SEGMENTS: u32 = 56;

// ----------------------------------------------------------------------- pages

/// One group of a page: a brightness in percent and a colour.
#[derive(Clone, Copy, Debug, PartialEq, Eq, Structural)]
pub struct SegmentColor {
    pub brightness: u8,
    pub r: u8,
    pub g: u8,
    pub b: u8,
}

impl Default for SegmentColor {
    /// The all-zero group, which is padding and not a black segment.
    fn default() -> (r: Self)
        ensures
            r == SegmentColor::padding(),
    {
        SegmentColor { brightness: 0, r: 0, g: 0, b: 0 }
    }
}

impl SegmentColor {
    /// The all-zero group.
    pub open spec fn padding() -> SegmentColor {
        SegmentColor { brightness: 0, r: 0, g: 0, b: 0 }
    }

    /// A group stands for a segment of the device unless it is all zero or its
    /// brightness is no percentage.
    pub open spec fn names_a_segment(&self) -> bool {
        *self != SegmentColor::padding() && self.brightness <= 100
    }

    pub fn is_a_segment(&self) -> (r: bool)
        ensures
            r == self.names_a_segment(),
    {
        *self != SegmentColor::default() && self.brightness <= 100
    }
}

/// A page of segment colours. Pages count from one.
#[derive(Clone, Copy, Debug, PartialEq, Eq)]
pub struct NotifySegmentColors {
    pub page: u8,
    pub segments: [SegmentColor; 4],
}

/// The group that starts at byte `at` of `f`.
pub open spec fn group_at(f: Seq<u8>, at: int) -> SegmentColor {
    SegmentColor { brightness: f[at], r: f[at + 1], g: f[at + 2], b: f[at + 3] }
}

impl NotifySegmentColors {
    /// How many groups of this page may stand for segments: four if the fourth
    /// is used at all, and three otherwise.
    pub open spec fn groups(&self) -> nat {
        if self.segments@[3] != SegmentColor::padding() {
            4
        } else {
            3
        }
    }

    /// The index of this page's first segment, where each page carries `stride`.
    pub open spec fn first_index(&self, stride: nat) -> nat {
        if self.page == 0 {
            0
        } else {
            ((self.page - 1) * stride) as nat
        }
    }

    pub fn groups_used(&self) -> (r: usize)
        ensures
            r == self.groups(),
    {
        if self.segments[3] != SegmentColor::default() {
            GROUPS_PER_PAGE
        } else {
            SEGMENTS_PER_PAGE
        }
    }

    pub fn first_segment_index(&self, stride: usize) -> (r: u32)
        requires
            stride <= 4,
        ensures
            r == self.first_index(stride as nat),
            r <= 1016,
    {
        if self.page == 0 {
            0
        } else {
            let page: u32 = self.page as u32;
            assert((page - 1) * stride <= 254 * 4) by (nonlinear_arith)
                requires
                    1 <= page <= 255,
                    stride <= 4,
            ;
            assert(0 <= (page - 1) * stride) by (nonlinear_arith)
                requires
                    1 <= page,
                    0 <= stride,
            ;
            (page - 1) * (stride as u32)
        }
    }

    /// `aa a5 <page>` and four times `<brightness> <r> <g> <b>`
    pub open spec fn payload(&self) -> Seq<u8> {
        let s = self.segments@;
        seq![0xaau8, 0xa5] + seq![
            self.page,
            s[0].brightness,
            s[0].r,
            s[0].g,
            s[0].b,
            s[1].brightness,
            s[1].r,
            s[1].g,
            s[1].b,
            s[2].brightness,
            s[2].r,
            s[2].g,
            s[2].b,
            s[3].brightness,
            s[3].r,
            s[3].g,
            s[3].b,
        ]
    }

    /// The page number and the four groups that a frame of this kind holds.
    pub open spec fn parsed(data: Seq<u8>) -> Option<(u8, Seq<SegmentColor>)> {
        match packets::notification_rest(data, seq![0xaau8, 0xa5]) {
            Some(f) => Some(
                (f[0], seq![group_at(f, 1), group_at(f, 5), group_at(f, 9), group_at(f, 13)]),
            ),
            None => None,
        }
    }

    pub fn encode(&self) -> (r: Vec<u8>)
        ensures
            r@ == frame::finished(self.payload()),
    {
        let bytes: Vec<u8> = vec![
            0xaa,
            0xa5,
            self.page,
            self.segments[0].brightness,
            self.segments[0].r,
            self.segments[0].g,
            self.segments[0].b,
            self.segments[1].brightness,
            self.segments[1].r,
            self.segments[1].g,
            self.segments[1].b,
            self.segments[2].brightness,
            self.segments[2].r,
            self.segments[2].g,
            self.segments[2].b,
            self.segments[3].brightness,
            self.segments[3].r,
            self.segments[3].g,
            self.segments[3].b,
        ];
        assert(bytes@ =~= self.payload());
        finish(bytes)
    }

    pub fn decode(data: &[u8]) -> (r: Option<Self>)
        ensures
            match r {
                Some(page) => Self::parsed(data@) == Some((page.page, page.segments@)),
                None => Self::parsed(data@) is None,
            },
    {
        let prefix: [u8; 2] = [0xaa, 0xa5];
        assert(prefix@ =~= seq![0xaau8, 0xa5]);
        match notification_body(data, &prefix) {
            Some(f) => {
                let segments: [SegmentColor; 4] = [
                    SegmentColor { brightness: f[1], r: f[2], g: f[3], b: f[4] },
                    SegmentColor { brightness: f[5], r: f[6], g: f[7], b: f[8] },
                    SegmentColor { brightness: f[9], r: f[10], g: f[11], b: f[12] },
                    SegmentColor { brightness: f[13], r: f[14], g: f[15], b: f[16] },
                ];
                assert(segments@ =~= seq![
                    group_at(f@, 1),
                    group_at(f@, 5),
                    group_at(f@, 9),
                    group_at(f@, 13),
                ]);
                Some(NotifySegmentColors { page: f[0], segments })
            },
            None => None,
        }
    }

    /// What was encoded is what is decoded.
    pub proof fn round_trip(&self)
        ensures
            Self::parsed(frame::finished(self.payload())) == Some((self.page, self.segments@)),
    {
        let prefix = seq![0xaau8, 0xa5];
        let f = self.payload().skip(2);
        assert(self.payload() =~= prefix + f);
        packets::notification_round_trip(prefix, f);
        let rest = packets::notification_rest(frame::finished(self.payload()), prefix)->0;
        assert(rest =~= f) by {
            assert(f =~= rest.subrange(0, 17));
        }
        assert(self.segments@ =~= seq![
            group_at(f, 1),
            group_at(f, 5),
            group_at(f, 9),
            group_at(f, 13),
        ]);
    }
}

/// The device names itself as segmented. The byte it adds is carried and not
/// interpreted.
#[derive(Clone, Copy, Debug, PartialEq, Eq, Structural)]
pub struct NotifySegmentMode {
    pub value: u8,
}

impl NotifySegmentMode {
    /// `aa 05 15 <value>`
    pub open spec fn payload(&self) -> Seq<u8> {
        seq![0xaau8, 0x05, SEGMENT_MODE] + seq![self.value]
    }

    pub open spec fn parsed(data: Seq<u8>) -> Option<Self> {
        match packets::notification_rest(data, seq![0xaau8, 0x05, SEGMENT_MODE]) {
            Some(f) => Some(NotifySegmentMode { value: f[0] }),
            None => None,
        }
    }

    pub fn encode(&self) -> (r: Vec<u8>)
        ensures
            r@ == frame::finished(self.payload()),
    {
        let bytes: Vec<u8> = vec![0xaa, 0x05, SEGMENT_MODE, self.value];
        assert(bytes@ =~= self.payload());
        finish(bytes)
    }

    pub fn decode(data: &[u8]) -> (r: Option<Self>)
        ensures
            r == Self::parsed(data@),
    {
        let prefix: [u8; 3] = [0xaa, 0x05, SEGMENT_MODE];
        assert(prefix@ =~= seq![0xaau8, 0x05, SEGMENT_MODE]);
        match notification_body(data, &prefix) {
            Some(f) => Some(NotifySegmentMode { value: f[0] }),
            None => None,
        }
    }

    /// What was encoded is what is decoded.
    pub proof fn round_trip(&self)
        ensures
            Self::parsed(frame::finished(self.payload())) == Some(*self),
    {
        packets::notification_round_trip(seq![0xaau8, 0x05, SEGMENT_MODE], seq![self.value]);
    }
}

// ----------------------------------------------------------------------- masks

/// Whether bit `n` of a little-endian mask is set.
pub open spec fn mask_names(mask: Seq<u8>, n: nat) -> bool {
    n / 8 < mask.len() && bit_set(mask[(n / 8) as int], (n % 8) as u8)
}

/// Whether bit `i` of `byte` is set.
pub open spec fn bit_set(byte: u8, i: u8) -> bool {
    (byte >> i) & 1 == 1
}

/// The mask names exactly the segments of the list.
pub open spec fn mask_is(mask: Seq<u8>, segments: Seq<u32>) -> bool {
    mask.len() == SEGMENT_MASK_BYTES && forall|n: u32| #[trigger]
        mask_names(mask, n as nat) == segments.contains(n)
}

/// The mask that names the segments of the list.
pub open spec fn mask_of(segments: Seq<u32>) -> Seq<u8> {
    choose|mask: Seq<u8>| mask_is(mask, segments)
}

/// There is but one mask that names given segments.
pub proof fn masks_are_unique(mask: Seq<u8>, segments: Seq<u32>)
    requires
        mask_is(mask, segments),
    ensures
        mask == mask_of(segments),
{
    let other = mask_of(segments);
    assert(mask_is(other, segments));
    assert forall|i: int| 0 <= i < 7 implies mask[i] == other[i] by {
        let a = mask[i];
        let b = other[i];
        assert forall|j: u8| j < 8 implies #[trigger] bit_set(a, j) == bit_set(b, j) by {
            let n = (8 * i + j) as u32;
            assert(n / 8 == i && n % 8 == j);
            assert(mask_names(mask, n as nat) == mask_names(other, n as nat));
        }
        assert(bit_set(a, 0) == bit_set(b, 0) && bit_set(a, 1) == bit_set(b, 1));
        assert(bit_set(a, 2) == bit_set(b, 2) && bit_set(a, 3) == bit_set(b, 3));
        assert(bit_set(a, 4) == bit_set(b, 4) && bit_set(a, 5) == bit_set(b, 5));
        assert(bit_set(a, 6) == bit_set(b, 6) && bit_set(a, 7) == bit_set(b, 7));
        assert(a == b) by (bit_vector)
            requires
                ((a >> 0u8) & 1 == 1) == ((b >> 0u8) & 1 == 1),
                ((a >> 1u8) & 1 == 1) == ((b >> 1u8) & 1 == 1),
                ((a >> 2u8) & 1 == 1) == ((b >> 2u8) & 1 == 1),
                ((a >> 3u8) & 1 == 1) == ((b >> 3u8) & 1 == 1),
                ((a >> 4u8) & 1 == 1) == ((b >> 4u8) & 1 == 1),
                ((a >> 5u8) & 1 == 1) == ((b >> 5u8) & 1 == 1),
                ((a >> 6u8) & 1 == 1) == ((b >> 6u8) & 1 == 1),
                ((a >> 7u8) & 1 == 1) == ((b >> 7u8) & 1 == 1),
        ;
    }
    assert(mask =~= other);
}

/// There is a mask for every list of segments that masks can name.
pub proof fn masks_exist(segments: Seq<u32>)
    requires
        all_addressable(segments),
    ensures
        mask_is(mask_of(segments), segments),
        mask_of(segments).len() == SEGMENT_MASK_BYTES,
{
    let mask = built_mask(segments);
    built_mask_is(segments);
    assert(mask_is(mask, segments));
}

/// The mask with one bit set after the other.
spec fn built_mask(segments: Seq<u32>) -> Seq<u8>
    decreases segments.len(),
{
    if segments.len() == 0 {
        seq![0u8, 0, 0, 0, 0, 0, 0]
    } else {
        let before = built_mask(segments.drop_last());
        let n = segments.last();
        before.update(
            (n / 8) as int,
            before[(n / 8) as int] | (1u8 << ((n % 8) as u8)),
        )
    }
}

proof fn built_mask_is(segments: Seq<u32>)
    requires
        all_addressable(segments),
    ensures
        mask_is(built_mask(segments), segments),
    decreases segments.len(),
{
    if segments.len() == 0 {
        empty_mask_names_nothing(built_mask(segments));
    } else {
        let done = segments.drop_last();
        assert forall|i: int| 0 <= i < done.len() implies #[trigger] done[i]
            < ADDRESSABLE_SEGMENTS by {
            assert(done[i] == segments[i]);
        }
        built_mask_is(done);
        assert(segments =~= done.push(segments.last()));
        naming_one_more(built_mask(done), done, segments.last());
    }
}

proof fn empty_mask_names_nothing(mask: Seq<u8>)
    requires
        mask == seq![0u8, 0, 0, 0, 0, 0, 0],
    ensures
        mask_is(mask, Seq::<u32>::empty()),
{
    assert forall|n: u32| #[trigger] mask_names(mask, n as nat) == Seq::<u32>::empty().contains(
        n,
    ) by {
        let i: u8 = (n % 8) as u8;
        assert((0u8 >> i) & 1 == 0) by (bit_vector);
        if n / 8 < 7 {
            assert(mask[(n / 8) as int] == 0);
        }
    }
}

/// Setting the bit of a segment names that segment and changes nothing else.
proof fn naming_one_more(mask: Seq<u8>, done: Seq<u32>, segment: u32)
    requires
        mask_is(mask, done),
        segment < ADDRESSABLE_SEGMENTS,
    ensures
        mask_is(
            mask.update(
                (segment / 8) as int,
                mask[(segment / 8) as int] | (1u8 << ((segment % 8) as u8)),
            ),
            done.push(segment),
        ),
{
    let bit = (segment % 8) as u8;
    let old_byte = mask[(segment / 8) as int];
    let after = mask.update((segment / 8) as int, old_byte | (1u8 << bit));
    let next = done.push(segment);
    setting_a_bit(old_byte, bit);
    assert forall|n: u32| #[trigger] mask_names(after, n as nat) == next.contains(n) by {
        assert(mask_names(mask, n as nat) == done.contains(n));
        assert(next.contains(n) == (n == segment || done.contains(n))) by {
            if done.contains(n) {
                let q = choose|q: int| 0 <= q < done.len() && done[q] == n;
                assert(next[q] == n);
            }
            assert(next[done.len() as int] == segment);
        }
        let j: u8 = (n % 8) as u8;
        if n / 8 == segment / 8 {
            assert(bit_set(old_byte | (1u8 << bit), j) == (bit == j || bit_set(old_byte, j)));
            assert((bit == j) == (n == segment));
        }
    }
}

/// A segment that no mask can name.
#[derive(Clone, Copy, Debug, PartialEq, Eq, Structural)]
pub struct SegmentOutOfRange {
    pub segment: u32,
}

/// Whether every segment of the list can be named by a mask.
pub open spec fn all_addressable(segments: Seq<u32>) -> bool {
    forall|i: int| 0 <= i < segments.len() ==> #[trigger] segments[i] < ADDRESSABLE_SEGMENTS
}

/// The first segment of the list that no mask can name.
pub open spec fn is_first_out_of_range(segments: Seq<u32>, segment: u32) -> bool {
    segment >= ADDRESSABLE_SEGMENTS && exists|i: int|
        0 <= i < segments.len() && segments[i] == segment && all_addressable(
            #[trigger] segments.take(i),
        )
}

/// A segment that is refused is one of the list, cannot be named by a mask, and comes
/// before every other that cannot be; a list is refused for one segment at most.
pub proof fn which_segment_is_refused(segments: Seq<u32>, segment: u32, other: u32) -> (at: int)
    requires
        is_first_out_of_range(segments, segment),
    ensures
        0 <= at < segments.len(),
        segments[at] == segment,
        segment >= ADDRESSABLE_SEGMENTS,
        forall|i: int| 0 <= i < at ==> #[trigger] segments[i] < ADDRESSABLE_SEGMENTS,
        is_first_out_of_range(segments, other) ==> other == segment,
        !all_addressable(segments),
{
    let at = choose|i: int|
        0 <= i < segments.len() && segments[i] == segment && all_addressable(
            #[trigger] segments.take(i),
        );
    assert forall|i: int| 0 <= i < at implies #[trigger] segments[i] < ADDRESSABLE_SEGMENTS by {
        assert(segments.take(at)[i] == segments[i]);
    }
    if is_first_out_of_range(segments, other) {
        let k = choose|i: int|
            0 <= i < segments.len() && segments[i] == other && all_addressable(
                #[trigger] segments.take(i),
            );
        if at < k {
            assert(segments.take(k)[at] == segment);
        } else if k < at {
            assert(segments.take(at)[k] == other);
        }
    }
    at
}

proof fn setting_a_bit(b: u8, i: u8)
    requires
        i < 8,
    ensures
        forall|j: u8| j < 8 ==> #[trigger] bit_set(b | (1u8 << i), j) == (i == j || bit_set(b, j)),
{
    assert forall|j: u8| j < 8 implies #[trigger] bit_set(b | (1u8 << i), j) == (i == j || bit_set(
        b,
        j,
    )) by {
        assert((((b | (1u8 << i)) >> j) & 1 == 1) == (i == j || (b >> j) & 1 == 1)) by (bit_vector)
            requires
                i < 8,
                j < 8,
        ;
    }
}

/// The mask that names `segments`.
fn segment_mask(segments: &[u32]) -> (r: Result<[u8; 7], SegmentOutOfRange>)
    ensures
        match r {
            Ok(mask) => {
                &&& all_addressable(segments@)
                &&& mask_is(mask@, segments@)
                &&& mask@ == mask_of(segments@)
            },
            Err(err) => is_first_out_of_range(segments@, err.segment),
        },
{
    let mut mask: [u8; 7] = [0, 0, 0, 0, 0, 0, 0];
    proof {
        assert(mask@ =~= seq![0u8, 0, 0, 0, 0, 0, 0]);
        empty_mask_names_nothing(mask@);
        assert(segments@.take(0) =~= Seq::<u32>::empty());
    }
    for k in 0..segments.len()
        invariant
            all_addressable(segments@.take(k as int)),
            mask_is(mask@, segments@.take(k as int)),
    {
        let segment: u32 = segments[k];
        if segment >= ADDRESSABLE_SEGMENTS {
            return Err(SegmentOutOfRange { segment });
        }
        let byte: usize = (segment / 8) as usize;
        let bit: u8 = (segment % 8) as u8;
        let ghost before = mask@;
        let old_byte: u8 = mask[byte];
        mask[byte] = old_byte | (1u8 << bit);
        proof {
            assert(segments@.take(k + 1) =~= segments@.take(k as int).push(segment));
            naming_one_more(before, segments@.take(k as int), segment);
            assert(mask@ =~= before.update(byte as int, old_byte | (1u8 << bit)));
        }
    }
    assert(segments@.take(segments@.len() as int) =~= segments@);
    proof {
        masks_are_unique(mask@, segments@);
    }
    Ok(mask)
}

// -------------------------------------------------------------------- commands

/// Sets the colour of the segments that the mask names.
#[derive(Clone, Copy, Debug, PartialEq, Eq)]
pub struct SetSegmentColorRgb {
    pub r: u8,
    pub g: u8,
    pub b: u8,
    /// Bit N, counting from the first byte's lowest, names segment N.
    pub mask: [u8; 7],
}

impl SetSegmentColorRgb {
    pub fn for_segments(segments: &[u32], color: (u8, u8, u8)) -> (r: Result<
        Self,
        SegmentOutOfRange,
    >)
        ensures
            match r {
                Ok(command) => {
                    &&& all_addressable(segments@)
                    &&& (command.r, command.g, command.b) == color
                    &&& mask_is(command.mask@, segments@)
                    &&& command.mask@ == mask_of(segments@)
                },
                Err(err) => is_first_out_of_range(segments@, err.segment),
            },
    {
        match segment_mask(segments) {
            Ok(mask) => Ok(SetSegmentColorRgb { r: color.0, g: color.1, b: color.2, mask }),
            Err(err) => Err(err),
        }
    }

    /// `33 05 15 01 <r> <g> <b> 00 00 00 00 00 <mask>`
    pub open spec fn payload_of(color: (u8, u8, u8), mask: Seq<u8>) -> Seq<u8> {
        seq![0x33u8, 0x05, SEGMENT_MODE, 0x01] + (seq![color.0, color.1, color.2, 0, 0, 0, 0, 0]
            + mask)
    }

    pub open spec fn payload(&self) -> Seq<u8> {
        Self::payload_of((self.r, self.g, self.b), self.mask@)
    }

    /// The colour and the mask that a frame of this kind holds.
    pub open spec fn parsed(data: Seq<u8>) -> Option<(u8, u8, u8, Seq<u8>)> {
        match packets::command_fields(data, seq![0x33u8, 0x05, SEGMENT_MODE, 0x01], 15) {
            Some(f) => if frame::all_zero(f.subrange(3, 8)) {
                Some((f[0], f[1], f[2], f.skip(8)))
            } else {
                None
            },
            None => None,
        }
    }

    pub fn encode(&self) -> (r: Vec<u8>)
        ensures
            r@ == frame::finished(self.payload()),
    {
        let bytes: Vec<u8> = vec![
            0x33,
            0x05,
            SEGMENT_MODE,
            0x01,
            self.r,
            self.g,
            self.b,
            0,
            0,
            0,
            0,
            0,
            self.mask[0],
            self.mask[1],
            self.mask[2],
            self.mask[3],
            self.mask[4],
            self.mask[5],
            self.mask[6],
        ];
        assert(bytes@ =~= self.payload());
        finish(bytes)
    }

    pub fn decode(data: &[u8]) -> (r: Option<Self>)
        ensures
            match r {
                Some(c) => Self::parsed(data@) == Some((c.r, c.g, c.b, c.mask@)),
                None => Self::parsed(data@) is None,
            },
    {
        let prefix: [u8; 4] = [0x33, 0x05, SEGMENT_MODE, 0x01];
        assert(prefix@ =~= seq![0x33u8, 0x05, SEGMENT_MODE, 0x01]);
        match command_field_bytes(data, &prefix, 15) {
            Some(f) => {
                let ghost gap = f@.subrange(3, 8);
                if f[3] != 0 || f[4] != 0 || f[5] != 0 || f[6] != 0 || f[7] != 0 {
                    assert(gap[0] == f@[3] && gap[1] == f@[4] && gap[2] == f@[5]);
                    assert(gap[3] == f@[6] && gap[4] == f@[7]);
                    return None;
                }
                assert(gap =~= seq![0u8, 0, 0, 0, 0]);
                let mask: [u8; 7] = [f[8], f[9], f[10], f[11], f[12], f[13], f[14]];
                assert(mask@ =~= f@.skip(8));
                Some(SetSegmentColorRgb { r: f[0], g: f[1], b: f[2], mask })
            },
            None => None,
        }
    }

    /// What was encoded is what is decoded.
    pub proof fn round_trip(&self)
        ensures
            Self::parsed(frame::finished(self.payload())) == Some((self.r, self.g, self.b, self.mask@)),
    {
        let f = seq![self.r, self.g, self.b, 0, 0, 0, 0, 0] + self.mask@;
        packets::command_fields_round_trip(seq![0x33u8, 0x05, SEGMENT_MODE, 0x01], f);
        assert(f.skip(8) =~= self.mask@);
        assert(f.subrange(3, 8) =~= seq![0u8, 0, 0, 0, 0]);
    }
}

/// Sets the brightness of the segments that the mask names.
#[derive(Clone, Copy, Debug, PartialEq, Eq)]
pub struct SetSegmentBrightness {
    pub percent: u8,
    /// Bit N, counting from the first byte's lowest, names segment N.
    pub mask: [u8; 7],
}

impl SetSegmentBrightness {
    pub fn for_segments(segments: &[u32], percent: u8) -> (r: Result<Self, SegmentOutOfRange>)
        ensures
            match r {
                Ok(command) => {
                    &&& all_addressable(segments@)
                    &&& command.percent == percent
                    &&& mask_is(command.mask@, segments@)
                    &&& command.mask@ == mask_of(segments@)
                },
                Err(err) => is_first_out_of_range(segments@, err.segment),
            },
    {
        match segment_mask(segments) {
            Ok(mask) => Ok(SetSegmentBrightness { percent, mask }),
            Err(err) => Err(err),
        }
    }

    /// `33 05 15 02 <percent> <mask>`: the mask stands right behind the value.
    pub open spec fn payload_of(percent: u8, mask: Seq<u8>) -> Seq<u8> {
        seq![0x33u8, 0x05, SEGMENT_MODE, 0x02] + (seq![percent] + mask)
    }

    pub open spec fn payload(&self) -> Seq<u8> {
        Self::payload_of(self.percent, self.mask@)
    }

    /// The brightness and the mask that a frame of this kind holds.
    pub open spec fn parsed(data: Seq<u8>) -> Option<(u8, Seq<u8>)> {
        match packets::command_fields(data, seq![0x33u8, 0x05, SEGMENT_MODE, 0x02], 8) {
            Some(f) => Some((f[0], f.skip(1))),
            None => None,
        }
    }

    pub fn encode(&self) -> (r: Vec<u8>)
        ensures
            r@ == frame::finished(self.payload()),
    {
        let bytes: Vec<u8> = vec![
            0x33,
            0x05,
            SEGMENT_MODE,
            0x02,
            self.percent,
            self.mask[0],
            self.mask[1],
            self.mask[2],
            self.mask[3],
            self.mask[4],
            self.mask[5],
            self.mask[6],
        ];
        assert(bytes@ =~= self.payload());
        finish(bytes)
    }

    pub fn decode(data: &[u8]) -> (r: Option<Self>)
        ensures
            match r {
                Some(c) => Self::parsed(data@) == Some((c.percent, c.mask@)),
                None => Self::parsed(data@) is None,
            },
    {
        let prefix: [u8; 4] = [0x33, 0x05, SEGMENT_MODE, 0x02];
        assert(prefix@ =~= seq![0x33u8, 0x05, SEGMENT_MODE, 0x02]);
        match command_field_bytes(data, &prefix, 8) {
            Some(f) => {
                let mask: [u8; 7] = [f[1], f[2], f[3], f[4], f[5], f[6], f[7]];
                assert(mask@ =~= f@.skip(1));
                Some(SetSegmentBrightness { percent: f[0], mask })
            },
            None => None,
        }
    }

    /// What was encoded is what is decoded.
    pub proof fn round_trip(&self)
        ensures
            Self::parsed(frame::finished(self.payload())) == Some((self.percent, self.mask@)),
    {
        let f = seq![self.percent] + self.mask@;
        packets::command_fields_round_trip(seq![0x33u8, 0x05, SEGMENT_MODE, 0x02], f);
        assert(f.skip(1) =~= self.mask@);
    }
}

/// A device reads out of a segment command the value and the segments that it was
/// written with.
pub proof fn a_segment_command_is_read_back(color: (u8, u8, u8), percent: u8, segments: Seq<u32>)
    requires
        all_addressable(segments),
    ensures
        SetSegmentColorRgb::parsed(
            frame::finished(SetSegmentColorRgb::payload_of(color, mask_of(segments))),
        ) == Some((color.0, color.1, color.2, mask_of(segments))),
        SetSegmentBrightness::parsed(
            frame::finished(SetSegmentBrightness::payload_of(percent, mask_of(segments))),
        ) == Some((percent, mask_of(segments))),
        forall|n: u32| #[trigger]
            mask_names(mask_of(segments), n as nat) == segments.contains(n),
{
    masks_exist(segments);
    let mask = mask_of(segments);
    let f = seq![color.0, color.1, color.2, 0, 0, 0, 0, 0] + mask;
    packets::command_fields_round_trip(seq![0x33u8, 0x05, SEGMENT_MODE, 0x01], f);
    assert(f.skip(8) =~= mask);
    assert(f.subrange(3, 8) =~= seq![0u8, 0, 0, 0, 0]);
    let d = seq![percent] + mask;
    packets::command_fields_round_trip(seq![0x33u8, 0x05, SEGMENT_MODE, 0x02], d);
    assert(d.skip(1) =~= mask);
}

} // verus!
