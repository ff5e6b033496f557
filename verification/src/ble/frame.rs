//! The twenty byte frame: a payload padded with zeroes to nineteen bytes,
//! followed by the XOR of the payload.
use vstd::prelude::*;

verus! {

/// The length of a frame.
pub const FRAME_LEN: usize = 20;

/// The length of a frame's payload, without the checksum.
pub const PAYLOAD_LEN: usize = 19;

/// The XOR of all bytes.
pub open spec fn xor_all(data: Seq<u8>) -> u8
    decreases data.len(),
{
    if data.len() == 0 {
        0
    } else {
        xor_all(data.drop_last()) ^ data.last()
    }
}

/// `data` cut off, or padded with zeroes, so that it holds `len` bytes.
pub open spec fn resized(data: Seq<u8>, len: nat) -> Seq<u8> {
    Seq::new(
        len,
        |i: int|
            if i < data.len() {
                data[i]
            } else {
                0
            },
    )
}

/// The frame that carries `data`.
pub open spec fn finished(data: Seq<u8>) -> Seq<u8> {
    resized(data, PAYLOAD_LEN as nat).push(xor_all(data))
}

/// Twenty bytes, of which the last is the XOR of the others.
pub open spec fn is_valid_frame(frame: Seq<u8>) -> bool {
    frame.len() == FRAME_LEN && frame[19] == xor_all(frame.take(19))
}

/// Every byte is zero.
pub open spec fn all_zero(data: Seq<u8>) -> bool {
    forall|i: int| 0 <= i < data.len() ==> #[trigger] data[i] == 0
}

proof fn xor_with_zeroes(data: Seq<u8>, len: nat)
    requires
        data.len() <= len,
    ensures
        xor_all(resized(data, len)) == xor_all(data),
    decreases len,
{
    if data.len() == len {
        assert(resized(data, len) =~= data);
    } else {
        let padded = resized(data, len);
        assert(padded.drop_last() =~= resized(data, (len - 1) as nat));
        xor_with_zeroes(data, (len - 1) as nat);
        let x = xor_all(data);
        assert(x ^ 0u8 == x) by (bit_vector);
    }
}

/// A finished payload is a valid frame that starts with that payload.
pub proof fn finished_is_valid(data: Seq<u8>)
    requires
        data.len() <= PAYLOAD_LEN,
    ensures
        is_valid_frame(finished(data)),
        finished(data).take(data.len() as int) == data,
        all_zero(finished(data).subrange(data.len() as int, 19)),
{
    xor_with_zeroes(data, 19);
    assert(finished(data).take(19) =~= resized(data, 19));
    assert(finished(data).take(data.len() as int) =~= data);
}

/// Finishing a frame a second time leaves a checksum of zero, which is the
/// right one only for a frame whose payload cancels itself out.
pub proof fn finishing_twice_clears_the_checksum(data: Seq<u8>)
    requires
        data.len() <= PAYLOAD_LEN,
    ensures
        finished(finished(data)).take(19) == finished(data).take(19),
        finished(finished(data))[19] == 0,
        is_valid_frame(finished(finished(data))) <==> xor_all(data) == 0,
{
    let once = finished(data);
    finished_is_valid(data);
    assert(once.drop_last() =~= once.take(19));
    let x = once[19];
    assert(x ^ x == 0u8) by (bit_vector);
    assert(finished(once).take(19) =~= once.take(19));
}

/// The XOR of all bytes of `data`.
pub fn calculate_checksum(data: &[u8]) -> (r: u8)
    ensures
        r == xor_all(data@),
{
    let mut checksum: u8 = 0;
    for i in 0..data.len()
        invariant
            checksum == xor_all(data@.take(i as int)),
    {
        assert(data@.take(i + 1).drop_last() =~= data@.take(i as int));
        checksum = checksum ^ data[i];
    }
    assert(data@.take(data@.len() as int) =~= data@);
    checksum
}

/// Pads `data` to a payload and appends its checksum.
pub fn finish(data: Vec<u8>) -> (r: Vec<u8>)
    ensures
        r@ == finished(data@),
{
    let checksum = calculate_checksum(data.as_slice());
    let mut frame: Vec<u8> = Vec::new();
    for i in 0..PAYLOAD_LEN
        invariant
            frame@ == resized(data@, i as nat),
    {
        if i < data.len() {
            frame.push(data[i]);
        } else {
            frame.push(0);
        }
        assert(frame@ =~= resized(data@, (i + 1) as nat));
    }
    frame.push(checksum);
    frame
}

/// Whether every byte of `data` is zero.
pub fn is_all_zero(data: &[u8]) -> (r: bool)
    ensures
        r == all_zero(data@),
{
    for i in 0..data.len()
        invariant
            forall|j: int| 0 <= j < i ==> #[trigger] data@[j] == 0,
    {
        if data[i] != 0 {
            return false;
        }
    }
    true
}

/// Whether `data` starts with `prefix`.
pub fn starts_with(data: &[u8], prefix: &[u8]) -> (r: bool)
    ensures
        r == prefix@.is_prefix_of(data@),
{
    if data.len() < prefix.len() {
        return false;
    }
    for i in 0..prefix.len()
        invariant
            prefix@.len() <= data@.len(),
            forall|j: int| 0 <= j < i ==> prefix@[j] == data@[j],
    {
        if data[i] != prefix[i] {
            assert(prefix@ != data@.subrange(0, prefix@.len() as int)) by {
                assert(prefix@[i as int] != data@.subrange(0, prefix@.len() as int)[i as int]);
            }
            return false;
        }
    }
    assert(prefix@ =~= data@.subrange(0, prefix@.len() as int));
    true
}

} // verus!
