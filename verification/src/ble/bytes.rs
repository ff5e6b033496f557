//! Frames as bytes, and as the base64 texts in which they travel.
use vstd::prelude::*;

use crate::base64;
use crate::base64::{base64_decode, base64_encode};
use crate::ble::codec;
use crate::ble::codec::{
    EncodeError, GoveeBlePacket, HexBytes, PacketBody, PacketManager, GENERIC_LIGHT,
};
use crate::ble::frame;
use crate::ble::frame::finish;

verus! {

/// A text that is no base64.
#[derive(Clone, Copy, Debug, PartialEq, Eq, Structural)]
pub struct InvalidBase64;

/// Chunk `i` of `data`, where all but the last chunk hold twenty bytes.
pub open spec fn frame_chunk(data: Seq<u8>, i: int) -> Seq<u8> {
    data.subrange(
        20 * i,
        if 20 * i + 20 < data.len() {
            20 * i + 20
        } else {
            data.len() as int
        },
    )
}

/// How many chunks of twenty bytes `data` takes.
pub open spec fn frame_chunks(data: Seq<u8>) -> nat {
    (data.len() + 19) / 20
}

/// The texts, one for each chunk of twenty bytes, which decode to it again.
pub open spec fn is_base64_of(texts: Seq<String>, data: Seq<u8>) -> bool {
    &&& texts.len() == frame_chunks(data)
    &&& forall|i: int|
        0 <= i < texts.len() ==> {
            &&& (#[trigger] texts[i])@ == base64::base64_text(frame_chunk(data, i))
            &&& base64::base64_data(texts[i]@) == Some(frame_chunk(data, i))
        }
}

/// Nothing of the data is lost or moved: byte `k` stands in the text of its frame, and
/// each text carries a frame of twenty bytes, but for what is left over at the end.
pub proof fn every_byte_travels(texts: Seq<String>, data: Seq<u8>, k: int)
    requires
        is_base64_of(texts, data),
        0 <= k < data.len(),
    ensures
        k / 20 < texts.len(),
        base64::base64_data(texts[k / 20]@) matches Some(sent) && {
            &&& 0 < sent.len() <= 20
            &&& sent[k % 20] == data[k]
            &&& k / 20 + 1 < texts.len() ==> sent.len() == 20
        },
        20 * (texts.len() - 1) < data.len() <= 20 * texts.len(),
{
    let i = k / 20;
    assert(texts[i]@ == base64::base64_text(frame_chunk(data, i)));
    assert(frame_chunk(data, i)[k % 20] == data[k]);
}

/// Frames.
#[derive(Debug)]
pub struct Base64HexBytes(pub HexBytes);

impl View for Base64HexBytes {
    type V = Seq<u8>;

    open spec fn view(&self) -> Seq<u8> {
        self.0@
    }
}

impl Base64HexBytes {
    /// Reads the frame for a model.
    pub fn decode_for_sku(&self, sku: &str) -> (r: GoveeBlePacket)
        ensures
            codec::decoded_as(sku@, self@, r),
    {
        PacketManager::new().decode_for_sku(sku, self.0.0.as_slice())
    }

    /// The frames of `value`, for a model that has such packets.
    pub fn encode_for_sku<T: PacketBody>(sku: &str, value: &T) -> (r: Result<Self, EncodeError>)
        requires
            value.within_limits(),
            value.fits(),
        ensures
            if codec::sku_supports(sku@, T::kind()) {
                match (r, value.wire()) {
                    (Ok(bytes), Ok(expected)) => bytes@ == expected,
                    (Err(err), Err(expected)) => err == expected,
                    _ => false,
                }
            } else {
                r == Err::<Self, EncodeError>(EncodeError::NoCodec)
            },
    {
        match PacketManager::new().encode_for_sku(sku, value) {
            Ok(bytes) => Ok(Base64HexBytes(HexBytes(bytes))),
            Err(err) => Err(err),
        }
    }

    /// The frames of `value`; `None` where it does not fit into them.
    pub fn encode_for_sku_if_it_fits<T: PacketBody>(sku: &str, value: &T) -> (r: Option<
        Result<Self, EncodeError>,
    >)
        requires
            value.within_limits(),
        ensures
            match r {
                Some(encoded) => value.fits() && if codec::sku_supports(sku@, T::kind()) {
                    match (encoded, value.wire()) {
                        (Ok(bytes), Ok(expected)) => bytes@ == expected,
                        (Err(err), Err(expected)) => err == expected,
                        _ => false,
                    }
                } else {
                    encoded == Err::<Self, EncodeError>(EncodeError::NoCodec)
                },
                None => !value.fits(),
            },
    {
        if value.check_fits() {
            Some(Self::encode_for_sku(sku, value))
        } else {
            None
        }
    }

    /// One base64 text for every twenty bytes.
    pub fn base64(&self) -> (r: Vec<String>)
        ensures
            is_base64_of(r@, self@),
    {
        let bytes = self.0.0.as_slice();
        let mut result: Vec<String> = Vec::new();
        let mut at: usize = 0;
        while at < bytes.len()
            invariant
                bytes@ == self@,
                at <= bytes@.len(),
                at < bytes@.len() ==> at == 20 * result@.len(),
                at == bytes@.len() ==> result@.len() == frame_chunks(self@),
                forall|i: int|
                    0 <= i < result@.len() ==> {
                        &&& (#[trigger] result@[i])@ == base64::base64_text(frame_chunk(self@, i))
                        &&& base64::base64_data(result@[i]@) == Some(frame_chunk(self@, i))
                    },
            decreases bytes@.len() - at,
        {
            let end: usize = if bytes.len() - at > 20 {
                at + 20
            } else {
                bytes.len()
            };
            let chunk = vstd::slice::slice_subrange(bytes, at, end);
            assert(chunk@ =~= frame_chunk(self@, result@.len() as int));
            result.push(base64_encode(chunk));
            at = end;
        }
        result
    }

    /// The frame that carries `bytes`.
    pub fn with_bytes(bytes: Vec<u8>) -> (r: Self)
        ensures
            r@ == frame::finished(bytes@),
    {
        Base64HexBytes(HexBytes(finish(bytes)))
    }

    /// The bytes that a base64 text stands for, as they are.
    pub fn from_base64(text: &str) -> (r: Result<Self, InvalidBase64>)
        requires
            text@.len() <= usize::MAX / 32,
        ensures
            match r {
                Ok(bytes) => base64::base64_data(text@) == Some(bytes@),
                Err(_) => base64::base64_data(text@) is None,
            },
    {
        match base64_decode(text) {
            Ok(data) => Ok(Base64HexBytes(HexBytes(data))),
            Err(_) => Err(InvalidBase64),
        }
    }

    /// Bytes that are frames already, as they are.
    pub fn from_frames(frames: Vec<u8>) -> (r: Self)
        ensures
            r@ == frames@,
    {
        Base64HexBytes(HexBytes(frames))
    }

    pub fn into_bytes(self) -> (r: Vec<u8>)
        ensures
            r@ == self@,
    {
        self.0.0
    }
}

/// The payload of the power query.
pub open spec fn power_query() -> Seq<u8> {
    seq![0xaau8, 0x01]
}

/// The payload of the brightness query.
pub open spec fn brightness_query() -> Seq<u8> {
    seq![0xaau8, 0x04]
}

/// The payload of the colour query.
pub open spec fn color_query() -> Seq<u8> {
    seq![0xaau8, 0x05, 0x01]
}

/// The payload of the query for a page of segments.
pub open spec fn segment_query(page: u8) -> Seq<u8> {
    seq![0xaau8, 0xa5, page]
}

/// Ask the device to report its power state.
pub fn query_device_power() -> (r: Base64HexBytes)
    ensures
        r@ == frame::finished(power_query()),
{
    let bytes: Vec<u8> = vec![0xaa, 0x01];
    assert(bytes@ =~= power_query());
    Base64HexBytes::with_bytes(bytes)
}

/// Ask the device to report its brightness.
pub fn query_device_brightness() -> (r: Base64HexBytes)
    ensures
        r@ == frame::finished(brightness_query()),
{
    let bytes: Vec<u8> = vec![0xaa, 0x04];
    assert(bytes@ =~= brightness_query());
    Base64HexBytes::with_bytes(bytes)
}

/// Ask the device to report its colour and colour temperature.
///
/// Unlike the other queries this one carries 0x01 rather than 0x00 in the third
/// byte; devices do not answer without it.
pub fn query_device_color() -> (r: Base64HexBytes)
    ensures
        r@ == frame::finished(color_query()),
{
    let bytes: Vec<u8> = vec![0xaa, 0x05, 0x01];
    assert(bytes@ =~= color_query());
    Base64HexBytes::with_bytes(bytes)
}

/// Ask the device for one page of its segments. Pages count from one.
pub fn query_segment_colors(page: u8) -> (r: Base64HexBytes)
    ensures
        r@ == frame::finished(segment_query(page)),
{
    let bytes: Vec<u8> = vec![0xaa, 0xa5, page];
    assert(bytes@ =~= segment_query(page));
    Base64HexBytes::with_bytes(bytes)
}

/// Reads a notification of a model.
pub fn decode_notification(sku: &str, data: &[u8]) -> (r: GoveeBlePacket)
    ensures
        codec::decoded_as(sku@, data@, r),
{
    PacketManager::new().decode_for_sku(sku, data)
}

/// The frame of a light command, as raw bytes.
pub fn encode_for_generic_light<T: PacketBody>(value: &T) -> (r: Result<Vec<u8>, EncodeError>)
    requires
        value.within_limits(),
        value.fits(),
    ensures
        if codec::sku_supports(GENERIC_LIGHT@, T::kind()) {
            codec::is_wire(r, value.wire())
        } else {
            r == Err::<Vec<u8>, EncodeError>(EncodeError::NoCodec)
        },
{
    PacketManager::new().encode_for_sku(GENERIC_LIGHT, value)
}

} // verus!
