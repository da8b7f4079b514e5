//! The frame codec: a four-byte length, then exactly that many payload bytes.

use crate::byte_order::{
    decode_length, encode_length, length_prefix, length_prefix_round_trip, prefixed_length,
    prefixed_length_round_trip, ByteOrder, LENGTH_PREFIX_BYTES,
};
use vstd::prelude::*;
use vstd::slice::{slice_subrange, slice_to_vec};

verus! {

/// The largest payload that a frame can carry: its length must fit the prefix.
pub const MAX_PAYLOAD_BYTES: usize = 0xFFFF_FFFF;

/// Why a payload could not be framed.
#[derive(Clone, Copy, PartialEq, Eq, Debug, Structural)]
pub enum EncodingError {
    /// The payload is longer than a four-byte length can say.
    PayloadTooLarge,
}

/// Why a stream did not hold a whole frame.
#[derive(Clone, Copy, PartialEq, Eq, Debug, Structural)]
pub enum FramingError {
    /// The stream ended inside the four-byte length.
    TruncatedLength,
    /// The stream ended before the payload had the length that was declared.
    TruncatedPayload,
}

/// The frame that carries `payload`.
pub open spec fn encoded_frame(payload: Seq<u8>, order: ByteOrder) -> Seq<u8>
    recommends
        payload.len() <= u32::MAX,
{
    length_prefix(payload.len() as u32, order) + payload
}

/// The payload of the first frame in `stream`, where `stream` is everything
/// the channel delivered before it closed.
pub open spec fn decoded_frame(stream: Seq<u8>, order: ByteOrder) -> Result<Seq<u8>, FramingError> {
    if stream.len() < 4 {
        Err(FramingError::TruncatedLength)
    } else {
        let declared = prefixed_length(stream.subrange(0, 4), order);
        if stream.len() - 4 < declared {
            Err(FramingError::TruncatedPayload)
        } else {
            Ok(stream.subrange(4, 4 + declared))
        }
    }
}

/// Decoding what was encoded gives the payload back, whatever follows the
/// frame in the stream.
pub proof fn frame_round_trip(payload: Seq<u8>, rest: Seq<u8>, order: ByteOrder)
    requires
        payload.len() <= u32::MAX,
    ensures
        decoded_frame(encoded_frame(payload, order) + rest, order) == Ok::<_, FramingError>(
            payload,
        ),
{
    let stream = encoded_frame(payload, order) + rest;
    length_prefix_round_trip(payload.len() as u32, order);
    assert(stream.subrange(0, 4) =~= length_prefix(payload.len() as u32, order));
    assert(stream.subrange(4, 4 + payload.len() as int) =~= payload);
}

/// A length and a payload of that length, as the host sends them one behind
/// the other, are one frame: its payload is what decodes from the stream.
pub proof fn length_then_payload_is_a_frame(
    length: Seq<u8>,
    payload: Seq<u8>,
    rest: Seq<u8>,
    order: ByteOrder,
)
    requires
        length.len() == 4,
        payload.len() == prefixed_length(length, order),
    ensures
        decoded_frame(length + payload + rest, order) == Ok::<_, FramingError>(payload),
        length + payload == encoded_frame(payload, order),
{
    let stream = length + payload + rest;
    prefixed_length_round_trip(length, order);
    assert(stream.subrange(0, 4) =~= length);
    assert(stream.subrange(4, 4 + payload.len() as int) =~= payload);
}

/// A stream that closes anywhere inside a frame is rejected: no proper prefix
/// of a frame decodes to a payload.
pub proof fn truncated_frame_is_rejected(payload: Seq<u8>, order: ByteOrder, available: int)
    requires
        payload.len() <= u32::MAX,
        0 <= available < 4 + payload.len(),
    ensures
        decoded_frame(encoded_frame(payload, order).subrange(0, available), order) is Err,
{
    let frame = encoded_frame(payload, order);
    let stream = frame.subrange(0, available);
    length_prefix_round_trip(payload.len() as u32, order);
    if available >= 4 {
        assert(stream.subrange(0, 4) =~= length_prefix(payload.len() as u32, order));
    }
}

/// A payload that comes out of a stream has exactly the declared length and
/// is the bytes that follow the prefix: nothing partial is ever returned.
pub proof fn decoded_payload_is_whole(stream: Seq<u8>, order: ByteOrder)
    requires
        decoded_frame(stream, order) is Ok,
    ensures
        stream.len() >= 4,
        decoded_frame(stream, order)->Ok_0.len() == prefixed_length(stream.subrange(0, 4), order),
        stream.subrange(0, 4 + decoded_frame(stream, order)->Ok_0.len() as int) == encoded_frame(
            decoded_frame(stream, order)->Ok_0,
            order,
        ),
{
    let prefix = stream.subrange(0, 4);
    let payload = decoded_frame(stream, order)->Ok_0;
    prefixed_length_round_trip(prefix, order);
    assert(stream.subrange(0, 4 + payload.len() as int) =~= encoded_frame(payload, order));
}

/// Frames `payload`: its length in the given byte order, then the payload.
///
/// Fails only when the payload is too long for its length to be written.
pub fn encode_frame(payload: &[u8], order: ByteOrder) -> (frame: Result<Vec<u8>, EncodingError>)
    ensures
        payload@.len() <= u32::MAX ==> frame is Ok && frame->Ok_0@ == encoded_frame(
            payload@,
            order,
        ),
        payload@.len() > u32::MAX ==> frame == Err::<Vec<u8>, _>(EncodingError::PayloadTooLarge),
{
    if payload.len() > MAX_PAYLOAD_BYTES {
        return Err(EncodingError::PayloadTooLarge);
    }
    let mut frame = encode_length(payload.len() as u32, order);
    let mut copied: usize = 0;
    while copied < payload.len()
        invariant
            copied <= payload@.len(),
            frame@ == length_prefix(payload@.len() as u32, order) + payload@.subrange(
                0,
                copied as int,
            ),
        decreases payload@.len() - copied,
    {
        frame.push(payload[copied]);
        copied += 1;
    }
    assert(payload@.subrange(0, copied as int) =~= payload@);
    Ok(frame)
}

/// Takes the first frame out of `stream` and returns its payload.
///
/// `stream` is everything that could be read. Where it ends before the
/// declared length is there, the frame is refused as a whole.
pub fn decode_frame(stream: &[u8], order: ByteOrder) -> (payload: Result<Vec<u8>, FramingError>)
    ensures
        match decoded_frame(stream@, order) {
            Ok(bytes) => payload is Ok && payload->Ok_0@ == bytes,
            Err(error) => payload == Err::<Vec<u8>, _>(error),
        },
{
    if stream.len() < LENGTH_PREFIX_BYTES {
        return Err(FramingError::TruncatedLength);
    }
    let declared = match decode_length(slice_subrange(stream, 0, LENGTH_PREFIX_BYTES), order) {
        Some(length) => length as usize,
        None => { return Err(FramingError::TruncatedLength); },
    };
    if stream.len() - LENGTH_PREFIX_BYTES < declared {
        return Err(FramingError::TruncatedPayload);
    }
    Ok(slice_to_vec(slice_subrange(stream, LENGTH_PREFIX_BYTES, LENGTH_PREFIX_BYTES + declared)))
}

} // verus!
