//! The four-byte length that starts every frame, in either byte order.

use vstd::prelude::*;

verus! {

/// The order in which the four bytes of a frame length are written.
///
/// Native messaging uses the byte order of the machine the browser runs on.
/// The codec takes the order as an argument so that both ends of a test, or a
/// host across a byte-order boundary, can be served.
#[derive(Clone, Copy, PartialEq, Eq, Debug, Structural)]
pub enum ByteOrder {
    /// Least significant byte first.
    LittleEndian,
    /// Most significant byte first.
    BigEndian,
}

/// The number of bytes in a length prefix.
pub const LENGTH_PREFIX_BYTES: usize = 4;

/// The four bytes that stand for `length` in the given order.
pub open spec fn length_prefix(length: u32, order: ByteOrder) -> Seq<u8> {
    let b0 = (length % 256) as u8;
    let b1 = (length / 256 % 256) as u8;
    let b2 = (length / 65536 % 256) as u8;
    let b3 = (length / 16777216) as u8;
    match order {
        ByteOrder::LittleEndian => seq![b0, b1, b2, b3],
        ByteOrder::BigEndian => seq![b3, b2, b1, b0],
    }
}

/// The length that a four-byte prefix stands for in the given order.
pub open spec fn prefixed_length(prefix: Seq<u8>, order: ByteOrder) -> int
    recommends
        prefix.len() == 4,
{
    match order {
        ByteOrder::LittleEndian => prefix[0] + 256 * prefix[1] + 65536 * prefix[2] + 16777216
            * prefix[3],
        ByteOrder::BigEndian => prefix[3] + 256 * prefix[2] + 65536 * prefix[1] + 16777216
            * prefix[0],
    }
}

/// Reading a prefix back gives the length that was written, in either order.
pub proof fn length_prefix_round_trip(length: u32, order: ByteOrder)
    ensures
        length_prefix(length, order).len() == 4,
        prefixed_length(length_prefix(length, order), order) == length,
{
}

/// Writing the length that a prefix stands for gives the same four bytes, and
/// that length always fits 32 bits.
pub proof fn prefixed_length_round_trip(prefix: Seq<u8>, order: ByteOrder)
    requires
        prefix.len() == 4,
    ensures
        0 <= prefixed_length(prefix, order) <= u32::MAX,
        length_prefix(prefixed_length(prefix, order) as u32, order) == prefix,
{
    let (low, mid_low, mid_high, high) = match order {
        ByteOrder::LittleEndian => (prefix[0], prefix[1], prefix[2], prefix[3]),
        ByteOrder::BigEndian => (prefix[3], prefix[2], prefix[1], prefix[0]),
    };
    let upper = high as int;
    let upper_three = mid_high + 256 * upper;
    let upper_two = mid_low + 256 * upper_three;
    let length = low + 256 * upper_two;
    assert(length == prefixed_length(prefix, order));
    assert(length % 256 == low && length / 256 == upper_two);
    assert(upper_two % 256 == mid_low && upper_two / 256 == upper_three);
    assert(upper_three % 256 == mid_high && upper_three / 256 == upper);
    assert(length / 65536 == upper_three);
    assert(length / 16777216 == upper);
    assert(length_prefix(length as u32, order) =~= prefix);
}

/// The bytes of `value` as this machine lays them out in memory.
///
/// Wraps `u32::to_ne_bytes`. Rust has little-endian and big-endian targets and
/// no others, so the result is one of the two prefixes; which one is a fact
/// about the machine and is not stated.
#[verifier::external_body]
fn memory_representation(value: u32) -> (bytes: [u8; 4])
    ensures
        bytes@ == length_prefix(value, ByteOrder::LittleEndian) || bytes@ == length_prefix(
            value,
            ByteOrder::BigEndian,
        ),
{
    value.to_ne_bytes()
}

impl ByteOrder {
    /// The byte order of the machine this code runs on, found by looking at
    /// how it lays out the number one.
    pub fn native() -> ByteOrder {
        ByteOrder::laying_out_one_as(memory_representation(1))
    }

    /// The byte order of a machine that lays out the number one as `layout`:
    /// little-endian where the one stands in the first byte, big-endian
    /// where it does not. Where `layout` is the number one in either order,
    /// the result is that order.
    pub fn laying_out_one_as(layout: [u8; 4]) -> (order: ByteOrder)
        ensures
            order == if layout@[0] == 1 {
                ByteOrder::LittleEndian
            } else {
                ByteOrder::BigEndian
            },
            layout@ == length_prefix(1, ByteOrder::LittleEndian) ==> order
                == ByteOrder::LittleEndian,
            layout@ == length_prefix(1, ByteOrder::BigEndian) ==> order == ByteOrder::BigEndian,
    {
        if layout[0] == 1 {
            ByteOrder::LittleEndian
        } else {
            ByteOrder::BigEndian
        }
    }
}

/// Writes `length` as a four-byte prefix.
pub fn encode_length(length: u32, order: ByteOrder) -> (prefix: Vec<u8>)
    ensures
        prefix@ == length_prefix(length, order),
{
    let b0 = (length % 256) as u8;
    let b1 = (length / 256 % 256) as u8;
    let b2 = (length / 65536 % 256) as u8;
    let b3 = (length / 16777216) as u8;
    let mut prefix: Vec<u8> = Vec::with_capacity(LENGTH_PREFIX_BYTES);
    match order {
        ByteOrder::LittleEndian => {
            prefix.push(b0);
            prefix.push(b1);
            prefix.push(b2);
            prefix.push(b3);
        },
        ByteOrder::BigEndian => {
            prefix.push(b3);
            prefix.push(b2);
            prefix.push(b1);
            prefix.push(b0);
        },
    }
    assert(prefix@ =~= length_prefix(length, order));
    prefix
}

/// Reads a length from a prefix, which must be exactly four bytes long.
pub fn decode_length(prefix: &[u8], order: ByteOrder) -> (length: Option<u32>)
    ensures
        prefix@.len() == 4 ==> length == Some(prefixed_length(prefix@, order) as u32)
            && prefixed_length(prefix@, order) <= u32::MAX,
        prefix@.len() != 4 ==> length is None,
{
    if prefix.len() != LENGTH_PREFIX_BYTES {
        return None;
    }
    let (low, mid_low, mid_high, high) = match order {
        ByteOrder::LittleEndian => (prefix[0], prefix[1], prefix[2], prefix[3]),
        ByteOrder::BigEndian => (prefix[3], prefix[2], prefix[1], prefix[0]),
    };
    let length: u32 = low as u32 + 256 * (mid_low as u32) + 65536 * (mid_high as u32) + 16777216
        * (high as u32);
    Some(length)
}

} // verus!
