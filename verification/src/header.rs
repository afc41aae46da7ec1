//! The size header: two 32-bit dimensions as eight bytes.

use crate::error::ExtractError;
use vstd::prelude::*;

verus! {

/// The order in which the four bytes of a 32-bit value are laid out.
#[derive(Clone, Copy, Debug, PartialEq, Eq, Structural)]
pub enum ByteOrder {
    /// Least significant byte first.
    Little,
    /// Most significant byte first.
    Big,
}

/// The four bytes of `x` in the given order.
pub open spec fn word_bytes(order: ByteOrder, x: u32) -> Seq<u8> {
    let b0 = (x % 256) as u8;
    let b1 = ((x / 256) % 256) as u8;
    let b2 = ((x / 65536) % 256) as u8;
    let b3 = (x / 16777216) as u8;
    match order {
        ByteOrder::Little => seq![b0, b1, b2, b3],
        ByteOrder::Big => seq![b3, b2, b1, b0],
    }
}

/// The 32-bit value that the first four bytes of `s` hold in the given order.
pub open spec fn word_value(order: ByteOrder, s: Seq<u8>) -> u32 {
    match order {
        ByteOrder::Little => (s[0] + 256 * s[1] + 65536 * s[2] + 16777216 * s[3]) as u32,
        ByteOrder::Big => (s[3] + 256 * s[2] + 65536 * s[1] + 16777216 * s[0]) as u32,
    }
}

/// The header for an image of `width` by `height` pixels: the bytes of the
/// width followed by the bytes of the height.
pub open spec fn size_bytes(order: ByteOrder, width: u32, height: u32) -> Seq<u8> {
    word_bytes(order, width) + word_bytes(order, height)
}

/// The dimensions that the first eight bytes of `s` hold.
pub open spec fn size_value(order: ByteOrder, s: Seq<u8>) -> (u32, u32) {
    (word_value(order, s), word_value(order, s.skip(4)))
}

/// Reading back the bytes of a value gives the value, in either order.
pub proof fn lemma_word_round_trip(order: ByteOrder, x: u32)
    ensures
        word_bytes(order, x).len() == 4,
        word_value(order, word_bytes(order, x)) == x,
{
    lemma_word_digits(x);
}

/// Decoding an encoded size gives the size back, for every pair of
/// dimensions and either byte order.
pub proof fn lemma_size_round_trip(order: ByteOrder, width: u32, height: u32)
    ensures
        size_bytes(order, width, height).len() == 8,
        size_value(order, size_bytes(order, width, height)) == (width, height),
{
    lemma_word_round_trip(order, width);
    lemma_word_round_trip(order, height);
    let w = word_bytes(order, width);
    let h = word_bytes(order, height);
    assert((w + h).skip(4) =~= h);
    assert((w + h)[0] == w[0] && (w + h)[1] == w[1] && (w + h)[2] == w[2] && (w + h)[3] == w[3]);
}

/// The dimensions in a header depend on its first eight bytes only.
pub proof fn lemma_size_prefix(order: ByteOrder, s: Seq<u8>, head: Seq<u8>)
    requires
        s.len() >= 8,
        head == s.take(8),
    ensures
        size_value(order, head) == size_value(order, s),
{
    assert forall|i: int| 0 <= i < 8 implies head[i] == s[i] by {}
    assert forall|i: int| 0 <= i < 4 implies head.skip(4)[i] == s.skip(4)[i] by {
        assert(head.skip(4)[i] == head[i + 4]);
    }
}

/// The bytes of the 16-bit value one as this machine keeps them in memory,
/// from `u16::to_ne_bytes`. The low byte holds the one; it comes first on a
/// little-endian machine and last on a big-endian one, and Rust has no other
/// kind of target.
#[verifier::external_body]
fn native_probe() -> (r: [u8; 2])
    ensures
        r@ == seq![1u8, 0u8] || r@ == seq![0u8, 1u8],
{
    1u16.to_ne_bytes()
}

impl ByteOrder {
    /// The byte order of the machine that runs this code.
    pub fn native() -> ByteOrder {
        ByteOrder::of_one(native_probe())
    }

    /// The byte order in which `one` is the 16-bit value one: little where
    /// the first byte holds the one, big where it does not.
    pub fn of_one(one: [u8; 2]) -> (order: ByteOrder)
        ensures
            order == order_of_one(one@),
    {
        if one[0] == 1 {
            ByteOrder::Little
        } else {
            ByteOrder::Big
        }
    }
}

/// A 32-bit value is the sum of its four bytes, each weighted by its place.
proof fn lemma_word_digits(x: u32)
    ensures
        x == x % 256 + 256 * ((x / 256) % 256) + 65536 * ((x / 65536) % 256) + 16777216 * (x
            / 16777216),
        x / 16777216 < 256,
{
    let q1 = x as int / 256;
    let q2 = x as int / 65536;
    let q3 = x as int / 16777216;
    assert(x == 256 * q1 + x as int % 256);
    assert(q2 == q1 / 256);
    assert(q1 == 256 * q2 + q1 % 256);
    assert(q3 == q2 / 256);
    assert(q2 == 256 * q3 + q2 % 256);
}

/// The byte order in which `one` is the 16-bit value one.
pub open spec fn order_of_one(one: Seq<u8>) -> ByteOrder {
    if one[0] == 1 {
        ByteOrder::Little
    } else {
        ByteOrder::Big
    }
}

/// Lays out `x` as four bytes in the given order.
pub fn word_to_bytes(order: ByteOrder, x: u32) -> (r: [u8; 4])
    ensures
        r@ == word_bytes(order, x),
{
    let b0 = (x % 256) as u8;
    let b1 = ((x / 256) % 256) as u8;
    let b2 = ((x / 65536) % 256) as u8;
    let b3 = (x / 16777216) as u8;
    let r = match order {
        ByteOrder::Little => [b0, b1, b2, b3],
        ByteOrder::Big => [b3, b2, b1, b0],
    };
    assert(r@ =~= word_bytes(order, x));
    r
}

/// Encodes the dimensions of an image as its eight header bytes.
pub fn size_to_bytes(order: ByteOrder, width: u32, height: u32) -> (r: [u8; 8])
    ensures
        r@ == size_bytes(order, width, height),
{
    let w = word_to_bytes(order, width);
    let h = word_to_bytes(order, height);
    let r = [w[0], w[1], w[2], w[3], h[0], h[1], h[2], h[3]];
    assert(r@ =~= size_bytes(order, width, height));
    r
}

/// Decodes the dimensions of an image from the first eight bytes of `bytes`.
///
/// Fails when `bytes` holds fewer than eight.
pub fn bytes_to_size(order: ByteOrder, bytes: &[u8]) -> (r: Result<(u32, u32), ExtractError>)
    ensures
        bytes@.len() >= 8 ==> r == Ok::<(u32, u32), ExtractError>(size_value(order, bytes@)),
        bytes@.len() < 8 ==> r == Err::<(u32, u32), ExtractError>(ExtractError::TruncatedHeader),
{
    if bytes.len() < 8 {
        return Err(ExtractError::TruncatedHeader);
    }
    let mut pos: usize = 0;
    let width = iter_to_size(bytes, &mut pos, order)?;
    let height = iter_to_size(bytes, &mut pos, order)?;
    proof {
        assert(bytes@.skip(0) =~= bytes@);
    }
    Ok((width, height))
}

/// Reads one 32-bit value from `bytes` at `*pos` and moves `*pos` past it.
///
/// Fails when fewer than four bytes are left. The bytes that were left are
/// then used up: `*pos` moves to the end of `bytes`, unless it was beyond the
/// end already.
pub fn iter_to_size(bytes: &[u8], pos: &mut usize, order: ByteOrder) -> (r: Result<
    u32,
    ExtractError,
>)
    ensures
        *old(pos) + 4 <= bytes@.len() ==> r == Ok::<u32, ExtractError>(
            word_value(order, bytes@.skip(*old(pos) as int)),
        ) && *final(pos) == *old(pos) + 4,
        *old(pos) + 4 > bytes@.len() ==> r == Err::<u32, ExtractError>(
            ExtractError::TruncatedHeader,
        ) && *final(pos) == if *old(pos) <= bytes@.len() {
            bytes@.len()
        } else {
            *old(pos) as nat
        },
{
    let at = *pos;
    if at > bytes.len() {
        return Err(ExtractError::TruncatedHeader);
    }
    if bytes.len() - at < 4 {
        *pos = bytes.len();
        return Err(ExtractError::TruncatedHeader);
    }
    let b0 = bytes[at] as u32;
    let b1 = bytes[at + 1] as u32;
    let b2 = bytes[at + 2] as u32;
    let b3 = bytes[at + 3] as u32;
    *pos = at + 4;
    let value = match order {
        ByteOrder::Little => b0 + 256 * b1 + 65536 * b2 + 16777216 * b3,
        ByteOrder::Big => b3 + 256 * b2 + 65536 * b1 + 16777216 * b0,
    };
    Ok(value)
}

} // verus!
