//! Word-level utilities shared by all hash algorithms: reading fixed-width
//! words out of byte sequences in either byte order, serializing words back
//! to bytes, and rotating words.

use vstd::prelude::*;

verus! {

// ---------------------------------------------------------------------------
// Rotations
// ---------------------------------------------------------------------------

/// Left rotation of a 32-bit word by `s` positions, `0 <= s < 32`.
pub open spec fn spec_rotl32(x: u32, s: u32) -> u32
    recommends
        s < 32,
{
    if s == 0 {
        x
    } else {
        (x << s) | (x >> (32 - s) as u32)
    }
}

/// Right rotation of a 32-bit word by `s` positions, `0 <= s < 32`.
pub open spec fn spec_rotr32(x: u32, s: u32) -> u32
    recommends
        s < 32,
{
    if s == 0 {
        x
    } else {
        (x >> s) | (x << (32 - s) as u32)
    }
}

/// Left rotation of a 64-bit word by `s` positions, `0 <= s < 64`.
pub open spec fn spec_rotl64(x: u64, s: u64) -> u64
    recommends
        s < 64,
{
    if s == 0 {
        x
    } else {
        (x << s) | (x >> (64 - s) as u64)
    }
}

/// Right rotation of a 64-bit word by `s` positions, `0 <= s < 64`.
pub open spec fn spec_rotr64(x: u64, s: u64) -> u64
    recommends
        s < 64,
{
    if s == 0 {
        x
    } else {
        (x >> s) | (x << (64 - s) as u64)
    }
}

pub fn rotl32(x: u32, s: u32) -> (r: u32)
    requires
        s < 32,
    ensures
        r == spec_rotl32(x, s),
{
    if s == 0 {
        x
    } else {
        (x << s) | (x >> (32 - s))
    }
}

pub fn rotr32(x: u32, s: u32) -> (r: u32)
    requires
        s < 32,
    ensures
        r == spec_rotr32(x, s),
{
    if s == 0 {
        x
    } else {
        (x >> s) | (x << (32 - s))
    }
}

pub fn rotl64(x: u64, s: u64) -> (r: u64)
    requires
        s < 64,
    ensures
        r == spec_rotl64(x, s),
{
    if s == 0 {
        x
    } else {
        (x << s) | (x >> (64 - s))
    }
}

pub fn rotr64(x: u64, s: u64) -> (r: u64)
    requires
        s < 64,
    ensures
        r == spec_rotr64(x, s),
{
    if s == 0 {
        x
    } else {
        (x >> s) | (x << (64 - s))
    }
}

// ---------------------------------------------------------------------------
// Reading words out of byte sequences
// ---------------------------------------------------------------------------

/// The little-endian 32-bit word starting at byte offset `off` of `b`.
pub open spec fn le32_at(b: Seq<u8>, off: int) -> u32
    recommends
        0 <= off,
        off + 4 <= b.len(),
{
    (b[off] as u32) | (b[off + 1] as u32) << 8 | (b[off + 2] as u32) << 16 | (b[off + 3]
        as u32) << 24
}

/// The big-endian 32-bit word starting at byte offset `off` of `b`.
pub open spec fn be32_at(b: Seq<u8>, off: int) -> u32
    recommends
        0 <= off,
        off + 4 <= b.len(),
{
    (b[off + 3] as u32) | (b[off + 2] as u32) << 8 | (b[off + 1] as u32) << 16 | (b[off]
        as u32) << 24
}

/// The little-endian 64-bit word starting at byte offset `off` of `b`.
pub open spec fn le64_at(b: Seq<u8>, off: int) -> u64
    recommends
        0 <= off,
        off + 8 <= b.len(),
{
    (b[off] as u64) | (b[off + 1] as u64) << 8 | (b[off + 2] as u64) << 16 | (b[off + 3]
        as u64) << 24 | (b[off + 4] as u64) << 32 | (b[off + 5] as u64) << 40 | (b[off + 6]
        as u64) << 48 | (b[off + 7] as u64) << 56
}

/// The big-endian 64-bit word starting at byte offset `off` of `b`.
pub open spec fn be64_at(b: Seq<u8>, off: int) -> u64
    recommends
        0 <= off,
        off + 8 <= b.len(),
{
    (b[off + 7] as u64) | (b[off + 6] as u64) << 8 | (b[off + 5] as u64) << 16 | (b[off + 4]
        as u64) << 24 | (b[off + 3] as u64) << 32 | (b[off + 2] as u64) << 40 | (b[off + 1]
        as u64) << 48 | (b[off] as u64) << 56
}

pub fn load_le32(b: &[u8], off: usize) -> (w: u32)
    requires
        off + 4 <= b@.len(),
    ensures
        w == le32_at(b@, off as int),
{
    (b[off] as u32) | (b[off + 1] as u32) << 8u32 | (b[off + 2] as u32) << 16u32 | (b[off + 3]
        as u32) << 24u32
}

pub fn load_be32(b: &[u8], off: usize) -> (w: u32)
    requires
        off + 4 <= b@.len(),
    ensures
        w == be32_at(b@, off as int),
{
    let _slice_len: usize = b.len();
    (b[off + 3] as u32) | (b[off + 2] as u32) << 8u32 | (b[off + 1] as u32) << 16u32 | (b[off]
        as u32) << 24u32
}

pub fn load_le64(b: &[u8], off: usize) -> (w: u64)
    requires
        off + 8 <= b@.len(),
    ensures
        w == le64_at(b@, off as int),
{
    (b[off] as u64) | (b[off + 1] as u64) << 8u64 | (b[off + 2] as u64) << 16u64 | (b[off + 3]
        as u64) << 24u64 | (b[off + 4] as u64) << 32u64 | (b[off + 5] as u64) << 40u64 | (b[off + 6]
        as u64) << 48u64 | (b[off + 7] as u64) << 56u64
}

pub fn load_be64(b: &[u8], off: usize) -> (w: u64)
    requires
        off + 8 <= b@.len(),
    ensures
        w == be64_at(b@, off as int),
{
    let _slice_len: usize = b.len();
    (b[off + 7] as u64) | (b[off + 6] as u64) << 8u64 | (b[off + 5] as u64) << 16u64 | (b[off + 4]
        as u64) << 24u64 | (b[off + 3] as u64) << 32u64 | (b[off + 2] as u64) << 40u64 | (b[off + 1]
        as u64) << 48u64 | (b[off] as u64) << 56u64
}

/// The sixteen little-endian 32-bit words of a 64-byte block.
pub open spec fn words_le32(block: Seq<u8>) -> Seq<u32>
    recommends
        block.len() == 64,
{
    Seq::new(16, |i: int| le32_at(block, 4 * i))
}

// ---------------------------------------------------------------------------
// Serializing words into byte sequences
// ---------------------------------------------------------------------------

/// The four bytes of `x` in little-endian order.
pub open spec fn u32_le_bytes(x: u32) -> Seq<u8> {
    seq![
        (x & 0xff) as u8,
        ((x >> 8) & 0xff) as u8,
        ((x >> 16) & 0xff) as u8,
        ((x >> 24) & 0xff) as u8,
    ]
}

/// The four bytes of `x` in big-endian order.
pub open spec fn u32_be_bytes(x: u32) -> Seq<u8> {
    seq![
        ((x >> 24) & 0xff) as u8,
        ((x >> 16) & 0xff) as u8,
        ((x >> 8) & 0xff) as u8,
        (x & 0xff) as u8,
    ]
}

/// The eight bytes of `x` in little-endian order.
pub open spec fn u64_le_bytes(x: u64) -> Seq<u8> {
    seq![
        (x & 0xff) as u8,
        ((x >> 8) & 0xff) as u8,
        ((x >> 16) & 0xff) as u8,
        ((x >> 24) & 0xff) as u8,
        ((x >> 32) & 0xff) as u8,
        ((x >> 40) & 0xff) as u8,
        ((x >> 48) & 0xff) as u8,
        ((x >> 56) & 0xff) as u8,
    ]
}

/// The eight bytes of `x` in big-endian order.
pub open spec fn u64_be_bytes(x: u64) -> Seq<u8> {
    seq![
        ((x >> 56) & 0xff) as u8,
        ((x >> 48) & 0xff) as u8,
        ((x >> 40) & 0xff) as u8,
        ((x >> 32) & 0xff) as u8,
        ((x >> 24) & 0xff) as u8,
        ((x >> 16) & 0xff) as u8,
        ((x >> 8) & 0xff) as u8,
        (x & 0xff) as u8,
    ]
}

/// The sixteen bytes of `x` in big-endian order.
pub open spec fn u128_be_bytes(x: u128) -> Seq<u8> {
    seq![
        ((x >> 120) & 0xff) as u8,
        ((x >> 112) & 0xff) as u8,
        ((x >> 104) & 0xff) as u8,
        ((x >> 96) & 0xff) as u8,
        ((x >> 88) & 0xff) as u8,
        ((x >> 80) & 0xff) as u8,
        ((x >> 72) & 0xff) as u8,
        ((x >> 64) & 0xff) as u8,
        ((x >> 56) & 0xff) as u8,
        ((x >> 48) & 0xff) as u8,
        ((x >> 40) & 0xff) as u8,
        ((x >> 32) & 0xff) as u8,
        ((x >> 24) & 0xff) as u8,
        ((x >> 16) & 0xff) as u8,
        ((x >> 8) & 0xff) as u8,
        (x & 0xff) as u8,
    ]
}

/// Two equal little-endian byte serializations come from equal 64-bit words.
pub proof fn lemma_u64_le_bytes_injective(a: u64, b: u64)
    requires
        u64_le_bytes(a) == u64_le_bytes(b),
    ensures
        a == b,
{
    assert(a == b) by (bit_vector)
        requires
            ((a & 0xff) as u8) == ((b & 0xff) as u8),
            (((a >> 8) & 0xff) as u8) == (((b >> 8) & 0xff) as u8),
            (((a >> 16) & 0xff) as u8) == (((b >> 16) & 0xff) as u8),
            (((a >> 24) & 0xff) as u8) == (((b >> 24) & 0xff) as u8),
            (((a >> 32) & 0xff) as u8) == (((b >> 32) & 0xff) as u8),
            (((a >> 40) & 0xff) as u8) == (((b >> 40) & 0xff) as u8),
            (((a >> 48) & 0xff) as u8) == (((b >> 48) & 0xff) as u8),
            (((a >> 56) & 0xff) as u8) == (((b >> 56) & 0xff) as u8),
    ;
}

/// Two equal big-endian byte serializations come from equal 64-bit words.
pub proof fn lemma_u64_be_bytes_injective(a: u64, b: u64)
    requires
        u64_be_bytes(a) == u64_be_bytes(b),
    ensures
        a == b,
{
    assert(a == b) by (bit_vector)
        requires
            ((a & 0xff) as u8) == ((b & 0xff) as u8),
            (((a >> 8) & 0xff) as u8) == (((b >> 8) & 0xff) as u8),
            (((a >> 16) & 0xff) as u8) == (((b >> 16) & 0xff) as u8),
            (((a >> 24) & 0xff) as u8) == (((b >> 24) & 0xff) as u8),
            (((a >> 32) & 0xff) as u8) == (((b >> 32) & 0xff) as u8),
            (((a >> 40) & 0xff) as u8) == (((b >> 40) & 0xff) as u8),
            (((a >> 48) & 0xff) as u8) == (((b >> 48) & 0xff) as u8),
            (((a >> 56) & 0xff) as u8) == (((b >> 56) & 0xff) as u8),
    ;
}

/// Two equal big-endian byte serializations come from equal 128-bit words.
pub proof fn lemma_u128_be_bytes_injective(a: u128, b: u128)
    requires
        u128_be_bytes(a) == u128_be_bytes(b),
    ensures
        a == b,
{
    assert(a == b) by (bit_vector)
        requires
            ((a & 0xff) as u8) == ((b & 0xff) as u8),
            (((a >> 8) & 0xff) as u8) == (((b >> 8) & 0xff) as u8),
            (((a >> 16) & 0xff) as u8) == (((b >> 16) & 0xff) as u8),
            (((a >> 24) & 0xff) as u8) == (((b >> 24) & 0xff) as u8),
            (((a >> 32) & 0xff) as u8) == (((b >> 32) & 0xff) as u8),
            (((a >> 40) & 0xff) as u8) == (((b >> 40) & 0xff) as u8),
            (((a >> 48) & 0xff) as u8) == (((b >> 48) & 0xff) as u8),
            (((a >> 56) & 0xff) as u8) == (((b >> 56) & 0xff) as u8),
            (((a >> 64) & 0xff) as u8) == (((b >> 64) & 0xff) as u8),
            (((a >> 72) & 0xff) as u8) == (((b >> 72) & 0xff) as u8),
            (((a >> 80) & 0xff) as u8) == (((b >> 80) & 0xff) as u8),
            (((a >> 88) & 0xff) as u8) == (((b >> 88) & 0xff) as u8),
            (((a >> 96) & 0xff) as u8) == (((b >> 96) & 0xff) as u8),
            (((a >> 104) & 0xff) as u8) == (((b >> 104) & 0xff) as u8),
            (((a >> 112) & 0xff) as u8) == (((b >> 112) & 0xff) as u8),
            (((a >> 120) & 0xff) as u8) == (((b >> 120) & 0xff) as u8),
    ;
}

/// Appends the four little-endian bytes of `x` to `out`.
pub fn push_le32(out: &mut Vec<u8>, x: u32)
    ensures
        final(out)@ == old(out)@ + u32_le_bytes(x),
{
    out.push((x & 0xff) as u8);
    out.push(((x >> 8u32) & 0xff) as u8);
    out.push(((x >> 16u32) & 0xff) as u8);
    out.push(((x >> 24u32) & 0xff) as u8);
    assert(out@ =~= old(out)@ + u32_le_bytes(x));
}

/// Appends the four big-endian bytes of `x` to `out`.
pub fn push_be32(out: &mut Vec<u8>, x: u32)
    ensures
        final(out)@ == old(out)@ + u32_be_bytes(x),
{
    out.push(((x >> 24u32) & 0xff) as u8);
    out.push(((x >> 16u32) & 0xff) as u8);
    out.push(((x >> 8u32) & 0xff) as u8);
    out.push((x & 0xff) as u8);
    assert(out@ =~= old(out)@ + u32_be_bytes(x));
}

/// Appends the eight little-endian bytes of `x` to `out`.
pub fn push_le64(out: &mut Vec<u8>, x: u64)
    ensures
        final(out)@ == old(out)@ + u64_le_bytes(x),
{
    out.push((x & 0xff) as u8);
    out.push(((x >> 8u64) & 0xff) as u8);
    out.push(((x >> 16u64) & 0xff) as u8);
    out.push(((x >> 24u64) & 0xff) as u8);
    out.push(((x >> 32u64) & 0xff) as u8);
    out.push(((x >> 40u64) & 0xff) as u8);
    out.push(((x >> 48u64) & 0xff) as u8);
    out.push(((x >> 56u64) & 0xff) as u8);
    assert(out@ =~= old(out)@ + u64_le_bytes(x));
}

/// Appends the eight big-endian bytes of `x` to `out`.
pub fn push_be64(out: &mut Vec<u8>, x: u64)
    ensures
        final(out)@ == old(out)@ + u64_be_bytes(x),
{
    out.push(((x >> 56u64) & 0xff) as u8);
    out.push(((x >> 48u64) & 0xff) as u8);
    out.push(((x >> 40u64) & 0xff) as u8);
    out.push(((x >> 32u64) & 0xff) as u8);
    out.push(((x >> 24u64) & 0xff) as u8);
    out.push(((x >> 16u64) & 0xff) as u8);
    out.push(((x >> 8u64) & 0xff) as u8);
    out.push((x & 0xff) as u8);
    assert(out@ =~= old(out)@ + u64_be_bytes(x));
}

/// Appends the sixteen big-endian bytes of `x` to `out`.
pub fn push_be128(out: &mut Vec<u8>, x: u128)
    ensures
        final(out)@ == old(out)@ + u128_be_bytes(x),
{
    out.push(((x >> 120u128) & 0xff) as u8);
    out.push(((x >> 112u128) & 0xff) as u8);
    out.push(((x >> 104u128) & 0xff) as u8);
    out.push(((x >> 96u128) & 0xff) as u8);
    out.push(((x >> 88u128) & 0xff) as u8);
    out.push(((x >> 80u128) & 0xff) as u8);
    out.push(((x >> 72u128) & 0xff) as u8);
    out.push(((x >> 64u128) & 0xff) as u8);
    out.push(((x >> 56u128) & 0xff) as u8);
    out.push(((x >> 48u128) & 0xff) as u8);
    out.push(((x >> 40u128) & 0xff) as u8);
    out.push(((x >> 32u128) & 0xff) as u8);
    out.push(((x >> 24u128) & 0xff) as u8);
    out.push(((x >> 16u128) & 0xff) as u8);
    out.push(((x >> 8u128) & 0xff) as u8);
    out.push((x & 0xff) as u8);
    assert(out@ =~= old(out)@ + u128_be_bytes(x));
}

} // verus!
