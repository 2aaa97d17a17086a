//! The block splitter and padder shared by the Merkle–Damgård algorithms
//! (MD4, MD5, SHA-1 and the SHA-2 family).
//!
//! A message is padded with a single `0x80` delimiter byte, then zero bytes,
//! then a length suffix, so that the total is a multiple of the block size.
//! The number of zero bytes is chosen so that the suffix ends exactly at a
//! block boundary: the suffix goes into the same block as the delimiter if
//! and only if the remainder leaves room for the delimiter *and* the whole
//! suffix; otherwise a second block is appended.

use vstd::arithmetic::div_mod::lemma_fundamental_div_mod;
use vstd::arithmetic::div_mod::lemma_mod_multiples_basic;
use vstd::prelude::*;

verus! {

/// `n` zero bytes.
pub open spec fn zero_seq(n: nat) -> Seq<u8> {
    Seq::new(n, |i: int| 0u8)
}

/// The number of zero bytes placed between the `0x80` delimiter and the
/// length suffix when a message of `len` bytes is padded to a multiple of
/// `block` bytes with a suffix of `sfx` bytes.  The suffix still fits in the
/// delimiter's block exactly when `len % block + 1 + sfx <= block`; otherwise
/// the padding spills into a second block.
pub open spec fn md_zeros(len: nat, block: nat, sfx: nat) -> nat
    recommends
        sfx + 1 <= block,
{
    if len % block + 1 + sfx <= block {
        (block - 1 - sfx - len % block) as nat
    } else {
        (2 * block - 1 - sfx - len % block) as nat
    }
}

/// The value of a 64-bit length suffix: the input's bit length, reduced to
/// the suffix width.  The digest functions require the bit length to fit, so
/// the reduction never discards anything there.
pub open spec fn bitlen64(len: nat) -> u64 {
    ((len * 8) % 0x10000000000000000nat) as u64
}

/// The value of a 128-bit length suffix: the input's bit length, reduced to
/// the suffix width.
pub open spec fn bitlen128(len: nat) -> u128 {
    ((len * 8) % 0x100000000000000000000000000000000nat) as u128
}

/// A message padded for the Merkle–Damgård construction: the input, one
/// `0x80` delimiter byte, zero fill, and the length suffix, totalling a
/// multiple of the block size.
pub open spec fn md_padded(input: Seq<u8>, block: nat, suffix: Seq<u8>) -> Seq<u8> {
    input + seq![0x80u8] + zero_seq(md_zeros(input.len(), block, suffix.len())) + suffix
}

/// The padded message is a whole number of blocks, contains at least one
/// block, and adds at most two blocks beyond the input.
pub proof fn lemma_md_padded_len(input: Seq<u8>, block: nat, suffix: Seq<u8>)
    requires
        0 < block,
        suffix.len() + 1 <= block,
    ensures
        md_padded(input, block, suffix).len() % block == 0,
        md_padded(input, block, suffix).len() >= input.len() + 1 + suffix.len(),
        md_padded(input, block, suffix).len() <= input.len() + 2 * block,
        md_padded(input, block, suffix).len() >= block,
{
    let len = input.len();
    let sfx = suffix.len();
    let r = len % block;
    let q = len / block;
    lemma_fundamental_div_mod(len as int, block as int);
    let total = md_padded(input, block, suffix).len();
    if r + 1 + sfx <= block {
        assert((q + 1) * block == block * q + block) by (nonlinear_arith);
        assert(total == (q + 1) * block);
        lemma_mod_multiples_basic(q + 1 as int, block as int);
    } else {
        assert((q + 2) * block == block * q + 2 * block) by (nonlinear_arith);
        assert(total == (q + 2) * block);
        lemma_mod_multiples_basic(q + 2 as int, block as int);
    }
}

/// The padding is injective: two messages with equal padded forms are equal,
/// provided the length suffix distinguishes inputs of different lengths.
/// In particular a strict prefix of a message never pads to the same block
/// sequence as the message itself.
pub proof fn lemma_md_padded_injective(x: Seq<u8>, y: Seq<u8>, block: nat, sx: Seq<u8>, sy: Seq<u8>)
    requires
        0 < block,
        sx.len() == sy.len(),
        sx.len() + 1 <= block,
        x.len() != y.len() ==> sx != sy,
        md_padded(x, block, sx) == md_padded(y, block, sy),
    ensures
        x == y,
{
    let px = md_padded(x, block, sx);
    let py = md_padded(y, block, sy);
    let lp = px.len();
    assert(px.subrange(lp - sx.len(), lp as int) =~= sx);
    assert(py.subrange(lp - sy.len(), lp as int) =~= sy);
    assert(sx == sy);
    assert(x.len() == y.len());
    assert(px.subrange(0, x.len() as int) =~= x);
    assert(py.subrange(0, y.len() as int) =~= y);
}

/// Pads `input` for a Merkle–Damgård algorithm with block size `block` and
/// the given length suffix, returning the whole padded message.
pub fn pad_message(input: &[u8], suffix: &Vec<u8>, block: usize) -> (out: Vec<u8>)
    requires
        0 < block,
        suffix@.len() + 1 <= block,
        input@.len() + 2 * block <= usize::MAX,
    ensures
        out@ == md_padded(input@, block as nat, suffix@),
{
    let len = input.len();
    let mut out: Vec<u8> = Vec::new();
    let mut i: usize = 0;
    while i < len
        invariant
            i <= len,
            len == input@.len(),
            out@ == input@.subrange(0, i as int),
        decreases len - i,
    {
        out.push(input[i]);
        i += 1;
        proof {
            assert(out@ =~= input@.subrange(0, i as int));
        }
    }
    proof {
        assert(out@ =~= input@);
    }
    out.push(0x80);
    let rem = len % block;
    proof {
        lemma_fundamental_div_mod(len as int, block as int);
    }
    let zeros = if rem + 1 + suffix.len() <= block {
        block - 1 - suffix.len() - rem
    } else {
        2 * block - 1 - suffix.len() - rem
    };
    assert(zeros == md_zeros(input@.len(), block as nat, suffix@.len()));
    let mut j: usize = 0;
    while j < zeros
        invariant
            j <= zeros,
            out@ == input@ + seq![0x80u8] + zero_seq(j as nat),
        decreases zeros - j,
    {
        out.push(0);
        j += 1;
        proof {
            assert(out@ =~= input@ + seq![0x80u8] + zero_seq(j as nat));
        }
    }
    let sfx_len = suffix.len();
    let mut k: usize = 0;
    while k < sfx_len
        invariant
            k <= sfx_len,
            sfx_len == suffix@.len(),
            out@ == input@ + seq![0x80u8] + zero_seq(zeros as nat) + suffix@.subrange(0, k as int),
        decreases sfx_len - k,
    {
        out.push(suffix[k]);
        k += 1;
        proof {
            assert(out@ =~= input@ + seq![0x80u8] + zero_seq(zeros as nat) + suffix@.subrange(
                0,
                k as int,
            ));
        }
    }
    proof {
        assert(suffix@.subrange(0, suffix@.len() as int) =~= suffix@);
        assert(out@ =~= md_padded(input@, block as nat, suffix@));
    }
    out
}

} // verus!
