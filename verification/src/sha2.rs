//! The SHA-2 family: SHA-224 and SHA-256 over 32-bit words, SHA-384 and
//! SHA-512 over 64-bit words.  Each variant expands the block into a message
//! schedule with sigma mixing, runs 64 or 80 rounds of choose/majority
//! mixing, applies a Davies–Meyer feed-forward after each block, and pads
//! with a big-endian length suffix (64 bits for the 32-bit variants, 128
//! bits for the 64-bit variants).  SHA-224 and SHA-384 differ from SHA-256
//! and SHA-512 only in their initial state and in truncating the serialized
//! final state.

use vstd::arithmetic::div_mod::lemma_fundamental_div_mod;
use vstd::arithmetic::div_mod::lemma_small_mod;
use vstd::prelude::*;

use crate::block::bitlen128;
use crate::block::bitlen64;
use crate::block::lemma_md_padded_injective;
use crate::block::lemma_md_padded_len;
use crate::block::md_padded;
use crate::block::pad_message;
use crate::words::be32_at;
use crate::words::lemma_u128_be_bytes_injective;
use crate::words::lemma_u64_be_bytes_injective;
use crate::words::be64_at;
use crate::words::load_be32;
use crate::words::load_be64;
use crate::words::push_be32;
use crate::words::push_be64;
use crate::words::push_be128;
use crate::words::spec_rotr32;
use crate::words::spec_rotr64;
use crate::words::rotr32;
use crate::words::rotr64;
use crate::words::u128_be_bytes;
use crate::words::u32_be_bytes;
use crate::words::u64_be_bytes;

verus! {

/// The SHA-224 initial state.
pub open spec fn sha224_iv() -> Seq<u32> {
    seq![
        0xc1059ed8u32,
        0x367cd507u32,
        0x3070dd17u32,
        0xf70e5939u32,
        0xffc00b31u32,
        0x68581511u32,
        0x64f98fa7u32,
        0xbefa4fa4u32,
    ]
}

/// The SHA-256 initial state.
pub open spec fn sha256_iv() -> Seq<u32> {
    seq![
        0x6a09e667u32,
        0xbb67ae85u32,
        0x3c6ef372u32,
        0xa54ff53au32,
        0x510e527fu32,
        0x9b05688cu32,
        0x1f83d9abu32,
        0x5be0cd19u32,
    ]
}

/// The SHA-384 initial state.
pub open spec fn sha384_iv() -> Seq<u64> {
    seq![
        0xcbbb9d5dc1059ed8u64,
        0x629a292a367cd507u64,
        0x9159015a3070dd17u64,
        0x152fecd8f70e5939u64,
        0x67332667ffc00b31u64,
        0x8eb44a8768581511u64,
        0xdb0c2e0d64f98fa7u64,
        0x47b5481dbefa4fa4u64,
    ]
}

/// The SHA-512 initial state.
pub open spec fn sha512_iv() -> Seq<u64> {
    seq![
        0x6a09e667f3bcc908u64,
        0xbb67ae8584caa73bu64,
        0x3c6ef372fe94f82bu64,
        0xa54ff53a5f1d36f1u64,
        0x510e527fade682d1u64,
        0x9b05688c2b3e6c1fu64,
        0x1f83d9abfb41bd6bu64,
        0x5be0cd19137e2179u64,
    ]
}

/// Word `t` of the SHA-256 message schedule: the block's big-endian words
/// for `t < 16`, then the sigma-mixing recurrence.
pub open spec fn sha256_w(block: Seq<u8>, t: int) -> u32
    recommends
        block.len() == 64,
        t < 64,
    decreases t,
{
    if t < 16 {
        be32_at(block, 4 * t)
    } else {
        let w15: u32 = sha256_w(block, t - 15);
        let w2: u32 = sha256_w(block, t - 2);
        let s0: u32 = spec_rotr32(w15, 7) ^ spec_rotr32(w15, 18) ^ (w15 >> 3u32);
        let s1: u32 = spec_rotr32(w2, 17) ^ spec_rotr32(w2, 19) ^ (w2 >> 10u32);
        sha256_w(block, t - 16).wrapping_add(s0).wrapping_add(sha256_w(block, t - 7)).wrapping_add(
            s1,
        )
    }
}

/// Word `t` of the SHA-512 message schedule.
pub open spec fn sha512_w(block: Seq<u8>, t: int) -> u64
    recommends
        block.len() == 128,
        t < 80,
    decreases t,
{
    if t < 16 {
        be64_at(block, 8 * t)
    } else {
        let w15: u64 = sha512_w(block, t - 15);
        let w2: u64 = sha512_w(block, t - 2);
        let s0: u64 = spec_rotr64(w15, 1) ^ spec_rotr64(w15, 8) ^ (w15 >> 7u64);
        let s1: u64 = spec_rotr64(w2, 19) ^ spec_rotr64(w2, 61) ^ (w2 >> 6u64);
        sha512_w(block, t - 16).wrapping_add(s0).wrapping_add(sha512_w(block, t - 7)).wrapping_add(
            s1,
        )
    }
}

/// One SHA-256 round: the rotating state `(a, .., h)` after round `t`.
pub open spec fn sha256_step(
    v: (u32, u32, u32, u32, u32, u32, u32, u32),
    block: Seq<u8>,
    t: int,
) -> (u32, u32, u32, u32, u32, u32, u32, u32)
    recommends
        block.len() == 64,
        0 <= t < 64,
{
    let s1: u32 = spec_rotr32(v.4, 6) ^ spec_rotr32(v.4, 11) ^ spec_rotr32(v.4, 25);
    let ch: u32 = (v.4 & v.5) ^ (!v.4 & v.6);
    let t1: u32 = v.7.wrapping_add(s1).wrapping_add(ch).wrapping_add(sha256_k(t)).wrapping_add(
        sha256_w(block, t),
    );
    let s0: u32 = spec_rotr32(v.0, 2) ^ spec_rotr32(v.0, 13) ^ spec_rotr32(v.0, 22);
    let maj: u32 = (v.0 & v.1) ^ (v.0 & v.2) ^ (v.1 & v.2);
    let t2: u32 = s0.wrapping_add(maj);
    (t1.wrapping_add(t2), v.0, v.1, v.2, v.3.wrapping_add(t1), v.4, v.5, v.6)
}

/// One SHA-512 round.
pub open spec fn sha512_step(
    v: (u64, u64, u64, u64, u64, u64, u64, u64),
    block: Seq<u8>,
    t: int,
) -> (u64, u64, u64, u64, u64, u64, u64, u64)
    recommends
        block.len() == 128,
        0 <= t < 80,
{
    let s1: u64 = spec_rotr64(v.4, 14) ^ spec_rotr64(v.4, 18) ^ spec_rotr64(v.4, 41);
    let ch: u64 = (v.4 & v.5) ^ (!v.4 & v.6);
    let t1: u64 = s1.wrapping_add(ch).wrapping_add(sha512_k(t)).wrapping_add(
        sha512_w(block, t),
    ).wrapping_add(v.7);
    let s0: u64 = spec_rotr64(v.0, 28) ^ spec_rotr64(v.0, 34) ^ spec_rotr64(v.0, 39);
    let maj: u64 = (v.0 & v.1) ^ (v.0 & v.2) ^ (v.1 & v.2);
    let t2: u64 = s0.wrapping_add(maj);
    (t1.wrapping_add(t2), v.0, v.1, v.2, v.3.wrapping_add(t1), v.4, v.5, v.6)
}

/// The rotating state after the first `t` SHA-256 rounds on `block`.
pub open spec fn sha256_rounds(
    v: (u32, u32, u32, u32, u32, u32, u32, u32),
    block: Seq<u8>,
    t: nat,
) -> (u32, u32, u32, u32, u32, u32, u32, u32)
    recommends
        block.len() == 64,
        t <= 64,
    decreases t,
{
    if t == 0 {
        v
    } else {
        sha256_step(sha256_rounds(v, block, (t - 1) as nat), block, t - 1)
    }
}

/// The rotating state after the first `t` SHA-512 rounds on `block`.
pub open spec fn sha512_rounds(
    v: (u64, u64, u64, u64, u64, u64, u64, u64),
    block: Seq<u8>,
    t: nat,
) -> (u64, u64, u64, u64, u64, u64, u64, u64)
    recommends
        block.len() == 128,
        t <= 80,
    decreases t,
{
    if t == 0 {
        v
    } else {
        sha512_step(sha512_rounds(v, block, (t - 1) as nat), block, t - 1)
    }
}

/// The SHA-256 compression function: sixty-four rounds, then the
/// Davies–Meyer feed-forward.
pub open spec fn spec_sha256_compress(h: Seq<u32>, block: Seq<u8>) -> Seq<u32>
    recommends
        h.len() == 8,
        block.len() == 64,
{
    let v = sha256_rounds((h[0], h[1], h[2], h[3], h[4], h[5], h[6], h[7]), block, 64);
    seq![
        h[0].wrapping_add(v.0),
        h[1].wrapping_add(v.1),
        h[2].wrapping_add(v.2),
        h[3].wrapping_add(v.3),
        h[4].wrapping_add(v.4),
        h[5].wrapping_add(v.5),
        h[6].wrapping_add(v.6),
        h[7].wrapping_add(v.7),
    ]
}

/// The SHA-512 compression function: eighty rounds, then the Davies–Meyer
/// feed-forward.
pub open spec fn spec_sha512_compress(h: Seq<u64>, block: Seq<u8>) -> Seq<u64>
    recommends
        h.len() == 8,
        block.len() == 128,
{
    let v = sha512_rounds((h[0], h[1], h[2], h[3], h[4], h[5], h[6], h[7]), block, 80);
    seq![
        h[0].wrapping_add(v.0),
        h[1].wrapping_add(v.1),
        h[2].wrapping_add(v.2),
        h[3].wrapping_add(v.3),
        h[4].wrapping_add(v.4),
        h[5].wrapping_add(v.5),
        h[6].wrapping_add(v.6),
        h[7].wrapping_add(v.7),
    ]
}

/// The state after compressing the first `i` 64-byte blocks of the padded
/// message, starting from `iv`.
pub open spec fn sha256_states(iv: Seq<u32>, msg: Seq<u8>, i: nat) -> Seq<u32>
    recommends
        msg.len() % 64 == 0,
        i <= msg.len() / 64,
    decreases i,
{
    if i == 0 {
        iv
    } else {
        let j: int = 64 * (i - 1);
        spec_sha256_compress(sha256_states(iv, msg, (i - 1) as nat), msg.subrange(j, j + 64))
    }
}

/// The state after compressing the first `i` 128-byte blocks of the padded
/// message, starting from `iv`.
pub open spec fn sha512_states(iv: Seq<u64>, msg: Seq<u8>, i: nat) -> Seq<u64>
    recommends
        msg.len() % 128 == 0,
        i <= msg.len() / 128,
    decreases i,
{
    if i == 0 {
        iv
    } else {
        let j: int = 128 * (i - 1);
        spec_sha512_compress(sha512_states(iv, msg, (i - 1) as nat), msg.subrange(j, j + 128))
    }
}

/// The whole padded message digested by the 32-bit SHA-2 variants.
pub open spec fn spec_sha256_padded(input: Seq<u8>) -> Seq<u8> {
    md_padded(input, 64, u64_be_bytes(bitlen64(input.len())))
}

/// The whole padded message digested by the 64-bit SHA-2 variants.
pub open spec fn spec_sha512_padded(input: Seq<u8>) -> Seq<u8> {
    md_padded(input, 128, u128_be_bytes(bitlen128(input.len())))
}

/// The final 32-bit SHA-2 state over `input`, starting from `iv`.
pub open spec fn sha256_run(iv: Seq<u32>, input: Seq<u8>) -> Seq<u32> {
    let msg = spec_sha256_padded(input);
    sha256_states(iv, msg, msg.len() / 64)
}

/// The final 64-bit SHA-2 state over `input`, starting from `iv`.
pub open spec fn sha512_run(iv: Seq<u64>, input: Seq<u8>) -> Seq<u64> {
    let msg = spec_sha512_padded(input);
    sha512_states(iv, msg, msg.len() / 128)
}

/// The full serialization of a 32-bit SHA-2 state: eight big-endian words.
pub open spec fn sha256_state_bytes(h: Seq<u32>) -> Seq<u8> {
    u32_be_bytes(h[0]) + u32_be_bytes(h[1]) + u32_be_bytes(h[2]) + u32_be_bytes(h[3]) + u32_be_bytes(
        h[4],
    ) + u32_be_bytes(h[5]) + u32_be_bytes(h[6]) + u32_be_bytes(h[7])
}

/// The full serialization of a 64-bit SHA-2 state: eight big-endian words.
pub open spec fn sha512_state_bytes(h: Seq<u64>) -> Seq<u8> {
    u64_be_bytes(h[0]) + u64_be_bytes(h[1]) + u64_be_bytes(h[2]) + u64_be_bytes(h[3]) + u64_be_bytes(
        h[4],
    ) + u64_be_bytes(h[5]) + u64_be_bytes(h[6]) + u64_be_bytes(h[7])
}

/// The SHA-224 digest of `input`: the first seven words of the final state
/// over the SHA-224 initial state, serialized big-endian.
pub open spec fn spec_sha2_224(input: Seq<u8>) -> Seq<u8> {
    let h = sha256_run(sha224_iv(), input);
    u32_be_bytes(h[0]) + u32_be_bytes(h[1]) + u32_be_bytes(h[2]) + u32_be_bytes(h[3]) + u32_be_bytes(
        h[4],
    ) + u32_be_bytes(h[5]) + u32_be_bytes(h[6])
}

/// The SHA-256 digest of `input`.
pub open spec fn spec_sha2_256(input: Seq<u8>) -> Seq<u8> {
    sha256_state_bytes(sha256_run(sha256_iv(), input))
}

/// The SHA-384 digest of `input`: the first six words of the final state
/// over the SHA-384 initial state, serialized big-endian.
pub open spec fn spec_sha2_384(input: Seq<u8>) -> Seq<u8> {
    let h = sha512_run(sha384_iv(), input);
    u64_be_bytes(h[0]) + u64_be_bytes(h[1]) + u64_be_bytes(h[2]) + u64_be_bytes(h[3]) + u64_be_bytes(
        h[4],
    ) + u64_be_bytes(h[5])
}

/// The SHA-512 digest of `input`.
pub open spec fn spec_sha2_512(input: Seq<u8>) -> Seq<u8> {
    sha512_state_bytes(sha512_run(sha512_iv(), input))
}

/// One application of the SHA-256 compression function to the 64-byte block
/// of `msg` that starts at byte `off`.
fn sha256_compress(state: &mut Vec<u32>, msg: &Vec<u8>, off: usize)
    requires
        old(state)@.len() == 8,
        off + 64 <= msg@.len(),
    ensures
        final(state)@ == spec_sha256_compress(
            old(state)@,
            msg@.subrange(off as int, off as int + 64),
        ),
        final(state)@.len() == 8,
{
    let mlen: usize = msg.len();
    let ghost block = msg@.subrange(off as int, off as int + 64);
    let mut w: Vec<u32> = Vec::new();
    let mut j: usize = 0;
    while j < 16
        invariant
            j <= 16,
            w@.len() == j,
            mlen == msg@.len(),
            off + 64 <= msg@.len(),
            block == msg@.subrange(off as int, off as int + 64),
            forall|x: int| 0 <= x < j ==> w@[x] == sha256_w(block, x),
        decreases 16 - j,
    {
        let word = load_be32(msg.as_slice(), off + 4 * j);
        proof {
            assert(be32_at(msg@, off + 4 * (j as int)) == be32_at(block, 4 * (j as int)));
        }
        w.push(word);
        j += 1;
    }
    while j < 64
        invariant
            16 <= j <= 64,
            w@.len() == j,
            forall|x: int| 0 <= x < j ==> w@[x] == sha256_w(block, x),
        decreases 64 - j,
    {
        let w15 = w[j - 15];
        let s0 = rotr32(w15, 7) ^ rotr32(w15, 18) ^ (w15 >> 3u32);
        let w2 = w[j - 2];
        let s1 = rotr32(w2, 17) ^ rotr32(w2, 19) ^ (w2 >> 10u32);
        let word = w[j - 16].wrapping_add(s0).wrapping_add(w[j - 7]).wrapping_add(s1);
        proof {
            assert(w@[j as int - 15] == sha256_w(block, j as int - 15));
            assert(w@[j as int - 2] == sha256_w(block, j as int - 2));
            assert(w@[j as int - 16] == sha256_w(block, j as int - 16));
            assert(w@[j as int - 7] == sha256_w(block, j as int - 7));
            assert(word == sha256_w(block, j as int));
        }
        w.push(word);
        j += 1;
    }
    let mut a = state[0];
    let mut b = state[1];
    let mut c = state[2];
    let mut d = state[3];
    let mut e = state[4];
    let mut f = state[5];
    let mut g = state[6];
    let mut h = state[7];
    let ghost v0 = (a, b, c, d, e, f, g, h);
    let mut t: usize = 0;
    while t < 64
        invariant
            t <= 64,
            w@.len() == 64,
            forall|x: int| 0 <= x < 64 ==> w@[x] == sha256_w(block, x),
            (a, b, c, d, e, f, g, h) == sha256_rounds(v0, block, t as nat),
        decreases 64 - t,
    {
        let s1 = rotr32(e, 6) ^ rotr32(e, 11) ^ rotr32(e, 25);
        let ch = (e & f) ^ (!e & g);
        let k = sha256_k_at(t);
        let t1 = h.wrapping_add(s1).wrapping_add(ch).wrapping_add(k).wrapping_add(w[t]);
        let s0 = rotr32(a, 2) ^ rotr32(a, 13) ^ rotr32(a, 22);
        let maj = (a & b) ^ (a & c) ^ (b & c);
        let t2 = s0.wrapping_add(maj);
        h = g;
        g = f;
        f = e;
        e = d.wrapping_add(t1);
        d = c;
        c = b;
        b = a;
        a = t1.wrapping_add(t2);
        t += 1;
        proof {
            assert((a, b, c, d, e, f, g, h) == sha256_rounds(v0, block, t as nat));
        }
    }
    let n0 = state[0].wrapping_add(a);
    let n1 = state[1].wrapping_add(b);
    let n2 = state[2].wrapping_add(c);
    let n3 = state[3].wrapping_add(d);
    let n4 = state[4].wrapping_add(e);
    let n5 = state[5].wrapping_add(f);
    let n6 = state[6].wrapping_add(g);
    let n7 = state[7].wrapping_add(h);
    state[0] = n0;
    state[1] = n1;
    state[2] = n2;
    state[3] = n3;
    state[4] = n4;
    state[5] = n5;
    state[6] = n6;
    state[7] = n7;
    proof {
        assert(state@ =~= spec_sha256_compress(old(state)@, block));
    }
}

/// One application of the SHA-512 compression function to the 128-byte block
/// of `msg` that starts at byte `off`.
fn sha512_compress(state: &mut Vec<u64>, msg: &Vec<u8>, off: usize)
    requires
        old(state)@.len() == 8,
        off + 128 <= msg@.len(),
    ensures
        final(state)@ == spec_sha512_compress(
            old(state)@,
            msg@.subrange(off as int, off as int + 128),
        ),
        final(state)@.len() == 8,
{
    let mlen: usize = msg.len();
    let ghost block = msg@.subrange(off as int, off as int + 128);
    let mut w: Vec<u64> = Vec::new();
    let mut j: usize = 0;
    while j < 16
        invariant
            j <= 16,
            w@.len() == j,
            mlen == msg@.len(),
            off + 128 <= msg@.len(),
            block == msg@.subrange(off as int, off as int + 128),
            forall|x: int| 0 <= x < j ==> w@[x] == sha512_w(block, x),
        decreases 16 - j,
    {
        let word = load_be64(msg.as_slice(), off + 8 * j);
        proof {
            assert(be64_at(msg@, off + 8 * (j as int)) == be64_at(block, 8 * (j as int)));
        }
        w.push(word);
        j += 1;
    }
    while j < 80
        invariant
            16 <= j <= 80,
            w@.len() == j,
            forall|x: int| 0 <= x < j ==> w@[x] == sha512_w(block, x),
        decreases 80 - j,
    {
        let w15 = w[j - 15];
        let s0 = rotr64(w15, 1) ^ rotr64(w15, 8) ^ (w15 >> 7u64);
        let w2 = w[j - 2];
        let s1 = rotr64(w2, 19) ^ rotr64(w2, 61) ^ (w2 >> 6u64);
        let word = w[j - 16].wrapping_add(s0).wrapping_add(w[j - 7]).wrapping_add(s1);
        proof {
            assert(w@[j as int - 15] == sha512_w(block, j as int - 15));
            assert(w@[j as int - 2] == sha512_w(block, j as int - 2));
            assert(w@[j as int - 16] == sha512_w(block, j as int - 16));
            assert(w@[j as int - 7] == sha512_w(block, j as int - 7));
            assert(word == sha512_w(block, j as int));
        }
        w.push(word);
        j += 1;
    }
    let mut a = state[0];
    let mut b = state[1];
    let mut c = state[2];
    let mut d = state[3];
    let mut e = state[4];
    let mut f = state[5];
    let mut g = state[6];
    let mut h = state[7];
    let ghost v0 = (a, b, c, d, e, f, g, h);
    let mut t: usize = 0;
    while t < 80
        invariant
            t <= 80,
            w@.len() == 80,
            forall|x: int| 0 <= x < 80 ==> w@[x] == sha512_w(block, x),
            (a, b, c, d, e, f, g, h) == sha512_rounds(v0, block, t as nat),
        decreases 80 - t,
    {
        let s1 = rotr64(e, 14) ^ rotr64(e, 18) ^ rotr64(e, 41);
        let ch = (e & f) ^ (!e & g);
        let k = sha512_k_at(t);
        let t1 = s1.wrapping_add(ch).wrapping_add(k).wrapping_add(w[t]).wrapping_add(h);
        let s0 = rotr64(a, 28) ^ rotr64(a, 34) ^ rotr64(a, 39);
        let maj = (a & b) ^ (a & c) ^ (b & c);
        let t2 = s0.wrapping_add(maj);
        h = g;
        g = f;
        f = e;
        e = d.wrapping_add(t1);
        d = c;
        c = b;
        b = a;
        a = t1.wrapping_add(t2);
        t += 1;
        proof {
            assert((a, b, c, d, e, f, g, h) == sha512_rounds(v0, block, t as nat));
        }
    }
    let n0 = state[0].wrapping_add(a);
    let n1 = state[1].wrapping_add(b);
    let n2 = state[2].wrapping_add(c);
    let n3 = state[3].wrapping_add(d);
    let n4 = state[4].wrapping_add(e);
    let n5 = state[5].wrapping_add(f);
    let n6 = state[6].wrapping_add(g);
    let n7 = state[7].wrapping_add(h);
    state[0] = n0;
    state[1] = n1;
    state[2] = n2;
    state[3] = n3;
    state[4] = n4;
    state[5] = n5;
    state[6] = n6;
    state[7] = n7;
    proof {
        assert(state@ =~= spec_sha512_compress(old(state)@, block));
    }
}

/// Pads `input` and folds the SHA-256 compression function over all blocks,
/// starting from the state in `state`.
fn sha256_pad_and_run(input: &[u8], state: &mut Vec<u32>)
    requires
        old(state)@.len() == 8,
        input@.len() * 8 <= u64::MAX,
        input@.len() + 128 <= usize::MAX,
    ensures
        final(state)@ == sha256_run(old(state)@, input@),
        final(state)@.len() == 8,
{
    let bit_len: u64 = (input.len() as u64) * 8;
    proof {
        lemma_small_mod((input@.len() * 8) as nat, 0x10000000000000000nat);
        assert(bit_len == bitlen64(input@.len()));
    }
    let mut suffix: Vec<u8> = Vec::new();
    push_be64(&mut suffix, bit_len);
    proof {
        assert(suffix@ =~= u64_be_bytes(bitlen64(input@.len())));
    }
    let msg = pad_message(input, &suffix, 64);
    proof {
        lemma_md_padded_len(input@, 64, suffix@);
        lemma_fundamental_div_mod(msg@.len() as int, 64);
    }
    let ghost padded = msg@;
    let ghost iv = state@;
    let n = msg.len() / 64;
    assert(64 * n == padded.len());
    let mut i: usize = 0;
    while i < n
        invariant
            i <= n,
            msg@ == padded,
            64 * n == padded.len(),
            padded.len() <= usize::MAX,
            state@.len() == 8,
            state@ == sha256_states(iv, padded, i as nat),
        decreases n - i,
    {
        proof {
            assert(i * 64 + 64 <= 64 * n) by (nonlinear_arith)
                requires
                    i < n,
            ;
        }
        sha256_compress(state, &msg, i * 64);
        i += 1;
        proof {
            assert(state@ == sha256_states(iv, padded, i as nat));
        }
    }
    proof {
        assert(state@ == sha256_run(iv, input@));
    }
}

/// Pads `input` and folds the SHA-512 compression function over all blocks,
/// starting from the state in `state`.
fn sha512_pad_and_run(input: &[u8], state: &mut Vec<u64>)
    requires
        old(state)@.len() == 8,
        input@.len() + 256 <= usize::MAX,
    ensures
        final(state)@ == sha512_run(old(state)@, input@),
        final(state)@.len() == 8,
{
    let bit_len: u128 = (input.len() as u128) * 8;
    proof {
        lemma_small_mod(
            (input@.len() * 8) as nat,
            0x100000000000000000000000000000000nat,
        );
        assert(bit_len == bitlen128(input@.len()));
    }
    let mut suffix: Vec<u8> = Vec::new();
    push_be128(&mut suffix, bit_len);
    proof {
        assert(suffix@ =~= u128_be_bytes(bitlen128(input@.len())));
    }
    let msg = pad_message(input, &suffix, 128);
    proof {
        lemma_md_padded_len(input@, 128, suffix@);
        lemma_fundamental_div_mod(msg@.len() as int, 128);
    }
    let ghost padded = msg@;
    let ghost iv = state@;
    let n = msg.len() / 128;
    assert(128 * n == padded.len());
    let mut i: usize = 0;
    while i < n
        invariant
            i <= n,
            msg@ == padded,
            128 * n == padded.len(),
            padded.len() <= usize::MAX,
            state@.len() == 8,
            state@ == sha512_states(iv, padded, i as nat),
        decreases n - i,
    {
        proof {
            assert(i * 128 + 128 <= 128 * n) by (nonlinear_arith)
                requires
                    i < n,
            ;
        }
        sha512_compress(state, &msg, i * 128);
        i += 1;
        proof {
            assert(state@ == sha512_states(iv, padded, i as nat));
        }
    }
    proof {
        assert(state@ == sha512_run(iv, input@));
    }
}

/// Computes the SHA-224 digest of `input`.
pub fn sha2_224(input: &[u8]) -> (digest: Vec<u8>)
    requires
        input@.len() * 8 <= u64::MAX,
        input@.len() + 128 <= usize::MAX,
    ensures
        digest@ == spec_sha2_224(input@),
        digest@.len() == 28,
{
    let mut state: Vec<u32> = Vec::new();
    state.push(0xc1059ed8);
    state.push(0x367cd507);
    state.push(0x3070dd17);
    state.push(0xf70e5939);
    state.push(0xffc00b31);
    state.push(0x68581511);
    state.push(0x64f98fa7);
    state.push(0xbefa4fa4);
    proof {
        assert(state@ =~= sha224_iv());
    }
    sha256_pad_and_run(input, &mut state);
    let mut digest: Vec<u8> = Vec::new();
    push_be32(&mut digest, state[0]);
    push_be32(&mut digest, state[1]);
    push_be32(&mut digest, state[2]);
    push_be32(&mut digest, state[3]);
    push_be32(&mut digest, state[4]);
    push_be32(&mut digest, state[5]);
    push_be32(&mut digest, state[6]);
    proof {
        assert(digest@ =~= spec_sha2_224(input@));
    }
    digest
}

/// Computes the SHA-256 digest of `input`.
pub fn sha2_256(input: &[u8]) -> (digest: Vec<u8>)
    requires
        input@.len() * 8 <= u64::MAX,
        input@.len() + 128 <= usize::MAX,
    ensures
        digest@ == spec_sha2_256(input@),
        digest@.len() == 32,
{
    let mut state: Vec<u32> = Vec::new();
    state.push(0x6a09e667);
    state.push(0xbb67ae85);
    state.push(0x3c6ef372);
    state.push(0xa54ff53a);
    state.push(0x510e527f);
    state.push(0x9b05688c);
    state.push(0x1f83d9ab);
    state.push(0x5be0cd19);
    proof {
        assert(state@ =~= sha256_iv());
    }
    sha256_pad_and_run(input, &mut state);
    let mut digest: Vec<u8> = Vec::new();
    push_be32(&mut digest, state[0]);
    push_be32(&mut digest, state[1]);
    push_be32(&mut digest, state[2]);
    push_be32(&mut digest, state[3]);
    push_be32(&mut digest, state[4]);
    push_be32(&mut digest, state[5]);
    push_be32(&mut digest, state[6]);
    push_be32(&mut digest, state[7]);
    proof {
        assert(digest@ =~= spec_sha2_256(input@));
    }
    digest
}

/// Computes the SHA-384 digest of `input`.
pub fn sha2_384(input: &[u8]) -> (digest: Vec<u8>)
    requires
        input@.len() + 256 <= usize::MAX,
    ensures
        digest@ == spec_sha2_384(input@),
        digest@.len() == 48,
{
    let mut state: Vec<u64> = Vec::new();
    state.push(0xcbbb9d5dc1059ed8);
    state.push(0x629a292a367cd507);
    state.push(0x9159015a3070dd17);
    state.push(0x152fecd8f70e5939);
    state.push(0x67332667ffc00b31);
    state.push(0x8eb44a8768581511);
    state.push(0xdb0c2e0d64f98fa7);
    state.push(0x47b5481dbefa4fa4);
    proof {
        assert(state@ =~= sha384_iv());
    }
    sha512_pad_and_run(input, &mut state);
    let mut digest: Vec<u8> = Vec::new();
    push_be64(&mut digest, state[0]);
    push_be64(&mut digest, state[1]);
    push_be64(&mut digest, state[2]);
    push_be64(&mut digest, state[3]);
    push_be64(&mut digest, state[4]);
    push_be64(&mut digest, state[5]);
    proof {
        assert(digest@ =~= spec_sha2_384(input@));
    }
    digest
}

/// Computes the SHA-512 digest of `input`.
pub fn sha2_512(input: &[u8]) -> (digest: Vec<u8>)
    requires
        input@.len() + 256 <= usize::MAX,
    ensures
        digest@ == spec_sha2_512(input@),
        digest@.len() == 64,
{
    let mut state: Vec<u64> = Vec::new();
    state.push(0x6a09e667f3bcc908);
    state.push(0xbb67ae8584caa73b);
    state.push(0x3c6ef372fe94f82b);
    state.push(0xa54ff53a5f1d36f1);
    state.push(0x510e527fade682d1);
    state.push(0x9b05688c2b3e6c1f);
    state.push(0x1f83d9abfb41bd6b);
    state.push(0x5be0cd19137e2179);
    proof {
        assert(state@ =~= sha512_iv());
    }
    sha512_pad_and_run(input, &mut state);
    let mut digest: Vec<u8> = Vec::new();
    push_be64(&mut digest, state[0]);
    push_be64(&mut digest, state[1]);
    push_be64(&mut digest, state[2]);
    push_be64(&mut digest, state[3]);
    push_be64(&mut digest, state[4]);
    push_be64(&mut digest, state[5]);
    push_be64(&mut digest, state[6]);
    push_be64(&mut digest, state[7]);
    proof {
        assert(digest@ =~= spec_sha2_512(input@));
    }
    digest
}

/// The sixty-four SHA-256 round constants.
pub open spec fn sha256_k(t: int) -> u32 {
    if t == 0 {
        0x428a2f98u32
    } else if t == 1 {
        0x71374491u32
    } else if t == 2 {
        0xb5c0fbcfu32
    } else if t == 3 {
        0xe9b5dba5u32
    } else if t == 4 {
        0x3956c25bu32
    } else if t == 5 {
        0x59f111f1u32
    } else if t == 6 {
        0x923f82a4u32
    } else if t == 7 {
        0xab1c5ed5u32
    } else if t == 8 {
        0xd807aa98u32
    } else if t == 9 {
        0x12835b01u32
    } else if t == 10 {
        0x243185beu32
    } else if t == 11 {
        0x550c7dc3u32
    } else if t == 12 {
        0x72be5d74u32
    } else if t == 13 {
        0x80deb1feu32
    } else if t == 14 {
        0x9bdc06a7u32
    } else if t == 15 {
        0xc19bf174u32
    } else if t == 16 {
        0xe49b69c1u32
    } else if t == 17 {
        0xefbe4786u32
    } else if t == 18 {
        0x0fc19dc6u32
    } else if t == 19 {
        0x240ca1ccu32
    } else if t == 20 {
        0x2de92c6fu32
    } else if t == 21 {
        0x4a7484aau32
    } else if t == 22 {
        0x5cb0a9dcu32
    } else if t == 23 {
        0x76f988dau32
    } else if t == 24 {
        0x983e5152u32
    } else if t == 25 {
        0xa831c66du32
    } else if t == 26 {
        0xb00327c8u32
    } else if t == 27 {
        0xbf597fc7u32
    } else if t == 28 {
        0xc6e00bf3u32
    } else if t == 29 {
        0xd5a79147u32
    } else if t == 30 {
        0x06ca6351u32
    } else if t == 31 {
        0x14292967u32
    } else if t == 32 {
        0x27b70a85u32
    } else if t == 33 {
        0x2e1b2138u32
    } else if t == 34 {
        0x4d2c6dfcu32
    } else if t == 35 {
        0x53380d13u32
    } else if t == 36 {
        0x650a7354u32
    } else if t == 37 {
        0x766a0abbu32
    } else if t == 38 {
        0x81c2c92eu32
    } else if t == 39 {
        0x92722c85u32
    } else if t == 40 {
        0xa2bfe8a1u32
    } else if t == 41 {
        0xa81a664bu32
    } else if t == 42 {
        0xc24b8b70u32
    } else if t == 43 {
        0xc76c51a3u32
    } else if t == 44 {
        0xd192e819u32
    } else if t == 45 {
        0xd6990624u32
    } else if t == 46 {
        0xf40e3585u32
    } else if t == 47 {
        0x106aa070u32
    } else if t == 48 {
        0x19a4c116u32
    } else if t == 49 {
        0x1e376c08u32
    } else if t == 50 {
        0x2748774cu32
    } else if t == 51 {
        0x34b0bcb5u32
    } else if t == 52 {
        0x391c0cb3u32
    } else if t == 53 {
        0x4ed8aa4au32
    } else if t == 54 {
        0x5b9cca4fu32
    } else if t == 55 {
        0x682e6ff3u32
    } else if t == 56 {
        0x748f82eeu32
    } else if t == 57 {
        0x78a5636fu32
    } else if t == 58 {
        0x84c87814u32
    } else if t == 59 {
        0x8cc70208u32
    } else if t == 60 {
        0x90befffau32
    } else if t == 61 {
        0xa4506cebu32
    } else if t == 62 {
        0xbef9a3f7u32
    } else {
        0xc67178f2u32
    }
}

fn sha256_k_at(t: usize) -> (k: u32)
    requires
        t < 64,
    ensures
        k == sha256_k(t as int),
{
    if t == 0 {
        0x428a2f98
    } else if t == 1 {
        0x71374491
    } else if t == 2 {
        0xb5c0fbcf
    } else if t == 3 {
        0xe9b5dba5
    } else if t == 4 {
        0x3956c25b
    } else if t == 5 {
        0x59f111f1
    } else if t == 6 {
        0x923f82a4
    } else if t == 7 {
        0xab1c5ed5
    } else if t == 8 {
        0xd807aa98
    } else if t == 9 {
        0x12835b01
    } else if t == 10 {
        0x243185be
    } else if t == 11 {
        0x550c7dc3
    } else if t == 12 {
        0x72be5d74
    } else if t == 13 {
        0x80deb1fe
    } else if t == 14 {
        0x9bdc06a7
    } else if t == 15 {
        0xc19bf174
    } else if t == 16 {
        0xe49b69c1
    } else if t == 17 {
        0xefbe4786
    } else if t == 18 {
        0x0fc19dc6
    } else if t == 19 {
        0x240ca1cc
    } else if t == 20 {
        0x2de92c6f
    } else if t == 21 {
        0x4a7484aa
    } else if t == 22 {
        0x5cb0a9dc
    } else if t == 23 {
        0x76f988da
    } else if t == 24 {
        0x983e5152
    } else if t == 25 {
        0xa831c66d
    } else if t == 26 {
        0xb00327c8
    } else if t == 27 {
        0xbf597fc7
    } else if t == 28 {
        0xc6e00bf3
    } else if t == 29 {
        0xd5a79147
    } else if t == 30 {
        0x06ca6351
    } else if t == 31 {
        0x14292967
    } else if t == 32 {
        0x27b70a85
    } else if t == 33 {
        0x2e1b2138
    } else if t == 34 {
        0x4d2c6dfc
    } else if t == 35 {
        0x53380d13
    } else if t == 36 {
        0x650a7354
    } else if t == 37 {
        0x766a0abb
    } else if t == 38 {
        0x81c2c92e
    } else if t == 39 {
        0x92722c85
    } else if t == 40 {
        0xa2bfe8a1
    } else if t == 41 {
        0xa81a664b
    } else if t == 42 {
        0xc24b8b70
    } else if t == 43 {
        0xc76c51a3
    } else if t == 44 {
        0xd192e819
    } else if t == 45 {
        0xd6990624
    } else if t == 46 {
        0xf40e3585
    } else if t == 47 {
        0x106aa070
    } else if t == 48 {
        0x19a4c116
    } else if t == 49 {
        0x1e376c08
    } else if t == 50 {
        0x2748774c
    } else if t == 51 {
        0x34b0bcb5
    } else if t == 52 {
        0x391c0cb3
    } else if t == 53 {
        0x4ed8aa4a
    } else if t == 54 {
        0x5b9cca4f
    } else if t == 55 {
        0x682e6ff3
    } else if t == 56 {
        0x748f82ee
    } else if t == 57 {
        0x78a5636f
    } else if t == 58 {
        0x84c87814
    } else if t == 59 {
        0x8cc70208
    } else if t == 60 {
        0x90befffa
    } else if t == 61 {
        0xa4506ceb
    } else if t == 62 {
        0xbef9a3f7
    } else {
        0xc67178f2
    }
}

/// The eighty SHA-512 round constants.
pub open spec fn sha512_k(t: int) -> u64 {
    if t == 0 {
        0x428a2f98d728ae22u64
    } else if t == 1 {
        0x7137449123ef65cdu64
    } else if t == 2 {
        0xb5c0fbcfec4d3b2fu64
    } else if t == 3 {
        0xe9b5dba58189dbbcu64
    } else if t == 4 {
        0x3956c25bf348b538u64
    } else if t == 5 {
        0x59f111f1b605d019u64
    } else if t == 6 {
        0x923f82a4af194f9bu64
    } else if t == 7 {
        0xab1c5ed5da6d8118u64
    } else if t == 8 {
        0xd807aa98a3030242u64
    } else if t == 9 {
        0x12835b0145706fbeu64
    } else if t == 10 {
        0x243185be4ee4b28cu64
    } else if t == 11 {
        0x550c7dc3d5ffb4e2u64
    } else if t == 12 {
        0x72be5d74f27b896fu64
    } else if t == 13 {
        0x80deb1fe3b1696b1u64
    } else if t == 14 {
        0x9bdc06a725c71235u64
    } else if t == 15 {
        0xc19bf174cf692694u64
    } else if t == 16 {
        0xe49b69c19ef14ad2u64
    } else if t == 17 {
        0xefbe4786384f25e3u64
    } else if t == 18 {
        0x0fc19dc68b8cd5b5u64
    } else if t == 19 {
        0x240ca1cc77ac9c65u64
    } else if t == 20 {
        0x2de92c6f592b0275u64
    } else if t == 21 {
        0x4a7484aa6ea6e483u64
    } else if t == 22 {
        0x5cb0a9dcbd41fbd4u64
    } else if t == 23 {
        0x76f988da831153b5u64
    } else if t == 24 {
        0x983e5152ee66dfabu64
    } else if t == 25 {
        0xa831c66d2db43210u64
    } else if t == 26 {
        0xb00327c898fb213fu64
    } else if t == 27 {
        0xbf597fc7beef0ee4u64
    } else if t == 28 {
        0xc6e00bf33da88fc2u64
    } else if t == 29 {
        0xd5a79147930aa725u64
    } else if t == 30 {
        0x06ca6351e003826fu64
    } else if t == 31 {
        0x142929670a0e6e70u64
    } else if t == 32 {
        0x27b70a8546d22ffcu64
    } else if t == 33 {
        0x2e1b21385c26c926u64
    } else if t == 34 {
        0x4d2c6dfc5ac42aedu64
    } else if t == 35 {
        0x53380d139d95b3dfu64
    } else if t == 36 {
        0x650a73548baf63deu64
    } else if t == 37 {
        0x766a0abb3c77b2a8u64
    } else if t == 38 {
        0x81c2c92e47edaee6u64
    } else if t == 39 {
        0x92722c851482353bu64
    } else if t == 40 {
        0xa2bfe8a14cf10364u64
    } else if t == 41 {
        0xa81a664bbc423001u64
    } else if t == 42 {
        0xc24b8b70d0f89791u64
    } else if t == 43 {
        0xc76c51a30654be30u64
    } else if t == 44 {
        0xd192e819d6ef5218u64
    } else if t == 45 {
        0xd69906245565a910u64
    } else if t == 46 {
        0xf40e35855771202au64
    } else if t == 47 {
        0x106aa07032bbd1b8u64
    } else if t == 48 {
        0x19a4c116b8d2d0c8u64
    } else if t == 49 {
        0x1e376c085141ab53u64
    } else if t == 50 {
        0x2748774cdf8eeb99u64
    } else if t == 51 {
        0x34b0bcb5e19b48a8u64
    } else if t == 52 {
        0x391c0cb3c5c95a63u64
    } else if t == 53 {
        0x4ed8aa4ae3418acbu64
    } else if t == 54 {
        0x5b9cca4f7763e373u64
    } else if t == 55 {
        0x682e6ff3d6b2b8a3u64
    } else if t == 56 {
        0x748f82ee5defb2fcu64
    } else if t == 57 {
        0x78a5636f43172f60u64
    } else if t == 58 {
        0x84c87814a1f0ab72u64
    } else if t == 59 {
        0x8cc702081a6439ecu64
    } else if t == 60 {
        0x90befffa23631e28u64
    } else if t == 61 {
        0xa4506cebde82bde9u64
    } else if t == 62 {
        0xbef9a3f7b2c67915u64
    } else if t == 63 {
        0xc67178f2e372532bu64
    } else if t == 64 {
        0xca273eceea26619cu64
    } else if t == 65 {
        0xd186b8c721c0c207u64
    } else if t == 66 {
        0xeada7dd6cde0eb1eu64
    } else if t == 67 {
        0xf57d4f7fee6ed178u64
    } else if t == 68 {
        0x06f067aa72176fbau64
    } else if t == 69 {
        0x0a637dc5a2c898a6u64
    } else if t == 70 {
        0x113f9804bef90daeu64
    } else if t == 71 {
        0x1b710b35131c471bu64
    } else if t == 72 {
        0x28db77f523047d84u64
    } else if t == 73 {
        0x32caab7b40c72493u64
    } else if t == 74 {
        0x3c9ebe0a15c9bebcu64
    } else if t == 75 {
        0x431d67c49c100d4cu64
    } else if t == 76 {
        0x4cc5d4becb3e42b6u64
    } else if t == 77 {
        0x597f299cfc657e2au64
    } else if t == 78 {
        0x5fcb6fab3ad6faecu64
    } else {
        0x6c44198c4a475817u64
    }
}

fn sha512_k_at(t: usize) -> (k: u64)
    requires
        t < 80,
    ensures
        k == sha512_k(t as int),
{
    if t == 0 {
        0x428a2f98d728ae22
    } else if t == 1 {
        0x7137449123ef65cd
    } else if t == 2 {
        0xb5c0fbcfec4d3b2f
    } else if t == 3 {
        0xe9b5dba58189dbbc
    } else if t == 4 {
        0x3956c25bf348b538
    } else if t == 5 {
        0x59f111f1b605d019
    } else if t == 6 {
        0x923f82a4af194f9b
    } else if t == 7 {
        0xab1c5ed5da6d8118
    } else if t == 8 {
        0xd807aa98a3030242
    } else if t == 9 {
        0x12835b0145706fbe
    } else if t == 10 {
        0x243185be4ee4b28c
    } else if t == 11 {
        0x550c7dc3d5ffb4e2
    } else if t == 12 {
        0x72be5d74f27b896f
    } else if t == 13 {
        0x80deb1fe3b1696b1
    } else if t == 14 {
        0x9bdc06a725c71235
    } else if t == 15 {
        0xc19bf174cf692694
    } else if t == 16 {
        0xe49b69c19ef14ad2
    } else if t == 17 {
        0xefbe4786384f25e3
    } else if t == 18 {
        0x0fc19dc68b8cd5b5
    } else if t == 19 {
        0x240ca1cc77ac9c65
    } else if t == 20 {
        0x2de92c6f592b0275
    } else if t == 21 {
        0x4a7484aa6ea6e483
    } else if t == 22 {
        0x5cb0a9dcbd41fbd4
    } else if t == 23 {
        0x76f988da831153b5
    } else if t == 24 {
        0x983e5152ee66dfab
    } else if t == 25 {
        0xa831c66d2db43210
    } else if t == 26 {
        0xb00327c898fb213f
    } else if t == 27 {
        0xbf597fc7beef0ee4
    } else if t == 28 {
        0xc6e00bf33da88fc2
    } else if t == 29 {
        0xd5a79147930aa725
    } else if t == 30 {
        0x06ca6351e003826f
    } else if t == 31 {
        0x142929670a0e6e70
    } else if t == 32 {
        0x27b70a8546d22ffc
    } else if t == 33 {
        0x2e1b21385c26c926
    } else if t == 34 {
        0x4d2c6dfc5ac42aed
    } else if t == 35 {
        0x53380d139d95b3df
    } else if t == 36 {
        0x650a73548baf63de
    } else if t == 37 {
        0x766a0abb3c77b2a8
    } else if t == 38 {
        0x81c2c92e47edaee6
    } else if t == 39 {
        0x92722c851482353b
    } else if t == 40 {
        0xa2bfe8a14cf10364
    } else if t == 41 {
        0xa81a664bbc423001
    } else if t == 42 {
        0xc24b8b70d0f89791
    } else if t == 43 {
        0xc76c51a30654be30
    } else if t == 44 {
        0xd192e819d6ef5218
    } else if t == 45 {
        0xd69906245565a910
    } else if t == 46 {
        0xf40e35855771202a
    } else if t == 47 {
        0x106aa07032bbd1b8
    } else if t == 48 {
        0x19a4c116b8d2d0c8
    } else if t == 49 {
        0x1e376c085141ab53
    } else if t == 50 {
        0x2748774cdf8eeb99
    } else if t == 51 {
        0x34b0bcb5e19b48a8
    } else if t == 52 {
        0x391c0cb3c5c95a63
    } else if t == 53 {
        0x4ed8aa4ae3418acb
    } else if t == 54 {
        0x5b9cca4f7763e373
    } else if t == 55 {
        0x682e6ff3d6b2b8a3
    } else if t == 56 {
        0x748f82ee5defb2fc
    } else if t == 57 {
        0x78a5636f43172f60
    } else if t == 58 {
        0x84c87814a1f0ab72
    } else if t == 59 {
        0x8cc702081a6439ec
    } else if t == 60 {
        0x90befffa23631e28
    } else if t == 61 {
        0xa4506cebde82bde9
    } else if t == 62 {
        0xbef9a3f7b2c67915
    } else if t == 63 {
        0xc67178f2e372532b
    } else if t == 64 {
        0xca273eceea26619c
    } else if t == 65 {
        0xd186b8c721c0c207
    } else if t == 66 {
        0xeada7dd6cde0eb1e
    } else if t == 67 {
        0xf57d4f7fee6ed178
    } else if t == 68 {
        0x06f067aa72176fba
    } else if t == 69 {
        0x0a637dc5a2c898a6
    } else if t == 70 {
        0x113f9804bef90dae
    } else if t == 71 {
        0x1b710b35131c471b
    } else if t == 72 {
        0x28db77f523047d84
    } else if t == 73 {
        0x32caab7b40c72493
    } else if t == 74 {
        0x3c9ebe0a15c9bebc
    } else if t == 75 {
        0x431d67c49c100d4c
    } else if t == 76 {
        0x4cc5d4becb3e42b6
    } else if t == 77 {
        0x597f299cfc657e2a
    } else if t == 78 {
        0x5fcb6fab3ad6faec
    } else {
        0x6c44198c4a475817
    }
}

/// Truncation correctness: the SHA-224 digest is exactly the first 28 bytes
/// of the full eight-word serialization of its own final state, never a
/// differently computed value.
pub proof fn lemma_sha224_truncation(input: Seq<u8>)
    ensures
        spec_sha2_224(input) == sha256_state_bytes(sha256_run(sha224_iv(), input)).subrange(0, 28),
{
    let h = sha256_run(sha224_iv(), input);
    assert(spec_sha2_224(input) =~= sha256_state_bytes(h).subrange(0, 28));
}

/// Truncation correctness: the SHA-384 digest is exactly the first 48 bytes
/// of the full eight-word serialization of its own final state.
pub proof fn lemma_sha384_truncation(input: Seq<u8>)
    ensures
        spec_sha2_384(input) == sha512_state_bytes(sha512_run(sha384_iv(), input)).subrange(0, 48),
{
    let h = sha512_run(sha384_iv(), input);
    assert(spec_sha2_384(input) =~= sha512_state_bytes(h).subrange(0, 48));
}

/// Length-suffix correctness for the 32-bit SHA-2 variants: two inputs whose
/// bit lengths fit the 64-bit suffix pad to the same block sequence only if
/// they are equal, so a strict prefix never collides through the padder.
pub proof fn lemma_sha256_padding_injective(x: Seq<u8>, y: Seq<u8>)
    requires
        x.len() * 8 <= u64::MAX,
        y.len() * 8 <= u64::MAX,
        spec_sha256_padded(x) == spec_sha256_padded(y),
    ensures
        x == y,
{
    let sx = u64_be_bytes(bitlen64(x.len()));
    let sy = u64_be_bytes(bitlen64(y.len()));
    if x.len() != y.len() && sx == sy {
        lemma_small_mod((x.len() * 8) as nat, 0x10000000000000000nat);
        lemma_small_mod((y.len() * 8) as nat, 0x10000000000000000nat);
        lemma_u64_be_bytes_injective(bitlen64(x.len()), bitlen64(y.len()));
    }
    lemma_md_padded_injective(x, y, 64, sx, sy);
}

/// Length-suffix correctness for the 64-bit SHA-2 variants, with the
/// 128-bit suffix.
pub proof fn lemma_sha512_padding_injective(x: Seq<u8>, y: Seq<u8>)
    requires
        x.len() * 8 <= u128::MAX,
        y.len() * 8 <= u128::MAX,
        spec_sha512_padded(x) == spec_sha512_padded(y),
    ensures
        x == y,
{
    let sx = u128_be_bytes(bitlen128(x.len()));
    let sy = u128_be_bytes(bitlen128(y.len()));
    if x.len() != y.len() && sx == sy {
        lemma_small_mod((x.len() * 8) as nat, 0x100000000000000000000000000000000nat);
        lemma_small_mod((y.len() * 8) as nat, 0x100000000000000000000000000000000nat);
        lemma_u128_be_bytes_injective(bitlen128(x.len()), bitlen128(y.len()));
    }
    lemma_md_padded_injective(x, y, 128, sx, sy);
}

} // verus!
