//! MD5: four rounds of sixteen steps over little-endian words, a
//! Davies–Meyer feed-forward after each block, and a little-endian,
//! 64-bit-length Merkle–Damgård padding.

use vstd::arithmetic::div_mod::lemma_fundamental_div_mod;
use vstd::arithmetic::div_mod::lemma_small_mod;
use vstd::prelude::*;

use crate::block::bitlen64;
use crate::block::lemma_md_padded_injective;
use crate::block::lemma_md_padded_len;
use crate::block::md_padded;
use crate::block::pad_message;
use crate::words::le32_at;
use crate::words::lemma_u64_le_bytes_injective;
use crate::words::push_le64;
use crate::words::push_le32;
use crate::words::load_le32;
use crate::words::rotl32;
use crate::words::spec_rotl32;
use crate::words::u32_le_bytes;
use crate::words::u64_le_bytes;
use crate::words::words_le32;

verus! {

/// The MD5 (and MD4) initial state.
pub open spec fn md5_iv() -> Seq<u32> {
    seq![0x67452301u32, 0xefcdab89u32, 0x98badcfeu32, 0x10325476u32]
}

/// The boolean mixing function of MD5 round `t`, applied to the state words
/// `b`, `c`, `d`.
pub open spec fn md5_func(t: int, b: u32, c: u32, d: u32) -> u32 {
    if t < 16 {
        (b & c) | (!b & d)
    } else if t < 32 {
        (b & d) | (c & !d)
    } else if t < 48 {
        b ^ c ^ d
    } else {
        c ^ (b | !d)
    }
}

/// The message-word index used by MD5 step `t`.
pub open spec fn md5_g(t: int) -> int {
    if t < 16 {
        t
    } else if t < 32 {
        (5 * t + 1) % 16
    } else if t < 48 {
        (3 * t + 5) % 16
    } else {
        (7 * t) % 16
    }
}

/// The rotation amount used by MD5 step `t`.
pub open spec fn md5_s(t: int) -> u32 {
    let i: int = t % 4;
    if t < 16 {
        if i == 0 { 7u32 } else if i == 1 { 12u32 } else if i == 2 { 17u32 } else { 22u32 }
    } else if t < 32 {
        if i == 0 { 5u32 } else if i == 1 { 9u32 } else if i == 2 { 14u32 } else { 20u32 }
    } else if t < 48 {
        if i == 0 { 4u32 } else if i == 1 { 11u32 } else if i == 2 { 16u32 } else { 23u32 }
    } else {
        if i == 0 { 6u32 } else if i == 1 { 10u32 } else if i == 2 { 15u32 } else { 21u32 }
    }
}

fn md5_s_at(t: usize) -> (s: u32)
    requires
        t < 64,
    ensures
        s == md5_s(t as int),
        0 < s < 32,
{
    let i: usize = t % 4;
    if t < 16 {
        if i == 0 { 7 } else if i == 1 { 12 } else if i == 2 { 17 } else { 22 }
    } else if t < 32 {
        if i == 0 { 5 } else if i == 1 { 9 } else if i == 2 { 14 } else { 20 }
    } else if t < 48 {
        if i == 0 { 4 } else if i == 1 { 11 } else if i == 2 { 16 } else { 23 }
    } else {
        if i == 0 { 6 } else if i == 1 { 10 } else if i == 2 { 15 } else { 21 }
    }
}

/// One MD5 step: the rotating state `(a, b, c, d)` after step `t`.
pub open spec fn md5_step(v: (u32, u32, u32, u32), m: Seq<u32>, t: int) -> (u32, u32, u32, u32)
    recommends
        m.len() == 16,
        0 <= t < 64,
{
    let sum: u32 = v.0.wrapping_add(md5_func(t, v.1, v.2, v.3)).wrapping_add(md5_k(t)).wrapping_add(
        m[md5_g(t)],
    );
    (v.3, v.1.wrapping_add(spec_rotl32(sum, md5_s(t))), v.1, v.2)
}

/// The rotating state after the first `t` MD5 steps on message words `m`.
pub open spec fn md5_rounds(v: (u32, u32, u32, u32), m: Seq<u32>, t: nat) -> (u32, u32, u32, u32)
    recommends
        m.len() == 16,
        t <= 64,
    decreases t,
{
    if t == 0 {
        v
    } else {
        md5_step(md5_rounds(v, m, (t - 1) as nat), m, t - 1)
    }
}

/// The MD5 compression function: sixty-four steps over the block's
/// little-endian words, then the Davies–Meyer feed-forward.
pub open spec fn spec_md5_compress(h: Seq<u32>, block: Seq<u8>) -> Seq<u32>
    recommends
        h.len() == 4,
        block.len() == 64,
{
    let v = md5_rounds((h[0], h[1], h[2], h[3]), words_le32(block), 64);
    seq![
        h[0].wrapping_add(v.0),
        h[1].wrapping_add(v.1),
        h[2].wrapping_add(v.2),
        h[3].wrapping_add(v.3),
    ]
}

/// The state after compressing the first `i` blocks of the padded message.
pub open spec fn md5_states(msg: Seq<u8>, i: nat) -> Seq<u32>
    recommends
        msg.len() % 64 == 0,
        i <= msg.len() / 64,
    decreases i,
{
    if i == 0 {
        md5_iv()
    } else {
        let j: int = 64 * (i - 1);
        spec_md5_compress(md5_states(msg, (i - 1) as nat), msg.subrange(j, j + 64))
    }
}

/// The whole padded message digested by MD5.
pub open spec fn spec_md5_padded(input: Seq<u8>) -> Seq<u8> {
    md_padded(input, 64, u64_le_bytes(bitlen64(input.len())))
}

/// The MD5 digest of `input`: the final state after all padded blocks,
/// serialized as four little-endian words.
pub open spec fn spec_md5(input: Seq<u8>) -> Seq<u8> {
    let msg = spec_md5_padded(input);
    let h = md5_states(msg, msg.len() / 64);
    u32_le_bytes(h[0]) + u32_le_bytes(h[1]) + u32_le_bytes(h[2]) + u32_le_bytes(h[3])
}

/// One application of the MD5 compression function to the 64-byte block of
/// `msg` that starts at byte `off`.
fn compress(state: &mut Vec<u32>, msg: &Vec<u8>, off: usize)
    requires
        old(state)@.len() == 4,
        off + 64 <= msg@.len(),
    ensures
        final(state)@ == spec_md5_compress(old(state)@, msg@.subrange(off as int, off as int + 64)),
        final(state)@.len() == 4,
{
    let mlen: usize = msg.len();
    let ghost block = msg@.subrange(off as int, off as int + 64);
    let mut m: Vec<u32> = Vec::new();
    let mut j: usize = 0;
    while j < 16
        invariant
            j <= 16,
            m@.len() == j,
            mlen == msg@.len(),
            off + 64 <= msg@.len(),
            block == msg@.subrange(off as int, off as int + 64),
            forall|x: int| 0 <= x < j ==> m@[x] == le32_at(block, 4 * x),
        decreases 16 - j,
    {
        let w = load_le32(msg.as_slice(), off + 4 * j);
        proof {
            assert(le32_at(msg@, off + 4 * (j as int)) == le32_at(block, 4 * (j as int)));
        }
        m.push(w);
        j += 1;
    }
    proof {
        assert(m@ =~= words_le32(block));
    }
    let mut a = state[0];
    let mut b = state[1];
    let mut c = state[2];
    let mut d = state[3];
    let ghost v0 = (a, b, c, d);
    let mut t: usize = 0;
    while t < 64
        invariant
            t <= 64,
            m@.len() == 16,
            (a, b, c, d) == md5_rounds(v0, m@, t as nat),
        decreases 64 - t,
    {
        let f: u32 = if t < 16 {
            (b & c) | (!b & d)
        } else if t < 32 {
            (b & d) | (c & !d)
        } else if t < 48 {
            b ^ c ^ d
        } else {
            c ^ (b | !d)
        };
        let g: usize = if t < 16 {
            t
        } else if t < 32 {
            (5 * t + 1) % 16
        } else if t < 48 {
            (3 * t + 5) % 16
        } else {
            (7 * t) % 16
        };
        assert(g == md5_g(t as int) && g < 16);
        let k = md5_k_at(t);
        let s = md5_s_at(t);
        let sum = a.wrapping_add(f).wrapping_add(k).wrapping_add(m[g]);
        let nb = b.wrapping_add(rotl32(sum, s));
        let ob = b;
        let oc = c;
        a = d;
        b = nb;
        c = ob;
        d = oc;
        t += 1;
        proof {
            assert((a, b, c, d) == md5_rounds(v0, m@, t as nat));
        }
    }
    let n0 = state[0].wrapping_add(a);
    let n1 = state[1].wrapping_add(b);
    let n2 = state[2].wrapping_add(c);
    let n3 = state[3].wrapping_add(d);
    state[0] = n0;
    state[1] = n1;
    state[2] = n2;
    state[3] = n3;
    proof {
        assert(state@ =~= spec_md5_compress(old(state)@, block));
    }
}

/// Computes the MD5 digest of `input`.
pub fn md5(input: &[u8]) -> (digest: Vec<u8>)
    requires
        input@.len() * 8 <= u64::MAX,
        input@.len() + 128 <= usize::MAX,
    ensures
        digest@ == spec_md5(input@),
        digest@.len() == 16,
{
    let bit_len: u64 = (input.len() as u64) * 8;
    proof {
        lemma_small_mod((input@.len() * 8) as nat, 0x10000000000000000nat);
        assert(bit_len == bitlen64(input@.len()));
    }
    let mut suffix: Vec<u8> = Vec::new();
    push_le64(&mut suffix, bit_len);
    proof {
        assert(suffix@ =~= u64_le_bytes(bitlen64(input@.len())));
    }
    let msg = pad_message(input, &suffix, 64);
    proof {
        lemma_md_padded_len(input@, 64, suffix@);
        lemma_fundamental_div_mod(msg@.len() as int, 64);
    }
    let ghost padded = msg@;
    let n = msg.len() / 64;
    assert(64 * n == padded.len());
    let mut state: Vec<u32> = Vec::new();
    state.push(0x67452301);
    state.push(0xefcdab89);
    state.push(0x98badcfe);
    state.push(0x10325476);
    proof {
        assert(state@ =~= md5_iv());
    }
    let mut i: usize = 0;
    while i < n
        invariant
            i <= n,
            msg@ == padded,
            64 * n == padded.len(),
            padded.len() <= usize::MAX,
            state@.len() == 4,
            state@ == md5_states(padded, i as nat),
        decreases n - i,
    {
        proof {
            assert(i * 64 + 64 <= 64 * n) by (nonlinear_arith)
                requires
                    i < n,
            ;
        }
        compress(&mut state, &msg, i * 64);
        i += 1;
        proof {
            assert(state@ == md5_states(padded, i as nat));
        }
    }
    let mut digest: Vec<u8> = Vec::new();
    push_le32(&mut digest, state[0]);
    push_le32(&mut digest, state[1]);
    push_le32(&mut digest, state[2]);
    push_le32(&mut digest, state[3]);
    proof {
        assert(digest@ =~= spec_md5(input@));
    }
    digest
}

/// The sixty-four MD5 round constants.
pub open spec fn md5_k(t: int) -> u32 {
    if t == 0 {
        0xd76aa478u32
    } else if t == 1 {
        0xe8c7b756u32
    } else if t == 2 {
        0x242070dbu32
    } else if t == 3 {
        0xc1bdceeeu32
    } else if t == 4 {
        0xf57c0fafu32
    } else if t == 5 {
        0x4787c62au32
    } else if t == 6 {
        0xa8304613u32
    } else if t == 7 {
        0xfd469501u32
    } else if t == 8 {
        0x698098d8u32
    } else if t == 9 {
        0x8b44f7afu32
    } else if t == 10 {
        0xffff5bb1u32
    } else if t == 11 {
        0x895cd7beu32
    } else if t == 12 {
        0x6b901122u32
    } else if t == 13 {
        0xfd987193u32
    } else if t == 14 {
        0xa679438eu32
    } else if t == 15 {
        0x49b40821u32
    } else if t == 16 {
        0xf61e2562u32
    } else if t == 17 {
        0xc040b340u32
    } else if t == 18 {
        0x265e5a51u32
    } else if t == 19 {
        0xe9b6c7aau32
    } else if t == 20 {
        0xd62f105du32
    } else if t == 21 {
        0x02441453u32
    } else if t == 22 {
        0xd8a1e681u32
    } else if t == 23 {
        0xe7d3fbc8u32
    } else if t == 24 {
        0x21e1cde6u32
    } else if t == 25 {
        0xc33707d6u32
    } else if t == 26 {
        0xf4d50d87u32
    } else if t == 27 {
        0x455a14edu32
    } else if t == 28 {
        0xa9e3e905u32
    } else if t == 29 {
        0xfcefa3f8u32
    } else if t == 30 {
        0x676f02d9u32
    } else if t == 31 {
        0x8d2a4c8au32
    } else if t == 32 {
        0xfffa3942u32
    } else if t == 33 {
        0x8771f681u32
    } else if t == 34 {
        0x6d9d6122u32
    } else if t == 35 {
        0xfde5380cu32
    } else if t == 36 {
        0xa4beea44u32
    } else if t == 37 {
        0x4bdecfa9u32
    } else if t == 38 {
        0xf6bb4b60u32
    } else if t == 39 {
        0xbebfbc70u32
    } else if t == 40 {
        0x289b7ec6u32
    } else if t == 41 {
        0xeaa127fau32
    } else if t == 42 {
        0xd4ef3085u32
    } else if t == 43 {
        0x04881d05u32
    } else if t == 44 {
        0xd9d4d039u32
    } else if t == 45 {
        0xe6db99e5u32
    } else if t == 46 {
        0x1fa27cf8u32
    } else if t == 47 {
        0xc4ac5665u32
    } else if t == 48 {
        0xf4292244u32
    } else if t == 49 {
        0x432aff97u32
    } else if t == 50 {
        0xab9423a7u32
    } else if t == 51 {
        0xfc93a039u32
    } else if t == 52 {
        0x655b59c3u32
    } else if t == 53 {
        0x8f0ccc92u32
    } else if t == 54 {
        0xffeff47du32
    } else if t == 55 {
        0x85845dd1u32
    } else if t == 56 {
        0x6fa87e4fu32
    } else if t == 57 {
        0xfe2ce6e0u32
    } else if t == 58 {
        0xa3014314u32
    } else if t == 59 {
        0x4e0811a1u32
    } else if t == 60 {
        0xf7537e82u32
    } else if t == 61 {
        0xbd3af235u32
    } else if t == 62 {
        0x2ad7d2bbu32
    } else {
        0xeb86d391u32
    }
}

fn md5_k_at(t: usize) -> (k: u32)
    requires
        t < 64,
    ensures
        k == md5_k(t as int),
{
    if t == 0 {
        0xd76aa478
    } else if t == 1 {
        0xe8c7b756
    } else if t == 2 {
        0x242070db
    } else if t == 3 {
        0xc1bdceee
    } else if t == 4 {
        0xf57c0faf
    } else if t == 5 {
        0x4787c62a
    } else if t == 6 {
        0xa8304613
    } else if t == 7 {
        0xfd469501
    } else if t == 8 {
        0x698098d8
    } else if t == 9 {
        0x8b44f7af
    } else if t == 10 {
        0xffff5bb1
    } else if t == 11 {
        0x895cd7be
    } else if t == 12 {
        0x6b901122
    } else if t == 13 {
        0xfd987193
    } else if t == 14 {
        0xa679438e
    } else if t == 15 {
        0x49b40821
    } else if t == 16 {
        0xf61e2562
    } else if t == 17 {
        0xc040b340
    } else if t == 18 {
        0x265e5a51
    } else if t == 19 {
        0xe9b6c7aa
    } else if t == 20 {
        0xd62f105d
    } else if t == 21 {
        0x02441453
    } else if t == 22 {
        0xd8a1e681
    } else if t == 23 {
        0xe7d3fbc8
    } else if t == 24 {
        0x21e1cde6
    } else if t == 25 {
        0xc33707d6
    } else if t == 26 {
        0xf4d50d87
    } else if t == 27 {
        0x455a14ed
    } else if t == 28 {
        0xa9e3e905
    } else if t == 29 {
        0xfcefa3f8
    } else if t == 30 {
        0x676f02d9
    } else if t == 31 {
        0x8d2a4c8a
    } else if t == 32 {
        0xfffa3942
    } else if t == 33 {
        0x8771f681
    } else if t == 34 {
        0x6d9d6122
    } else if t == 35 {
        0xfde5380c
    } else if t == 36 {
        0xa4beea44
    } else if t == 37 {
        0x4bdecfa9
    } else if t == 38 {
        0xf6bb4b60
    } else if t == 39 {
        0xbebfbc70
    } else if t == 40 {
        0x289b7ec6
    } else if t == 41 {
        0xeaa127fa
    } else if t == 42 {
        0xd4ef3085
    } else if t == 43 {
        0x04881d05
    } else if t == 44 {
        0xd9d4d039
    } else if t == 45 {
        0xe6db99e5
    } else if t == 46 {
        0x1fa27cf8
    } else if t == 47 {
        0xc4ac5665
    } else if t == 48 {
        0xf4292244
    } else if t == 49 {
        0x432aff97
    } else if t == 50 {
        0xab9423a7
    } else if t == 51 {
        0xfc93a039
    } else if t == 52 {
        0x655b59c3
    } else if t == 53 {
        0x8f0ccc92
    } else if t == 54 {
        0xffeff47d
    } else if t == 55 {
        0x85845dd1
    } else if t == 56 {
        0x6fa87e4f
    } else if t == 57 {
        0xfe2ce6e0
    } else if t == 58 {
        0xa3014314
    } else if t == 59 {
        0x4e0811a1
    } else if t == 60 {
        0xf7537e82
    } else if t == 61 {
        0xbd3af235
    } else if t == 62 {
        0x2ad7d2bb
    } else {
        0xeb86d391
    }
}

/// Length-suffix correctness: two inputs whose bit lengths fit the 64-bit
/// suffix pad to the same MD5 block sequence only if they are equal.  In
/// particular a strict prefix of a message is never padded to the message's
/// own block sequence, so a collision between them can never come from the
/// padder.
pub proof fn lemma_md5_padding_injective(x: Seq<u8>, y: Seq<u8>)
    requires
        x.len() * 8 <= u64::MAX,
        y.len() * 8 <= u64::MAX,
        spec_md5_padded(x) == spec_md5_padded(y),
    ensures
        x == y,
{
    let sx = u64_le_bytes(bitlen64(x.len()));
    let sy = u64_le_bytes(bitlen64(y.len()));
    if x.len() != y.len() && sx == sy {
        lemma_small_mod((x.len() * 8) as nat, 0x10000000000000000nat);
        lemma_small_mod((y.len() * 8) as nat, 0x10000000000000000nat);
        lemma_u64_le_bytes_injective(bitlen64(x.len()), bitlen64(y.len()));
    }
    lemma_md_padded_injective(x, y, 64, sx, sy);
}

} // verus!
