//! SHA-1: an eighty-word message schedule built by a rotate-XOR recurrence,
//! eighty rounds in four twenty-step bands, a Davies–Meyer feed-forward after
//! each block, and a big-endian, 64-bit-length Merkle–Damgård padding.

use vstd::arithmetic::div_mod::lemma_fundamental_div_mod;
use vstd::arithmetic::div_mod::lemma_small_mod;
use vstd::prelude::*;

use crate::block::bitlen64;
use crate::block::lemma_md_padded_injective;
use crate::block::lemma_md_padded_len;
use crate::block::md_padded;
use crate::block::pad_message;
use crate::words::be32_at;
use crate::words::lemma_u64_be_bytes_injective;
use crate::words::load_be32;
use crate::words::push_be32;
use crate::words::push_be64;
use crate::words::rotl32;
use crate::words::spec_rotl32;
use crate::words::u32_be_bytes;
use crate::words::u64_be_bytes;

verus! {

/// The SHA-1 initial state.
pub open spec fn sha1_iv() -> Seq<u32> {
    seq![0x67452301u32, 0xefcdab89u32, 0x98badcfeu32, 0x10325476u32, 0xc3d2e1f0u32]
}

/// The boolean mixing function of SHA-1 round `t`, applied to the state
/// words `b`, `c`, `d`: choose, parity, majority, parity across the four
/// twenty-step bands.
pub open spec fn sha1_func(t: int, b: u32, c: u32, d: u32) -> u32 {
    if t < 20 {
        (b & c) | (!b & d)
    } else if t < 40 {
        b ^ c ^ d
    } else if t < 60 {
        (b & c) | (b & d) | (c & d)
    } else {
        b ^ c ^ d
    }
}

/// The round constant of SHA-1 round `t`, one per twenty-step band.
pub open spec fn sha1_k(t: int) -> u32 {
    if t < 20 {
        0x5a827999u32
    } else if t < 40 {
        0x6ed9eba1u32
    } else if t < 60 {
        0x8f1bbcdcu32
    } else {
        0xca62c1d6u32
    }
}

/// Word `t` of the SHA-1 message schedule: the block's big-endian words for
/// `t < 16`, then the rotate-left-by-one XOR recurrence.
pub open spec fn sha1_w(block: Seq<u8>, t: int) -> u32
    recommends
        block.len() == 64,
        t < 80,
    decreases t,
{
    if t < 16 {
        be32_at(block, 4 * t)
    } else {
        spec_rotl32(
            sha1_w(block, t - 3) ^ sha1_w(block, t - 8) ^ sha1_w(block, t - 14) ^ sha1_w(
                block,
                t - 16,
            ),
            1,
        )
    }
}

/// One SHA-1 round: the rotating state `(a, b, c, d, e)` after round `t`.
pub open spec fn sha1_step(v: (u32, u32, u32, u32, u32), block: Seq<u8>, t: int) -> (
    u32,
    u32,
    u32,
    u32,
    u32,
)
    recommends
        block.len() == 64,
        0 <= t < 80,
{
    let temp: u32 = spec_rotl32(v.0, 5).wrapping_add(sha1_func(t, v.1, v.2, v.3)).wrapping_add(
        v.4,
    ).wrapping_add(sha1_k(t)).wrapping_add(sha1_w(block, t));
    (temp, v.0, spec_rotl32(v.1, 30), v.2, v.3)
}

/// The rotating state after the first `t` SHA-1 rounds on `block`.
pub open spec fn sha1_rounds(v: (u32, u32, u32, u32, u32), block: Seq<u8>, t: nat) -> (
    u32,
    u32,
    u32,
    u32,
    u32,
)
    recommends
        block.len() == 64,
        t <= 80,
    decreases t,
{
    if t == 0 {
        v
    } else {
        sha1_step(sha1_rounds(v, block, (t - 1) as nat), block, t - 1)
    }
}

/// The SHA-1 compression function: eighty rounds, then the Davies–Meyer
/// feed-forward.
pub open spec fn spec_sha1_compress(h: Seq<u32>, block: Seq<u8>) -> Seq<u32>
    recommends
        h.len() == 5,
        block.len() == 64,
{
    let v = sha1_rounds((h[0], h[1], h[2], h[3], h[4]), block, 80);
    seq![
        h[0].wrapping_add(v.0),
        h[1].wrapping_add(v.1),
        h[2].wrapping_add(v.2),
        h[3].wrapping_add(v.3),
        h[4].wrapping_add(v.4),
    ]
}

/// The state after compressing the first `i` blocks of the padded message.
pub open spec fn sha1_states(msg: Seq<u8>, i: nat) -> Seq<u32>
    recommends
        msg.len() % 64 == 0,
        i <= msg.len() / 64,
    decreases i,
{
    if i == 0 {
        sha1_iv()
    } else {
        let j: int = 64 * (i - 1);
        spec_sha1_compress(sha1_states(msg, (i - 1) as nat), msg.subrange(j, j + 64))
    }
}

/// The whole padded message digested by SHA-1.
pub open spec fn spec_sha1_padded(input: Seq<u8>) -> Seq<u8> {
    md_padded(input, 64, u64_be_bytes(bitlen64(input.len())))
}

/// The SHA-1 digest of `input`: the final state after all padded blocks,
/// serialized as five big-endian words.
pub open spec fn spec_sha1(input: Seq<u8>) -> Seq<u8> {
    let msg = spec_sha1_padded(input);
    let h = sha1_states(msg, msg.len() / 64);
    u32_be_bytes(h[0]) + u32_be_bytes(h[1]) + u32_be_bytes(h[2]) + u32_be_bytes(h[3]) + u32_be_bytes(
        h[4],
    )
}

/// One application of the SHA-1 compression function to the 64-byte block of
/// `msg` that starts at byte `off`.
fn compress(state: &mut Vec<u32>, msg: &Vec<u8>, off: usize)
    requires
        old(state)@.len() == 5,
        off + 64 <= msg@.len(),
    ensures
        final(state)@ == spec_sha1_compress(
            old(state)@,
            msg@.subrange(off as int, off as int + 64),
        ),
        final(state)@.len() == 5,
{
    let mlen: usize = msg.len();
    let ghost block = msg@.subrange(off as int, off as int + 64);
    let mut w: Vec<u32> = Vec::new();
    let mut j: usize = 0;
    while j < 16
        invariant
            j <= 16,
            w@.len() == j,
            mlen == msg@.len(),
            off + 64 <= msg@.len(),
            block == msg@.subrange(off as int, off as int + 64),
            forall|x: int| 0 <= x < j ==> w@[x] == sha1_w(block, x),
        decreases 16 - j,
    {
        let word = load_be32(msg.as_slice(), off + 4 * j);
        proof {
            assert(be32_at(msg@, off + 4 * (j as int)) == be32_at(block, 4 * (j as int)));
        }
        w.push(word);
        j += 1;
    }
    while j < 80
        invariant
            16 <= j <= 80,
            w@.len() == j,
            forall|x: int| 0 <= x < j ==> w@[x] == sha1_w(block, x),
        decreases 80 - j,
    {
        let word = rotl32(w[j - 3] ^ w[j - 8] ^ w[j - 14] ^ w[j - 16], 1);
        proof {
            assert(w@[j as int - 3] == sha1_w(block, j as int - 3));
            assert(w@[j as int - 8] == sha1_w(block, j as int - 8));
            assert(w@[j as int - 14] == sha1_w(block, j as int - 14));
            assert(w@[j as int - 16] == sha1_w(block, j as int - 16));
            assert(sha1_w(block, j as int) == spec_rotl32(
                sha1_w(block, j as int - 3) ^ sha1_w(block, j as int - 8) ^ sha1_w(
                    block,
                    j as int - 14,
                ) ^ sha1_w(block, j as int - 16),
                1,
            ));
            assert(word == sha1_w(block, j as int));
        }
        w.push(word);
        j += 1;
    }
    let mut a = state[0];
    let mut b = state[1];
    let mut c = state[2];
    let mut d = state[3];
    let mut e = state[4];
    let ghost v0 = (a, b, c, d, e);
    let mut t: usize = 0;
    while t < 80
        invariant
            t <= 80,
            w@.len() == 80,
            forall|x: int| 0 <= x < 80 ==> w@[x] == sha1_w(block, x),
            (a, b, c, d, e) == sha1_rounds(v0, block, t as nat),
        decreases 80 - t,
    {
        let f: u32 = if t < 20 {
            (b & c) | (!b & d)
        } else if t < 40 {
            b ^ c ^ d
        } else if t < 60 {
            (b & c) | (b & d) | (c & d)
        } else {
            b ^ c ^ d
        };
        let k: u32 = if t < 20 {
            0x5a827999
        } else if t < 40 {
            0x6ed9eba1
        } else if t < 60 {
            0x8f1bbcdc
        } else {
            0xca62c1d6
        };
        let temp = rotl32(a, 5).wrapping_add(f).wrapping_add(e).wrapping_add(k).wrapping_add(w[t]);
        let ob = b;
        e = d;
        d = c;
        c = rotl32(ob, 30);
        b = a;
        a = temp;
        t += 1;
        proof {
            assert((a, b, c, d, e) == sha1_rounds(v0, block, t as nat));
        }
    }
    let n0 = state[0].wrapping_add(a);
    let n1 = state[1].wrapping_add(b);
    let n2 = state[2].wrapping_add(c);
    let n3 = state[3].wrapping_add(d);
    let n4 = state[4].wrapping_add(e);
    state[0] = n0;
    state[1] = n1;
    state[2] = n2;
    state[3] = n3;
    state[4] = n4;
    proof {
        assert(state@ =~= spec_sha1_compress(old(state)@, block));
    }
}

/// Computes the SHA-1 digest of `input`.
pub fn sha1(input: &[u8]) -> (digest: Vec<u8>)
    requires
        input@.len() * 8 <= u64::MAX,
        input@.len() + 128 <= usize::MAX,
    ensures
        digest@ == spec_sha1(input@),
        digest@.len() == 20,
{
    let bit_len: u64 = (input.len() as u64) * 8;
    proof {
        lemma_small_mod((input@.len() * 8) as nat, 0x10000000000000000nat);
        assert(bit_len == bitlen64(input@.len()));
    }
    let mut suffix: Vec<u8> = Vec::new();
    push_be64(&mut suffix, bit_len);
    proof {
        assert(suffix@ =~= u64_be_bytes(bitlen64(input@.len())));
    }
    let msg = pad_message(input, &suffix, 64);
    proof {
        lemma_md_padded_len(input@, 64, suffix@);
        lemma_fundamental_div_mod(msg@.len() as int, 64);
    }
    let ghost padded = msg@;
    let n = msg.len() / 64;
    assert(64 * n == padded.len());
    let mut state: Vec<u32> = Vec::new();
    state.push(0x67452301);
    state.push(0xefcdab89);
    state.push(0x98badcfe);
    state.push(0x10325476);
    state.push(0xc3d2e1f0);
    proof {
        assert(state@ =~= sha1_iv());
    }
    let mut i: usize = 0;
    while i < n
        invariant
            i <= n,
            msg@ == padded,
            64 * n == padded.len(),
            padded.len() <= usize::MAX,
            state@.len() == 5,
            state@ == sha1_states(padded, i as nat),
        decreases n - i,
    {
        proof {
            assert(i * 64 + 64 <= 64 * n) by (nonlinear_arith)
                requires
                    i < n,
            ;
        }
        compress(&mut state, &msg, i * 64);
        i += 1;
        proof {
            assert(state@ == sha1_states(padded, i as nat));
        }
    }
    let mut digest: Vec<u8> = Vec::new();
    push_be32(&mut digest, state[0]);
    push_be32(&mut digest, state[1]);
    push_be32(&mut digest, state[2]);
    push_be32(&mut digest, state[3]);
    push_be32(&mut digest, state[4]);
    proof {
        assert(digest@ =~= spec_sha1(input@));
    }
    digest
}

/// Length-suffix correctness: two inputs whose bit lengths fit the 64-bit
/// suffix pad to the same SHA-1 block sequence only if they are equal.  In
/// particular a strict prefix of a message is never padded to the message's
/// own block sequence, so a collision between them can never come from the
/// padder.
pub proof fn lemma_sha1_padding_injective(x: Seq<u8>, y: Seq<u8>)
    requires
        x.len() * 8 <= u64::MAX,
        y.len() * 8 <= u64::MAX,
        spec_sha1_padded(x) == spec_sha1_padded(y),
    ensures
        x == y,
{
    let sx = u64_be_bytes(bitlen64(x.len()));
    let sy = u64_be_bytes(bitlen64(y.len()));
    if x.len() != y.len() && sx == sy {
        lemma_small_mod((x.len() * 8) as nat, 0x10000000000000000nat);
        lemma_small_mod((y.len() * 8) as nat, 0x10000000000000000nat);
        lemma_u64_be_bytes_injective(bitlen64(x.len()), bitlen64(y.len()));
    }
    lemma_md_padded_injective(x, y, 64, sx, sy);
}

} // verus!
