//! MD4: three rounds of sixteen steps over little-endian words, a
//! Davies–Meyer feed-forward after each block, and a little-endian,
//! 64-bit-length Merkle–Damgård padding.

use vstd::arithmetic::div_mod::lemma_fundamental_div_mod;
use vstd::arithmetic::div_mod::lemma_small_mod;
use vstd::prelude::*;

use crate::block::bitlen64;
use crate::block::lemma_md_padded_injective;
use crate::block::lemma_md_padded_len;
use crate::block::md_padded;
use crate::block::pad_message;
use crate::words::le32_at;
use crate::words::lemma_u64_le_bytes_injective;
use crate::words::load_le32;
use crate::words::push_le32;
use crate::words::push_le64;
use crate::words::rotl32;
use crate::words::spec_rotl32;
use crate::words::u32_le_bytes;
use crate::words::u64_le_bytes;
use crate::words::words_le32;

verus! {

/// The MD4 initial state.
pub open spec fn md4_iv() -> Seq<u32> {
    seq![0x67452301u32, 0xefcdab89u32, 0x98badcfeu32, 0x10325476u32]
}

/// The boolean mixing function of MD4 round `t`, applied to the state words
/// `b`, `c`, `d`: choose, majority, and parity in rounds one to three.
pub open spec fn md4_func(t: int, b: u32, c: u32, d: u32) -> u32 {
    if t < 16 {
        (b & c) | (!b & d)
    } else if t < 32 {
        (b & c) | (b & d) | (c & d)
    } else {
        b ^ c ^ d
    }
}

/// The round constant added in MD4 step `t`: none in round one.
pub open spec fn md4_kc(t: int) -> u32 {
    if t < 16 {
        0u32
    } else if t < 32 {
        0x5a827999u32
    } else {
        0x6ed9eba1u32
    }
}

/// The message-word index used by MD4 step `t`: in order in round one, by
/// columns in round two, by bit-reversed index in round three.
pub open spec fn md4_x(t: int) -> int {
    if t < 16 {
        t
    } else if t < 32 {
        let u: int = t - 16;
        4 * (u % 4) + u / 4
    } else {
        let u: int = t - 32;
        8 * (u % 2) + 4 * ((u / 2) % 2) + 2 * ((u / 4) % 2) + u / 8
    }
}

/// The rotation amount used by MD4 step `t`.
pub open spec fn md4_s(t: int) -> u32 {
    let i: int = t % 4;
    if t < 16 {
        if i == 0 {
            3u32
        } else if i == 1 {
            7u32
        } else if i == 2 {
            11u32
        } else {
            19u32
        }
    } else if t < 32 {
        if i == 0 {
            3u32
        } else if i == 1 {
            5u32
        } else if i == 2 {
            9u32
        } else {
            13u32
        }
    } else {
        if i == 0 {
            3u32
        } else if i == 1 {
            9u32
        } else if i == 2 {
            11u32
        } else {
            15u32
        }
    }
}

fn md4_s_at(t: usize) -> (s: u32)
    requires
        t < 48,
    ensures
        s == md4_s(t as int),
        0 < s < 32,
{
    let i: usize = t % 4;
    if t < 16 {
        if i == 0 {
            3
        } else if i == 1 {
            7
        } else if i == 2 {
            11
        } else {
            19
        }
    } else if t < 32 {
        if i == 0 {
            3
        } else if i == 1 {
            5
        } else if i == 2 {
            9
        } else {
            13
        }
    } else {
        if i == 0 {
            3
        } else if i == 1 {
            9
        } else if i == 2 {
            11
        } else {
            15
        }
    }
}

/// One MD4 step: the rotating state `(a, b, c, d)` after step `t`.
pub open spec fn md4_step(v: (u32, u32, u32, u32), m: Seq<u32>, t: int) -> (u32, u32, u32, u32)
    recommends
        m.len() == 16,
        0 <= t < 48,
{
    let sum: u32 = v.0.wrapping_add(md4_func(t, v.1, v.2, v.3)).wrapping_add(
        m[md4_x(t)],
    ).wrapping_add(md4_kc(t));
    (v.3, spec_rotl32(sum, md4_s(t)), v.1, v.2)
}

/// The rotating state after the first `t` MD4 steps on message words `m`.
pub open spec fn md4_rounds(v: (u32, u32, u32, u32), m: Seq<u32>, t: nat) -> (u32, u32, u32, u32)
    recommends
        m.len() == 16,
        t <= 48,
    decreases t,
{
    if t == 0 {
        v
    } else {
        md4_step(md4_rounds(v, m, (t - 1) as nat), m, t - 1)
    }
}

/// The MD4 compression function: forty-eight steps over the block's
/// little-endian words, then the Davies–Meyer feed-forward.
pub open spec fn spec_md4_compress(h: Seq<u32>, block: Seq<u8>) -> Seq<u32>
    recommends
        h.len() == 4,
        block.len() == 64,
{
    let v = md4_rounds((h[0], h[1], h[2], h[3]), words_le32(block), 48);
    seq![
        h[0].wrapping_add(v.0),
        h[1].wrapping_add(v.1),
        h[2].wrapping_add(v.2),
        h[3].wrapping_add(v.3),
    ]
}

/// The state after compressing the first `i` blocks of the padded message.
pub open spec fn md4_states(msg: Seq<u8>, i: nat) -> Seq<u32>
    recommends
        msg.len() % 64 == 0,
        i <= msg.len() / 64,
    decreases i,
{
    if i == 0 {
        md4_iv()
    } else {
        let j: int = 64 * (i - 1);
        spec_md4_compress(md4_states(msg, (i - 1) as nat), msg.subrange(j, j + 64))
    }
}

/// The whole padded message digested by MD4.
pub open spec fn spec_md4_padded(input: Seq<u8>) -> Seq<u8> {
    md_padded(input, 64, u64_le_bytes(bitlen64(input.len())))
}

/// The MD4 digest of `input`: the final state after all padded blocks,
/// serialized as four little-endian words.
pub open spec fn spec_md4(input: Seq<u8>) -> Seq<u8> {
    let msg = spec_md4_padded(input);
    let h = md4_states(msg, msg.len() / 64);
    u32_le_bytes(h[0]) + u32_le_bytes(h[1]) + u32_le_bytes(h[2]) + u32_le_bytes(h[3])
}

/// One application of the MD4 compression function to the 64-byte block of
/// `msg` that starts at byte `off`.
fn compress(state: &mut Vec<u32>, msg: &Vec<u8>, off: usize)
    requires
        old(state)@.len() == 4,
        off + 64 <= msg@.len(),
    ensures
        final(state)@ == spec_md4_compress(old(state)@, msg@.subrange(off as int, off as int + 64)),
        final(state)@.len() == 4,
{
    let mlen: usize = msg.len();
    let ghost block = msg@.subrange(off as int, off as int + 64);
    let mut m: Vec<u32> = Vec::new();
    let mut j: usize = 0;
    while j < 16
        invariant
            j <= 16,
            m@.len() == j,
            mlen == msg@.len(),
            off + 64 <= msg@.len(),
            block == msg@.subrange(off as int, off as int + 64),
            forall|x: int| 0 <= x < j ==> m@[x] == le32_at(block, 4 * x),
        decreases 16 - j,
    {
        let w = load_le32(msg.as_slice(), off + 4 * j);
        proof {
            assert(le32_at(msg@, off + 4 * (j as int)) == le32_at(block, 4 * (j as int)));
        }
        m.push(w);
        j += 1;
    }
    proof {
        assert(m@ =~= words_le32(block));
    }
    let mut a = state[0];
    let mut b = state[1];
    let mut c = state[2];
    let mut d = state[3];
    let ghost v0 = (a, b, c, d);
    let mut t: usize = 0;
    while t < 48
        invariant
            t <= 48,
            m@.len() == 16,
            (a, b, c, d) == md4_rounds(v0, m@, t as nat),
        decreases 48 - t,
    {
        let f: u32 = if t < 16 {
            (b & c) | (!b & d)
        } else if t < 32 {
            (b & c) | (b & d) | (c & d)
        } else {
            b ^ c ^ d
        };
        let kc: u32 = if t < 16 {
            0
        } else if t < 32 {
            0x5a827999
        } else {
            0x6ed9eba1
        };
        let x: usize = if t < 16 {
            t
        } else if t < 32 {
            let u: usize = t - 16;
            4 * (u % 4) + u / 4
        } else {
            let u: usize = t - 32;
            8 * (u % 2) + 4 * ((u / 2) % 2) + 2 * ((u / 4) % 2) + u / 8
        };
        assert(x == md4_x(t as int) && x < 16);
        let s = md4_s_at(t);
        let sum = a.wrapping_add(f).wrapping_add(m[x]).wrapping_add(kc);
        let nv = rotl32(sum, s);
        let ob = b;
        let oc = c;
        a = d;
        b = nv;
        c = ob;
        d = oc;
        t += 1;
        proof {
            assert((a, b, c, d) == md4_rounds(v0, m@, t as nat));
        }
    }
    let n0 = state[0].wrapping_add(a);
    let n1 = state[1].wrapping_add(b);
    let n2 = state[2].wrapping_add(c);
    let n3 = state[3].wrapping_add(d);
    state[0] = n0;
    state[1] = n1;
    state[2] = n2;
    state[3] = n3;
    proof {
        assert(state@ =~= spec_md4_compress(old(state)@, block));
    }
}

/// Computes the MD4 digest of `input`.
pub fn md4(input: &[u8]) -> (digest: Vec<u8>)
    requires
        input@.len() * 8 <= u64::MAX,
        input@.len() + 128 <= usize::MAX,
    ensures
        digest@ == spec_md4(input@),
        digest@.len() == 16,
{
    let bit_len: u64 = (input.len() as u64) * 8;
    proof {
        lemma_small_mod((input@.len() * 8) as nat, 0x10000000000000000nat);
        assert(bit_len == bitlen64(input@.len()));
    }
    let mut suffix: Vec<u8> = Vec::new();
    push_le64(&mut suffix, bit_len);
    proof {
        assert(suffix@ =~= u64_le_bytes(bitlen64(input@.len())));
    }
    let msg = pad_message(input, &suffix, 64);
    proof {
        lemma_md_padded_len(input@, 64, suffix@);
        lemma_fundamental_div_mod(msg@.len() as int, 64);
    }
    let ghost padded = msg@;
    let n = msg.len() / 64;
    assert(64 * n == padded.len());
    let mut state: Vec<u32> = Vec::new();
    state.push(0x67452301);
    state.push(0xefcdab89);
    state.push(0x98badcfe);
    state.push(0x10325476);
    proof {
        assert(state@ =~= md4_iv());
    }
    let mut i: usize = 0;
    while i < n
        invariant
            i <= n,
            msg@ == padded,
            64 * n == padded.len(),
            padded.len() <= usize::MAX,
            state@.len() == 4,
            state@ == md4_states(padded, i as nat),
        decreases n - i,
    {
        proof {
            assert(i * 64 + 64 <= 64 * n) by (nonlinear_arith)
                requires
                    i < n,
            ;
        }
        compress(&mut state, &msg, i * 64);
        i += 1;
        proof {
            assert(state@ == md4_states(padded, i as nat));
        }
    }
    let mut digest: Vec<u8> = Vec::new();
    push_le32(&mut digest, state[0]);
    push_le32(&mut digest, state[1]);
    push_le32(&mut digest, state[2]);
    push_le32(&mut digest, state[3]);
    proof {
        assert(digest@ =~= spec_md4(input@));
    }
    digest
}

/// Length-suffix correctness: two inputs whose bit lengths fit the 64-bit
/// suffix pad to the same MD4 block sequence only if they are equal.  In
/// particular a strict prefix of a message is never padded to the message's
/// own block sequence, so a collision between them can never come from the
/// padder.
pub proof fn lemma_md4_padding_injective(x: Seq<u8>, y: Seq<u8>)
    requires
        x.len() * 8 <= u64::MAX,
        y.len() * 8 <= u64::MAX,
        spec_md4_padded(x) == spec_md4_padded(y),
    ensures
        x == y,
{
    let sx = u64_le_bytes(bitlen64(x.len()));
    let sy = u64_le_bytes(bitlen64(y.len()));
    if x.len() != y.len() && sx == sy {
        lemma_small_mod((x.len() * 8) as nat, 0x10000000000000000nat);
        lemma_small_mod((y.len() * 8) as nat, 0x10000000000000000nat);
        lemma_u64_le_bytes_injective(bitlen64(x.len()), bitlen64(y.len()));
    }
    lemma_md_padded_injective(x, y, 64, sx, sy);
}

} // verus!
