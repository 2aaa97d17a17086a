//! The Keccak-f[1600] sponge: SHA-3 and the legacy pre-standard Keccak
//! variants.  The permutation state is twenty-five 64-bit lanes.  Absorbing
//! XORs each RATE-byte block into the first RATE/8 lanes (little-endian) and
//! permutes; the final block carries the domain byte at the first unused
//! position and a `0x80` bit in the block's last byte, combined into one
//! byte when the remainder leaves only one free position.  Squeezing reads
//! the digest from the state as little-endian lanes; outputs are limited to
//! one permutation's worth of state.

use vstd::arithmetic::div_mod::lemma_fundamental_div_mod;
use vstd::prelude::*;

use crate::words::le64_at;
use crate::words::load_le64;
use crate::words::rotl64;
use crate::words::spec_rotl64;

verus! {

/// The all-zero initial sponge state.
pub open spec fn keccak_init() -> Seq<u64> {
    Seq::new(25, |j: int| 0u64)
}

/// The column parity of column `x`: the theta step's `C`.
pub open spec fn theta_c(a: Seq<u64>, x: int) -> u64
    recommends
        a.len() == 25,
        0 <= x < 5,
{
    a[x] ^ a[x + 5] ^ a[x + 10] ^ a[x + 15] ^ a[x + 20]
}

/// The value XOR-ed into every lane of column `x` by the theta step.
pub open spec fn theta_d(a: Seq<u64>, x: int) -> u64
    recommends
        a.len() == 25,
        0 <= x < 5,
{
    theta_c(a, (x + 4) % 5) ^ spec_rotl64(theta_c(a, (x + 1) % 5), 1)
}

/// Lane `j` after the theta, rho and pi steps of one round.
pub open spec fn keccak_b(a: Seq<u64>, j: int) -> u64
    recommends
        a.len() == 25,
        0 <= j < 25,
{
    let s: int = keccak_pi_src(j);
    spec_rotl64(a[s] ^ theta_d(a, s % 5), keccak_rho(s))
}

/// Lane `j` after one whole round (theta, rho, pi, chi, iota) of round `r`.
pub open spec fn keccak_chi_iota(a: Seq<u64>, r: int, j: int) -> u64
    recommends
        a.len() == 25,
        0 <= r < 24,
        0 <= j < 25,
{
    let i: int = j % 5;
    let g: int = j - i;
    let v: u64 = keccak_b(a, j) ^ (!keccak_b(a, g + (i + 1) % 5) & keccak_b(a, g + (i + 2) % 5));
    if j == 0 {
        v ^ keccak_rc(r)
    } else {
        v
    }
}

/// One round of the Keccak-f[1600] permutation.
pub open spec fn keccak_round(a: Seq<u64>, r: int) -> Seq<u64>
    recommends
        a.len() == 25,
        0 <= r < 24,
{
    Seq::new(25, |j: int| keccak_chi_iota(a, r, j))
}

/// The state after the first `n` rounds of the permutation.
pub open spec fn keccak_p(a: Seq<u64>, n: nat) -> Seq<u64>
    recommends
        a.len() == 25,
        n <= 24,
    decreases n,
{
    if n == 0 {
        a
    } else {
        keccak_round(keccak_p(a, (n - 1) as nat), n - 1)
    }
}

/// The state after XOR-ing a block of `8 * rate_words` bytes into the first
/// `rate_words` lanes, little-endian.
pub open spec fn absorbed(s: Seq<u64>, block: Seq<u8>, rate_words: int) -> Seq<u64>
    recommends
        s.len() == 25,
        block.len() == 8 * rate_words,
        0 <= rate_words <= 25,
{
    Seq::new(
        25,
        |j: int|
            if j < rate_words {
                s[j] ^ le64_at(block, 8 * j)
            } else {
                s[j]
            },
    )
}

/// The sponge state after absorbing (and permuting after) the first `i`
/// RATE-byte blocks of the padded message.
pub open spec fn sponge_states(msg: Seq<u8>, rate: nat, i: nat) -> Seq<u64>
    recommends
        0 < rate <= 200,
        rate % 8 == 0,
        msg.len() % rate == 0,
        i <= msg.len() / rate,
    decreases i,
{
    if i == 0 {
        keccak_init()
    } else {
        let j: int = rate * (i - 1);
        keccak_p(
            absorbed(
                sponge_states(msg, rate, (i - 1) as nat),
                msg.subrange(j, j + rate),
                rate as int / 8,
            ),
            24,
        )
    }
}

/// Byte `i` of the sponge padding of a message whose last partial block
/// leaves `padlen` free bytes: the domain byte first, a `0x80` bit last,
/// combined into a single byte when only one position is free.
pub open spec fn keccak_pad_byte(domain: u8, padlen: nat, i: int) -> u8 {
    if padlen == 1 {
        domain ^ 0x80
    } else if i == 0 {
        domain
    } else if i == padlen - 1 {
        0x80u8
    } else {
        0u8
    }
}

/// The input padded to a whole number of RATE-byte blocks with the
/// domain-separation byte and the terminal `0x80` bit.
pub open spec fn keccak_padded(input: Seq<u8>, rate: nat, domain: u8) -> Seq<u8>
    recommends
        0 < rate,
{
    let padlen: nat = (rate - input.len() % rate) as nat;
    input + Seq::new(padlen, |i: int| keccak_pad_byte(domain, padlen, i))
}

/// Byte `i` of the squeezed output: the state read as little-endian lanes.
pub open spec fn squeeze_byte(s: Seq<u64>, i: int) -> u8
    recommends
        s.len() == 25,
        0 <= i < 200,
{
    (((s[i / 8] >> ((8 * (i % 8)) as u64)) & 0xff) as u8)
}

/// The Keccak sponge digest of `input` with the given rate, output length
/// and domain-separation byte: absorb every padded block, permute, and
/// squeeze `out_len` bytes from one permutation's state.
pub open spec fn spec_keccak(input: Seq<u8>, rate: nat, out_len: nat, domain: u8) -> Seq<u8>
    recommends
        0 < rate <= 200,
        rate % 8 == 0,
        out_len <= 200,
{
    let msg = keccak_padded(input, rate, domain);
    let s = sponge_states(msg, rate, msg.len() / rate);
    Seq::new(out_len, |i: int| squeeze_byte(s, i))
}

/// The padded message is a whole number of RATE-byte blocks.
proof fn lemma_keccak_padded_len(input: Seq<u8>, rate: nat, domain: u8)
    requires
        0 < rate,
    ensures
        keccak_padded(input, rate, domain).len() % rate == 0,
        keccak_padded(input, rate, domain).len() > input.len(),
        keccak_padded(input, rate, domain).len() <= input.len() + rate,
        keccak_padded(input, rate, domain).len() >= rate,
{
    let len = input.len();
    let r = len % rate;
    let q = len / rate;
    lemma_fundamental_div_mod(len as int, rate as int);
    let total = keccak_padded(input, rate, domain).len();
    assert((q + 1) * rate == rate * q + rate) by (nonlinear_arith);
    assert(total == (q + 1) * rate);
    vstd::arithmetic::div_mod::lemma_mod_multiples_basic(q + 1 as int, rate as int);
}

/// XORs the RATE-byte block of `msg` starting at `off` into the first
/// RATE/8 lanes of the sponge state.
fn absorb_block(s: &mut Vec<u64>, msg: &Vec<u8>, off: usize, rate: usize)
    requires
        old(s)@.len() == 25,
        rate % 8 == 0,
        rate <= 200,
        off + rate <= msg@.len(),
    ensures
        final(s)@ == absorbed(old(s)@, msg@.subrange(off as int, off as int + rate), rate as int
            / 8),
        final(s)@.len() == 25,
{
    let mlen: usize = msg.len();
    let ghost block = msg@.subrange(off as int, off as int + rate);
    let ghost s0 = s@;
    let words = rate / 8;
    let mut k: usize = 0;
    while k < words
        invariant
            k <= words,
            words == rate / 8,
            rate % 8 == 0,
            rate <= 200,
            mlen == msg@.len(),
            off + rate <= msg@.len(),
            block == msg@.subrange(off as int, off as int + rate),
            s@.len() == 25,
            forall|j: int| 0 <= j < k ==> s@[j] == (s0[j] ^ le64_at(block, 8 * j)),
            forall|j: int| k <= j < 25 ==> s@[j] == s0[j],
        decreases words - k,
    {
        proof {
            lemma_fundamental_div_mod(rate as int, 8);
        }
        let w = load_le64(msg.as_slice(), off + 8 * k);
        proof {
            assert(le64_at(msg@, off + 8 * (k as int)) == le64_at(block, 8 * (k as int)));
        }
        let nv = s[k] ^ w;
        s[k] = nv;
        k += 1;
    }
    proof {
        assert(s@ =~= absorbed(s0, block, rate as int / 8));
    }
}

/// The Keccak-f[1600] permutation: twenty-four rounds of theta, rho, pi,
/// chi and iota.
fn keccak_f1600(a: &mut Vec<u64>)
    requires
        old(a)@.len() == 25,
    ensures
        final(a)@ == keccak_p(old(a)@, 24),
        final(a)@.len() == 25,
{
    let ghost init = a@;
    let mut round: usize = 0;
    while round < 24
        invariant
            round <= 24,
            a@.len() == 25,
            a@ == keccak_p(init, round as nat),
        decreases 24 - round,
    {
        let ghost cur = a@;
        let mut c: Vec<u64> = Vec::new();
        let mut x: usize = 0;
        while x < 5
            invariant
                x <= 5,
                c@.len() == x,
                a@ == cur,
                a@.len() == 25,
                forall|y: int| 0 <= y < x ==> c@[y] == theta_c(cur, y),
            decreases 5 - x,
        {
            c.push(a[x] ^ a[x + 5] ^ a[x + 10] ^ a[x + 15] ^ a[x + 20]);
            x += 1;
        }
        let mut d: Vec<u64> = Vec::new();
        let mut y: usize = 0;
        while y < 5
            invariant
                y <= 5,
                d@.len() == y,
                c@.len() == 5,
                a@ == cur,
                a@.len() == 25,
                forall|z: int| 0 <= z < 5 ==> c@[z] == theta_c(cur, z),
                forall|z: int| 0 <= z < y ==> d@[z] == theta_d(cur, z),
            decreases 5 - y,
        {
            d.push(c[(y + 4) % 5] ^ rotl64(c[(y + 1) % 5], 1));
            y += 1;
        }
        let mut b: Vec<u64> = Vec::new();
        let mut j: usize = 0;
        while j < 25
            invariant
                j <= 25,
                b@.len() == j,
                d@.len() == 5,
                a@ == cur,
                a@.len() == 25,
                forall|z: int| 0 <= z < 5 ==> d@[z] == theta_d(cur, z),
                forall|z: int| 0 <= z < j ==> b@[z] == keccak_b(cur, z),
            decreases 25 - j,
        {
            let src = keccak_pi_src_at(j);
            let rho = keccak_rho_at(src);
            b.push(rotl64(a[src] ^ d[src % 5], rho));
            j += 1;
        }
        let rc = keccak_rc_at(round);
        let mut j2: usize = 0;
        while j2 < 25
            invariant
                j2 <= 25,
                b@.len() == 25,
                a@.len() == 25,
                round < 24,
                rc == keccak_rc(round as int),
                forall|z: int| 0 <= z < 25 ==> b@[z] == keccak_b(cur, z),
                forall|z: int| 0 <= z < j2 ==> a@[z] == keccak_chi_iota(cur, round as int, z),
                forall|z: int| j2 <= z < 25 ==> a@[z] == cur[z],
            decreases 25 - j2,
        {
            let i = j2 % 5;
            let g = j2 - i;
            let t1 = g + (i + 1) % 5;
            let t2 = g + (i + 2) % 5;
            let mut nv = b[j2] ^ (!b[t1] & b[t2]);
            if j2 == 0 {
                nv = nv ^ rc;
            }
            a[j2] = nv;
            j2 += 1;
        }
        round += 1;
        proof {
            assert(a@ =~= keccak_round(cur, round as int - 1));
            assert(a@ == keccak_p(init, round as nat));
        }
    }
}

/// Computes a Keccak sponge digest: `out_len` bytes of output over a
/// RATE-byte rate and the given domain-separation byte (`0x06` for SHA-3,
/// `0x01` for legacy Keccak).
pub fn keccak(input: &[u8], rate: usize, out_len: usize, domain: u8) -> (digest: Vec<u8>)
    requires
        rate % 8 == 0,
        0 < rate <= 200,
        out_len <= 200,
        input@.len() + rate <= usize::MAX,
    ensures
        digest@ == spec_keccak(input@, rate as nat, out_len as nat, domain),
        digest@.len() == out_len,
{
    let len = input.len();
    let mut msg: Vec<u8> = Vec::new();
    let mut i: usize = 0;
    while i < len
        invariant
            i <= len,
            len == input@.len(),
            msg@ == input@.subrange(0, i as int),
        decreases len - i,
    {
        msg.push(input[i]);
        i += 1;
        proof {
            assert(msg@ =~= input@.subrange(0, i as int));
        }
    }
    proof {
        assert(msg@ =~= input@);
    }
    let r = len % rate;
    proof {
        lemma_fundamental_div_mod(len as int, rate as int);
    }
    let padlen = rate - r;
    let ghost padtail = Seq::new(padlen as nat, |x: int| keccak_pad_byte(domain, padlen as nat, x));
    if padlen == 1 {
        msg.push(domain ^ 0x80);
    } else {
        msg.push(domain);
        let mut z: usize = 0;
        while z < padlen - 2
            invariant
                z <= padlen - 2,
                2 <= padlen,
                padtail == Seq::new(padlen as nat, |x: int| keccak_pad_byte(domain, padlen as nat, x)),
                msg@ == input@ + padtail.subrange(0, 1 + z as int),
            decreases padlen - 2 - z,
        {
            msg.push(0);
            z += 1;
            proof {
                assert(msg@ =~= input@ + padtail.subrange(0, 1 + z as int));
            }
        }
        msg.push(0x80);
    }
    proof {
        assert(msg@ =~= keccak_padded(input@, rate as nat, domain));
        lemma_keccak_padded_len(input@, rate as nat, domain);
        lemma_fundamental_div_mod(msg@.len() as int, rate as int);
    }
    let ghost padded = msg@;
    let nblocks = msg.len() / rate;
    assert(rate * nblocks == padded.len());
    let mut state: Vec<u64> = Vec::new();
    let mut k: usize = 0;
    while k < 25
        invariant
            k <= 25,
            state@.len() == k,
            forall|j: int| 0 <= j < k ==> state@[j] == 0u64,
        decreases 25 - k,
    {
        state.push(0);
        k += 1;
    }
    proof {
        assert(state@ =~= keccak_init());
    }
    let mut bi: usize = 0;
    while bi < nblocks
        invariant
            bi <= nblocks,
            msg@ == padded,
            rate * nblocks == padded.len(),
            padded.len() <= usize::MAX,
            rate % 8 == 0,
            0 < rate <= 200,
            state@.len() == 25,
            state@ == sponge_states(padded, rate as nat, bi as nat),
        decreases nblocks - bi,
    {
        proof {
            assert(bi * rate + rate <= rate * nblocks) by (nonlinear_arith)
                requires
                    bi < nblocks,
            ;
        }
        let off = bi * rate;
        absorb_block(&mut state, &msg, off, rate);
        keccak_f1600(&mut state);
        bi += 1;
        proof {
            assert(off == rate * (bi as int - 1)) by (nonlinear_arith)
                requires
                    off == (bi - 1) * rate,
            ;
            assert(state@ == sponge_states(padded, rate as nat, bi as nat));
        }
    }
    let mut digest: Vec<u8> = Vec::new();
    let mut q: usize = 0;
    while q < out_len
        invariant
            q <= out_len,
            out_len <= 200,
            state@.len() == 25,
            digest@.len() == q,
            forall|x: int| 0 <= x < q ==> digest@[x] == squeeze_byte(state@, x),
        decreases out_len - q,
    {
        let word = state[q / 8];
        let sh: u64 = (8 * (q % 8)) as u64;
        digest.push(((word >> sh) & 0xff) as u8);
        q += 1;
    }
    proof {
        assert(digest@ =~= spec_keccak(input@, rate as nat, out_len as nat, domain));
    }
    digest
}

/// The SHA3-224 digest of `input`.
pub open spec fn spec_sha3_224(input: Seq<u8>) -> Seq<u8> {
    spec_keccak(input, 144, 28, 0x06)
}

/// The SHA3-256 digest of `input`.
pub open spec fn spec_sha3_256(input: Seq<u8>) -> Seq<u8> {
    spec_keccak(input, 136, 32, 0x06)
}

/// The SHA3-384 digest of `input`.
pub open spec fn spec_sha3_384(input: Seq<u8>) -> Seq<u8> {
    spec_keccak(input, 104, 48, 0x06)
}

/// The SHA3-512 digest of `input`.
pub open spec fn spec_sha3_512(input: Seq<u8>) -> Seq<u8> {
    spec_keccak(input, 72, 64, 0x06)
}

/// The legacy Keccak-224 digest of `input`.
pub open spec fn spec_keccak_224(input: Seq<u8>) -> Seq<u8> {
    spec_keccak(input, 144, 28, 0x01)
}

/// The legacy Keccak-256 digest of `input`.
pub open spec fn spec_keccak_256(input: Seq<u8>) -> Seq<u8> {
    spec_keccak(input, 136, 32, 0x01)
}

/// The legacy Keccak-384 digest of `input`.
pub open spec fn spec_keccak_384(input: Seq<u8>) -> Seq<u8> {
    spec_keccak(input, 104, 48, 0x01)
}

/// The legacy Keccak-512 digest of `input`.
pub open spec fn spec_keccak_512(input: Seq<u8>) -> Seq<u8> {
    spec_keccak(input, 72, 64, 0x01)
}

/// Computes the SHA3-224 digest of `input`.
pub fn sha3_224(input: &[u8]) -> (digest: Vec<u8>)
    requires
        input@.len() + 144 <= usize::MAX,
    ensures
        digest@ == spec_sha3_224(input@),
        digest@.len() == 28,
{
    keccak(input, 144, 28, 0x06)
}

/// Computes the SHA3-256 digest of `input`.
pub fn sha3_256(input: &[u8]) -> (digest: Vec<u8>)
    requires
        input@.len() + 136 <= usize::MAX,
    ensures
        digest@ == spec_sha3_256(input@),
        digest@.len() == 32,
{
    keccak(input, 136, 32, 0x06)
}

/// Computes the SHA3-384 digest of `input`.
pub fn sha3_384(input: &[u8]) -> (digest: Vec<u8>)
    requires
        input@.len() + 104 <= usize::MAX,
    ensures
        digest@ == spec_sha3_384(input@),
        digest@.len() == 48,
{
    keccak(input, 104, 48, 0x06)
}

/// Computes the SHA3-512 digest of `input`.
pub fn sha3_512(input: &[u8]) -> (digest: Vec<u8>)
    requires
        input@.len() + 72 <= usize::MAX,
    ensures
        digest@ == spec_sha3_512(input@),
        digest@.len() == 64,
{
    keccak(input, 72, 64, 0x06)
}

/// Computes the legacy Keccak-224 digest of `input`.
pub fn keccak_224(input: &[u8]) -> (digest: Vec<u8>)
    requires
        input@.len() + 144 <= usize::MAX,
    ensures
        digest@ == spec_keccak_224(input@),
        digest@.len() == 28,
{
    keccak(input, 144, 28, 0x01)
}

/// Computes the legacy Keccak-256 digest of `input`.
pub fn keccak_256(input: &[u8]) -> (digest: Vec<u8>)
    requires
        input@.len() + 136 <= usize::MAX,
    ensures
        digest@ == spec_keccak_256(input@),
        digest@.len() == 32,
{
    keccak(input, 136, 32, 0x01)
}

/// Computes the legacy Keccak-384 digest of `input`.
pub fn keccak_384(input: &[u8]) -> (digest: Vec<u8>)
    requires
        input@.len() + 104 <= usize::MAX,
    ensures
        digest@ == spec_keccak_384(input@),
        digest@.len() == 48,
{
    keccak(input, 104, 48, 0x01)
}

/// Computes the legacy Keccak-512 digest of `input`.
pub fn keccak_512(input: &[u8]) -> (digest: Vec<u8>)
    requires
        input@.len() + 72 <= usize::MAX,
    ensures
        digest@ == spec_keccak_512(input@),
        digest@.len() == 64,
{
    keccak(input, 72, 64, 0x01)
}

/// The twenty-four round constants XOR-ed into lane 0 by the iota step.
pub open spec fn keccak_rc(r: int) -> u64 {
    if r == 0 {
        0x0000000000000001u64
    } else if r == 1 {
        0x0000000000008082u64
    } else if r == 2 {
        0x800000000000808au64
    } else if r == 3 {
        0x8000000080008000u64
    } else if r == 4 {
        0x000000000000808bu64
    } else if r == 5 {
        0x0000000080000001u64
    } else if r == 6 {
        0x8000000080008081u64
    } else if r == 7 {
        0x8000000000008009u64
    } else if r == 8 {
        0x000000000000008au64
    } else if r == 9 {
        0x0000000000000088u64
    } else if r == 10 {
        0x0000000080008009u64
    } else if r == 11 {
        0x000000008000000au64
    } else if r == 12 {
        0x000000008000808bu64
    } else if r == 13 {
        0x800000000000008bu64
    } else if r == 14 {
        0x8000000000008089u64
    } else if r == 15 {
        0x8000000000008003u64
    } else if r == 16 {
        0x8000000000008002u64
    } else if r == 17 {
        0x8000000000000080u64
    } else if r == 18 {
        0x000000000000800au64
    } else if r == 19 {
        0x800000008000000au64
    } else if r == 20 {
        0x8000000080008081u64
    } else if r == 21 {
        0x8000000000008080u64
    } else if r == 22 {
        0x0000000080000001u64
    } else {
        0x8000000080008008u64
    }
}

fn keccak_rc_at(r: usize) -> (k: u64)
    requires
        r < 24,
    ensures
        k == keccak_rc(r as int),
{
    if r == 0 {
        0x0000000000000001
    } else if r == 1 {
        0x0000000000008082
    } else if r == 2 {
        0x800000000000808a
    } else if r == 3 {
        0x8000000080008000
    } else if r == 4 {
        0x000000000000808b
    } else if r == 5 {
        0x0000000080000001
    } else if r == 6 {
        0x8000000080008081
    } else if r == 7 {
        0x8000000000008009
    } else if r == 8 {
        0x000000000000008a
    } else if r == 9 {
        0x0000000000000088
    } else if r == 10 {
        0x0000000080008009
    } else if r == 11 {
        0x000000008000000a
    } else if r == 12 {
        0x000000008000808b
    } else if r == 13 {
        0x800000000000008b
    } else if r == 14 {
        0x8000000000008089
    } else if r == 15 {
        0x8000000000008003
    } else if r == 16 {
        0x8000000000008002
    } else if r == 17 {
        0x8000000000000080
    } else if r == 18 {
        0x000000000000800a
    } else if r == 19 {
        0x800000008000000a
    } else if r == 20 {
        0x8000000080008081
    } else if r == 21 {
        0x8000000000008080
    } else if r == 22 {
        0x0000000080000001
    } else {
        0x8000000080008008
    }
}

/// The fixed per-lane rotation amounts of the rho step.
pub open spec fn keccak_rho(i: int) -> u64 {
    if i == 0 {
        0u64
    } else if i == 1 {
        1u64
    } else if i == 2 {
        62u64
    } else if i == 3 {
        28u64
    } else if i == 4 {
        27u64
    } else if i == 5 {
        36u64
    } else if i == 6 {
        44u64
    } else if i == 7 {
        6u64
    } else if i == 8 {
        55u64
    } else if i == 9 {
        20u64
    } else if i == 10 {
        3u64
    } else if i == 11 {
        10u64
    } else if i == 12 {
        43u64
    } else if i == 13 {
        25u64
    } else if i == 14 {
        39u64
    } else if i == 15 {
        41u64
    } else if i == 16 {
        45u64
    } else if i == 17 {
        15u64
    } else if i == 18 {
        21u64
    } else if i == 19 {
        8u64
    } else if i == 20 {
        18u64
    } else if i == 21 {
        2u64
    } else if i == 22 {
        61u64
    } else if i == 23 {
        56u64
    } else {
        14u64
    }
}

fn keccak_rho_at(i: usize) -> (r: u64)
    requires
        i < 25,
    ensures
        r == keccak_rho(i as int),
        r < 64,
{
    if i == 0 {
        0
    } else if i == 1 {
        1
    } else if i == 2 {
        62
    } else if i == 3 {
        28
    } else if i == 4 {
        27
    } else if i == 5 {
        36
    } else if i == 6 {
        44
    } else if i == 7 {
        6
    } else if i == 8 {
        55
    } else if i == 9 {
        20
    } else if i == 10 {
        3
    } else if i == 11 {
        10
    } else if i == 12 {
        43
    } else if i == 13 {
        25
    } else if i == 14 {
        39
    } else if i == 15 {
        41
    } else if i == 16 {
        45
    } else if i == 17 {
        15
    } else if i == 18 {
        21
    } else if i == 19 {
        8
    } else if i == 20 {
        18
    } else if i == 21 {
        2
    } else if i == 22 {
        61
    } else if i == 23 {
        56
    } else {
        14
    }
}

/// The source lane that the combined rho and pi steps move into lane `j`.
pub open spec fn keccak_pi_src(j: int) -> int {
    if j == 0 {
        0int
    } else if j == 1 {
        6int
    } else if j == 2 {
        12int
    } else if j == 3 {
        18int
    } else if j == 4 {
        24int
    } else if j == 5 {
        3int
    } else if j == 6 {
        9int
    } else if j == 7 {
        10int
    } else if j == 8 {
        16int
    } else if j == 9 {
        22int
    } else if j == 10 {
        1int
    } else if j == 11 {
        7int
    } else if j == 12 {
        13int
    } else if j == 13 {
        19int
    } else if j == 14 {
        20int
    } else if j == 15 {
        4int
    } else if j == 16 {
        5int
    } else if j == 17 {
        11int
    } else if j == 18 {
        17int
    } else if j == 19 {
        23int
    } else if j == 20 {
        2int
    } else if j == 21 {
        8int
    } else if j == 22 {
        14int
    } else if j == 23 {
        15int
    } else {
        21int
    }
}

fn keccak_pi_src_at(j: usize) -> (s: usize)
    requires
        j < 25,
    ensures
        s == keccak_pi_src(j as int),
        s < 25,
{
    if j == 0 {
        0
    } else if j == 1 {
        6
    } else if j == 2 {
        12
    } else if j == 3 {
        18
    } else if j == 4 {
        24
    } else if j == 5 {
        3
    } else if j == 6 {
        9
    } else if j == 7 {
        10
    } else if j == 8 {
        16
    } else if j == 9 {
        22
    } else if j == 10 {
        1
    } else if j == 11 {
        7
    } else if j == 12 {
        13
    } else if j == 13 {
        19
    } else if j == 14 {
        20
    } else if j == 15 {
        4
    } else if j == 16 {
        5
    } else if j == 17 {
        11
    } else if j == 18 {
        17
    } else if j == 19 {
        23
    } else if j == 20 {
        2
    } else if j == 21 {
        8
    } else if j == 22 {
        14
    } else if j == 23 {
        15
    } else {
        21
    }
}

/// A strictly shorter message never pads to the same block sequence as a
/// longer one: the byte where the longer message's padding starts would have
/// to be both a domain byte and a zero-fill or terminal byte.
proof fn lemma_keccak_pad_longer_differs(x: Seq<u8>, y: Seq<u8>, rate: nat, domain: u8)
    requires
        0 < rate,
        domain != 0,
        domain != 0x80,
        x.len() < y.len(),
    ensures
        keccak_padded(x, rate, domain) != keccak_padded(y, rate, domain),
{
    let px = keccak_padded(x, rate, domain);
    let py = keccak_padded(y, rate, domain);
    if px == py {
        let lx = x.len() as int;
        let ly = y.len() as int;
        let padx = (rate - x.len() % rate) as nat;
        let pady = (rate - y.len() % rate) as nat;
        let tailx = Seq::new(padx, |i: int| keccak_pad_byte(domain, padx, i));
        let taily = Seq::new(pady, |i: int| keccak_pad_byte(domain, pady, i));
        assert(px.len() == lx + padx);
        assert(py.len() == ly + pady);
        let i: int = ly - lx;
        assert(1 <= i && i == padx - pady && i <= padx - 1);
        assert(px[ly] == tailx[i]);
        assert(py[ly] == taily[0]);
        assert(domain ^ 0x80 != 0x80) by (bit_vector)
            requires
                domain != 0u8,
        ;
        assert(domain ^ 0x80 != 0) by (bit_vector)
            requires
                domain != 0x80u8,
        ;
        assert(false);
    }
}

/// The sponge padding is injective: two messages with equal padded forms are
/// equal, for any nonzero domain byte below `0x80`.  In particular a strict
/// prefix of a message never absorbs the same block sequence as the message
/// itself.
pub proof fn lemma_keccak_padding_injective(x: Seq<u8>, y: Seq<u8>, rate: nat, domain: u8)
    requires
        0 < rate,
        domain != 0,
        domain != 0x80,
        keccak_padded(x, rate, domain) == keccak_padded(y, rate, domain),
    ensures
        x == y,
{
    if x.len() < y.len() {
        lemma_keccak_pad_longer_differs(x, y, rate, domain);
    } else if y.len() < x.len() {
        lemma_keccak_pad_longer_differs(y, x, rate, domain);
    } else {
        let px = keccak_padded(x, rate, domain);
        let py = keccak_padded(y, rate, domain);
        assert(px.subrange(0, x.len() as int) =~= x);
        assert(py.subrange(0, y.len() as int) =~= y);
    }
}

} // verus!
