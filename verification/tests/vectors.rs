// Published reference vectors, padding boundary cases, determinism, and
// prefix-freedom scenarios.

use md4::Md4;
use md5::Md5;
use sha1::Sha1;
use sha2::Digest;
use sha2::Sha256;
use sha2::Sha384;
use sha2::Sha512;
use sha3::Keccak224;
use sha3::Keccak256;
use sha3::Keccak384;
use sha3::Keccak512;
use sha3::Sha3_224;
use sha3::Sha3_256;
use sha3::Sha3_384;
use sha3::Sha3_512;

fn hex_to_bytes(s: &str) -> Vec<u8> {
    let digits: Vec<u8> = s
        .bytes()
        .map(|c| match c {
            b'0'..=b'9' => c - b'0',
            b'a'..=b'f' => c - b'a' + 10,
            b'A'..=b'F' => c - b'A' + 10,
            _ => panic!("not a hex digit"),
        })
        .collect();
    digits.chunks(2).map(|p| (p[0] << 4) | p[1]).collect()
}

// Exact published digests: one vector per variant.

#[test]
fn md5_empty_vector() {
    assert_eq!(cthash::md5(b""), hex_to_bytes("d41d8cd98f00b204e9800998ecf8427e"));
}

#[test]
fn md4_empty_vector() {
    assert_eq!(cthash::md4(b""), hex_to_bytes("31d6cfe0d16ae931b73c59d7e0c089c0"));
}

#[test]
fn sha1_abc_vector() {
    assert_eq!(cthash::sha1(b"abc"), hex_to_bytes("a9993e364706816aba3e25717850c26c9cd0d89d"));
}

#[test]
fn sha2_224_empty_vector() {
    assert_eq!(
        cthash::sha2_224(b""),
        hex_to_bytes("d14a028c2a3a2bc9476102bb288234c415a2b01f828ea62ac5b3e42f")
    );
}

#[test]
fn sha2_256_empty_vector() {
    assert_eq!(
        cthash::sha2_256(b""),
        hex_to_bytes("e3b0c44298fc1c149afbf4c8996fb92427ae41e4649b934ca495991b7852b855")
    );
}

#[test]
fn sha2_384_empty_vector() {
    assert_eq!(
        cthash::sha2_384(b""),
        hex_to_bytes(
            "38b060a751ac96384cd9327eb1b1e36a21fdb71114be07434c0cc7bf63f6e1da274edebfe76f65fbd51ad2f14898b95b"
        )
    );
}

#[test]
fn sha2_512_empty_vector() {
    assert_eq!(
        cthash::sha2_512(b""),
        hex_to_bytes(
            "cf83e1357eefb8bdf1542850d66d8007d620e4050b5715dc83f4a921d36ce9ce47d0d13c5d85f2b0ff8318d2877eec2f63b931bd47417a81a538327af927da3e"
        )
    );
}

#[test]
fn sha3_224_empty_vector() {
    assert_eq!(
        cthash::sha3_224(b""),
        hex_to_bytes("6b4e03423667dbb73b6e15454f0eb1abd4597f9a1b078e3f5b5a6bc7")
    );
}

#[test]
fn sha3_256_empty_vector() {
    assert_eq!(
        cthash::sha3_256(b""),
        hex_to_bytes("a7ffc6f8bf1ed76651c14756a061d662f580ff4de43b49fa82d80a4b80f8434a")
    );
}

#[test]
fn sha3_384_empty_vector() {
    assert_eq!(
        cthash::sha3_384(b""),
        hex_to_bytes(
            "0c63a75b845e4f7d01107d852e4c2485c51a50aaaa94fc61995e71bbee983a2ac3713831264adb47fb6bd1e058d5f004"
        )
    );
}

#[test]
fn sha3_512_empty_vector() {
    assert_eq!(
        cthash::sha3_512(b""),
        hex_to_bytes(
            "a69f73cca23a9ac5c8b567dc185a756e97c982164fe25859e0d1dcc1475c80a615b2123af1f5f94c11e3e9402c3ac558f500199d95b6d3e301758586281dcd26"
        )
    );
}

#[test]
fn keccak_256_empty_vector() {
    assert_eq!(
        cthash::keccak_256(b""),
        hex_to_bytes("c5d2460186f7233c927e7db2dcc703c0e500b653ca82273b7bfad8045d85a470")
    );
}

#[test]
fn keccak_512_empty_vector() {
    assert_eq!(
        cthash::keccak_512(b""),
        hex_to_bytes(
            "0eab42de4c3ceb9235fc91acffe746b29c29a8c366b7c60e4e67c466f36a4304c00fa9caf9d87976ba469bcbe06713b435f091ef2769fb160cdab33d3670680e"
        )
    );
}

// Merkle–Damgård padding boundary: one byte below the single-block
// threshold, exactly the threshold, and one byte above, so both the one- and
// the two-final-block branches run.  For a 64-byte block and 8-byte suffix
// the threshold is 55 input bytes mod 64; for a 128-byte block and 16-byte
// suffix it is 111 mod 128.

#[test]
fn md_padding_boundary_64() {
    for n in [54usize, 55, 56] {
        let data = vec![b'x'; n];
        let mut h = Md5::new();
        h.update(&data);
        assert_eq!(cthash::md5(&data), h.finalize().to_vec());
        let mut h = Md4::new();
        h.update(&data);
        assert_eq!(cthash::md4(&data), h.finalize().to_vec());
        let mut h = Sha1::new();
        h.update(&data);
        assert_eq!(cthash::sha1(&data), h.finalize().to_vec());
        let mut h = Sha256::new();
        h.update(&data);
        assert_eq!(cthash::sha2_256(&data), h.finalize().to_vec());
    }
}

#[test]
fn md_padding_boundary_128() {
    for n in [110usize, 111, 112] {
        let data = vec![b'x'; n];
        let mut h = Sha384::new();
        h.update(&data);
        assert_eq!(cthash::sha2_384(&data), h.finalize().to_vec());
        let mut h = Sha512::new();
        h.update(&data);
        assert_eq!(cthash::sha2_512(&data), h.finalize().to_vec());
    }
}

// Sponge padding boundary: inputs of length RATE-1, RATE and RATE+1, so the
// domain byte and the terminal 0x80 bit land on the same byte, on a block of
// their own, and after a full block.

#[test]
fn sponge_padding_boundary_sha3() {
    for (rate, f, rf) in [
        (144usize, cthash::sha3_224 as fn(&[u8]) -> Vec<u8>, ref_sha3_224 as fn(&[u8]) -> Vec<u8>),
        (136, cthash::sha3_256, ref_sha3_256),
        (104, cthash::sha3_384, ref_sha3_384),
        (72, cthash::sha3_512, ref_sha3_512),
    ] {
        for n in [rate - 1, rate, rate + 1] {
            let data = vec![b'y'; n];
            assert_eq!(f(&data), rf(&data));
        }
    }
}

#[test]
fn sponge_padding_boundary_keccak() {
    for (rate, f, rf) in [
        (144usize, cthash::keccak_224 as fn(&[u8]) -> Vec<u8>, ref_keccak_224 as fn(&[u8]) -> Vec<u8>),
        (136, cthash::keccak_256, ref_keccak_256),
        (104, cthash::keccak_384, ref_keccak_384),
        (72, cthash::keccak_512, ref_keccak_512),
    ] {
        for n in [rate - 1, rate, rate + 1] {
            let data = vec![b'z'; n];
            assert_eq!(f(&data), rf(&data));
        }
    }
}

fn ref_sha3_224(data: &[u8]) -> Vec<u8> {
    let mut h = Sha3_224::new();
    h.update(data);
    h.finalize().to_vec()
}

fn ref_sha3_256(data: &[u8]) -> Vec<u8> {
    let mut h = Sha3_256::new();
    h.update(data);
    h.finalize().to_vec()
}

fn ref_sha3_384(data: &[u8]) -> Vec<u8> {
    let mut h = Sha3_384::new();
    h.update(data);
    h.finalize().to_vec()
}

fn ref_sha3_512(data: &[u8]) -> Vec<u8> {
    let mut h = Sha3_512::new();
    h.update(data);
    h.finalize().to_vec()
}

fn ref_keccak_224(data: &[u8]) -> Vec<u8> {
    let mut h = Keccak224::new();
    h.update(data);
    h.finalize().to_vec()
}

fn ref_keccak_256(data: &[u8]) -> Vec<u8> {
    let mut h = Keccak256::new();
    h.update(data);
    h.finalize().to_vec()
}

fn ref_keccak_384(data: &[u8]) -> Vec<u8> {
    let mut h = Keccak384::new();
    h.update(data);
    h.finalize().to_vec()
}

fn ref_keccak_512(data: &[u8]) -> Vec<u8> {
    let mut h = Keccak512::new();
    h.update(data);
    h.finalize().to_vec()
}

// Determinism: digesting the same bytes twice gives the same digest.

#[test]
fn determinism() {
    let data = b"determinism check input";
    assert_eq!(cthash::md4(data), cthash::md4(data));
    assert_eq!(cthash::md5(data), cthash::md5(data));
    assert_eq!(cthash::sha1(data), cthash::sha1(data));
    assert_eq!(cthash::sha2_224(data), cthash::sha2_224(data));
    assert_eq!(cthash::sha2_256(data), cthash::sha2_256(data));
    assert_eq!(cthash::sha2_384(data), cthash::sha2_384(data));
    assert_eq!(cthash::sha2_512(data), cthash::sha2_512(data));
    assert_eq!(cthash::sha3_256(data), cthash::sha3_256(data));
    assert_eq!(cthash::keccak_512(data), cthash::keccak_512(data));
}

// Length-suffix correctness scenario: a strict prefix of a message never
// collides with it, also at the padding threshold where the prefix and the
// message pad into the same number of blocks.

#[test]
fn strict_prefix_never_collides() {
    let long = vec![b'a'; 56];
    let short = &long[..55];
    assert_ne!(cthash::md4(short), cthash::md4(&long));
    assert_ne!(cthash::md5(short), cthash::md5(&long));
    assert_ne!(cthash::sha1(short), cthash::sha1(&long));
    assert_ne!(cthash::sha2_224(short), cthash::sha2_224(&long));
    assert_ne!(cthash::sha2_256(short), cthash::sha2_256(&long));
    assert_ne!(cthash::sha2_384(short), cthash::sha2_384(&long));
    assert_ne!(cthash::sha2_512(short), cthash::sha2_512(&long));
    assert_ne!(cthash::sha3_256(short), cthash::sha3_256(&long));
    assert_ne!(cthash::keccak_256(short), cthash::keccak_256(&long));
    assert_ne!(cthash::md5(b"abc"), cthash::md5(b"abcd"));
    assert_ne!(cthash::sha2_256(b""), cthash::sha2_256(b"\x00"));
}

// Truncation correctness scenario: the truncating variants agree with the
// reference implementations on a value whose full-width siblings are also
// checked above, so the first 28 and 48 bytes come from the same state.

#[test]
fn truncated_variants_vectors() {
    let data = b"abc";
    assert_eq!(
        cthash::sha2_224(data),
        hex_to_bytes("23097d223405d8228642a477bda255b32aadbce4bda0b3f7e36c9da7")
    );
    assert_eq!(
        cthash::sha2_384(data),
        hex_to_bytes(
            "cb00753f45a35e8bb5a03d699ac65007272c32ab0eded1631a8b605a43ff5bed8086072ba1e7cc2358baeca134c825a7"
        )
    );
}
