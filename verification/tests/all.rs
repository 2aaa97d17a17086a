// Tests for all hash functions in the `cthash` crate, comparing their
// outputs against reference implementations from the `RustCrypto` crates.

use md4::Md4;
use md5::Md5;
use sha1::Sha1;
use sha2::Digest;
use sha2::Sha224;
use sha2::Sha256;
use sha2::Sha384;
use sha2::Sha512;
use sha3::Keccak224;
use sha3::Keccak256;
use sha3::Keccak384;
use sha3::Keccak512;
use sha3::Sha3_224;
use sha3::Sha3_256;
use sha3::Sha3_384;
use sha3::Sha3_512;

fn cmp_fn_results(data: &[u8], cthash_fn: fn(&[u8]) -> Vec<u8>, reference_impl_fn: fn(&[u8]) -> Vec<u8>) {
    let cthash_res = cthash_fn(data);
    let reference_res = reference_impl_fn(data);
    assert_eq!(cthash_res, reference_res);
}

fn test_data() -> Vec<Vec<u8>> {
    vec![
        b"".to_vec(),
        b"abc".to_vec(),
        b"abcdbcdecdefdefgefghfghighijhijkijkljklmklmnlmnomnopnopq".to_vec(), // 448 bits
        b"abcdefghbcdefghicdefghijdefghijkefghijklfghijklmghijklmnhijklmnoijklmnopjklmnopqklmnopqrlmnopqrsmnopqrstnopqrstu".to_vec(), // 896 bits
        b"The quick brown fox jumps over the lazy dog".to_vec(),
        b"The quick brown fox jumps over the lazy cog".to_vec(),
        vec![b'a'; 1_000_000],
    ]
}

// Reference implementations of digest fns using the `RustCrypto` crates

fn ref_sha1(data: &[u8]) -> Vec<u8> {
    let mut hasher = Sha1::new();
    hasher.update(data);
    hasher.finalize().to_vec()
}

fn ref_sha224(data: &[u8]) -> Vec<u8> {
    let mut hasher = Sha224::new();
    hasher.update(data);
    hasher.finalize().to_vec()
}

fn ref_sha256(data: &[u8]) -> Vec<u8> {
    let mut hasher = Sha256::new();
    hasher.update(data);
    hasher.finalize().to_vec()
}

fn ref_sha384(data: &[u8]) -> Vec<u8> {
    let mut hasher = Sha384::new();
    hasher.update(data);
    hasher.finalize().to_vec()
}

fn ref_sha512(data: &[u8]) -> Vec<u8> {
    let mut hasher = Sha512::new();
    hasher.update(data);
    hasher.finalize().to_vec()
}

fn ref_sha3_224(data: &[u8]) -> Vec<u8> {
    let mut hasher = Sha3_224::new();
    hasher.update(data);
    hasher.finalize().to_vec()
}

fn ref_sha3_256(data: &[u8]) -> Vec<u8> {
    let mut hasher = Sha3_256::new();
    hasher.update(data);
    hasher.finalize().to_vec()
}

fn ref_sha3_384(data: &[u8]) -> Vec<u8> {
    let mut hasher = Sha3_384::new();
    hasher.update(data);
    hasher.finalize().to_vec()
}

fn ref_sha3_512(data: &[u8]) -> Vec<u8> {
    let mut hasher = Sha3_512::new();
    hasher.update(data);
    hasher.finalize().to_vec()
}

fn ref_keccak_224(data: &[u8]) -> Vec<u8> {
    let mut hasher = Keccak224::new();
    hasher.update(data);
    hasher.finalize().to_vec()
}

fn ref_keccak_256(data: &[u8]) -> Vec<u8> {
    let mut hasher = Keccak256::new();
    hasher.update(data);
    hasher.finalize().to_vec()
}

fn ref_keccak_384(data: &[u8]) -> Vec<u8> {
    let mut hasher = Keccak384::new();
    hasher.update(data);
    hasher.finalize().to_vec()
}

fn ref_keccak_512(data: &[u8]) -> Vec<u8> {
    let mut hasher = Keccak512::new();
    hasher.update(data);
    hasher.finalize().to_vec()
}

fn ref_md4(data: &[u8]) -> Vec<u8> {
    let mut hasher = Md4::new();
    hasher.update(data);
    hasher.finalize().to_vec()
}

fn ref_md5(data: &[u8]) -> Vec<u8> {
    let mut hasher = Md5::new();
    hasher.update(data);
    hasher.finalize().to_vec()
}

#[test]
fn sha1() {
    for data in test_data().iter() {
        cmp_fn_results(data, cthash::sha1, ref_sha1);
    }
}

#[test]
fn sha224() {
    for data in test_data().iter() {
        cmp_fn_results(data, cthash::sha2_224, ref_sha224);
    }
}

#[test]
fn sha256() {
    for data in test_data().iter() {
        cmp_fn_results(data, cthash::sha2_256, ref_sha256);
    }
}

#[test]
fn sha384() {
    for data in test_data().iter() {
        cmp_fn_results(data, cthash::sha2_384, ref_sha384);
    }
}

#[test]
fn sha512() {
    for data in test_data().iter() {
        cmp_fn_results(data, cthash::sha2_512, ref_sha512);
    }
}

#[test]
fn sha3_224() {
    for data in test_data().iter() {
        cmp_fn_results(data, cthash::sha3_224, ref_sha3_224);
    }
}

#[test]
fn sha3_256() {
    for data in test_data().iter() {
        cmp_fn_results(data, cthash::sha3_256, ref_sha3_256);
    }
}

#[test]
fn sha3_384() {
    for data in test_data().iter() {
        cmp_fn_results(data, cthash::sha3_384, ref_sha3_384);
    }
}

#[test]
fn sha3_512() {
    for data in test_data().iter() {
        cmp_fn_results(data, cthash::sha3_512, ref_sha3_512);
    }
}

#[test]
fn keccak_224() {
    for data in test_data().iter() {
        cmp_fn_results(data, cthash::keccak_224, ref_keccak_224);
    }
}

#[test]
fn keccak_256() {
    for data in test_data().iter() {
        cmp_fn_results(data, cthash::keccak_256, ref_keccak_256);
    }
}

#[test]
fn keccak_384() {
    for data in test_data().iter() {
        cmp_fn_results(data, cthash::keccak_384, ref_keccak_384);
    }
}

#[test]
fn keccak_512() {
    for data in test_data().iter() {
        cmp_fn_results(data, cthash::keccak_512, ref_keccak_512);
    }
}

#[test]
fn md4() {
    for data in test_data().iter() {
        cmp_fn_results(data, cthash::md4, ref_md4);
    }
}

#[test]
fn md5() {
    for data in test_data().iter() {
        cmp_fn_results(data, cthash::md5, ref_md5);
    }
}
