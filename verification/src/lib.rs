//! Verified one-shot implementations of MD4, MD5, SHA-1, the SHA-2 family,
//! the SHA-3 family and the legacy Keccak variants.
//!
//! Every digest function is executable code whose result is pinned, byte for
//! byte, to a specification function over the input's byte sequence.  The
//! specifications spell out the padding rules, the compression rounds and
//! the serialization order of each algorithm, and public proof functions
//! state the padding-injectivity and truncation laws.

pub mod block;
pub mod md4;
pub mod md5;
pub mod sha1;
pub mod sha2;
pub mod sha3;
pub mod words;

pub use md4::md4;
pub use md5::md5;
pub use sha1::sha1;
pub use sha2::sha2_224;
pub use sha2::sha2_256;
pub use sha2::sha2_384;
pub use sha2::sha2_512;
pub use sha3::keccak_224;
pub use sha3::keccak_256;
pub use sha3::keccak_384;
pub use sha3::keccak_512;
pub use sha3::sha3_224;
pub use sha3::sha3_256;
pub use sha3::sha3_384;
pub use sha3::sha3_512;
