use std::collections::hash_map::DefaultHasher;
use std::hash::BuildHasher;
use std::hash::BuildHasherDefault;
use vstd::arithmetic::power::pow;
use vstd::prelude::*;
use vstd::utf8::encode_utf8;

verus! {

/// The ways an operation of the filter can fail.
#[derive(Debug, Clone, Copy, PartialEq, Eq)]
pub enum FilterError {
    /// A size or a hash count of zero was asked for.
    InvalidParameter,
    /// The item could not be encoded to bytes for the wide hash.
    SerializationError,
}

/// The error that bincode reports when it cannot encode a value.
#[verifier::external_type_specification]
#[verifier::external_body]
pub struct ExBincodeErrorKind(bincode::ErrorKind);

/// What std's `DefaultHasher` (with its fixed keys) yields after hashing
/// the string `item` and then the integer `seed`.
pub uninterp spec fn default_hash_of(item: Seq<char>, seed: usize) -> u64;

/// Bincode's default encoding of a string: the length of its UTF-8 bytes
/// as eight little-endian bytes, then those bytes.
pub open spec fn bincode_encoding_of(item: Seq<char>) -> Seq<u8> {
    let utf8 = encode_utf8(item);
    Seq::new(8, |i: int| ((utf8.len() as int / pow(256, i as nat)) % 256) as u8) + utf8
}

/// The two halves of MurmurHash3 (x64, 128-bit) of `bytes` under `seed`.
pub uninterp spec fn murmur3_x64_128_of(bytes: Seq<u8>, seed: u32) -> (u64, u64);

/// The 128-bit digest of `bytes`: MurmurHash3 with seed 0, high half first.
pub open spec fn wide_digest_of(bytes: Seq<u8>) -> u128 {
    let halves = murmur3_x64_128_of(bytes, 0);
    ((halves.0 as u128) * 0x1_0000_0000_0000_0000u128 + (halves.1 as u128)) as u128
}

/// Position that probe number `seed` of `item` selects among `size` bits.
pub open spec fn slot(item: Seq<char>, seed: nat, size: nat) -> nat {
    (default_hash_of(item, seed as usize) as nat) % size
}

/// Relies on std's `BuildHasher::hash_one` over `BuildHasherDefault<DefaultHasher>`:
/// hashes the pair `(item, seed)` with a `DefaultHasher::new()`, whose keys are
/// fixed, so the result depends on the two values alone.
#[verifier::external_body]
fn default_hash(item: &str, seed: usize) -> (r: u64)
    ensures
        r == default_hash_of(item@, seed),
{
    BuildHasherDefault::<DefaultHasher>::default().hash_one((item, seed))
}

/// Relies on `bincode::serialize`. Its default options set no size limit, and a
/// string is written as its `u64` byte length (fixed-width, little-endian) and
/// its bytes into a `Vec`, so encoding a string always succeeds.
#[verifier::external_body]
fn bincode_serialize(item: &str) -> (r: Result<Vec<u8>, bincode::Error>)
    ensures
        r is Ok,
        r is Ok ==> r->Ok_0@ == bincode_encoding_of(item@),
{
    bincode::serialize(item)
}

/// Relies on `mur3::murmurhash3_x64_128`: the two 64-bit halves of the digest.
#[verifier::external_body]
fn murmur3_x64_128(bytes: &[u8], seed: u32) -> (r: (u64, u64))
    ensures
        r == murmur3_x64_128_of(bytes@, seed),
{
    mur3::murmurhash3_x64_128(bytes, seed)
}

/// The position among `size` bits that probe `seed` of `item` selects.
pub(crate) fn slot_of(item: &str, seed: usize, size: usize) -> (r: usize)
    requires
        size > 0,
    ensures
        r as nat == slot(item@, seed as nat, size as nat),
        r < size,
{
    let h = default_hash(item, seed);
    (h % (size as u64)) as usize
}

/// Source of the digests the filter is built on.
pub struct CustomHasher;

impl CustomHasher {
    /// The 128-bit MurmurHash3 digest of bytes already encoded.
    pub fn wide_digest(&self, bytes: &[u8]) -> (r: u128)
        ensures
            r == wide_digest_of(bytes@),
    {
        let (high, low) = murmur3_x64_128(bytes, 0);
        let r = ((high as u128) << 64u128) | (low as u128);
        assert(((high as u128) << 64u128) | (low as u128) == ((high as u128) * 0x1_0000_0000_0000_0000u128
            + (low as u128)) as u128) by (bit_vector);
        r
    }

    /// Encodes `item` with bincode and returns its 128-bit MurmurHash3 digest.
    /// A string always encodes; had encoding failed, the failure would be
    /// reported as `SerializationError`, never hashed in part.
    pub fn hash_with_murmur3(&self, item: &str) -> (r: Result<u128, FilterError>)
        ensures
            r == Ok::<u128, FilterError>(wide_digest_of(bincode_encoding_of(item@))),
    {
        match bincode_serialize(item) {
            Ok(bytes) => Ok(self.wide_digest(bytes.as_slice())),
            Err(_) => Err(FilterError::SerializationError),
        }
    }

    /// The fast seeded hash: `DefaultHasher` over `item`, then `seed`.
    pub fn hash_with_default(&self, item: &str, seed: usize) -> (r: usize)
        ensures
            r == default_hash_of(item@, seed) as usize,
    {
        default_hash(item, seed) as usize
    }
}

} // verus!
