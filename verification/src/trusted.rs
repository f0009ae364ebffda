//! Trusted bindings to outside crates.
//!
//! Each wrapper here makes one outside call; its contract states what that
//! call's own source and documentation promise, and nothing more.  Results
//! that are functions of the arguments alone but too large to state are given
//! names ([`wyhash_of`], [`b64_of`]); random draws get no promise at all.

use base64::Engine;
use vstd::prelude::*;

verus! {

/// The 64-bit wyhash of `data` under `seed`: a function of the seed and the
/// bytes alone.
pub uninterp spec fn wyhash_of(seed: u64, data: Seq<u8>) -> u64;

/// The standard-alphabet base64 text of `data`: a function of the bytes
/// alone.
pub uninterp spec fn b64_of(data: Seq<u8>) -> Seq<char>;

/// Relies on rand::random: an arbitrary 64-bit draw from the thread
/// generator.  Nothing can be promised of the value.
#[verifier::external_body]
pub fn random_u64() -> u64 {
    rand::random()
}

/// Relies on rand::random: an arbitrary byte.  Nothing can be promised of
/// the value.
#[verifier::external_body]
pub fn random_u8() -> u8 {
    rand::random()
}

/// Relies on rand::random: an arbitrary signed 64-bit draw.  Nothing can be
/// promised of the value.
#[verifier::external_body]
pub fn random_i64() -> i64 {
    rand::random()
}

/// Relies on wyhash's `WyHash` hasher: seeding, writing `data` and finishing
/// computes a digest that depends on the seed and the bytes alone.
#[verifier::external_body]
pub fn wyhash64(seed: u64, data: &[u8]) -> (r: u64)
    ensures
        r == wyhash_of(seed, data@),
{
    let mut h = wyhash::WyHash::with_seed(seed);
    std::hash::Hasher::write(&mut h, data);
    std::hash::Hasher::finish(&h)
}

/// Relies on base64's standard-alphabet, padded engine: the text depends on
/// the bytes alone, and empty input encodes to empty text.
#[verifier::external_body]
pub fn base64_encode(data: &[u8]) -> (r: String)
    ensures
        r@ == b64_of(data@),
        data@.len() == 0 ==> r@.len() == 0,
{
    base64::engine::general_purpose::STANDARD.encode(data)
}

/// Relies on std's str::from_utf8: it succeeds exactly on valid UTF-8 and
/// yields the decoded text, per the UTF-8 model vstd itself uses for `str`.
#[verifier::external_body]
pub fn bytes_to_string(data: &[u8]) -> (r: Option<String>)
    ensures
        match r {
            Some(s) => vstd::utf8::valid_utf8(data@) && s@ == vstd::utf8::decode_utf8(data@),
            None => !vstd::utf8::valid_utf8(data@),
        },
{
    match core::str::from_utf8(data) {
        Ok(s) => Some(s.to_string()),
        Err(_) => None,
    }
}

} // verus!
