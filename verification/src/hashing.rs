//! Personalized hash accumulators and fixed digest primitives.
//!
//! The digest engine keeps several BLAKE2b-256 accumulators running at
//! once, each initialized with its own 16-byte personalization tag. The
//! compression itself is done by outside crates; this module gives each
//! outside call a contract over named digest functions
//! ([`blake2b256`], [`sha256_of`], [`ripemd160_of`]), and the rest of the
//! crate is verified against those names.

use vstd::prelude::*;

verus! {

#[verifier::external_type_specification]
#[verifier::external_body]
pub struct ExBlake2bState(blake2b_simd::State);

/// Whether a BLAKE2b accumulator is configured the way this engine uses
/// it: keyless, sequential, with a 32-byte output length. Only such a
/// state may be finalized here — `finalize` returns as many bytes as the
/// state was configured with.
pub uninterp spec fn blake2b_valid(st: blake2b_simd::State) -> bool;

/// The personalization tag a BLAKE2b accumulator was initialized with.
pub uninterp spec fn blake2b_perso(st: blake2b_simd::State) -> Seq<u8>;

/// The bytes absorbed by a BLAKE2b accumulator since its initialization.
pub uninterp spec fn blake2b_absorbed(st: blake2b_simd::State) -> Seq<u8>;

/// The 32-byte BLAKE2b digest of `data` under personalization `perso`.
pub uninterp spec fn blake2b256(perso: Seq<u8>, data: Seq<u8>) -> Seq<u8>;

/// The 32-byte SHA-256 digest of `data`.
pub uninterp spec fn sha256_of(data: Seq<u8>) -> Seq<u8>;

/// The 20-byte RIPEMD-160 digest of `data`.
pub uninterp spec fn ripemd160_of(data: Seq<u8>) -> Seq<u8>;

/// Relies on blake2b_simd::Params: `hash_length(32)` and `personal(tag)`
/// configure a fresh accumulator; `to_state` starts it with nothing
/// absorbed.
#[verifier::external_body]
pub(crate) fn blake2b_init(perso: &[u8; 16]) -> (st: blake2b_simd::State)
    ensures
        blake2b_valid(st),
        blake2b_perso(st) == perso@,
        blake2b_absorbed(st) == Seq::<u8>::empty(),
{
    blake2b_simd::Params::new().hash_length(32).personal(perso).to_state()
}

/// Relies on blake2b_simd::State::update: absorbs `data` after everything
/// absorbed so far, leaving the personalization untouched.
#[verifier::external_body]
pub(crate) fn blake2b_update(st: &mut blake2b_simd::State, data: &[u8])
    ensures
        blake2b_valid(*final(st)) == blake2b_valid(*old(st)),
        blake2b_perso(*final(st)) == blake2b_perso(*old(st)),
        blake2b_absorbed(*final(st)) == blake2b_absorbed(*old(st)) + data@,
{
    st.update(data);
}

/// Relies on blake2b_simd::State::finalize and Hash::as_bytes: the digest
/// is a function of the personalization and of the absorbed bytes alone,
/// and has the configured length — 32 bytes for every state this engine
/// configures, which `requires` demands.
#[verifier::external_body]
pub(crate) fn blake2b_finalize(st: &blake2b_simd::State) -> (digest: Vec<u8>)
    requires
        blake2b_valid(*st),
    ensures
        digest@ == blake2b256(blake2b_perso(*st), blake2b_absorbed(*st)),
        digest@.len() == 32,
{
    st.finalize().as_bytes().to_vec()
}

/// Relies on sha2::Sha256::digest (the `Digest` trait): a 32-byte digest
/// that depends on the input bytes alone.
#[verifier::external_body]
pub(crate) fn sha256(data: &[u8]) -> (digest: Vec<u8>)
    ensures
        digest@ == sha256_of(data@),
        digest@.len() == 32,
{
    <sha2::Sha256 as sha2::Digest>::digest(data).to_vec()
}

/// Relies on ripemd::Ripemd160::digest (the `Digest` trait): a 20-byte
/// digest that depends on the input bytes alone.
#[verifier::external_body]
pub(crate) fn ripemd160(data: &[u8]) -> (digest: Vec<u8>)
    ensures
        digest@ == ripemd160_of(data@),
        digest@.len() == 20,
{
    <ripemd::Ripemd160 as ripemd::Digest>::digest(data).to_vec()
}

/// RIPEMD-160 over SHA-256: the 20-byte key-hash used by transparent
/// addresses.
pub fn hash160(public_key: &[u8]) -> (r: Result<Vec<u8>, crate::error::AppSW>)
    ensures
        match r {
            Ok(h) => {
                &&& h@ == ripemd160_of(sha256_of(public_key@))
                &&& h@.len() == 20
            },
            Err(_) => false,
        },
{
    let sha = sha256(public_key);
    let h = ripemd160(sha.as_slice());
    Ok(h)
}

} // verus!
