//! Trusted bindings to the two outside hash primitives the mining core uses.
//! Each digest is named by an uninterpreted function of its inputs alone; the
//! bindings are the only places where those names are given values.

use vstd::prelude::*;

verus! {

/// What KMAC256 with an empty customization string and 32 bytes of output
/// returns for a given key and message; a function of the two alone.
pub uninterp spec fn kmac256_of(key: Seq<u8>, msg: Seq<u8>) -> Seq<u8>;

/// What the 32-byte BLAKE2b digest returns for a given key and message (an
/// empty key selects the unkeyed digest); a function of the two alone.
pub uninterp spec fn blake2b256_of(key: Seq<u8>, msg: Seq<u8>) -> Seq<u8>;

/// Relies on sp800_185::KMac::new_kmac256 / update / finalize: the KMAC256
/// digest of `msg` keyed by `key`, with an empty customization string and 32
/// bytes of output requested from the XOF.
#[verifier::external_body]
pub(crate) fn kmac256(key: &Vec<u8>, msg: &Vec<u8>) -> (r: Vec<u8>)
    ensures
        r@.len() == 32,
        r@ == kmac256_of(key@, msg@),
{
    let mut kmac = sp800_185::KMac::new_kmac256(key.as_slice(), &[]);
    kmac.update(msg.as_slice());
    let mut out = vec![0u8; 32];
    kmac.finalize(&mut out);
    out
}

/// Relies on cryptoxide::hashing::blake2b::ContextDyn::new_keyed / update_mut
/// / finalize_at: the 32-byte BLAKE2b digest of `msg` under `key`; a key may
/// hold at most 64 bytes, and an empty key selects the unkeyed digest.
#[verifier::external_body]
pub(crate) fn blake2b256(key: &Vec<u8>, msg: &Vec<u8>) -> (r: Vec<u8>)
    requires
        key@.len() <= 64,
    ensures
        r@.len() == 32,
        r@ == blake2b256_of(key@, msg@),
{
    let mut ctx = cryptoxide::hashing::blake2b::ContextDyn::new_keyed(32, key.as_slice());
    ctx.update_mut(msg.as_slice());
    let mut out = vec![0u8; 32];
    ctx.finalize_at(&mut out);
    out
}

} // verus!
