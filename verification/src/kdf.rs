//! HKDF-SHA256 extract-and-expand.

use vstd::prelude::*;
use hkdf::Hkdf;
use sha2::Sha256;
use crate::bytes::text;
use crate::error::{Error, Result};

verus! {

/// The salt every derivation in the stack uses.
pub const SALT: &'static str = "code-talker/v1";

/// HKDF-SHA256 refuses to produce more than 255 blocks of 32 bytes.
pub const MAX_OKM: usize = 8160;

/// HKDF-SHA256 output keying material: `len` bytes expanded from the key
/// extracted out of `ikm` under `salt`, with `info` as context.
pub uninterp spec fn hkdf_sha256(salt: Seq<u8>, ikm: Seq<u8>, info: Seq<u8>, len: nat) -> Seq<u8>;

/// The HKDF-SHA256 pseudorandom key extracted from `ikm` under `salt`.
pub uninterp spec fn hkdf_sha256_prk(salt: Seq<u8>, ikm: Seq<u8>) -> Seq<u8>;

/// The bytes of the stack's salt.
pub open spec fn salt() -> Seq<u8> {
    text(SALT)
}

/// `len` bytes derived from `ikm` and `info` under the stack's salt.
pub open spec fn derived(ikm: Seq<u8>, info: Seq<u8>, len: nat) -> Seq<u8> {
    hkdf_sha256(salt(), ikm, info, len)
}

/// `Hkdf::<Sha256>::new` followed by `expand` into `okm`. Claimed: it succeeds
/// exactly when `okm` is at most 8160 bytes, and then fills `okm` with the
/// named output; on failure `okm` is left as it was (the length is checked
/// before anything is written).
#[verifier::external_body]
fn hkdf_sha256_expand(salt: &[u8], ikm: &[u8], info: &[u8], okm: &mut [u8]) -> (ok: bool)
    ensures
        ok == (old(okm)@.len() <= MAX_OKM),
        ok ==> final(okm)@ == hkdf_sha256(salt@, ikm@, info@, old(okm)@.len()),
        !ok ==> final(okm)@ == old(okm)@,
{
    Hkdf::<Sha256>::new(Some(salt), ikm).expand(info, okm).is_ok()
}

/// `Hkdf::<Sha256>::extract`, the pseudorandom key copied out. Claimed: the
/// result is the named key.
#[verifier::external_body]
fn hkdf_sha256_extract(salt: &[u8], ikm: &[u8]) -> (prk: [u8; 32])
    ensures
        prk@ == hkdf_sha256_prk(salt@, ikm@),
{
    let (prk, _) = Hkdf::<Sha256>::extract(Some(salt), ikm);
    let mut out = [0u8; 32];
    out.copy_from_slice(&prk);
    out
}

/// Derive `out.len()` bytes of keying material from a shared secret.
pub fn derive(ikm: &[u8], info: &[u8], out: &mut [u8]) -> (r: Result<()>)
    ensures
        r is Ok <==> old(out)@.len() <= MAX_OKM,
        r matches Err(e) ==> e == Error::Kdf && final(out)@ == old(out)@,
        r is Ok ==> final(out)@ == derived(ikm@, info@, old(out)@.len()),
{
    derive_with_salt(SALT.as_bytes(), ikm, info, out)
}

/// Derive with an explicit salt. Used by the RFC 5869 known-answer tests.
pub fn derive_with_salt(salt: &[u8], ikm: &[u8], info: &[u8], out: &mut [u8]) -> (r: Result<()>)
    ensures
        r is Ok <==> old(out)@.len() <= MAX_OKM,
        r matches Err(e) ==> e == Error::Kdf && final(out)@ == old(out)@,
        r is Ok ==> final(out)@ == hkdf_sha256(salt@, ikm@, info@, old(out)@.len()),
{
    if hkdf_sha256_expand(salt, ikm, info, out) {
        Ok(())
    } else {
        Err(Error::Kdf)
    }
}

/// The extract step, so tests can check the PRK against published vectors.
pub fn extract(salt: &[u8], ikm: &[u8]) -> (prk: [u8; 32])
    ensures
        prk@ == hkdf_sha256_prk(salt@, ikm@),
{
    hkdf_sha256_extract(salt, ikm)
}

/// 32 bytes derived from `ikm` and `info` under the stack's salt; the one
/// shape of derivation the key schedule uses, which cannot fail.
pub fn derive32(ikm: &[u8], info: &[u8]) -> (r: [u8; 32])
    ensures
        r@ == derived(ikm@, info@, 32),
{
    let mut out = [0u8; 32];
    let res = derive(ikm, info, &mut out);
    assert(res is Ok);
    out
}

} // verus!
