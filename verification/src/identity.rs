//! Peer authentication.
//!
//! Without this, the channel is ephemeral-ephemeral with no binding to any
//! identity, and an active attacker sits in the middle of every session while
//! both endpoints report success. The 1942 stack had no equivalent layer at
//! all: nothing stopped an adversary from injecting traffic.

use vstd::prelude::*;
use ed25519_dalek::{Signature, Signer, SigningKey, Verifier, VerifyingKey};
use crate::bytes::{array32, array64};
use crate::entropy::fill_random;
use crate::error::{Error, Result};

verus! {

/// Signature suite. The enum names both suites the protocol can announce;
/// this build carries an implementation of Ed25519 only.
#[derive(Clone, Copy, Debug, PartialEq, Eq, Structural)]
pub enum SigSuite {
    Ed25519,
    MlDsa65,
}

/// A suite's name, as announced in the hello and absorbed into the
/// transcript.
pub open spec fn suite_name(s: SigSuite) -> &'static str {
    match s {
        SigSuite::Ed25519 => "Ed25519",
        SigSuite::MlDsa65 => "ML-DSA-65",
    }
}

/// The suite a name announces, if it names one.
pub open spec fn suite_named(name: Seq<char>) -> Result<SigSuite> {
    if name == "Ed25519"@ {
        Ok(SigSuite::Ed25519)
    } else if name == "ML-DSA-65"@ {
        Ok(SigSuite::MlDsa65)
    } else {
        Err(Error::Auth("unknown signature suite"))
    }
}

/// The error for a suite this build cannot sign or verify with.
pub open spec fn mldsa_unavailable() -> Error {
    Error::BackendUnavailable("ml-dsa-65 (feature `pq`)")
}

impl SigSuite {
    pub fn name(&self) -> (r: &'static str)
        ensures
            r == suite_name(*self),
    {
        match self {
            SigSuite::Ed25519 => "Ed25519",
            SigSuite::MlDsa65 => "ML-DSA-65",
        }
    }

    /// Whether the suite resists a quantum adversary: a property of the
    /// algorithm, not of the build.
    pub fn is_pq(&self) -> (r: bool)
        ensures
            r == (*self is MlDsa65),
    {
        match self {
            SigSuite::Ed25519 => false,
            SigSuite::MlDsa65 => true,
        }
    }

    /// Whether this build can sign and verify with the suite.
    pub fn is_available(&self) -> (r: bool)
        ensures
            r == (*self is Ed25519),
    {
        match self {
            SigSuite::Ed25519 => true,
            SigSuite::MlDsa65 => false,
        }
    }

    /// The suite with this name.
    pub fn from_name(name: &str) -> (r: Result<SigSuite>)
        ensures
            r == suite_named(name@),
    {
        if crate::bytes::same_text(name, "Ed25519") {
            Ok(SigSuite::Ed25519)
        } else if crate::bytes::same_text(name, "ML-DSA-65") {
            Ok(SigSuite::MlDsa65)
        } else {
            Err(Error::Auth("unknown signature suite"))
        }
    }
}

/// The Ed25519 public key of the signing key with this 32-byte seed.
pub uninterp spec fn ed25519_public(seed: Seq<u8>) -> Seq<u8>;

/// The Ed25519 signature over `msg` by the signing key with this seed.
pub uninterp spec fn ed25519_signature(seed: Seq<u8>, msg: Seq<u8>) -> Seq<u8>;

/// Whether 32 bytes decode to an Ed25519 public key.
pub uninterp spec fn ed25519_key_valid(public: Seq<u8>) -> bool;

/// Whether Ed25519 verification of `sig` over `msg` under `public` passes.
pub uninterp spec fn ed25519_accepts(public: Seq<u8>, msg: Seq<u8>, sig: Seq<u8>) -> bool;

/// `SigningKey::from_bytes(seed).verifying_key().to_bytes()`. Claimed: the
/// result is the named public key of the seed.
#[verifier::external_body]
fn ed25519_public_key(seed: &[u8; 32]) -> (r: [u8; 32])
    ensures
        r@ == ed25519_public(seed@),
{
    SigningKey::from_bytes(seed).verifying_key().to_bytes()
}

/// `Signer::sign` on `SigningKey::from_bytes(seed)`, as bytes. Claimed: the
/// result is the named signature, a function of the seed and the message.
#[verifier::external_body]
fn ed25519_sign(seed: &[u8; 32], msg: &[u8]) -> (r: [u8; 64])
    ensures
        r@ == ed25519_signature(seed@, msg@),
{
    SigningKey::from_bytes(seed).sign(msg).to_bytes()
}

/// `VerifyingKey::from_bytes`, reporting whether it succeeded. Claimed: the
/// result is the named validity, and the public key of any seed decodes.
#[verifier::external_body]
fn ed25519_decodes(public: &[u8; 32]) -> (r: bool)
    ensures
        r == ed25519_key_valid(public@),
        forall|seed: Seq<u8>| seed.len() == 32 && public@ == #[trigger] ed25519_public(seed) ==> r,
{
    VerifyingKey::from_bytes(public).is_ok()
}

/// `Verifier::verify` under `VerifyingKey::from_bytes(public)` (which it
/// decodes again). Claimed: the result is the named verdict, and a signature
/// made by a seed verifies under that seed's public key.
#[verifier::external_body]
fn ed25519_verify(public: &[u8; 32], msg: &[u8], sig: &[u8; 64]) -> (r: bool)
    ensures
        r == ed25519_accepts(public@, msg@, sig@),
        forall|seed: Seq<u8>|
            seed.len() == 32 && public@ == #[trigger] ed25519_public(seed) && sig@ == ed25519_signature(seed, msg@)
                ==> r,
{
    match VerifyingKey::from_bytes(public) {
        Ok(vk) => vk.verify(msg, &Signature::from_bytes(sig)).is_ok(),
        Err(_) => false,
    }
}

/// A long-term signing identity, held as the seed of its Ed25519 key.
pub struct Identity {
    seed: [u8; 32],
}

impl Identity {
    /// The seed the identity signs with.
    pub closed spec fn secret(&self) -> Seq<u8> {
        self.seed@
    }

    /// An identity's seed is 32 bytes.
    pub proof fn lemma_seed_length(&self)
        ensures
            self.secret().len() == 32,
    {
    }

    /// A fresh identity from the operating system's randomness.
    pub fn generate() -> (r: Self)
        ensures
            r.secret().len() == 32,
    {
        let mut seed = [0u8; 32];
        fill_random(&mut seed);
        Identity { seed }
    }

    /// A fresh identity under `suite`, when this build carries it.
    pub fn generate_with(suite: SigSuite) -> (r: Result<Self>)
        ensures
            suite is Ed25519 ==> (r matches Ok(id) && id.secret().len() == 32),
            suite is MlDsa65 ==> r == Err::<Identity, Error>(mldsa_unavailable()),
    {
        match suite {
            SigSuite::Ed25519 => Ok(Identity::generate()),
            SigSuite::MlDsa65 => Err(Error::BackendUnavailable("ml-dsa-65 (feature `pq`)")),
        }
    }

    /// The Ed25519 identity with this seed: deterministic, so a run that
    /// depends on it reproduces from the seed alone.
    pub fn from_ed25519_seed(seed: [u8; 32]) -> (r: Self)
        ensures
            r.secret() == seed@,
    {
        Identity { seed }
    }

    pub fn public(&self) -> (r: Vec<u8>)
        ensures
            r@ == ed25519_public(self.secret()),
            r@.len() == 32,
    {
        let pk = ed25519_public_key(&self.seed);
        let r = crate::bytes::copy_of(&pk);
        r
    }

    pub fn sign(&self, msg: &[u8]) -> (r: Vec<u8>)
        ensures
            r@ == ed25519_signature(self.secret(), msg@),
            r@.len() == 64,
    {
        let sig = ed25519_sign(&self.seed, msg);
        crate::bytes::copy_of(&sig)
    }

    pub fn suite(&self) -> (r: SigSuite)
        ensures
            r == SigSuite::Ed25519,
    {
        SigSuite::Ed25519
    }
}

/// What `verify` reports: each length and the key's encoding are checked
/// before the signature itself, and the first failure names itself.
pub open spec fn verify_outcome(public: Seq<u8>, msg: Seq<u8>, sig: Seq<u8>) -> Result<()> {
    if public.len() != 32 {
        Err(Error::Auth("bad identity key length"))
    } else if !ed25519_key_valid(public) {
        Err(Error::Auth("malformed identity key"))
    } else if sig.len() != 64 {
        Err(Error::Auth("bad signature length"))
    } else if !ed25519_accepts(public, msg, sig) {
        Err(Error::Auth("signature rejected"))
    } else {
        Ok(())
    }
}

/// What verifying under an announced suite reports: Ed25519 as `verify`
/// does; a suite this build does not carry, that it is unavailable.
pub open spec fn suite_verify_outcome(suite: SigSuite, public: Seq<u8>, msg: Seq<u8>, sig: Seq<u8>) -> Result<()> {
    match suite {
        SigSuite::Ed25519 => verify_outcome(public, msg, sig),
        SigSuite::MlDsa65 => Err(mldsa_unavailable()),
    }
}

/// Verify a signature under the suite the signer announced.
pub fn verify_with(suite: SigSuite, public: &[u8], msg: &[u8], sig: &[u8]) -> (r: Result<()>)
    ensures
        r == suite_verify_outcome(suite, public@, msg@, sig@),
        forall|seed: Seq<u8>|
            suite is Ed25519 && seed.len() == 32 && public@.len() == 32 && sig@.len() == 64
                && public@ == #[trigger] ed25519_public(seed)
                && sig@ == ed25519_signature(seed, msg@) ==> r is Ok,
{
    match suite {
        SigSuite::Ed25519 => verify(public, msg, sig),
        SigSuite::MlDsa65 => Err(Error::BackendUnavailable("ml-dsa-65 (feature `pq`)")),
    }
}

/// Verify a signature against a raw public key. A signature an identity made
/// over `msg` always verifies under that identity's public key.
pub fn verify(public: &[u8], msg: &[u8], sig: &[u8]) -> (r: Result<()>)
    ensures
        r == verify_outcome(public@, msg@, sig@),
        forall|seed: Seq<u8>|
            seed.len() == 32 && public@.len() == 32 && sig@.len() == 64 && public@ == #[trigger] ed25519_public(seed)
                && sig@ == ed25519_signature(seed, msg@) ==> r is Ok,
{
    if public.len() != 32 {
        return Err(Error::Auth("bad identity key length"));
    }
    let pk = array32(public);
    if !ed25519_decodes(&pk) {
        return Err(Error::Auth("malformed identity key"));
    }
    if sig.len() != 64 {
        return Err(Error::Auth("bad signature length"));
    }
    let sb = array64(sig);
    if !ed25519_verify(&pk, msg, &sb) {
        return Err(Error::Auth("signature rejected"));
    }
    Ok(())
}

} // verus!
