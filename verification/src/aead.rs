//! Authenticated encryption. Two suites, one interface.

use vstd::prelude::*;
use aes_gcm::aead::{Aead, KeyInit, Payload};
use aes_gcm::Aes256Gcm;
use chacha20poly1305::ChaCha20Poly1305;
use crate::error::{Error, Result};

verus! {

#[derive(Clone, Copy, Debug, PartialEq, Eq, Structural)]
pub enum Suite {
    Aes256Gcm,
    ChaCha20Poly1305,
}

impl Suite {
    pub fn name(&self) -> (r: &'static str)
        ensures
            r == (match self {
                Suite::Aes256Gcm => "AES-256-GCM",
                Suite::ChaCha20Poly1305 => "ChaCha20-Poly1305",
            }),
    {
        match self {
            Suite::Aes256Gcm => "AES-256-GCM",
            Suite::ChaCha20Poly1305 => "ChaCha20-Poly1305",
        }
    }
}

/// The suite the console names `name`: ChaCha20-Poly1305 for `"chacha"`,
/// AES-256-GCM for anything else.
pub open spec fn suite_named_spec(name: Seq<char>) -> Suite {
    if name == "chacha"@ {
        Suite::ChaCha20Poly1305
    } else {
        Suite::Aes256Gcm
    }
}

/// The suite the console names `name`.
pub fn suite_named(name: &str) -> (r: Suite)
    ensures
        r == suite_named_spec(name@),
{
    if crate::bytes::same_text(name, "chacha") {
        Suite::ChaCha20Poly1305
    } else {
        Suite::Aes256Gcm
    }
}

pub const NONCE_LEN: usize = 12;

pub const TAG_LEN: usize = 16;

/// The longest plaintext, and the longest associated data, AES-256-GCM accepts.
pub const AES_GCM_MAX: u64 = 0x10_0000_0000;

/// ChaCha20-Poly1305 refuses a plaintext of this many 64-byte blocks or more.
pub const CHACHA_MAX_BLOCKS: u64 = 0xFFFF_FFFF;

/// The plaintext lengths on which ChaCha20-Poly1305 runs out of keystream
/// after passing its own length check: 2^32 - 2 whole 64-byte blocks and a
/// partial one. Block 0 of the keystream keys Poly1305, so only 2^32 - 2
/// blocks remain for the message, and the cipher panics on the last partial
/// one.
pub open spec fn chacha_overruns(len: nat) -> bool {
    len / 64 == CHACHA_MAX_BLOCKS - 1 && len % 64 != 0
}

/// `suite` panics sealing (or opening an authentic ciphertext of) a
/// plaintext of this length.
pub open spec fn overruns(suite: Suite, pt_len: nat) -> bool {
    suite is ChaCha20Poly1305 && chacha_overruns(pt_len)
}

/// `suite` may panic opening a ciphertext of this length (tag included).
pub open spec fn ct_overruns(suite: Suite, ct_len: nat) -> bool {
    ct_len >= TAG_LEN && overruns(suite, (ct_len - TAG_LEN) as nat)
}

/// Whether `suite` would run out of keystream on a plaintext of `len` bytes,
/// so that a caller can refuse such a message before sealing it.
pub fn keystream_overruns(suite: Suite, len: usize) -> (r: bool)
    ensures
        r == overruns(suite, len as nat),
{
    match suite {
        Suite::Aes256Gcm => false,
        Suite::ChaCha20Poly1305 => len / 64 == 0xFFFF_FFFE && len % 64 != 0,
    }
}

/// The AES-256-GCM ciphertext (body then tag) of `pt` under `key` and `nonce`
/// with `aad` bound in.
pub uninterp spec fn aes256gcm_sealed(key: Seq<u8>, nonce: Seq<u8>, aad: Seq<u8>, pt: Seq<u8>) -> Seq<u8>;

/// What AES-256-GCM decryption of `ct` gives: the plaintext, or nothing when
/// the tag does not verify.
pub uninterp spec fn aes256gcm_opened(key: Seq<u8>, nonce: Seq<u8>, aad: Seq<u8>, ct: Seq<u8>) -> Option<Seq<u8>>;

/// The ChaCha20-Poly1305 ciphertext (body then tag) of `pt`.
pub uninterp spec fn chacha20poly1305_sealed(key: Seq<u8>, nonce: Seq<u8>, aad: Seq<u8>, pt: Seq<u8>) -> Seq<u8>;

/// What ChaCha20-Poly1305 decryption of `ct` gives.
pub uninterp spec fn chacha20poly1305_opened(key: Seq<u8>, nonce: Seq<u8>, aad: Seq<u8>, ct: Seq<u8>) -> Option<Seq<u8>>;

/// Whether `suite` will seal a plaintext of this length with this much
/// associated data.
pub open spec fn seal_accepts(suite: Suite, pt_len: nat, aad_len: nat) -> bool {
    match suite {
        Suite::Aes256Gcm => pt_len <= AES_GCM_MAX && aad_len <= AES_GCM_MAX,
        Suite::ChaCha20Poly1305 => pt_len / 64 < CHACHA_MAX_BLOCKS,
    }
}

/// The ciphertext `seal` produces.
pub open spec fn sealed(suite: Suite, key: Seq<u8>, nonce: Seq<u8>, aad: Seq<u8>, pt: Seq<u8>) -> Seq<u8> {
    match suite {
        Suite::Aes256Gcm => aes256gcm_sealed(key, nonce, aad, pt),
        Suite::ChaCha20Poly1305 => chacha20poly1305_sealed(key, nonce, aad, pt),
    }
}

/// What `open` makes of a ciphertext.
pub open spec fn opened(suite: Suite, key: Seq<u8>, nonce: Seq<u8>, aad: Seq<u8>, ct: Seq<u8>) -> Option<Seq<u8>> {
    match suite {
        Suite::Aes256Gcm => aes256gcm_opened(key, nonce, aad, ct),
        Suite::ChaCha20Poly1305 => chacha20poly1305_opened(key, nonce, aad, ct),
    }
}

/// `Aes256Gcm::encrypt` (through `aead::Aead`). Claimed: it succeeds exactly
/// when the plaintext and the associated data are each at most 2^36 bytes,
/// and then returns the ciphertext followed by a 16-byte tag, so 16 bytes
/// longer than the plaintext. Its bytes are not stated beyond their name.
#[verifier::external_body]
fn aes256gcm_encrypt(key: &[u8; 32], nonce: &[u8; 12], aad: &[u8], pt: &[u8]) -> (r: Option<Vec<u8>>)
    requires
        pt@.len() + 16 <= usize::MAX,
    ensures
        r is Some <==> (pt@.len() <= AES_GCM_MAX && aad@.len() <= AES_GCM_MAX),
        r matches Some(c) ==> c@ == aes256gcm_sealed(key@, nonce@, aad@, pt@),
        r matches Some(c) ==> c@.len() == pt@.len() + 16,
{
    let cipher = Aes256Gcm::new(aes_gcm::Key::<Aes256Gcm>::from_slice(key));
    cipher.encrypt(aes_gcm::Nonce::from_slice(nonce), Payload { msg: pt, aad }).ok()
}

/// `Aes256Gcm::decrypt` (through `aead::Aead`). Claimed: its result is a
/// function of its arguments, and decrypting what `encrypt` produced under the
/// same key, nonce and associated data gives the plaintext back.
#[verifier::external_body]
fn aes256gcm_decrypt(key: &[u8; 32], nonce: &[u8; 12], aad: &[u8], ct: &[u8]) -> (r: Option<Vec<u8>>)
    ensures
        r is Some <==> aes256gcm_opened(key@, nonce@, aad@, ct@) is Some,
        r matches Some(p) ==> aes256gcm_opened(key@, nonce@, aad@, ct@) == Some(p@),
        forall|p: Seq<u8>|
            ct@ == #[trigger] aes256gcm_sealed(key@, nonce@, aad@, p) && p.len() <= AES_GCM_MAX
                && aad@.len() <= AES_GCM_MAX ==> r is Some && r.unwrap()@ == p,
{
    let cipher = Aes256Gcm::new(aes_gcm::Key::<Aes256Gcm>::from_slice(key));
    cipher.decrypt(aes_gcm::Nonce::from_slice(nonce), Payload { msg: ct, aad }).ok()
}

/// `ChaCha20Poly1305::encrypt` (through `aead::Aead`). Claimed: on a
/// plaintext that does not run out of keystream (the lengths on which the
/// crate panics are excluded), it succeeds exactly when the plaintext needs
/// at most 2^32 - 2 blocks of 64 bytes, and then returns the ciphertext
/// followed by a 16-byte tag.
#[verifier::external_body]
fn chacha20poly1305_encrypt(key: &[u8; 32], nonce: &[u8; 12], aad: &[u8], pt: &[u8]) -> (r: Option<Vec<u8>>)
    requires
        pt@.len() + 16 <= usize::MAX,
        !chacha_overruns(pt@.len()),
    ensures
        r is Some <==> (pt@.len() + 63) / 64 <= CHACHA_MAX_BLOCKS - 1,
        r matches Some(c) ==> c@ == chacha20poly1305_sealed(key@, nonce@, aad@, pt@),
        r matches Some(c) ==> c@.len() == pt@.len() + 16,
{
    let cipher = ChaCha20Poly1305::new(chacha20poly1305::Key::from_slice(key));
    cipher.encrypt(chacha20poly1305::Nonce::from_slice(nonce), Payload { msg: pt, aad }).ok()
}

/// `ChaCha20Poly1305::decrypt` (through `aead::Aead`). Claimed, on a
/// ciphertext whose message part does not run out of keystream (the lengths
/// on which the crate may panic are excluded): its result is a function of
/// its arguments, and decrypting what `encrypt` produced under the same key,
/// nonce and associated data gives the plaintext back.
#[verifier::external_body]
fn chacha20poly1305_decrypt(key: &[u8; 32], nonce: &[u8; 12], aad: &[u8], ct: &[u8]) -> (r: Option<Vec<u8>>)
    requires
        !ct_overruns(Suite::ChaCha20Poly1305, ct@.len()),
    ensures
        r is Some <==> chacha20poly1305_opened(key@, nonce@, aad@, ct@) is Some,
        r matches Some(p) ==> chacha20poly1305_opened(key@, nonce@, aad@, ct@) == Some(p@),
        forall|p: Seq<u8>|
            ct@ == #[trigger] chacha20poly1305_sealed(key@, nonce@, aad@, p) && p.len() / 64 < CHACHA_MAX_BLOCKS
                ==> r is Some && r.unwrap()@ == p,
{
    let cipher = ChaCha20Poly1305::new(chacha20poly1305::Key::from_slice(key));
    cipher.decrypt(chacha20poly1305::Nonce::from_slice(nonce), Payload { msg: ct, aad }).ok()
}

/// Encrypt `pt` under `suite`, binding `aad`. Fails only on a plaintext (or,
/// for AES-GCM, associated data) longer than the suite allows.
pub fn seal(suite: Suite, key: &[u8; 32], nonce: &[u8; NONCE_LEN], aad: &[u8], pt: &[u8]) -> (r: Result<Vec<u8>>)
    requires
        pt@.len() + 16 <= usize::MAX,
        !overruns(suite, pt@.len()),
    ensures
        r is Ok <==> seal_accepts(suite, pt@.len(), aad@.len()),
        r matches Err(e) ==> e == Error::Aead,
        r matches Ok(c) ==> c@ == sealed(suite, key@, nonce@, aad@, pt@) && c@.len() == pt@.len() + TAG_LEN,
{
    let c = match suite {
        Suite::Aes256Gcm => aes256gcm_encrypt(key, nonce, aad, pt),
        Suite::ChaCha20Poly1305 => chacha20poly1305_encrypt(key, nonce, aad, pt),
    };
    match c {
        Some(c) => Ok(c),
        None => Err(Error::Aead),
    }
}

/// Decrypt and authenticate `ct`. Whatever `seal` produced under the same
/// suite, key, nonce and associated data opens to the plaintext it sealed.
pub fn open(suite: Suite, key: &[u8; 32], nonce: &[u8; NONCE_LEN], aad: &[u8], ct: &[u8]) -> (r: Result<Vec<u8>>)
    requires
        !ct_overruns(suite, ct@.len()),
    ensures
        r is Ok <==> opened(suite, key@, nonce@, aad@, ct@) is Some,
        r matches Err(e) ==> e == Error::Aead,
        r matches Ok(p) ==> opened(suite, key@, nonce@, aad@, ct@) == Some(p@),
        forall|p: Seq<u8>|
            ct@ == #[trigger] sealed(suite, key@, nonce@, aad@, p) && seal_accepts(suite, p.len(), aad@.len())
                ==> r is Ok && r.unwrap()@ == p,
{
    let p = match suite {
        Suite::Aes256Gcm => aes256gcm_decrypt(key, nonce, aad, ct),
        Suite::ChaCha20Poly1305 => chacha20poly1305_decrypt(key, nonce, aad, ct),
    };
    match p {
        Some(p) => Ok(p),
        None => Err(Error::Aead),
    }
}

} // verus!
