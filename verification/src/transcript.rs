//! Handshake transcript.
//!
//! Every byte that crosses the wire is absorbed here, and the resulting hash is
//! both signed by the responder and bound into the AEAD as associated data.
//! That binding is what stops an active attacker from splicing messages from
//! two sessions together: the transcript would differ and the tag would fail.
//!
//! The transcript keeps the bytes it has absorbed and hashes them when asked,
//! which is the same digest an incremental SHA-256 over the same bytes gives.

use vstd::prelude::*;
use sha2::{Digest, Sha256};
use crate::bytes::{be32, be32_value, push_all, push_be32, text, lemma_be32_roundtrip};

verus! {

/// The SHA-256 digest of `data`.
pub uninterp spec fn sha256(data: Seq<u8>) -> Seq<u8>;

/// `sha2::Sha256::digest`, copied into an array. Claimed: the result is the
/// named digest of the input.
#[verifier::external_body]
fn sha256_digest(data: &[u8]) -> (r: [u8; 32])
    ensures
        r@ == sha256(data@),
{
    let d = Sha256::digest(data);
    let mut out = [0u8; 32];
    out.copy_from_slice(&d);
    out
}

/// The domain separator every transcript starts with.
pub const TRANSCRIPT_TAG: &'static str = "code-talker/transcript/v1";

/// One length-prefixed field: the length as a big-endian `u32`, then the bytes.
pub open spec fn field(data: Seq<u8>) -> Seq<u8> {
    be32(data.len() as u32) + data
}

/// The bytes a fresh transcript has absorbed.
pub open spec fn started(label: Seq<u8>) -> Seq<u8> {
    text(TRANSCRIPT_TAG) + field(label)
}

/// The bytes after absorbing a labelled field into `t`.
pub open spec fn absorbed(t: Seq<u8>, label: Seq<u8>, data: Seq<u8>) -> Seq<u8> {
    t + field(label) + field(data)
}

#[derive(Clone)]
pub struct Transcript {
    bytes: Vec<u8>,
}

impl View for Transcript {
    type V = Seq<u8>;

    closed spec fn view(&self) -> Seq<u8> {
        self.bytes@
    }
}

impl Transcript {
    pub fn new(label: &[u8]) -> (r: Self)
        ensures
            r@ == started(label@),
    {
        let mut bytes: Vec<u8> = Vec::new();
        push_all(&mut bytes, TRANSCRIPT_TAG.as_bytes());
        push_be32(&mut bytes, label.len() as u32);
        push_all(&mut bytes, label);
        let r = Transcript { bytes };
        assert(r@ =~= started(label@));
        r
    }

    /// Absorb a labelled field. Length-prefixed so that concatenation is
    /// unambiguous: without this, ("ab","c") and ("a","bc") would collide.
    pub fn absorb(&mut self, label: &[u8], data: &[u8])
        ensures
            final(self)@ == absorbed(old(self)@, label@, data@),
    {
        push_be32(&mut self.bytes, label.len() as u32);
        push_all(&mut self.bytes, label);
        push_be32(&mut self.bytes, data.len() as u32);
        push_all(&mut self.bytes, data);
        assert(self@ =~= absorbed(old(self)@, label@, data@));
    }

    pub fn hash(&self) -> (r: [u8; 32])
        ensures
            r@ == sha256(self@),
    {
        sha256_digest(self.bytes.as_slice())
    }
}

impl Default for Transcript {
    /// The transcript a caller gets without naming one.
    fn default() -> (r: Self)
        ensures
            r@ == started(text("default")),
    {
        Transcript::new("default".as_bytes())
    }
}

/// The length prefix makes a field self-delimiting: one field followed by
/// anything can be read back in only one way.
pub proof fn lemma_field_prefix(a: Seq<u8>, b: Seq<u8>, rest_a: Seq<u8>, rest_b: Seq<u8>)
    requires
        a.len() <= u32::MAX,
        b.len() <= u32::MAX,
        field(a) + rest_a == field(b) + rest_b,
    ensures
        a == b,
        rest_a == rest_b,
{
    let x = field(a) + rest_a;
    let y = field(b) + rest_b;
    lemma_be32_roundtrip(a.len() as u32);
    lemma_be32_roundtrip(b.len() as u32);
    assert(x.subrange(0, 4) =~= be32(a.len() as u32));
    assert(y.subrange(0, 4) =~= be32(b.len() as u32));
    assert(be32_value(be32(a.len() as u32)) == be32_value(be32(b.len() as u32)));
    assert(a.len() == b.len());
    assert(x.subrange(4, 4 + a.len() as int) =~= a);
    assert(y.subrange(4, 4 + b.len() as int) =~= b);
    assert(x.subrange(4 + a.len() as int, x.len() as int) =~= rest_a);
    assert(y.subrange(4 + b.len() as int, y.len() as int) =~= rest_b);
}

/// Absorbing is unambiguous: two absorptions into the same transcript give
/// the same bytes only when the labels and the data are the same.
pub proof fn lemma_absorb_unambiguous(t: Seq<u8>, l1: Seq<u8>, d1: Seq<u8>, l2: Seq<u8>, d2: Seq<u8>)
    requires
        l1.len() <= u32::MAX,
        d1.len() <= u32::MAX,
        l2.len() <= u32::MAX,
        d2.len() <= u32::MAX,
        absorbed(t, l1, d1) == absorbed(t, l2, d2),
    ensures
        l1 == l2,
        d1 == d2,
{
    let x = absorbed(t, l1, d1);
    let y = absorbed(t, l2, d2);
    assert(x.subrange(t.len() as int, x.len() as int) =~= field(l1) + field(d1));
    assert(y.subrange(t.len() as int, y.len() as int) =~= field(l2) + field(d2));
    lemma_field_prefix(l1, l2, field(d1), field(d2));
    lemma_field_prefix(d1, d2, Seq::empty(), Seq::empty());
    assert(field(d1) + Seq::<u8>::empty() =~= field(d1));
    assert(field(d2) + Seq::<u8>::empty() =~= field(d2));
}

} // verus!
