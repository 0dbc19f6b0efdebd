//! Byte-string helpers shared by the framing, the transcript and the key
//! schedule: big-endian length prefixes and appending one buffer to another.

use vstd::prelude::*;
use vstd::string::StringSliceAdditionalSpecFns;

verus! {

/// The UTF-8 bytes of a string, as `str::as_bytes` hands them out.
pub open spec fn text(s: &str) -> Seq<u8> {
    s.spec_bytes()
}

/// The four big-endian bytes of `n`.
pub open spec fn be32(n: u32) -> Seq<u8> {
    seq![
        (n / 0x100_0000) as u8,
        ((n / 0x1_0000) % 0x100) as u8,
        ((n / 0x100) % 0x100) as u8,
        (n % 0x100) as u8,
    ]
}

/// The number a four-byte big-endian field encodes.
pub open spec fn be32_value(b: Seq<u8>) -> nat {
    (b[0] as nat) * 0x100_0000 + (b[1] as nat) * 0x1_0000 + (b[2] as nat) * 0x100 + (b[3] as nat)
}

/// Decoding the encoding of `n` gives `n` back.
pub proof fn lemma_be32_roundtrip(n: u32)
    ensures
        be32(n).len() == 4,
        be32_value(be32(n)) == n,
{
    let a = n / 0x100_0000;
    let r = n % 0x100_0000;
    assert(n == a * 0x100_0000 + r);
    assert(r / 0x1_0000 == (n / 0x1_0000) % 0x100);
    assert(((r % 0x1_0000) / 0x100) == (n / 0x100) % 0x100);
}

/// `n` written big-endian onto the end of `out`.
pub fn push_be32(out: &mut Vec<u8>, n: u32)
    ensures
        final(out)@ == old(out)@ + be32(n),
{
    out.push((n / 0x100_0000) as u8);
    out.push(((n / 0x1_0000) % 0x100) as u8);
    out.push(((n / 0x100) % 0x100) as u8);
    out.push((n % 0x100) as u8);
    assert(out@ =~= old(out)@ + be32(n));
}

/// Every byte of `data`, in order, onto the end of `out`.
pub fn push_all(out: &mut Vec<u8>, data: &[u8])
    ensures
        final(out)@ == old(out)@ + data@,
{
    let ghost start = out@;
    let mut i: usize = 0;
    while i < data.len()
        invariant
            i <= data@.len(),
            out@ == start + data@.take(i as int),
        decreases data@.len() - i,
    {
        out.push(data[i]);
        i = i + 1;
        assert(out@ =~= start + data@.take(i as int));
    }
    assert(data@.take(data@.len() as int) =~= data@);
}

/// A fresh vector holding a copy of `data`.
pub fn copy_of(data: &[u8]) -> (r: Vec<u8>)
    ensures
        r@ == data@,
{
    let mut r: Vec<u8> = Vec::new();
    push_all(&mut r, data);
    assert(r@ =~= data@);
    r
}

/// The 32 bytes of `s` as an array.
pub fn array32(s: &[u8]) -> (r: [u8; 32])
    requires
        s@.len() == 32,
    ensures
        r@ == s@,
{
    let mut r = [0u8; 32];
    let mut i: usize = 0;
    while i < 32
        invariant
            s@.len() == 32,
            i <= 32,
            forall|j: int| 0 <= j < i ==> r@[j] == s@[j],
        decreases 32 - i,
    {
        r[i] = s[i];
        i = i + 1;
    }
    assert(r@ =~= s@);
    r
}

/// The 64 bytes of `s` as an array.
pub fn array64(s: &[u8]) -> (r: [u8; 64])
    requires
        s@.len() == 64,
    ensures
        r@ == s@,
{
    let mut r = [0u8; 64];
    let mut i: usize = 0;
    while i < 64
        invariant
            s@.len() == 64,
            i <= 64,
            forall|j: int| 0 <= j < i ==> r@[j] == s@[j],
        decreases 64 - i,
    {
        r[i] = s[i];
        i = i + 1;
    }
    assert(r@ =~= s@);
    r
}

/// Whether two byte strings are equal.
pub fn same_bytes(a: &[u8], b: &[u8]) -> (r: bool)
    ensures
        r == (a@ == b@),
{
    if a.len() != b.len() {
        return false;
    }
    let mut i: usize = 0;
    while i < a.len()
        invariant
            a@.len() == b@.len(),
            i <= a@.len(),
            forall|j: int| 0 <= j < i ==> a@[j] == b@[j],
        decreases a@.len() - i,
    {
        if a[i] != b[i] {
            return false;
        }
        i = i + 1;
    }
    assert(a@ =~= b@);
    true
}

/// Whether two strings are equal, compared byte by byte.
pub fn same_text(a: &str, b: &str) -> (r: bool)
    ensures
        r == (a@ == b@),
{
    let r = same_bytes(a.as_bytes(), b.as_bytes());
    proof {
        vstd::utf8::encode_utf8_decode_utf8(a@);
        vstd::utf8::encode_utf8_decode_utf8(b@);
    }
    r
}

} // verus!
