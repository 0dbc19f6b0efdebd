//! Layer 3: transport obfuscation.
//!
//! Deliberately weak. It pads and reframes; it is not obfs4 and does not try to
//! be. The layer sits outside the security boundary, and a convincing
//! obfuscator would hide that by making the channel look safe when the layers
//! beneath it are off. Anyone relying on this for confidentiality is misusing
//! it.

use vstd::prelude::*;
use crate::bytes::{be32, be32_value, push_all, push_be32, copy_of, lemma_be32_roundtrip};
use crate::error::{Error, Result};

verus! {

/// The byte every frame opens with, four times.
pub const FRAME: u8 = 0xAA;

/// The zero bytes that round `len` up to a multiple of `block`; none when
/// `block` is zero.
pub open spec fn pad_len(len: nat, block: nat) -> nat {
    if block == 0 {
        0
    } else {
        ((block - len % block) % (block as int)) as nat
    }
}

/// The frame `obfuscate` writes: four marker bytes, the body length as a
/// big-endian `u32`, the body, then zero padding out to the block.
pub open spec fn framed(data: Seq<u8>, block: usize) -> Seq<u8> {
    seq![FRAME, FRAME, FRAME, FRAME] + be32(data.len() as u32) + data
        + Seq::new(pad_len(data.len(), block as nat), |i: int| 0u8)
}

/// What `deobfuscate` makes of a wire: the framing must be present and the
/// announced length must fit in what follows it.
pub open spec fn unframed(wire: Seq<u8>) -> Result<Seq<u8>> {
    if wire.len() < 8 || wire.take(4) != seq![FRAME, FRAME, FRAME, FRAME] {
        Err(Error::Transport("bad framing"))
    } else if wire.len() - 8 < be32_value(wire.subrange(4, 8)) {
        Err(Error::Transport("truncated"))
    } else {
        Ok(wire.subrange(8, 8 + be32_value(wire.subrange(4, 8)) as int))
    }
}

/// Pad to a fixed block multiple and wrap in framing bytes.
pub fn obfuscate(data: &[u8], block: usize) -> (r: Vec<u8>)
    requires
        data@.len() + pad_len(data@.len(), block as nat) + 8 <= usize::MAX,
    ensures
        r@ == framed(data@, block),
{
    let pad: usize = if block == 0 {
        0
    } else {
        (block - (data.len() % block)) % block
    };
    let mut out: Vec<u8> = Vec::with_capacity(data.len() + pad + 8);
    out.push(FRAME);
    out.push(FRAME);
    out.push(FRAME);
    out.push(FRAME);
    push_be32(&mut out, data.len() as u32);
    push_all(&mut out, data);
    let ghost head = out@;
    let mut i: usize = 0;
    while i < pad
        invariant
            i <= pad,
            out@ == head + Seq::new(i as nat, |j: int| 0u8),
        decreases pad - i,
    {
        out.push(0u8);
        i = i + 1;
        assert(out@ =~= head + Seq::new(i as nat, |j: int| 0u8));
    }
    assert(out@ =~= framed(data@, block));
    out
}

/// Strip framing and padding. Any observer who knows the scheme can do this.
pub fn deobfuscate(data: &[u8]) -> (r: Result<Vec<u8>>)
    ensures
        match r {
            Ok(v) => unframed(data@) == Ok::<Seq<u8>, Error>(v@),
            Err(e) => unframed(data@) == Err::<Seq<u8>, Error>(e),
        },
{
    if data.len() < 8 || data[0] != FRAME || data[1] != FRAME || data[2] != FRAME
        || data[3] != FRAME {
        proof {
            if data@.len() >= 8 {
                assert(data@.take(4)[0] == data@[0]);
                assert(data@.take(4)[1] == data@[1]);
                assert(data@.take(4)[2] == data@[2]);
                assert(data@.take(4)[3] == data@[3]);
            }
        }
        return Err(Error::Transport("bad framing"));
    }
    assert(data@.take(4) =~= seq![FRAME, FRAME, FRAME, FRAME]);
    let len: usize = (data[4] as usize) * 0x100_0000 + (data[5] as usize) * 0x1_0000
        + (data[6] as usize) * 0x100 + (data[7] as usize);
    assert(len == be32_value(data@.subrange(4, 8)));
    if data.len() - 8 < len {
        return Err(Error::Transport("truncated"));
    }
    let mut out: Vec<u8> = Vec::new();
    let end: usize = 8 + len;
    let mut i: usize = 8;
    while i < end
        invariant
            end == 8 + len,
            8 <= i <= end <= data@.len(),
            out@ == data@.subrange(8, i as int),
        decreases end - i,
    {
        out.push(data[i]);
        i = i + 1;
        assert(out@ =~= data@.subrange(8, i as int));
    }
    Ok(out)
}

/// What a passive observer learns even when every layer is on: size and shape.
#[derive(Debug, Clone, Copy, PartialEq, Eq)]
pub struct Observed {
    pub wire_len: usize,
    pub padded_to: usize,
}

/// The size and block of a wire, as an observer sees them.
pub fn observe(wire: &[u8], block: usize) -> (r: Observed)
    ensures
        r.wire_len == wire@.len(),
        r.padded_to == block,
{
    Observed { wire_len: wire.len(), padded_to: block }
}

/// Obfuscation is a bijection for anyone who knows the scheme: unframing a
/// frame gives the body back, whatever the block, for any body whose length
/// fits the four-byte prefix.
pub proof fn lemma_unframe_frame(data: Seq<u8>, block: usize)
    requires
        data.len() <= u32::MAX,
    ensures
        unframed(framed(data, block)) == Ok::<Seq<u8>, Error>(data),
{
    let w = framed(data, block);
    lemma_be32_roundtrip(data.len() as u32);
    assert(w.take(4) =~= seq![FRAME, FRAME, FRAME, FRAME]);
    assert(w.subrange(4, 8) =~= be32(data.len() as u32));
    assert(w.subrange(8, 8 + data.len() as int) =~= data);
}

/// The frame is exactly the eight header bytes, the body and its padding,
/// and the body plus padding fills a whole number of blocks.
pub proof fn lemma_frame_shape(data: Seq<u8>, block: usize)
    ensures
        framed(data, block).len() == 8 + data.len() + pad_len(data.len(), block as nat),
        framed(data, block).len() >= data.len(),
        block > 0 ==> (data.len() + pad_len(data.len(), block as nat)) % (block as nat) == 0,
        pad_len(data.len(), block as nat) < block || block == 0,
{
    if block > 0 {
        let b = block as int;
        let l = data.len() as int;
        vstd::arithmetic::div_mod::lemma_fundamental_div_mod(l, b);
        let r = l % b;
        assert(0 <= r < b);
        if r == 0 {
            assert(pad_len(l as nat, b as nat) == 0) by {
                vstd::arithmetic::div_mod::lemma_mod_self_0(b);
            }
        } else {
            assert(pad_len(l as nat, b as nat) == b - r) by {
                vstd::arithmetic::div_mod::lemma_small_mod((b - r) as nat, b as nat);
            }
            assert((l + (b - r)) % b == 0) by {
                assert(l + (b - r) == (l / b + 1) * b) by (nonlinear_arith)
                    requires l == b * (l / b) + r, r < b;
                vstd::arithmetic::div_mod::lemma_mod_multiples_basic(l / b + 1, b);
            }
        }
    }
}

/// Padding hides nothing about length: the header states the exact
/// unpadded length in the clear, at bytes four to eight, whatever the block.
pub proof fn lemma_frame_announces_length(data: Seq<u8>, block: usize)
    requires
        data.len() <= u32::MAX,
    ensures
        be32_value(framed(data, block).subrange(4, 8)) == data.len(),
{
    lemma_be32_roundtrip(data.len() as u32);
    assert(framed(data, block).subrange(4, 8) =~= be32(data.len() as u32));
}

/// Whatever a successful unframing returns is never longer than the wire it
/// was cut from.
pub proof fn lemma_unframe_shrinks(wire: Seq<u8>)
    ensures
        unframed(wire) matches Ok(body) ==> body.len() + 8 <= wire.len(),
{
}

} // verus!
