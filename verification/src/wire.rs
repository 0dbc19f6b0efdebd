//! A frame's bytes as the console's hexdump shows them: labelled runs that
//! follow the wire format of `transport::obfuscate` and the AEAD layout, so
//! the page can colour the dump without re-deriving the format itself.

use vstd::prelude::*;
use crate::aead::TAG_LEN;
use crate::bytes::be32_value;
use crate::session::Layers;
use crate::transport::{framed, unframed};

verus! {

/// One labelled run of a wire, the bytes `start..end`.
#[derive(Debug, Clone, Copy, PartialEq, Eq)]
pub struct Span {
    pub kind: &'static str,
    pub start: usize,
    pub end: usize,
}

/// Every label a run can carry.
pub open spec fn span_kinds() -> Seq<&'static str> {
    seq!["framing", "length", "ciphertext", "tag", "plaintext", "padding"]
}

/// Where the body starts: after the eight-byte header with the transport
/// layer on, at the first byte without it.
pub open spec fn body_start(layers: Layers) -> int {
    if layers.transport {
        8
    } else {
        0
    }
}

/// Where the body ends: as far as the header announces with the transport
/// layer on, at the end of the wire without it.
pub open spec fn body_end(wire: Seq<u8>, layers: Layers) -> int {
    if layers.transport {
        8 + be32_value(wire.subrange(4, 8)) as int
    } else {
        wire.len() as int
    }
}

/// A wire that can be split: its header, when it has one, announces a body
/// the wire holds, and that body holds a tag when AEAD is on.
pub open spec fn splittable(wire: Seq<u8>, layers: Layers) -> bool {
    &&& layers.transport ==> 8 <= wire.len() && body_end(wire, layers) <= wire.len()
    &&& layers.aead ==> body_start(layers) + TAG_LEN <= body_end(wire, layers)
}

/// The run `start..end` under `kind`.
pub open spec fn span(kind: &'static str, start: int, end: int) -> Span {
    Span { kind, start: start as usize, end: end as usize }
}

/// The runs of a splittable wire: the marker and the length prefix when the
/// transport layer is on; the body, as ciphertext and tag under AEAD or as
/// plaintext without it; then the padding, if any.
pub open spec fn layout(wire: Seq<u8>, layers: Layers) -> Seq<Span> {
    let s = body_start(layers);
    let e = body_end(wire, layers);
    let header = if layers.transport {
        seq![span("framing", 0, 4), span("length", 4, 8)]
    } else {
        Seq::empty()
    };
    let body = if layers.aead {
        seq![span("ciphertext", s, e - TAG_LEN), span("tag", e - TAG_LEN, e)]
    } else {
        seq![span("plaintext", s, e)]
    };
    let tail = if layers.transport && e < wire.len() {
        seq![span("padding", e, wire.len() as int)]
    } else {
        Seq::empty()
    };
    header + body + tail
}

/// Split a frame's wire into labelled runs; `None` for a wire whose header
/// announces more body than it holds, or whose body is too short for a tag.
pub fn segments(wire: &[u8], layers: Layers) -> (r: Option<Vec<Span>>)
    ensures
        r matches Some(v) ==> splittable(wire@, layers) && v@ == layout(wire@, layers),
        r is None ==> !splittable(wire@, layers),
{
    let mut out: Vec<Span> = Vec::new();
    let start: usize = if layers.transport {
        8
    } else {
        0
    };
    let end: usize;
    if layers.transport {
        if wire.len() < 8 {
            return None;
        }
        let len: usize = (wire[4] as usize) * 0x100_0000 + (wire[5] as usize) * 0x1_0000
            + (wire[6] as usize) * 0x100 + (wire[7] as usize);
        assert(len == be32_value(wire@.subrange(4, 8)));
        if wire.len() - 8 < len {
            return None;
        }
        end = 8 + len;
        out.push(Span { kind: "framing", start: 0, end: 4 });
        out.push(Span { kind: "length", start: 4, end: 8 });
    } else {
        end = wire.len();
    }
    let ghost header = out@;
    assert(end == body_end(wire@, layers));
    if layers.aead {
        if end - start < TAG_LEN {
            return None;
        }
        out.push(Span { kind: "ciphertext", start: start, end: end - TAG_LEN });
        out.push(Span { kind: "tag", start: end - TAG_LEN, end: end });
    } else {
        out.push(Span { kind: "plaintext", start: start, end: end });
    }
    let ghost with_body = out@;
    if layers.transport && end < wire.len() {
        out.push(Span { kind: "padding", start: end, end: wire.len() });
    }
    proof {
        let l = layout(wire@, layers);
        assert(out@ =~= l);
    }
    Some(out)
}

/// The runs of a splittable wire tile it: they start at its first byte, each
/// picks up where the one before it stopped, the last ends at its last byte,
/// and every one carries a label from `span_kinds`.
pub proof fn lemma_layout_tiles(wire: Seq<u8>, layers: Layers)
    requires
        splittable(wire, layers),
        wire.len() <= usize::MAX,
    ensures
        ({
            let l = layout(wire, layers);
            &&& l.len() > 0
            &&& l[0].start == 0
            &&& l[l.len() - 1].end == wire.len()
            &&& forall|i: int| 0 <= i < l.len() - 1 ==> (#[trigger] l[i]).end == l[i + 1].start
            &&& forall|i: int| 0 <= i < l.len() ==> (#[trigger] l[i]).start <= l[i].end
            &&& forall|i: int| 0 <= i < l.len() ==> span_kinds().contains((#[trigger] l[i]).kind)
        }),
{
    let l = layout(wire, layers);
    assert(span_kinds()[0] == "framing");
    assert(span_kinds()[1] == "length");
    assert(span_kinds()[2] == "ciphertext");
    assert(span_kinds()[3] == "tag");
    assert(span_kinds()[4] == "plaintext");
    assert(span_kinds()[5] == "padding");
    assert forall|i: int| 0 <= i < l.len() implies span_kinds().contains((#[trigger] l[i]).kind) by {
        let k = l[i].kind;
        if k == "framing" {
            assert(span_kinds()[0] == k);
        } else if k == "length" {
            assert(span_kinds()[1] == k);
        } else if k == "ciphertext" {
            assert(span_kinds()[2] == k);
        } else if k == "tag" {
            assert(span_kinds()[3] == k);
        } else if k == "plaintext" {
            assert(span_kinds()[4] == k);
        } else {
            assert(span_kinds()[5] == k);
        }
    }
}

/// A wire made by framing (or, without the transport layer, simply being) a
/// body that fits the length prefix and, under AEAD, holds a tag, can be
/// split.
pub proof fn lemma_sent_wire_splits(body: Seq<u8>, layers: Layers, block: usize)
    requires
        body.len() <= u32::MAX,
        layers.aead ==> TAG_LEN <= body.len(),
    ensures
        splittable(if layers.transport { framed(body, block) } else { body }, layers),
{
    if layers.transport {
        crate::transport::lemma_frame_announces_length(body, block);
        crate::transport::lemma_frame_shape(body, block);
    }
}

/// What a two-time pad operates on: the body with the framing removed (none
/// at all when the framing does not parse) and, under AEAD, the tag
/// stripped when there is room for one.
pub open spec fn sealed_body(wire: Seq<u8>, layers: Layers) -> Seq<u8> {
    let body = if layers.transport {
        match unframed(wire) {
            Ok(b) => b,
            Err(_) => Seq::empty(),
        }
    } else {
        wire
    };
    if layers.aead && body.len() >= TAG_LEN {
        body.take(body.len() - TAG_LEN)
    } else {
        body
    }
}

/// The hexdump and the ciphertext agree: under AEAD, on a wire that splits
/// and whose framing (when there is some) parses, the run the hexdump labels
/// "ciphertext" holds exactly the bytes `ciphertext` returns, and the tag run
/// right after it holds the 16 bytes that were stripped, whether or not the
/// transport layer is on.
pub proof fn lemma_ciphertext_run_is_the_ciphertext(wire: Seq<u8>, layers: Layers)
    requires
        splittable(wire, layers),
        wire.len() <= usize::MAX,
        layers.aead,
        layers.transport ==> unframed(wire) is Ok,
    ensures
        ({
            let l = layout(wire, layers);
            let k: int = if layers.transport { 2 } else { 0 };
            &&& l[k].kind == "ciphertext"
            &&& l[k + 1].kind == "tag"
            &&& wire.subrange(l[k].start as int, l[k].end as int) == sealed_body(wire, layers)
            &&& l[k + 1].end - l[k + 1].start == TAG_LEN
            &&& l[k].end == l[k + 1].start
        }),
{
    let l = layout(wire, layers);
    let k: int = if layers.transport { 2 } else { 0 };
    let s = body_start(layers);
    let e = body_end(wire, layers);
    if layers.transport {
        assert(l[2] == span("ciphertext", s, e - TAG_LEN));
        assert(l[3] == span("tag", e - TAG_LEN, e));
        let body = wire.subrange(8, e);
        assert(unframed(wire) == Ok::<Seq<u8>, crate::error::Error>(body));
        assert(wire.subrange(s, e - TAG_LEN) =~= body.take(body.len() - TAG_LEN));
    } else {
        assert(l[0] == span("ciphertext", s, e - TAG_LEN));
        assert(l[1] == span("tag", e - TAG_LEN, e));
        assert(wire.subrange(0, e - TAG_LEN) =~= wire.take(wire.len() - TAG_LEN));
    }
}

/// A frame's ciphertext with the tag stripped.
pub fn ciphertext(wire: &[u8], layers: Layers) -> (r: Vec<u8>)
    ensures
        r@ == sealed_body(wire@, layers),
        !layers.transport && layers.aead && wire@.len() >= TAG_LEN ==> r@ == wire@.take(wire@.len() - TAG_LEN),
        !layers.transport && !(layers.aead && wire@.len() >= TAG_LEN) ==> r@ == wire@,
        layers.transport ==> match unframed(wire@) {
            Ok(body) => if layers.aead && body.len() >= TAG_LEN {
                r@ == body.take(body.len() - TAG_LEN)
            } else {
                r@ == body
            },
            Err(_) => r@.len() == 0,
        },
{
    let body: Vec<u8> = if layers.transport {
        match crate::transport::deobfuscate(wire) {
            Ok(b) => b,
            Err(_) => Vec::new(),
        }
    } else {
        crate::bytes::copy_of(wire)
    };
    if layers.aead && body.len() >= TAG_LEN {
        let keep: usize = body.len() - TAG_LEN;
        let mut out: Vec<u8> = Vec::new();
        let mut i: usize = 0;
        while i < keep
            invariant
                i <= keep,
                keep <= body@.len(),
                out@ == body@.take(i as int),
            decreases keep - i,
        {
            out.push(body[i]);
            i += 1;
            assert(out@ =~= body@.take(i as int));
        }
        out
    } else {
        body
    }
}

} // verus!
