//! Which adversary each configuration actually survives.
//!
//! `session` answers "what did the attacker recover". That is a different
//! question from "which attacker": a channel is never holding in the abstract,
//! only against a named adversary and for a named asset. A configuration that
//! defeats a passive recorder can be trivially owned by an active one.
//!
//! The adversaries are A1 to A5 of the threat model. Every judgement carries
//! a `because` naming the layer responsible, not merely the outcome.

use vstd::prelude::*;
use crate::session::Layers;

verus! {

/// Whether a given adversary is defeated by a given configuration.
#[derive(Debug, Clone, Copy, PartialEq, Eq, Structural)]
pub enum Status {
    /// The configuration defeats this adversary.
    Defended,
    /// This adversary wins.
    Exposed,
    /// Not defended, and not measured either. Distinct from `Exposed`, which
    /// is a claim; this is an admission.
    OutOfScope,
}

/// The name a status is reported under.
pub open spec fn status_name(s: Status) -> &'static str {
    match s {
        Status::Defended => "defended",
        Status::Exposed => "exposed",
        Status::OutOfScope => "out-of-scope",
    }
}

impl Status {
    pub fn as_str(&self) -> (r: &'static str)
        ensures
            r == status_name(*self),
    {
        match self {
            Status::Defended => "defended",
            Status::Exposed => "exposed",
            Status::OutOfScope => "out-of-scope",
        }
    }
}

/// One adversary's standing against the current configuration.
#[derive(Debug, Clone, Copy)]
pub struct Adversary {
    pub id: &'static str,
    pub label: &'static str,
    pub status: Status,
    /// Why: naming the layer responsible, not merely the outcome.
    pub because: &'static str,
}

pub const NO_KEY_AGREEMENT: &'static str =
    "key agreement is off, so the session key is a fixed value the observer holds too";

pub const NO_AEAD: &'static str = "nothing is encrypted — the wire carries the plaintext";

pub const KEYSTREAM_REPEATS: &'static str =
    "a repeated nonce under a key that also repeats gives two ciphertexts sharing one keystream";

pub const A1_HOLDS: &'static str = "AEAD under a key derived from a handshake the observer never saw";

pub const A2_NOT_PINNED: &'static str =
    "peer authentication is off, so the attacker's own correctly-signed hello is accepted";

pub const A2_HOLDS: &'static str = "the responder's identity is pinned and the transcript is signed";

pub const A3_NO_RATCHET: &'static str =
    "no ratchet — one key covers every message, so a compromise at T opens the whole archive";

pub const A3_HOLDS: &'static str =
    "the ratchet advances per message, so a compromise at T reaches forward but not back";

pub const A4_CLASSICAL: &'static str =
    "X25519 alone — traffic recorded today falls when the discrete log does";

pub const A4_HOLDS: &'static str = "X-Wing holds if either of its two components survives";

pub const A5_OUT_OF_SCOPE: &'static str =
    "timing and cache behaviour are neither defended nor measured, and a WASM build makes no constant-time claim at all";

/// The first reason the traffic fails to resist someone who only reads it,
/// in the order an attacker would exploit them. `None` when it holds.
///
/// A repeated nonce is harmless while the ratchet keeps handing out fresh
/// keys; it bites only when one key covers both frames.
pub open spec fn failure_of(l: Layers) -> Option<&'static str> {
    if !l.key_agreement {
        Some(NO_KEY_AGREEMENT)
    } else if !l.aead {
        Some(NO_AEAD)
    } else if l.nonce_reuse && !l.ratchet {
        Some(KEYSTREAM_REPEATS)
    } else {
        None
    }
}

fn confidentiality_failure(l: Layers) -> (r: Option<&'static str>)
    ensures
        r == failure_of(l),
{
    if !l.key_agreement {
        Some(NO_KEY_AGREEMENT)
    } else if !l.aead {
        Some(NO_AEAD)
    } else if l.nonce_reuse && !l.ratchet {
        Some(KEYSTREAM_REPEATS)
    } else {
        None
    }
}

/// The reason given: the confidentiality failure when there is one,
/// otherwise the clause that decided this adversary.
pub open spec fn reason(l: Layers, otherwise: &'static str) -> &'static str {
    match failure_of(l) {
        Some(why) => why,
        None => otherwise,
    }
}

/// Defended when confidentiality holds and `also` does.
pub open spec fn standing(l: Layers, also: bool) -> Status {
    if failure_of(l) is None && also {
        Status::Defended
    } else {
        Status::Exposed
    }
}

/// The assessment `assess` returns, adversary by adversary.
pub open spec fn assessment(l: Layers, kem_is_pq: bool) -> Seq<Adversary> {
    seq![
        Adversary { id: "A1", label: "passive network observer", status: standing(l, true), because: reason(l, A1_HOLDS) },
        Adversary {
            id: "A2",
            label: "active machine-in-the-middle",
            status: standing(l, l.authenticate),
            because: reason(l, if l.authenticate { A2_HOLDS } else { A2_NOT_PINNED }),
        },
        Adversary {
            id: "A3",
            label: "key compromise at time T",
            status: standing(l, l.ratchet),
            because: reason(l, if l.ratchet { A3_HOLDS } else { A3_NO_RATCHET }),
        },
        Adversary {
            id: "A4",
            label: "future quantum adversary",
            status: standing(l, kem_is_pq),
            because: reason(l, if kem_is_pq { A4_HOLDS } else { A4_CLASSICAL }),
        },
        Adversary { id: "A5", label: "local side-channel observer", status: Status::OutOfScope, because: A5_OUT_OF_SCOPE },
    ]
}

/// Assess A1 to A5 against a configuration.
///
/// `kem_is_pq` is the KEM actually in force, not the one requested: with key
/// agreement off the harness substitutes a static KEM, and reporting the
/// requested backend here would credit the channel with a property it does
/// not have. Authentication, forward secrecy and post-quantum resistance are
/// all downstream of confidentiality: each is defended only where the
/// passive observer is.
pub fn assess(layers: Layers, kem_is_pq: bool) -> (r: [Adversary; 5])
    ensures
        r@ == assessment(layers, kem_is_pq),
{
    let conf = confidentiality_failure(layers);
    let holds = conf.is_none();

    let a1 = Adversary {
        id: "A1",
        label: "passive network observer",
        status: if holds { Status::Defended } else { Status::Exposed },
        because: match conf {
            Some(why) => why,
            None => A1_HOLDS,
        },
    };

    // Authentication is downstream of confidentiality: pinning an identity
    // on a channel whose contents are already readable defends nothing.
    let a2 = Adversary {
        id: "A2",
        label: "active machine-in-the-middle",
        status: if holds && layers.authenticate { Status::Defended } else { Status::Exposed },
        because: match conf {
            Some(why) => why,
            None => if layers.authenticate { A2_HOLDS } else { A2_NOT_PINNED },
        },
    };

    let a3 = Adversary {
        id: "A3",
        label: "key compromise at time T",
        status: if holds && layers.ratchet { Status::Defended } else { Status::Exposed },
        because: match conf {
            Some(why) => why,
            None => if layers.ratchet { A3_HOLDS } else { A3_NO_RATCHET },
        },
    };

    // A4 is a recording problem, so it does not depend on A2: a quantum
    // adversary arriving later cannot retroactively have been in the middle.
    let a4 = Adversary {
        id: "A4",
        label: "future quantum adversary",
        status: if holds && kem_is_pq { Status::Defended } else { Status::Exposed },
        because: match conf {
            Some(why) => why,
            None => if kem_is_pq { A4_HOLDS } else { A4_CLASSICAL },
        },
    };

    let a5 = Adversary {
        id: "A5",
        label: "local side-channel observer",
        status: Status::OutOfScope,
        because: A5_OUT_OF_SCOPE,
    };

    let r = [a1, a2, a3, a4, a5];
    assert(r@ =~= assessment(layers, kem_is_pq));
    r
}

/// Something an observer learns regardless of which layers are on.
#[derive(Debug, Clone, Copy)]
pub struct Leak {
    pub item: &'static str,
    pub detail: &'static str,
}

pub const CHANNEL_EXISTS: &'static str =
    "padding and framing change which bytes appear, never the fact that a frame was sent";

pub const TIMING: &'static str =
    "when each frame went out, and how many — nothing here delays, batches or pads the schedule";

pub const LENGTH_ANNOUNCED: &'static str =
    "the framing writes the unpadded length in the clear at offset 4, so padding to a 64-byte block quantises the total and then discloses the real figure anyway";

pub const MARKER: &'static str =
    "every frame opens with four 0xAA bytes — a fixed marker, trivially fingerprinted";

pub const LENGTH_OF_CIPHERTEXT: &'static str =
    "the frame is the ciphertext: its length is the plaintext length plus a 16-byte tag";

/// The leaks `metadata` reports.
pub open spec fn leaks(layers: Layers) -> Seq<Leak> {
    let always = seq![
        Leak { item: "channel exists", detail: CHANNEL_EXISTS },
        Leak { item: "timing and frequency", detail: TIMING },
    ];
    if layers.transport {
        always + seq![
            Leak { item: "exact message length", detail: LENGTH_ANNOUNCED },
            Leak { item: "frame structure", detail: MARKER },
        ]
    } else {
        always + seq![Leak { item: "exact message length", detail: LENGTH_OF_CIPHERTEXT }]
    }
}

/// What stays visible on the wire in this configuration.
///
/// The transport layer is never reported as hiding length, because it does
/// not: `transport::obfuscate` writes the exact unpadded length in the clear
/// at offset 4.
pub fn metadata(layers: Layers) -> (r: Vec<Leak>)
    ensures
        r@ == leaks(layers),
{
    let mut out: Vec<Leak> = Vec::new();
    out.push(Leak { item: "channel exists", detail: CHANNEL_EXISTS });
    out.push(Leak { item: "timing and frequency", detail: TIMING });

    if layers.transport {
        out.push(Leak { item: "exact message length", detail: LENGTH_ANNOUNCED });
        out.push(Leak { item: "frame structure", detail: MARKER });
    } else {
        out.push(Leak { item: "exact message length", detail: LENGTH_OF_CIPHERTEXT });
    }
    assert(out@ =~= leaks(layers));
    out
}

/// Confidentiality comes first: no adversary is defended against unless the
/// passive observer is, and the side-channel observer is never claimed as
/// defended or as exposed.
pub proof fn lemma_confidentiality_first(l: Layers, kem_is_pq: bool)
    ensures
        forall|i: int|
            1 <= i < 4 && #[trigger] assessment(l, kem_is_pq)[i].status == Status::Defended
                ==> assessment(l, kem_is_pq)[0].status == Status::Defended,
        assessment(l, kem_is_pq)[4].status == Status::OutOfScope,
{
}

/// A repeated nonce is survivable while the ratchet runs: with the ratchet
/// on, injecting the fault changes no adversary's standing or reason.
pub proof fn lemma_repeated_nonce_under_ratchet(l: Layers, kem_is_pq: bool)
    requires
        l.ratchet,
    ensures
        assessment(Layers { nonce_reuse: true, ..l }, kem_is_pq) == assessment(
            Layers { nonce_reuse: false, ..l },
            kem_is_pq,
        ),
{
    assert(assessment(Layers { nonce_reuse: true, ..l }, kem_is_pq) =~= assessment(
        Layers { nonce_reuse: false, ..l },
        kem_is_pq,
    ));
}

/// Every judgement explains itself: each adversary has an id and a label,
/// and each reason is a real sentence rather than a bare verdict.
pub proof fn lemma_every_verdict_explains_itself(l: Layers, kem_is_pq: bool)
    ensures
        assessment(l, kem_is_pq).len() == 5,
        forall|i: int|
            0 <= i < 5 ==> (#[trigger] assessment(l, kem_is_pq)[i]).because@.len() > 20
                && assessment(l, kem_is_pq)[i].id@.len() > 0 && assessment(l, kem_is_pq)[i].label@.len() > 0,
{
    reveal_strlit("key agreement is off, so the session key is a fixed value the observer holds too");
    reveal_strlit("nothing is encrypted — the wire carries the plaintext");
    reveal_strlit("a repeated nonce under a key that also repeats gives two ciphertexts sharing one keystream");
    reveal_strlit("AEAD under a key derived from a handshake the observer never saw");
    reveal_strlit("peer authentication is off, so the attacker's own correctly-signed hello is accepted");
    reveal_strlit("the responder's identity is pinned and the transcript is signed");
    reveal_strlit("no ratchet — one key covers every message, so a compromise at T opens the whole archive");
    reveal_strlit("the ratchet advances per message, so a compromise at T reaches forward but not back");
    reveal_strlit("X25519 alone — traffic recorded today falls when the discrete log does");
    reveal_strlit("X-Wing holds if either of its two components survives");
    reveal_strlit("timing and cache behaviour are neither defended nor measured, and a WASM build makes no constant-time claim at all");
    reveal_strlit("A1");
    reveal_strlit("A2");
    reveal_strlit("A3");
    reveal_strlit("A4");
    reveal_strlit("A5");
    reveal_strlit("passive network observer");
    reveal_strlit("active machine-in-the-middle");
    reveal_strlit("key compromise at time T");
    reveal_strlit("future quantum adversary");
    reveal_strlit("local side-channel observer");
}

/// The metadata summary always admits that the channel, its timing and the
/// exact message length are visible, names the fixed frame marker whenever
/// the transport layer is on, and explains every item.
pub proof fn lemma_metadata_admits_what_leaks(layers: Layers)
    ensures
        leaks(layers)[0].item == "channel exists",
        leaks(layers)[1].item == "timing and frequency",
        leaks(layers)[2].item == "exact message length",
        layers.transport ==> leaks(layers).len() == 4 && leaks(layers)[3].item == "frame structure",
        forall|i: int| 0 <= i < leaks(layers).len() ==> (#[trigger] leaks(layers)[i]).detail@.len() > 20,
{
    reveal_strlit("padding and framing change which bytes appear, never the fact that a frame was sent");
    reveal_strlit("when each frame went out, and how many — nothing here delays, batches or pads the schedule");
    reveal_strlit("the framing writes the unpadded length in the clear at offset 4, so padding to a 64-byte block quantises the total and then discloses the real figure anyway");
    reveal_strlit("every frame opens with four 0xAA bytes — a fixed marker, trivially fingerprinted");
    reveal_strlit("the frame is the ciphertext: its length is the plaintext length plus a 16-byte tag");
}

/// The survival matrix in terms of the switches alone. A passive observer is
/// defended exactly when key agreement and AEAD are on and the key does not
/// repeat alongside a repeated nonce; every other adversary is defended only
/// on top of that: the active attacker when the peer is pinned, key
/// compromise at time T when the ratchet runs (without it one key covers
/// every message), and the quantum adversary when the KEM in force is
/// post-quantum. The side-channel observer is never judged.
pub proof fn lemma_survival_matrix(l: Layers, kem_is_pq: bool)
    ensures
        (assessment(l, kem_is_pq)[0].status == Status::Defended) == (l.key_agreement && l.aead && !(l.nonce_reuse
            && !l.ratchet)),
        (assessment(l, kem_is_pq)[1].status == Status::Defended) == (l.key_agreement && l.aead && !(l.nonce_reuse
            && !l.ratchet) && l.authenticate),
        (assessment(l, kem_is_pq)[2].status == Status::Defended) == (l.key_agreement && l.aead && l.ratchet),
        (assessment(l, kem_is_pq)[3].status == Status::Defended) == (l.key_agreement && l.aead && !(l.nonce_reuse
            && !l.ratchet) && kem_is_pq),
        assessment(l, kem_is_pq)[2].status == Status::Defended ==> l.ratchet,
        !l.ratchet ==> assessment(l, kem_is_pq)[2].status == Status::Exposed,
        forall|i: int| 0 <= i < 4 ==> (#[trigger] assessment(l, kem_is_pq)[i]).status != Status::OutOfScope,
        assessment(l, kem_is_pq)[4].status == Status::OutOfScope,
{
}

/// The frame marker is reported exactly when the transport layer is on:
/// without it no frame opens with the 0xAA bytes, and the report lists only
/// the channel, its timing and the message length.
pub proof fn lemma_marker_reported_only_with_transport(layers: Layers)
    ensures
        (exists|i: int| 0 <= i < leaks(layers).len() && (#[trigger] leaks(layers)[i]).item@ == "frame structure"@)
            == layers.transport,
        !layers.transport ==> leaks(layers).len() == 3,
        layers.transport ==> leaks(layers).len() == 4,
{
    reveal_strlit("frame structure");
    reveal_strlit("channel exists");
    reveal_strlit("timing and frequency");
    reveal_strlit("exact message length");
    let l = leaks(layers);
    if layers.transport {
        assert(l[3].item@ == "frame structure"@);
    } else {
        assert forall|i: int| 0 <= i < l.len() implies (#[trigger] l[i]).item@ != "frame structure"@ by {
            assert(i == 0 || i == 1 || i == 2);
            assert("frame structure"@.len() == 15);
            assert("channel exists"@.len() == 14);
            assert("timing and frequency"@.len() == 20);
            assert("exact message length"@.len() == 20);
        }
    }
}

} // verus!