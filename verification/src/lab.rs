//! The guided sequence: five experiments, and the scenarios they move between.
//!
//! The console shows every switch at once, which is right for exploring and
//! wrong for learning. A reader arriving cold has thirty-two layer
//! combinations, no order to take them in, and no way to tell whether a change
//! they just made was supposed to matter. This module supplies the order: a
//! short chain of experiments that each move one thing, declare what the
//! channel will do, and then say why.
//!
//! The curriculum is data in the crate rather than prose in the page, and the
//! declared outcomes are part of the contracts below: every scenario, every
//! step and every challenge solution is proved to produce the verdict it
//! declares, by the same rule `session::exchange` is proved to follow, and
//! every step's instruction is proved to name exactly the switches it moves.

use vstd::prelude::*;
use crate::aead::{overruns, Suite};
use crate::bytes::same_text;
use crate::session::Exchange;
use crate::error::Result;
use crate::kem::{backend_for, Kem};
use crate::session::{all_layers, effective_pq, exchange, expected_tag, framable, kem_refuses, Layers, TAG_ROOM};
use crate::threat::{assess, assessment, status_name, Adversary};

verus! {

/// A complete console state: the switches, what the adversary is assumed to
/// know, and the KEM.
#[derive(Debug, Clone, Copy, PartialEq, Eq)]
pub struct Setup {
    pub layers: Layers,
    /// The Kieyoomia switch: the adversary has a fluent speaker and can strip
    /// the transport layer.
    pub adversary_knows_transport: bool,
    /// Pinned only where the scenario is about the backend. `None` leaves
    /// whatever the reader selected, because no other outcome here depends on
    /// the KEM.
    pub kem: Option<&'static str>,
}

/// The console's switch identifiers, in rail order.
pub const SWITCHES: [&'static str; 7] = [
    "keyAgreement",
    "aead",
    "transport",
    "authenticate",
    "ratchet",
    "nonceReuse",
    "adversaryKnowsTransport",
];

/// The one-switch list `[id]` when `differs`, else nothing.
pub open spec fn when_differs(id: &'static str, differs: bool) -> Seq<&'static str> {
    if differs {
        seq![id]
    } else {
        Seq::empty()
    }
}

/// The switches on which two setups differ, in rail order.
pub open spec fn differing(a: Setup, b: Setup) -> Seq<&'static str> {
    when_differs("keyAgreement", a.layers.key_agreement != b.layers.key_agreement)
        + when_differs("aead", a.layers.aead != b.layers.aead)
        + when_differs("transport", a.layers.transport != b.layers.transport)
        + when_differs("authenticate", a.layers.authenticate != b.layers.authenticate)
        + when_differs("ratchet", a.layers.ratchet != b.layers.ratchet)
        + when_differs("nonceReuse", a.layers.nonce_reuse != b.layers.nonce_reuse)
        + when_differs("adversaryKnowsTransport", a.adversary_knows_transport != b.adversary_knows_transport)
}

/// A setup's switch by its console id; `None` for an id that names no switch.
pub open spec fn switch_spec(s: Setup, id: Seq<char>) -> Option<bool> {
    if id == "keyAgreement"@ {
        Some(s.layers.key_agreement)
    } else if id == "aead"@ {
        Some(s.layers.aead)
    } else if id == "transport"@ {
        Some(s.layers.transport)
    } else if id == "authenticate"@ {
        Some(s.layers.authenticate)
    } else if id == "ratchet"@ {
        Some(s.layers.ratchet)
    } else if id == "nonceReuse"@ {
        Some(s.layers.nonce_reuse)
    } else if id == "adversaryKnowsTransport"@ {
        Some(s.adversary_knows_transport)
    } else {
        None
    }
}

/// A setup with one switch, named by its console id, set; unchanged for an
/// id that names no switch.
pub open spec fn with_switch(s: Setup, id: Seq<char>, on: bool) -> Setup {
    if id == "keyAgreement"@ {
        Setup { layers: Layers { key_agreement: on, ..s.layers }, ..s }
    } else if id == "aead"@ {
        Setup { layers: Layers { aead: on, ..s.layers }, ..s }
    } else if id == "transport"@ {
        Setup { layers: Layers { transport: on, ..s.layers }, ..s }
    } else if id == "authenticate"@ {
        Setup { layers: Layers { authenticate: on, ..s.layers }, ..s }
    } else if id == "ratchet"@ {
        Setup { layers: Layers { ratchet: on, ..s.layers }, ..s }
    } else if id == "nonceReuse"@ {
        Setup { layers: Layers { nonce_reuse: on, ..s.layers }, ..s }
    } else if id == "adversaryKnowsTransport"@ {
        Setup { adversary_knows_transport: on, ..s }
    } else {
        s
    }
}

/// The verdict a setup produces.
pub open spec fn verdict_of_setup(s: Setup) -> &'static str {
    expected_tag(s.layers, s.adversary_knows_transport)
}

/// `id` onto the end of `out` when `differs`.
fn push_if(out: &mut Vec<&'static str>, id: &'static str, differs: bool)
    ensures
        final(out)@ == old(out)@ + when_differs(id, differs),
{
    if differs {
        out.push(id);
    }
    assert(out@ =~= old(out)@ + when_differs(id, differs));
}

impl Setup {
    /// The switches that differ, named as the console names them.
    pub fn diff(&self, other: &Setup) -> (r: Vec<&'static str>)
        ensures
            r@ == differing(*self, *other),
    {
        let (a, b) = (self.layers, other.layers);
        let mut out: Vec<&'static str> = Vec::new();
        push_if(&mut out, "keyAgreement", a.key_agreement != b.key_agreement);
        assert(out@ =~= when_differs("keyAgreement", a.key_agreement != b.key_agreement));
        push_if(&mut out, "aead", a.aead != b.aead);
        push_if(&mut out, "transport", a.transport != b.transport);
        push_if(&mut out, "authenticate", a.authenticate != b.authenticate);
        push_if(&mut out, "ratchet", a.ratchet != b.ratchet);
        push_if(&mut out, "nonceReuse", a.nonce_reuse != b.nonce_reuse);
        push_if(&mut out, "adversaryKnowsTransport", self.adversary_knows_transport != other.adversary_knows_transport);
        assert(out@ =~= differing(*self, *other));
        out
    }
}

/// Every layer on, an adversary with no advantages, no KEM pinned.
pub open spec fn full_setup() -> Setup {
    Setup { layers: all_layers(), adversary_knows_transport: false, kem: None }
}

/// `s` with the adversary given a fluent speaker.
pub open spec fn with_speaker(s: Setup) -> Setup {
    Setup { adversary_knows_transport: true, ..s }
}

/// `s` with key agreement off.
pub open spec fn without_key_agreement(s: Setup) -> Setup {
    Setup { layers: Layers { key_agreement: false, ..s.layers }, ..s }
}

/// `s` with authenticated encryption off.
pub open spec fn without_aead(s: Setup) -> Setup {
    Setup { layers: Layers { aead: false, ..s.layers }, ..s }
}

/// `s` with peer authentication off.
pub open spec fn without_auth(s: Setup) -> Setup {
    Setup { layers: Layers { authenticate: false, ..s.layers }, ..s }
}

/// `s` with the ratchet off.
pub open spec fn without_ratchet(s: Setup) -> Setup {
    Setup { layers: Layers { ratchet: false, ..s.layers }, ..s }
}

/// `s` with the nonce fault injected.
pub open spec fn with_repeated_nonce(s: Setup) -> Setup {
    Setup { layers: Layers { nonce_reuse: true, ..s.layers }, ..s }
}

/// `s` with the classical KEM pinned.
pub open spec fn pinned_classical(s: Setup) -> Setup {
    Setup { kem: Some("x25519"), ..s }
}

// Builders rather than a seven-argument constructor: `speaker(no_aead(full()))`
// reads as the configuration it describes, and a positional call would not.
pub(crate) fn full() -> (r: Setup)
    ensures
        r == full_setup(),
{
    Setup {
        layers: Layers {
            key_agreement: true,
            aead: true,
            transport: true,
            authenticate: true,
            ratchet: true,
            nonce_reuse: false,
        },
        adversary_knows_transport: false,
        kem: None,
    }
}

pub(crate) fn speaker(s: Setup) -> (r: Setup)
    ensures
        r == with_speaker(s),
{
    let mut s = s;
    s.adversary_knows_transport = true;
    s
}

pub(crate) fn no_key_agreement(s: Setup) -> (r: Setup)
    ensures
        r == without_key_agreement(s),
{
    let mut s = s;
    s.layers.key_agreement = false;
    s
}

pub(crate) fn no_aead(s: Setup) -> (r: Setup)
    ensures
        r == without_aead(s),
{
    let mut s = s;
    s.layers.aead = false;
    s
}

pub(crate) fn no_auth(s: Setup) -> (r: Setup)
    ensures
        r == without_auth(s),
{
    let mut s = s;
    s.layers.authenticate = false;
    s
}

pub(crate) fn no_ratchet(s: Setup) -> (r: Setup)
    ensures
        r == without_ratchet(s),
{
    let mut s = s;
    s.layers.ratchet = false;
    s
}

pub(crate) fn repeat_nonce(s: Setup) -> (r: Setup)
    ensures
        r == with_repeated_nonce(s),
{
    let mut s = s;
    s.layers.nonce_reuse = true;
    s
}

pub(crate) fn pre_quantum(s: Setup) -> (r: Setup)
    ensures
        r == pinned_classical(s),
{
    let mut s = s;
    s.kem = Some("x25519");
    s
}

/// One prediction a reader can make before a change is applied.
#[derive(Debug, Clone, Copy)]
pub struct Outcome {
    /// Matches `Recovery::tag`.
    pub tag: &'static str,
    pub label: &'static str,
}

/// The predictions offered, in increasing order of how much the adversary
/// gets. Every one of these is the verdict after some step (see `steps`): a
/// distractor that is never right is a lesson in ignoring the list.
pub fn outcomes() -> (r: [Outcome; 4])
    ensures
        r[0].tag == "MetadataOnly",
        r[1].tag == "KeystreamReuse",
        r[2].tag == "MachineInTheMiddle",
        r[3].tag == "Plaintext",
{
    [
    Outcome { tag: "MetadataOnly", label: "Length and timing only" },
    Outcome {
        tag: "KeystreamReuse",
        label: "Message 2, as far as a crib for message 1 reaches",
    },
    Outcome {
        tag: "MachineInTheMiddle",
        label: "Delivered and read — by an attacker standing in for the peer",
    },
    Outcome { tag: "Plaintext", label: "The full plaintext" },
    ]
}

/// A named configuration a reader can jump straight to.
#[derive(Debug, Clone, Copy)]
pub struct Scenario {
    pub id: &'static str,
    pub name: &'static str,
    pub blurb: &'static str,
    pub setup: Setup,
    /// The outcome this scenario exists to show.
    pub expect: &'static str,
}

/// One experiment: a starting state, one change, and a debrief.
#[derive(Debug, Clone, Copy)]
pub struct Step {
    pub id: &'static str,
    pub title: &'static str,
    /// The idea the step is for, in one line.
    pub concept: &'static str,
    pub before: Setup,
    pub after: Setup,
    /// The switches to move, as an instruction to the reader.
    pub instruction: &'static str,
    /// The same instruction as switch ids, so the page can highlight exactly
    /// the controls named. Equal to `before.diff(&after)`.
    pub moves: &'static [&'static str],
    pub question: &'static str,
    /// What the channel does in `before`: a step whose result is "unchanged"
    /// needs a starting result to be unchanged from.
    pub expect_before: &'static str,
    pub expect_after: &'static str,
    /// The causal debrief. Two sentences: what happened, and why.
    pub explain: &'static str,
    /// The adversary this step defeats or enables, by its threat-model
    /// identifier. A result with no adversary attached is not a security result.
    pub adversary: &'static str,
}

/// The presets. Each one produces the verdict it declares.
pub fn scenarios() -> (r: [Scenario; 7])
    ensures
        forall|i: int| 0 <= i < 7 ==> verdict_of_setup(#[trigger] r[i].setup) == r[i].expect,
        r[0].id == "full-stack",
        r[1].id == "kieyoomia",
        r[2].id == "obscurity-only",
        r[3].id == "mitm",
        r[4].id == "two-time-pad",
        r[5].id == "ratchet-saves-it",
        r[6].id == "pre-quantum",
        r[0].setup == full_setup(),
        r[1].setup == with_speaker(full_setup()),
        r[2].setup == with_speaker(without_aead(without_key_agreement(full_setup()))),
        r[3].setup == with_speaker(without_auth(full_setup())),
        r[4].setup == with_speaker(with_repeated_nonce(without_ratchet(full_setup()))),
        r[5].setup == with_speaker(with_repeated_nonce(full_setup())),
        r[6].setup == pinned_classical(full_setup()),
{
    let r = [
    Scenario {
        id: "full-stack",
        name: "Full stack",
        blurb: "Every layer engaged, and an adversary with no advantages.",
        setup: full(),
        expect: "MetadataOnly",
    },
    Scenario {
        id: "kieyoomia",
        name: "Kieyoomia test",
        blurb: "The adversary reads the language fluently. It changes nothing.",
        setup: speaker(full()),
        expect: "MetadataOnly",
    },
    Scenario {
        id: "obscurity-only",
        name: "Obscurity only",
        blurb: "Transport dressing over a plaintext, against someone who knows the scheme.",
        setup: speaker(no_aead(no_key_agreement(full()))),
        expect: "Plaintext",
    },
    Scenario {
        id: "mitm",
        name: "MITM succeeds",
        blurb: "Strong encryption, no pinned identity, and the attacker is the peer.",
        setup: speaker(no_auth(full())),
        expect: "MachineInTheMiddle",
    },
    Scenario {
        id: "two-time-pad",
        name: "Nonce reuse breaks it",
        blurb: "One key, one nonce, two messages — and a crib recovers the second.",
        setup: speaker(repeat_nonce(no_ratchet(full()))),
        expect: "KeystreamReuse",
    },
    Scenario {
        id: "ratchet-saves-it",
        name: "The ratchet earns its place",
        blurb: "The same repeated nonce, now under a key that changes every message.",
        setup: speaker(repeat_nonce(full())),
        expect: "MetadataOnly",
    },
    Scenario {
        id: "pre-quantum",
        name: "Classical vs post-quantum",
        blurb: "X25519 alone. Nothing on the wire changes; A4 does.",
        setup: pre_quantum(full()),
        expect: "MetadataOnly",
    },
    ];
    assert(forall|i: int| 0 <= i < 7 ==> verdict_of_setup(#[trigger] r[i].setup) == r[i].expect);
    r
}

/// The five experiments, in the order they build on each other.
///
/// The chain matters. Experiment 1 hands the adversary a fluent speaker and
/// nothing happens; experiment 2 leaves that speaker in place and removes the
/// layers underneath, so the same adversary who got nothing a moment ago
/// reads everything. Each step's declared outcomes are the verdicts its two
/// setups produce, each step's moves are exactly the switches that differ,
/// and every verdict a reader may predict is the answer to some step.
pub fn steps() -> (r: [Step; 5])
    ensures
        forall|i: int|
            0 <= i < 5 ==> verdict_of_setup(#[trigger] r[i].before) == r[i].expect_before
                && verdict_of_setup(r[i].after) == r[i].expect_after
                && r[i].moves@ == differing(r[i].before, r[i].after),
        exists|i: int| 0 <= i < 5 && #[trigger] r[i].expect_after == "MetadataOnly",
        exists|i: int| 0 <= i < 5 && #[trigger] r[i].expect_after == "KeystreamReuse",
        exists|i: int| 0 <= i < 5 && #[trigger] r[i].expect_after == "MachineInTheMiddle",
        exists|i: int| 0 <= i < 5 && #[trigger] r[i].expect_after == "Plaintext",
        r[0].id == "kieyoomia" && r[0].before == full_setup() && r[0].after == with_speaker(full_setup()),
        r[0].moves@ == seq!["adversaryKnowsTransport"],
        r[1].id == "obscurity-only" && r[1].before == with_speaker(full_setup())
            && r[1].after == with_speaker(without_aead(without_key_agreement(full_setup()))),
        r[1].moves@ == seq!["keyAgreement", "aead"],
        r[2].id == "mitm" && r[2].before == with_speaker(full_setup())
            && r[2].after == with_speaker(without_auth(full_setup())),
        r[2].moves@ == seq!["authenticate"],
        r[3].id == "two-time-pad" && r[3].before == with_speaker(without_ratchet(full_setup()))
            && r[3].after == with_speaker(with_repeated_nonce(without_ratchet(full_setup()))),
        r[3].moves@ == seq!["nonceReuse"],
        r[4].id == "ratchet-saves-it" && r[4].before == with_speaker(with_repeated_nonce(without_ratchet(full_setup())))
            && r[4].after == with_speaker(with_repeated_nonce(full_setup())),
        r[4].moves@ == seq!["ratchet"],
{
    let r = [
    Step {
        id: "kieyoomia",
        title: "The fluent speaker",
        concept: "Recognising the language is not possession of the codebook.",
        before: full(),
        after: speaker(full()),
        instruction: "Give the adversary a fluent speaker.",
        moves: &["adversaryKnowsTransport"],
        question: "The adversary can now strip the transport layer. What do they recover?",
        expect_before: "MetadataOnly",
        expect_after: "MetadataOnly",
        explain: "Stripping the transport yields ciphertext, and ciphertext without the session \
                  key yields nothing. This is the result Joe Kieyoomia produced under \
                  interrogation: he could hear his own language and could not read a word of the \
                  traffic, because the codebook was the layer doing the work.",
        adversary: "A1 stays defended",
    },
    Step {
        id: "obscurity-only",
        title: "Obscurity on its own",
        concept: "A transformed wire is not a confidential one.",
        before: speaker(full()),
        after: speaker(no_aead(no_key_agreement(full()))),
        instruction: "Switch off key agreement and authenticated encryption. Leave the transport \
                      layer on.",
        moves: &["keyAgreement", "aead"],
        question: "The wire is still framed and padded. What does the same adversary recover now?",
        expect_before: "MetadataOnly",
        expect_after: "Plaintext",
        explain: "The adversary did not gain a capability — they had the speaker a moment ago and \
                  got nothing. What changed is that the layers beneath the transport are gone, so \
                  stripping it now reaches the message itself. The wire still looks transformed, \
                  which is exactly why obscurity is mistaken for confidentiality.",
        adversary: "A1 exposed",
    },
    Step {
        id: "mitm",
        title: "A valid signature from the wrong peer",
        concept: "Encryption without a pinned identity does not stop an active attacker.",
        before: speaker(full()),
        after: speaker(no_auth(full())),
        instruction: "Switch off peer authentication.",
        moves: &["authenticate"],
        question: "Encryption and key agreement are both back on. What does the adversary get?",
        expect_before: "MetadataOnly",
        expect_after: "MachineInTheMiddle",
        explain: "The handshake succeeded and the signature verified — it was a valid signature, \
                  by the attacker. With no pinned identity key there is nothing to check it \
                  against, so both endpoints report a good session and the attacker is one of \
                  them. Note that the passive observer still gets nothing; this break costs the \
                  adversary a position on the path.",
        adversary: "A2 exposed",
    },
    Step {
        id: "two-time-pad",
        title: "One keystream, twice",
        concept: "A repeated nonce is catastrophic only when the key repeats with it.",
        before: speaker(no_ratchet(full())),
        after: speaker(repeat_nonce(no_ratchet(full()))),
        instruction: "With the ratchet already off, repeat the nonce.",
        moves: &["nonceReuse"],
        question: "Both frames are now sealed under one key and one nonce. What follows?",
        expect_before: "MetadataOnly",
        expect_after: "KeystreamReuse",
        explain: "Two ciphertexts under one keystream cancel it: C1 XOR C2 is P1 XOR P2, so a crib \
                  for message 1 yields message 2 for as far as the crib reaches. Nothing was \
                  broken cryptographically — the construction is sound and was used twice.",
        adversary: "A1 exposed",
    },
    Step {
        id: "ratchet-saves-it",
        title: "The ratchet earns its place",
        concept: "Nonce uniqueness is a per-key requirement, not a global one.",
        before: speaker(repeat_nonce(no_ratchet(full()))),
        after: speaker(repeat_nonce(full())),
        instruction: "Leave the nonce repeating. Switch the ratchet back on.",
        moves: &["ratchet"],
        question: "The fault is still injected. Does the recovery survive it?",
        expect_before: "KeystreamReuse",
        expect_after: "MetadataOnly",
        explain: "The nonce still repeats and it no longer matters, because the ratchet hands out \
                  a fresh key per message and the two frames now share a nonce and nothing else. \
                  Read the consequence off the frame comparison rather than the switch: it is \
                  key 1 versus key 2 that decides this.",
        adversary: "A1 defended, A3 defended",
    },
    ];
    assert(r[0].moves@ =~= differing(r[0].before, r[0].after));
    assert(r[1].moves@ =~= differing(r[1].before, r[1].after));
    assert(r[2].moves@ =~= differing(r[2].before, r[2].after));
    assert(r[3].moves@ =~= differing(r[3].before, r[3].after));
    assert(r[4].moves@ =~= differing(r[4].before, r[4].after));
    assert(r[0].expect_after == "MetadataOnly");
    assert(r[3].expect_after == "KeystreamReuse");
    assert(r[2].expect_after == "MachineInTheMiddle");
    assert(r[1].expect_after == "Plaintext");
    r
}


/// One condition a challenge configuration has to meet.
///
/// Data rather than a closure, because the page has to render the checklist:
/// a reader working on a goal needs to see which conditions they have already
/// met and which they have not.
#[derive(Debug, Clone, Copy)]
pub enum Requirement {
    /// A named adversary must end up in this status.
    Adversary { id: &'static str, status: &'static str, label: &'static str },
    /// The KEM in force must (or must not) be post-quantum.
    PostQuantum { yes: bool, label: &'static str },
    /// A console switch must be in this position.
    Switch { id: &'static str, on: bool, label: &'static str },
    /// The recovery verdict, by `Recovery::tag`.
    Verdict { tag: &'static str, label: &'static str },
    /// Every switch left on must be load-bearing: turning any one of them off
    /// has to change the verdict. This is what makes "the smallest
    /// configuration" a checkable claim rather than a matter of opinion.
    Minimal { label: &'static str },
}

/// The label a requirement is shown under.
pub open spec fn requirement_label(r: Requirement) -> &'static str {
    match r {
        Requirement::Adversary { label, .. } => label,
        Requirement::PostQuantum { label, .. } => label,
        Requirement::Switch { label, .. } => label,
        Requirement::Verdict { label, .. } => label,
        Requirement::Minimal { label } => label,
    }
}

impl Requirement {
    pub fn label(&self) -> (r: &'static str)
        ensures
            r == requirement_label(*self),
    {
        match self {
            Requirement::Adversary { label, .. } => label,
            Requirement::PostQuantum { label, .. } => label,
            Requirement::Switch { label, .. } => label,
            Requirement::Verdict { label, .. } => label,
            Requirement::Minimal { label } => label,
        }
    }
}

/// A task stated as an outcome, with the reasoning left to the reader.
#[derive(Debug, Clone, Copy)]
pub struct Challenge {
    pub id: &'static str,
    pub title: &'static str,
    pub brief: &'static str,
    pub requirements: &'static [Requirement],
    /// Asked once the configuration validates.
    pub question: &'static str,
    /// What a correct answer says, revealed for self-checking.
    pub answer: &'static str,
    /// A configuration meeting every requirement.
    pub solution: Setup,
    /// A KEM backend this challenge cannot be attempted without. Only set
    /// where the task is about the KEM.
    pub needs_backend: Option<&'static str>,
}

/// Every switch left on is load-bearing: switching any one of them off (the
/// injected nonce fault aside, which is the premise of a task rather than a
/// layer) changes the verdict.
pub open spec fn minimal(s: Setup) -> bool {
    forall|k: int|
        0 <= k < 7 && SWITCHES@[k]@ != "nonceReuse"@ && #[trigger] switch_spec(s, SWITCHES@[k]@) == Some(true)
            ==> verdict_of_setup(with_switch(s, SWITCHES@[k]@, false))@ != verdict_of_setup(s)@
}

/// Some adversary in the list has this id and stands in this status.
pub open spec fn stands(advs: Seq<Adversary>, id: Seq<char>, status: Seq<char>) -> bool {
    exists|k: int| 0 <= k < advs.len() && (#[trigger] advs[k]).id@ == id && status_name(advs[k].status)@ == status
}

/// Whether a setup meets a requirement, the KEM in force being post-quantum
/// or not as `kem_is_pq` says.
pub open spec fn requirement_met(req: Requirement, s: Setup, kem_is_pq: bool) -> bool {
    match req {
        Requirement::Adversary { id, status, .. } => stands(assessment(s.layers, kem_is_pq), id@, status@),
        Requirement::PostQuantum { yes, .. } => kem_is_pq == yes,
        Requirement::Switch { id, on, .. } => switch_spec(s, id@) == Some(on),
        Requirement::Verdict { tag, .. } => verdict_of_setup(s)@ == tag@,
        Requirement::Minimal { .. } => minimal(s),
    }
}

/// The KEM a setup pins, if any, is post-quantum exactly when `pq` says.
pub open spec fn pinned_kem_is(s: Setup, pq: bool) -> bool {
    match s.kem {
        Some(name) => match backend_for(name@) {
            Ok(b) => b.post_quantum() == pq,
            Err(_) => false,
        },
        None => true,
    }
}

/// The console ids name seven different switches.
pub proof fn lemma_switch_ids_distinct()
    ensures
        SWITCHES@ == seq![
            "keyAgreement",
            "aead",
            "transport",
            "authenticate",
            "ratchet",
            "nonceReuse",
            "adversaryKnowsTransport",
        ],
        forall|a: int, b: int| 0 <= a < 7 && 0 <= b < 7 && a != b ==> #[trigger] SWITCHES@[a]@ != #[trigger] SWITCHES@[b]@,
{
    reveal_strlit("keyAgreement");
    reveal_strlit("aead");
    reveal_strlit("transport");
    reveal_strlit("authenticate");
    reveal_strlit("ratchet");
    reveal_strlit("nonceReuse");
    reveal_strlit("adversaryKnowsTransport");
    assert(SWITCHES@ =~= seq![
        "keyAgreement",
        "aead",
        "transport",
        "authenticate",
        "ratchet",
        "nonceReuse",
        "adversaryKnowsTransport",
    ]);
    assert("keyAgreement"@[0] != "authenticate"@[0]);
    assert forall|a: int, b: int| 0 <= a < 7 && 0 <= b < 7 && a != b implies #[trigger] SWITCHES@[a]@
        != #[trigger] SWITCHES@[b]@ by {
        assert(a == 0 || a == 1 || a == 2 || a == 3 || a == 4 || a == 5 || a == 6);
        assert(b == 0 || b == 1 || b == 2 || b == 3 || b == 4 || b == 5 || b == 6);
        if SWITCHES@[a]@ == SWITCHES@[b]@ {
            assert(SWITCHES@[a]@.len() == SWITCHES@[b]@.len());
            assert(SWITCHES@[a]@[0] == SWITCHES@[b]@[0]);
        }
    }
}

/// `id` is one of the console's switch ids.
pub open spec fn names_switch(id: Seq<char>) -> bool {
    exists|k: int| 0 <= k < 7 && #[trigger] SWITCHES@[k]@ == id
}

/// Setting a switch by its console id sets that switch and leaves every
/// other switch and the KEM as they were; an id that names no switch leaves
/// the setup unchanged, and reads back as no switch at all.
pub proof fn lemma_with_switch_sets_one(s: Setup, id: Seq<char>, on: bool)
    ensures
        names_switch(id) ==> switch_spec(with_switch(s, id, on), id) == Some(on),
        forall|k: int|
            0 <= k < 7 && SWITCHES@[k]@ != id ==> switch_spec(with_switch(s, id, on), #[trigger] SWITCHES@[k]@)
                == switch_spec(s, SWITCHES@[k]@),
        with_switch(s, id, on).kem == s.kem,
        !names_switch(id) ==> with_switch(s, id, on) == s && switch_spec(s, id) is None,
{
    lemma_switch_ids_distinct();
    assert forall|k: int|
        0 <= k < 7 && SWITCHES@[k]@ != id implies switch_spec(with_switch(s, id, on), #[trigger] SWITCHES@[k]@)
            == switch_spec(s, SWITCHES@[k]@) by {
        assert(k == 0 || k == 1 || k == 2 || k == 3 || k == 4 || k == 5 || k == 6);
    }
    if !names_switch(id) {
        assert(SWITCHES@[0]@ != id && SWITCHES@[1]@ != id && SWITCHES@[2]@ != id && SWITCHES@[3]@ != id);
        assert(SWITCHES@[4]@ != id && SWITCHES@[5]@ != id && SWITCHES@[6]@ != id);
    }
}

/// Minimality tries every switch but the fault: a setup is minimal exactly
/// when switching off any one of its layers that is on (key agreement, AEAD,
/// the transport, authentication, the ratchet), or taking away the fluent
/// speaker when it has one, changes the verdict. In particular a setup whose
/// verdict survives switching the transport off is not minimal.
pub proof fn lemma_minimal_tries_every_switch(s: Setup)
    ensures
        minimal(s) == {
            &&& s.layers.key_agreement ==> verdict_of_setup(without_key_agreement(s))@ != verdict_of_setup(s)@
            &&& s.layers.aead ==> verdict_of_setup(without_aead(s))@ != verdict_of_setup(s)@
            &&& s.layers.transport ==> verdict_of_setup(
                Setup { layers: Layers { transport: false, ..s.layers }, ..s },
            )@ != verdict_of_setup(s)@
            &&& s.layers.authenticate ==> verdict_of_setup(without_auth(s))@ != verdict_of_setup(s)@
            &&& s.layers.ratchet ==> verdict_of_setup(without_ratchet(s))@ != verdict_of_setup(s)@
            &&& s.adversary_knows_transport ==> verdict_of_setup(Setup { adversary_knows_transport: false, ..s })@
                != verdict_of_setup(s)@
        },
        s.layers.transport && verdict_of_setup(Setup { layers: Layers { transport: false, ..s.layers }, ..s })@
            == verdict_of_setup(s)@ ==> !minimal(s),
{
    lemma_switch_ids_distinct();
    assert(SWITCHES@[0] == "keyAgreement" && SWITCHES@[1] == "aead" && SWITCHES@[2] == "transport");
    assert(SWITCHES@[3] == "authenticate" && SWITCHES@[4] == "ratchet" && SWITCHES@[5] == "nonceReuse");
    assert(SWITCHES@[6] == "adversaryKnowsTransport");
    assert(switch_spec(s, SWITCHES@[0]@) == Some(s.layers.key_agreement));
    assert(switch_spec(s, SWITCHES@[1]@) == Some(s.layers.aead));
    assert(switch_spec(s, SWITCHES@[2]@) == Some(s.layers.transport));
    assert(switch_spec(s, SWITCHES@[3]@) == Some(s.layers.authenticate));
    assert(switch_spec(s, SWITCHES@[4]@) == Some(s.layers.ratchet));
    assert(switch_spec(s, SWITCHES@[6]@) == Some(s.adversary_knows_transport));
    assert(with_switch(s, SWITCHES@[0]@, false) == without_key_agreement(s));
    assert(with_switch(s, SWITCHES@[1]@, false) == without_aead(s));
    assert(with_switch(s, SWITCHES@[2]@, false) == Setup { layers: Layers { transport: false, ..s.layers }, ..s });
    assert(with_switch(s, SWITCHES@[3]@, false) == without_auth(s));
    assert(with_switch(s, SWITCHES@[4]@, false) == without_ratchet(s));
    assert(with_switch(s, SWITCHES@[6]@, false) == Setup { adversary_knows_transport: false, ..s });
    assert forall|k: int| 0 <= k < 7 && k != 5 implies SWITCHES@[k]@ != "nonceReuse"@ by {
        assert(SWITCHES@[k]@ != SWITCHES@[5]@);
    }
    assert(SWITCHES@[5]@ == "nonceReuse"@);
}

/// The transfer challenges. Each one's solution meets every requirement it
/// states, under the KEM it pins.
pub fn challenges() -> (r: [Challenge; 2])
    ensures
        r[0].id == "hold-the-line",
        r[1].id == "smallest-pad",
        r[0].solution == pinned_classical(without_ratchet(full_setup())),
        r[0].needs_backend == Some("x25519"),
        r[1].solution == (Setup {
            layers: Layers {
                key_agreement: true,
                aead: true,
                transport: false,
                authenticate: false,
                ratchet: false,
                nonce_reuse: true,
            },
            adversary_knows_transport: false,
            kem: None,
        }),
        r[1].needs_backend is None,
        forall|i: int, pq: bool|
            0 <= i < 2 && #[trigger] pinned_kem_is(r[i].solution, pq) ==> forall|j: int|
                0 <= j < r[i].requirements@.len() ==> #[trigger] requirement_met(
                    r[i].requirements@[j],
                    r[i].solution,
                    pq,
                ),
{
    let r = [
    Challenge {
        id: "hold-the-line",
        title: "Hold the line, and know what you gave up",
        brief: "Configure the channel so that both a passive observer and an active \
                machine-in-the-middle fail, using classical primitives only, and \
                deliberately without forward secrecy.",
        requirements: &[
            Requirement::Adversary {
                id: "A1",
                status: "defended",
                label: "A passive observer recovers nothing",
            },
            Requirement::Adversary {
                id: "A2",
                status: "defended",
                label: "An active attacker cannot become the peer",
            },
            Requirement::PostQuantum {
                yes: false,
                label: "Classical primitives only — the KEM in force is not post-quantum",
            },
            Requirement::Switch {
                id: "ratchet",
                on: false,
                label: "No forward secrecy — the ratchet is off",
            },
        ],
        question: "Two adversaries still win here. Name them, and say what each one gets.",
        answer: "A3 and A4, and they are different kinds of loss. A3 is a key compromise at \
                 some future time T: with no ratchet, one key covers every message the session \
                 ever sent, so a single compromise opens the whole archive rather than one \
                 message. A4 is a quantum adversary who does not need access today at all — \
                 X25519 traffic recorded now falls whenever the discrete log does, which is why \
                 harvest-now-decrypt-later is a deadline and not a threat. Neither shows up in \
                 the verdict, which is the point: the recovery panel says what an attacker gets \
                 today, and these are both statements about later.",
        solution: pre_quantum(no_ratchet(full())),
        needs_backend: Some("x25519"),
    },
    Challenge {
        id: "smallest-pad",
        title: "The smallest two-time pad",
        brief: "Build the smallest configuration in which repeating the nonce lets an \
                adversary recover message 2 from a crib for message 1. Every switch you leave \
                on has to be necessary: if one of them can be switched off without changing \
                the result, the configuration is not the smallest.",
        requirements: &[
            Requirement::Verdict {
                tag: "KeystreamReuse",
                label: "The adversary recovers message 2 from a crib for message 1",
            },
            Requirement::Minimal {
                label: "Every switch left on is load-bearing — turning any one off changes the result",
            },
        ],
        question: "Why does each condition you kept have to be there? Key agreement in \
                   particular: why does switching it off make the result worse rather than \
                   better?",
        answer: "Key agreement has to stay on, and that is the counterintuitive one. Switch it \
                 off and the adversary stops needing the two-time pad at all — they rebuild the \
                 key from a transcript that crossed the wire in the clear and read both \
                 messages directly. That is a bigger break and a completely different lesson, so \
                 a configuration that produces it is not a smaller answer to this question but a \
                 wrong one. AEAD has to stay on for the same reason: with nothing encrypted \
                 there is no keystream to reuse. The ratchet has to be off, because a fresh key \
                 per message means the two frames share a nonce and nothing else. And \
                 authentication has to be off — not because it would prevent the attack, but \
                 because it does nothing against it, and a switch that changes no result is \
                 exactly what \"smallest\" excludes.",
        solution: Setup {
            layers: Layers {
                key_agreement: true,
                aead: true,
                transport: false,
                authenticate: false,
                ratchet: false,
                nonce_reuse: true,
            },
            adversary_knows_transport: false,
            kem: None,
        },
        needs_backend: None,
    },
    ];
    proof {
        reveal_strlit("x25519");
        reveal_strlit("static");
        reveal_strlit("Plaintext");
        reveal_strlit("KeystreamReuse");
        reveal_strlit("MachineInTheMiddle");
        reveal_strlit("MetadataOnly");
        lemma_switch_ids_distinct();
        // Hold the line: both adversaries stand defended under the classical
        // KEM the solution pins, and the ratchet is off.
        let s0 = r[0].solution;
        let a0 = assessment(s0.layers, false);
        assert(a0[0].id == "A1" && a0[1].id == "A2");
        assert(SWITCHES@[4] == "ratchet");
        assert(switch_spec(s0, SWITCHES@[4]@) == Some(false));
        assert forall|pq: bool| #[trigger] pinned_kem_is(s0, pq) implies !pq by {}
        // The smallest pad: key agreement and AEAD are on, and switching
        // either off turns the pad into a plain read; every other switch but
        // the fault is off.
        let s1 = r[1].solution;
        assert(SWITCHES@[0] == "keyAgreement" && SWITCHES@[1] == "aead");
        assert("Plaintext"@.len() != "KeystreamReuse"@.len());
        assert(verdict_of_setup(with_switch(s1, SWITCHES@[0]@, false))@ != verdict_of_setup(s1)@);
        assert(verdict_of_setup(with_switch(s1, SWITCHES@[1]@, false))@ != verdict_of_setup(s1)@);
        assert forall|k: int|
            0 <= k < 7 && SWITCHES@[k]@ != "nonceReuse"@ && #[trigger] switch_spec(s1, SWITCHES@[k]@) == Some(true)
            implies verdict_of_setup(with_switch(s1, SWITCHES@[k]@, false))@ != verdict_of_setup(s1)@ by {
            assert(k == 0 || k == 1 || k == 2 || k == 3 || k == 4 || k == 5 || k == 6);
        }
    }
    r
}

/// Whether some adversary in `advs` has this id and stands in this status.
fn any_adversary(advs: &[Adversary; 5], id: &str, status: &str) -> (r: bool)
    ensures
        r == stands(advs@, id@, status@),
{
    let mut k: usize = 0;
    while k < 5
        invariant
            k <= 5,
            forall|j: int| 0 <= j < k ==> !((#[trigger] advs@[j]).id@ == id@ && status_name(advs@[j].status)@ == status@),
        decreases 5 - k,
    {
        if same_text(advs[k].id, id) && same_text(advs[k].status.as_str(), status) {
            assert(advs@[k as int].id@ == id@);
            return true;
        }
        k += 1;
    }
    false
}

/// Run one exchange of a setup.
fn run<K: Kem>(kem: &K, s: Setup, suite: Suite, m1: &[u8], m2: &[u8]) -> (r: Result<Exchange>)
    requires
        m1@.len() + TAG_ROOM <= usize::MAX,
        m2@.len() + TAG_ROOM <= usize::MAX,
        s.layers.aead ==> !overruns(suite, m1@.len()) && !overruns(suite, m2@.len()),
    ensures
        r matches Ok(ex) ==> {
            &&& ex.sender.handshake().kem_is_pq == effective_pq(*kem, s.layers)
            &&& framable(m1@, m2@) ==> crate::session::recovery_tag(ex.recovery) == verdict_of_setup(s)
        },
        r matches Err(e) ==> !framable(m1@, m2@) || (s.layers.key_agreement && kem_refuses(*kem, e)),
{
    exchange(kem, s.layers, suite, s.adversary_knows_transport, m1, m2)
}

/// Whether every switch left on in `setup` (the nonce fault aside) is
/// load-bearing: switching it off changes `verdict`, the setup's own.
fn is_minimal<K: Kem>(kem: &K, setup: Setup, suite: Suite, verdict: &str, m1: &[u8], m2: &[u8]) -> (r: Result<bool>)
    requires
        m1@.len() + TAG_ROOM <= usize::MAX,
        m2@.len() + TAG_ROOM <= usize::MAX,
        setup.layers.aead ==> !overruns(suite, m1@.len()) && !overruns(suite, m2@.len()),
        framable(m1@, m2@) ==> verdict@ == verdict_of_setup(setup)@,
    ensures
        r matches Ok(b) ==> (framable(m1@, m2@) ==> b == minimal(setup)),
        r matches Err(e) ==> !framable(m1@, m2@) || (setup.layers.key_agreement && kem_refuses(*kem, e)),
{
    proof {
        lemma_switch_ids_distinct();
    }
    let mut k: usize = 0;
    while k < 7
        invariant
            k <= 7,
            m1@.len() + TAG_ROOM <= usize::MAX,
            m2@.len() + TAG_ROOM <= usize::MAX,
            setup.layers.aead ==> !overruns(suite, m1@.len()) && !overruns(suite, m2@.len()),
            framable(m1@, m2@) ==> verdict@ == verdict_of_setup(setup)@,
            framable(m1@, m2@) ==> forall|j: int|
                0 <= j < k && SWITCHES@[j]@ != "nonceReuse"@ && #[trigger] switch_spec(setup, SWITCHES@[j]@) == Some(true)
                    ==> verdict_of_setup(with_switch(setup, SWITCHES@[j]@, false))@ != verdict_of_setup(setup)@,
        decreases 7 - k,
    {
        let id = SWITCHES[k];
        let on = match switch_of(&setup, id) {
            Some(b) => b,
            None => false,
        };
        if !same_text(id, "nonceReuse") && on {
            let mut without = setup;
            set_switch(&mut without, id, false);
            assert(without.layers.key_agreement ==> setup.layers.key_agreement);
            assert(without.layers.aead ==> setup.layers.aead);
            let ex = match run(kem, without, suite, m1, m2) {
                Ok(ex) => ex,
                Err(e) => return Err(e),
            };
            if same_text(ex.recovery.tag(), verdict) {
                proof {
                    if framable(m1@, m2@) {
                        assert(!minimal(setup)) by {
                            assert(switch_spec(setup, SWITCHES@[k as int]@) == Some(true));
                        }
                    }
                }
                return Ok(false);
            }
        }
        k += 1;
    }
    Ok(true)
}

/// Score a configuration against a challenge, condition by condition: one
/// flag per requirement, in order, so the page can show a checklist rather
/// than a pass or fail. The post-quantum conditions are judged by the KEM in
/// force, which is the static one when key agreement is off.
pub fn evaluate<K: Kem>(ch: &Challenge, kem: &K, setup: Setup, suite: Suite, m1: &[u8], m2: &[u8]) -> (r: Result<Vec<bool>>)
    requires
        m1@.len() + TAG_ROOM <= usize::MAX,
        m2@.len() + TAG_ROOM <= usize::MAX,
        setup.layers.aead ==> !overruns(suite, m1@.len()) && !overruns(suite, m2@.len()),
    ensures
        r matches Ok(v) ==> v@.len() == ch.requirements@.len(),
        r matches Ok(v) ==> (framable(m1@, m2@) ==> forall|i: int|
            0 <= i < v@.len() ==> v@[i] == requirement_met(
                #[trigger] ch.requirements@[i],
                setup,
                effective_pq(*kem, setup.layers),
            )),
        r matches Err(e) ==> !framable(m1@, m2@) || (setup.layers.key_agreement && kem_refuses(*kem, e)),
{
    let ex = match run(kem, setup, suite, m1, m2) {
        Ok(ex) => ex,
        Err(e) => return Err(e),
    };
    let verdict = ex.recovery.tag();
    let kem_is_pq = ex.sender.current_handshake().kem_is_pq;
    let adversaries = assess(setup.layers, kem_is_pq);
    let mut out: Vec<bool> = Vec::new();
    let mut i: usize = 0;
    while i < ch.requirements.len()
        invariant
            i <= ch.requirements@.len(),
            out@.len() == i,
            m1@.len() + TAG_ROOM <= usize::MAX,
            m2@.len() + TAG_ROOM <= usize::MAX,
            setup.layers.aead ==> !overruns(suite, m1@.len()) && !overruns(suite, m2@.len()),
            kem_is_pq == effective_pq(*kem, setup.layers),
            adversaries@ == assessment(setup.layers, kem_is_pq),
            framable(m1@, m2@) ==> verdict@ == verdict_of_setup(setup)@,
            framable(m1@, m2@) ==> forall|j: int|
                0 <= j < i ==> out@[j] == requirement_met(#[trigger] ch.requirements@[j], setup, kem_is_pq),
        decreases ch.requirements@.len() - i,
    {
        let req = ch.requirements[i];
        let met = match req {
            Requirement::Adversary { id, status, .. } => any_adversary(&adversaries, id, status),
            Requirement::PostQuantum { yes, .. } => kem_is_pq == yes,
            Requirement::Switch { id, on, .. } => match switch_of(&setup, id) {
                Some(b) => b == on,
                None => false,
            },
            Requirement::Verdict { tag, .. } => same_text(verdict, tag),
            Requirement::Minimal { .. } => match is_minimal(kem, setup, suite, verdict, m1, m2) {
                Ok(b) => b,
                Err(e) => return Err(e),
            },
        };
        out.push(met);
        i += 1;
    }
    Ok(out)
}

/// A setup's switch by its console id.
fn switch_of(s: &Setup, id: &str) -> (r: Option<bool>)
    ensures
        r == switch_spec(*s, id@),
{
    if same_text(id, "keyAgreement") {
        Some(s.layers.key_agreement)
    } else if same_text(id, "aead") {
        Some(s.layers.aead)
    } else if same_text(id, "transport") {
        Some(s.layers.transport)
    } else if same_text(id, "authenticate") {
        Some(s.layers.authenticate)
    } else if same_text(id, "ratchet") {
        Some(s.layers.ratchet)
    } else if same_text(id, "nonceReuse") {
        Some(s.layers.nonce_reuse)
    } else if same_text(id, "adversaryKnowsTransport") {
        Some(s.adversary_knows_transport)
    } else {
        None
    }
}

/// Set a setup's switch by its console id.
fn set_switch(s: &mut Setup, id: &str, on: bool)
    ensures
        *final(s) == with_switch(*old(s), id@, on),
{
    if same_text(id, "keyAgreement") {
        s.layers.key_agreement = on;
    } else if same_text(id, "aead") {
        s.layers.aead = on;
    } else if same_text(id, "transport") {
        s.layers.transport = on;
    } else if same_text(id, "authenticate") {
        s.layers.authenticate = on;
    } else if same_text(id, "ratchet") {
        s.layers.ratchet = on;
    } else if same_text(id, "nonceReuse") {
        s.layers.nonce_reuse = on;
    } else if same_text(id, "adversaryKnowsTransport") {
        s.adversary_knows_transport = on;
    }
}

} // verus!
