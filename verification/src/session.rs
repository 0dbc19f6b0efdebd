//! The layered channel, with each layer independently switchable.
//!
//! The point of this module is not to build a secure channel. It is to let a
//! reader turn layers off and observe precisely what an adversary gains.

use vstd::prelude::*;
use crate::aead::{self, ct_overruns, opened, overruns, seal_accepts, sealed, Suite, NONCE_LEN};
use crate::bytes::copy_of;
use crate::entropy::fill_random;
use crate::error::{Error, Result};
use crate::handshake::{
    initiate, lemma_both_sides_agree, root_info, same_hello, session_hash, session_root, signed_by,
    Handshake, Responder,
};
use crate::identity::Identity;
use crate::kdf::derive32;
use crate::wire::splittable;
use crate::kem::{codebook_secret, filled, zeros32, Backend, Ciphertext, Kem, SecretKey, StaticKem};
use crate::ratchet::{chain_key_at, message_key_of, next_chain_key, Chain};
use crate::transport::{framed, unframed};

verus! {

broadcast use vstd::array::group_array_axioms;

/// Which layers are engaged. Maps onto the 1942 stack, plus the two layers
/// that stack never had.
#[derive(Debug, Clone, Copy, PartialEq, Eq, Structural)]
pub struct Layers {
    /// L1: key agreement. 1942: the pre-shared codebook.
    pub key_agreement: bool,
    /// L2: authenticated encryption. 1942: homophonic substitution.
    pub aead: bool,
    /// L3: transport obfuscation. 1942: a rare unwritten language.
    pub transport: bool,
    /// Peer authentication. 1942: absent entirely.
    pub authenticate: bool,
    /// Symmetric ratchet. 1942: absent entirely.
    pub ratchet: bool,
    /// Repeat the nonce. Catastrophic, and one of the demo scenarios.
    pub nonce_reuse: bool,
}

/// Every layer on and no fault injected.
pub open spec fn all_layers() -> Layers {
    Layers {
        key_agreement: true,
        aead: true,
        transport: true,
        authenticate: true,
        ratchet: true,
        nonce_reuse: false,
    }
}

impl Default for Layers {
    fn default() -> (r: Self)
        ensures
            r == all_layers(),
    {
        Layers {
            key_agreement: true,
            aead: true,
            transport: true,
            authenticate: true,
            ratchet: true,
            nonce_reuse: false,
        }
    }
}

#[derive(Debug, Clone, PartialEq, Eq)]
pub enum Recovery {
    /// Full plaintext. The channel failed.
    Plaintext(Vec<u8>),
    /// Keystream recovered via repeated nonce; plaintext follows from a crib.
    KeystreamReuse(Vec<u8>),
    /// An active attacker completed a handshake with both sides.
    MachineInTheMiddle(Vec<u8>),
    /// Nothing but length and timing.
    MetadataOnly,
}

/// The name of a recovery, as the lab writes its expectations.
pub open spec fn recovery_tag(r: Recovery) -> &'static str {
    match r {
        Recovery::Plaintext(_) => "Plaintext",
        Recovery::KeystreamReuse(_) => "KeystreamReuse",
        Recovery::MachineInTheMiddle(_) => "MachineInTheMiddle",
        Recovery::MetadataOnly => "MetadataOnly",
    }
}

/// The console's one-line summary of a recovery.
pub open spec fn recovery_headline(r: Recovery) -> &'static str {
    match r {
        Recovery::Plaintext(_) => "Plaintext recovered.",
        Recovery::KeystreamReuse(_) => "Nonce and key both repeated.",
        Recovery::MachineInTheMiddle(_) => "An attacker completed the handshake as the peer.",
        Recovery::MetadataOnly => "Length and timing only.",
    }
}

/// The console's explanation of a recovery: which layer did, or failed to
/// do, the work.
pub open spec fn recovery_detail(r: Recovery) -> &'static str {
    match r {
        Recovery::Plaintext(_) => "The layer that failed was not the one on the outside. Stripping the transport was \
             never the hard part; the key agreement and the AEAD underneath it were doing the \
             work.",
        Recovery::KeystreamReuse(_) => "One keystream encrypted two messages, so XORing the ciphertexts cancels it. A crib \
             for one message yields the other, as far as the crib reaches.",
        Recovery::MachineInTheMiddle(_) => "The signature verified, because it was a valid signature — by the attacker. Without \
             a pinned identity key there is nothing to check it against, and both endpoints \
             report a successful session.",
        Recovery::MetadataOnly => "Stripping the transport yields ciphertext, and ciphertext without the session key \
             yields nothing. This is the Kieyoomia result: a fluent speaker with no codebook \
             recognises the language and reads none of it.",
    }
}

/// The bytes a recovery hands the adversary as readable text: the message
/// itself for a plaintext or a machine in the middle, nothing otherwise.
pub open spec fn recovered_text(r: Recovery) -> Option<Seq<u8>> {
    match r {
        Recovery::Plaintext(p) => Some(p@),
        Recovery::MachineInTheMiddle(p) => Some(p@),
        _ => None,
    }
}

impl Recovery {
    /// The one-line summary the console shows.
    pub fn headline(&self) -> (r: &'static str)
        ensures
            r == recovery_headline(*self),
    {
        match self {
            Recovery::Plaintext(_) => "Plaintext recovered.",
            Recovery::KeystreamReuse(_) => "Nonce and key both repeated.",
            Recovery::MachineInTheMiddle(_) => "An attacker completed the handshake as the peer.",
            Recovery::MetadataOnly => "Length and timing only.",
        }
    }

    /// The explanation under the headline.
    pub fn detail(&self) -> (r: &'static str)
        ensures
            r == recovery_detail(*self),
    {
        match self {
            Recovery::Plaintext(_) => "The layer that failed was not the one on the outside. Stripping the transport was \
             never the hard part; the key agreement and the AEAD underneath it were doing the \
             work.",
            Recovery::KeystreamReuse(_) => "One keystream encrypted two messages, so XORing the ciphertexts cancels it. A crib \
             for one message yields the other, as far as the crib reaches.",
            Recovery::MachineInTheMiddle(_) => "The signature verified, because it was a valid signature — by the attacker. Without \
             a pinned identity key there is nothing to check it against, and both endpoints \
             report a successful session.",
            Recovery::MetadataOnly => "Stripping the transport yields ciphertext, and ciphertext without the session key \
             yields nothing. This is the Kieyoomia result: a fluent speaker with no codebook \
             recognises the language and reads none of it.",
        }
    }

    /// The message the adversary reads outright, when it reads one.
    pub fn recovered(&self) -> (r: Option<&[u8]>)
        ensures
            match r {
                Some(p) => recovered_text(*self) == Some(p@),
                None => recovered_text(*self) is None,
            },
    {
        match self {
            Recovery::Plaintext(p) => Some(p.as_slice()),
            Recovery::MachineInTheMiddle(p) => Some(p.as_slice()),
            _ => None,
        }
    }

    pub fn is_broken(&self) -> (r: bool)
        ensures
            r == !(self is MetadataOnly),
    {
        match self {
            Recovery::MetadataOnly => false,
            _ => true,
        }
    }

    /// The variant's name: the vocabulary the lab writes its expected
    /// outcomes in.
    pub fn tag(&self) -> (r: &'static str)
        ensures
            r == recovery_tag(*self),
    {
        match self {
            Recovery::Plaintext(_) => "Plaintext",
            Recovery::KeystreamReuse(_) => "KeystreamReuse",
            Recovery::MachineInTheMiddle(_) => "MachineInTheMiddle",
            Recovery::MetadataOnly => "MetadataOnly",
        }
    }
}

/// The padding block every framed message is rounded up to.
pub const PAD_BLOCK: usize = 64;

/// The nonce every frame carries while the nonce fault is injected.
pub open spec fn fixed_nonce() -> Seq<u8> {
    filled(7, 12)
}

/// What goes inside the frame: the sealed message, or the message itself
/// when authenticated encryption is off.
pub open spec fn body_for(layers: Layers, suite: Suite, key: Seq<u8>, nonce: Seq<u8>, aad: Seq<u8>, pt: Seq<u8>) -> Seq<u8> {
    if layers.aead {
        sealed(suite, key, nonce, aad, pt)
    } else {
        pt
    }
}

/// What crosses the wire: the body, framed when the transport layer is on.
pub open spec fn wire_for(layers: Layers, suite: Suite, key: Seq<u8>, nonce: Seq<u8>, aad: Seq<u8>, pt: Seq<u8>) -> Seq<u8> {
    if layers.transport {
        framed(body_for(layers, suite, key, nonce, aad, pt), PAD_BLOCK)
    } else {
        body_for(layers, suite, key, nonce, aad, pt)
    }
}

/// `wire` is what a sender under these layers, suite, key, nonce and
/// associated data sent for `pt`, and the message is small enough for its
/// frame to announce its length and for the suite to have sealed it.
pub open spec fn carries(layers: Layers, suite: Suite, key: Seq<u8>, nonce: Seq<u8>, aad: Seq<u8>, pt: Seq<u8>, wire: Seq<u8>) -> bool {
    &&& wire == wire_for(layers, suite, key, nonce, aad, pt)
    &&& body_for(layers, suite, key, nonce, aad, pt).len() <= u32::MAX
    &&& layers.aead ==> seal_accepts(suite, pt.len(), aad.len())
}

/// The body of a wire, as a receiver who knows the framing strips it.
pub open spec fn body_of_wire(layers: Layers, wire: Seq<u8>) -> Result<Seq<u8>> {
    if layers.transport {
        unframed(wire)
    } else {
        Ok(wire)
    }
}

/// Opening the body of this wire under `suite` cannot run out of keystream:
/// AEAD is off, the wire has no body, or the body's length is not one the
/// suite panics on.
pub open spec fn opens_whole(layers: Layers, suite: Suite, wire: Seq<u8>) -> bool {
    !layers.aead || match body_of_wire(layers, wire) {
        Ok(body) => !ct_overruns(suite, body.len()),
        Err(_) => true,
    }
}

/// What a receiver holding `key` recovers from a wire.
pub open spec fn received(layers: Layers, suite: Suite, key: Seq<u8>, nonce: Seq<u8>, aad: Seq<u8>, wire: Seq<u8>) -> Result<Seq<u8>> {
    match body_of_wire(layers, wire) {
        Err(e) => Err(e),
        Ok(body) => if !layers.aead {
            Ok(body)
        } else {
            match opened(suite, key, nonce, aad, body) {
                Some(p) => Ok(p),
                None => Err(Error::Aead),
            }
        },
    }
}

/// A result holding bytes, seen as a result holding their view.
pub open spec fn bytes_result(r: Result<Vec<u8>>) -> Result<Seq<u8>> {
    match r {
        Ok(v) => Ok(v@),
        Err(e) => Err(e),
    }
}

/// A live channel: a completed handshake plus its sending chain.
pub struct Channel {
    pub hs: Handshake,
    chain: Chain,
    suite: Suite,
    ratchet: bool,
}

pub struct Frame {
    pub wire: Vec<u8>,
    pub nonce: [u8; NONCE_LEN],
    /// The key this frame was sealed under. Exposed because the ablation
    /// harness and the demo both need to show it: that a fresh key appears
    /// per message is the ratchet's entire observable claim.
    pub message_key: [u8; 32],
    pub counter: u32,
}

impl Channel {
    /// The handshake the channel was built on.
    pub closed spec fn handshake(&self) -> Handshake {
        self.hs
    }

    /// The handshake the channel was built on.
    pub fn current_handshake(&self) -> (r: &Handshake)
        ensures
            *r == self.handshake(),
    {
        &self.hs
    }

    pub closed spec fn suite_in_use(&self) -> Suite {
        self.suite
    }

    pub closed spec fn ratchets(&self) -> bool {
        self.ratchet
    }

    /// The current chain key.
    pub closed spec fn chain_key(&self) -> Seq<u8> {
        self.chain.key()
    }

    /// How many times the chain has advanced.
    pub closed spec fn position(&self) -> u32 {
        self.chain.count()
    }

    /// The chain is where the handshake's root puts it: `position` steps on
    /// when ratcheting, and at the root itself, never moving, when not.
    pub closed spec fn wf(&self) -> bool {
        if self.ratchet {
            self.chain.key() == chain_key_at(self.hs.root@, self.chain.count() as nat)
        } else {
            self.chain.key() == self.hs.root@ && self.chain.count() == 0
        }
    }

    /// The chain after one message: advanced when ratcheting, unchanged when not.
    pub open spec fn stepped(&self, other: &Channel) -> bool {
        &&& other.handshake() == self.handshake()
        &&& other.suite_in_use() == self.suite_in_use()
        &&& other.ratchets() == self.ratchets()
        &&& other.wf()
        &&& if self.ratchets() {
            other.chain_key() == next_chain_key(self.chain_key()) && other.position() == self.position() + 1
        } else {
            other.chain_key() == self.chain_key() && other.position() == self.position()
        }
    }

    pub fn new(hs: Handshake, suite: Suite, ratchet: bool) -> (r: Self)
        ensures
            r.handshake() == hs,
            r.suite_in_use() == suite,
            r.ratchets() == ratchet,
            r.chain_key() == hs.root@,
            r.position() == 0,
            r.wf(),
    {
        let chain = Chain::new(hs.root);
        Channel { hs, chain, suite, ratchet }
    }

    /// The key for the next message, advancing the chain when ratcheting.
    fn next_key(&mut self) -> (mk: [u8; 32])
        requires
            old(self).wf(),
            old(self).ratchets() ==> old(self).position() < u32::MAX,
        ensures
            mk@ == message_key_of(old(self).chain_key()),
            old(self).stepped(final(self)),
    {
        if self.ratchet {
            let r = self.chain.next();
            proof {
                crate::ratchet::lemma_chain_advances(self.hs.root@, old(self).chain.count() as nat);
            }
            match r {
                Ok(mk) => mk,
                Err(_) => [0u8; 32],
            }
        } else {
            match self.chain.static_key() {
                Ok(mk) => mk,
                Err(_) => [0u8; 32],
            }
        }
    }

    /// Decrypt a frame from the peer.
    ///
    /// The receiving chain advances in lockstep with the sender's. If the two
    /// ever diverge, the message key is wrong and the tag rejects, which is the
    /// correct failure rather than a bug to paper over. Whatever a sender at
    /// the same point of the same chain sent, this returns.
    pub fn recv(&mut self, layers: Layers, frame: &Frame) -> (r: Result<Vec<u8>>)
        requires
            old(self).wf(),
            old(self).ratchets() ==> old(self).position() < u32::MAX,
            opens_whole(layers, old(self).suite_in_use(), frame.wire@),
        ensures
            old(self).stepped(final(self)),
            bytes_result(r) == received(
                layers,
                old(self).suite_in_use(),
                message_key_of(old(self).chain_key()),
                frame.nonce@,
                old(self).handshake().transcript_hash@,
                frame.wire@,
            ),
            forall|p: Seq<u8>|
                #[trigger] carries(
                    layers,
                    old(self).suite_in_use(),
                    message_key_of(old(self).chain_key()),
                    frame.nonce@,
                    old(self).handshake().transcript_hash@,
                    p,
                    frame.wire@,
                ) ==> r is Ok && r.unwrap()@ == p,
    {
        let message_key = self.next_key();

        let body = if layers.transport {
            match crate::transport::deobfuscate(frame.wire.as_slice()) {
                Ok(b) => b,
                Err(e) => {
                    proof {
                        assert forall|p: Seq<u8>|
                            #[trigger] carries(
                                layers,
                                old(self).suite_in_use(),
                                message_key_of(old(self).chain_key()),
                                frame.nonce@,
                                old(self).handshake().transcript_hash@,
                                p,
                                frame.wire@,
                            ) implies false by {
                            crate::transport::lemma_unframe_frame(
                                body_for(layers, self.suite, message_key@, frame.nonce@, self.hs.transcript_hash@, p),
                                PAD_BLOCK,
                            );
                        }
                    }
                    return Err(e);
                },
            }
        } else {
            copy_of(frame.wire.as_slice())
        };
        proof {
            assert forall|p: Seq<u8>|
                #[trigger] carries(
                    layers,
                    old(self).suite_in_use(),
                    message_key_of(old(self).chain_key()),
                    frame.nonce@,
                    old(self).handshake().transcript_hash@,
                    p,
                    frame.wire@,
                ) implies body@ == body_for(layers, self.suite, message_key@, frame.nonce@, self.hs.transcript_hash@, p) by {
                if layers.transport {
                    crate::transport::lemma_unframe_frame(
                        body_for(layers, self.suite, message_key@, frame.nonce@, self.hs.transcript_hash@, p),
                        PAD_BLOCK,
                    );
                }
            }
        }

        if !layers.aead {
            return Ok(body);
        }

        aead::open(
            self.suite,
            &message_key,
            &frame.nonce,
            &self.hs.transcript_hash,
            body.as_slice(),
        )
    }

    /// Encrypt one message. The transcript hash goes in as associated data,
    /// so a frame lifted from another session fails its tag check.
    pub fn send(&mut self, layers: Layers, plaintext: &[u8]) -> (r: Result<Frame>)
        requires
            old(self).wf(),
            old(self).ratchets() ==> old(self).position() < u32::MAX,
            plaintext@.len() + TAG_ROOM <= usize::MAX,
            layers.aead ==> !overruns(old(self).suite_in_use(), plaintext@.len()),
        ensures
            old(self).stepped(final(self)),
            r is Ok <==> (!layers.aead || seal_accepts(old(self).suite_in_use(), plaintext@.len(), 32)),
            r matches Err(e) ==> e == Error::Aead,
            r matches Ok(f) ==> {
                &&& f.message_key@ == message_key_of(old(self).chain_key())
                &&& f.counter == final(self).position()
                &&& layers.nonce_reuse ==> f.nonce@ == fixed_nonce()
                &&& f.wire@ == wire_for(
                    layers,
                    old(self).suite_in_use(),
                    f.message_key@,
                    f.nonce@,
                    old(self).handshake().transcript_hash@,
                    plaintext@,
                )
                &&& body_for(
                    layers,
                    old(self).suite_in_use(),
                    f.message_key@,
                    f.nonce@,
                    old(self).handshake().transcript_hash@,
                    plaintext@,
                ).len() == plaintext@.len() + (if layers.aead { TAG_ROOM_SEALED } else { 0 })
            },
    {
        let message_key = self.next_key();
        let counter = self.chain.position();

        // A fixed nonce, injected as a deliberate fault. On its own this is
        // not yet a break: it costs nothing until the key repeats as well.
        let nonce: [u8; NONCE_LEN] = if layers.nonce_reuse {
            let n: [u8; NONCE_LEN] = vstd::array::array_fill_for_copy_types(7u8);
            assert(n@ =~= fixed_nonce());
            n
        } else {
            let mut n: [u8; NONCE_LEN] = [0u8; NONCE_LEN];
            fill_random(&mut n);
            n
        };

        let body = if layers.aead {
            match aead::seal(self.suite, &message_key, &nonce, &self.hs.transcript_hash, plaintext) {
                Ok(c) => c,
                Err(e) => return Err(e),
            }
        } else {
            copy_of(plaintext)
        };

        let wire = if layers.transport {
            crate::transport::obfuscate(body.as_slice(), PAD_BLOCK)
        } else {
            body
        };

        Ok(Frame { wire, nonce, message_key, counter })
    }
}

/// Room a message needs beyond its own length: the tag, a padding block and
/// the frame header.
pub const TAG_ROOM: usize = 88;

/// The bytes sealing adds to a message.
pub const TAG_ROOM_SEALED: usize = 16;

/// The name of the KEM actually in force: with key agreement off the
/// captured codebook stands in for whatever was selected.
pub open spec fn effective_label<K: Kem>(kem: K, layers: Layers) -> &'static str {
    if layers.key_agreement {
        kem.label()
    } else {
        StaticKem.label()
    }
}

/// Whether the KEM actually in force is post-quantum.
pub open spec fn effective_pq<K: Kem>(kem: K, layers: Layers) -> bool {
    if layers.key_agreement {
        kem.post_quantum()
    } else {
        StaticKem.post_quantum()
    }
}

/// The two handshake states of one completed handshake.
pub open spec fn paired(a: Handshake, b: Handshake, label: &'static str, pq: bool, authenticated: bool) -> bool {
    &&& a.root@ == b.root@
    &&& a.transcript_hash@ == b.transcript_hash@
    &&& a.kem_name == label
    &&& b.kem_name == label
    &&& a.kem_is_pq == pq
    &&& b.kem_is_pq == pq
    &&& a.sig_suite == b.sig_suite
    &&& a.authenticated == authenticated
    &&& b.authenticated == authenticated
}

/// The handshake's root was derived from a secret its KEM can encapsulate,
/// under the handshake's own transcript.
pub open spec fn rooted<K: Kem>(kem: K, hs: Handshake) -> bool {
    exists|pk: Seq<u8>, ss: Seq<u8>, ct: Seq<u8>|
        #[trigger] kem.encapsulates(pk, ss, ct) && hs.root@ == session_root(ss, hs.transcript_hash@)
}

/// `e` is an error the KEM itself may report during a handshake: one its key
/// generation may report, or one encapsulating to a public key of its own
/// keypairs may report.
pub open spec fn kem_refuses<K: Kem>(kem: K, e: Error) -> bool {
    kem.keygen_refuses(e) || exists|sk: Seq<u8>, pk: Seq<u8>|
        #[trigger] kem.keypair(sk, pk) && kem.encapsulation_refuses(pk, e)
}

/// Neither backend this build carries refuses a handshake: the captured
/// codebook never refuses, and X25519 refuses only a low-order key, which no
/// public key of its own keypairs is.
pub proof fn lemma_backends_never_refuse(b: Backend, e: Error)
    ensures
        !kem_refuses(b, e),
{
    if let Backend::X25519(k) = b {
        assert forall|sk: Seq<u8>, pk: Seq<u8>| #[trigger] b.keypair(sk, pk) implies !b.encapsulation_refuses(pk, e) by {
            assert(k.keypair(sk, pk));
            assert(crate::kem::honest_point(pk));
        }
    }
}

/// Two channels over one handshake, fresh, with the given suite and ratchet.
pub open spec fn linked(a: Channel, b: Channel, suite: Suite, ratchet: bool, label: &'static str, pq: bool, authenticated: bool) -> bool {
    &&& paired(a.handshake(), b.handshake(), label, pq, authenticated)
    &&& a.wf() && b.wf()
    &&& a.position() == 0 && b.position() == 0
    &&& a.chain_key() == a.handshake().root@ && b.chain_key() == b.handshake().root@
    &&& a.suite_in_use() == suite && b.suite_in_use() == suite
    &&& a.ratchets() == ratchet && b.ratchets() == ratchet
}

/// Run both sides of one handshake with `kem`: a fresh responder identity,
/// the initiator pinning it when `authenticate` is on.
fn handshake_pair<K: Kem>(kem: &K, authenticate: bool) -> (r: Result<(Handshake, Handshake)>)
    ensures
        r matches Ok(p) ==> paired(p.0, p.1, kem.label(), kem.post_quantum(), authenticate) && rooted(*kem, p.0),
        r matches Err(e) ==> kem_refuses(*kem, e),
{
    let identity = Identity::generate();
    let responder = match Responder::new(kem, identity) {
        Ok(r) => r,
        Err(e) => return Err(e),
    };
    let hello = responder.hello();
    let pinned = responder.identity_public();
    let ghost sk = responder.kem_secret();
    let ghost sent = responder.sent();
    let ghost seed = responder.signer();
    assert(signed_by(kem.label(), hello, seed));
    let expected: Option<&[u8]> = if authenticate {
        Some(pinned.as_slice())
    } else {
        None
    };
    let (init_hs, reply) = match initiate(kem, &hello, authenticate, expected) {
        Ok(o) => o,
        Err(e) => {
            assert(kem.encapsulation_refuses(hello.kem_pk@, e));
            return Err(e);
        },
    };
    proof {
        lemma_both_sides_agree(*kem, sk, hello, authenticate, init_hs, reply);
        assert(session_hash(kem.label(), hello, reply.ct@) == session_hash(kem.label(), sent, reply.ct@));
    }
    let resp_hs = match responder.accept(&reply, authenticate) {
        Ok(h) => h,
        Err(e) => return Err(e),
    };
    let ghost ss = kem.decapsulation(sk, reply.ct@).unwrap();
    proof {
        let pick = choose|x: Seq<u8>|
            #[trigger] kem.encapsulates(hello.kem_pk@, x, reply.ct@) && crate::handshake::handshake_holds(
                init_hs,
                session_root(x, session_hash(kem.label(), hello, reply.ct@)),
                session_hash(kem.label(), hello, reply.ct@),
                kem.label(),
                kem.post_quantum(),
                hello.sig_suite,
                authenticate,
            );
        kem.lemma_decapsulation_recovers(sk, hello.kem_pk@, pick, reply.ct@);
        assert(kem.encapsulates(hello.kem_pk@, pick, reply.ct@));
    }
    Ok((init_hs, resp_hs))
}

/// Establish a channel end to end, running both sides of a real handshake.
///
/// Returns the initiator's channel and the responder's, which agree. When
/// `layers.key_agreement` is false the `kem` argument is ignored and the
/// captured codebook stands in, so `Handshake::kem_name` reports what the
/// channel is really built on rather than what the caller asked for.
pub fn establish<K: Kem>(kem: &K, layers: Layers, suite: Suite) -> (r: Result<(Channel, Channel)>)
    ensures
        r matches Ok(p) ==> linked(
            p.0,
            p.1,
            suite,
            layers.ratchet,
            effective_label(*kem, layers),
            effective_pq(*kem, layers),
            layers.authenticate,
        ),
        r matches Ok(p) ==> (layers.key_agreement ==> rooted(*kem, p.0.handshake())),
        r matches Ok(p) ==> (!layers.key_agreement ==> p.0.handshake().root@ == session_root(
            codebook_secret(),
            p.0.handshake().transcript_hash@,
        )),
        r matches Err(e) ==> layers.key_agreement && kem_refuses(*kem, e),
{
    let pair = if layers.key_agreement {
        handshake_pair(kem, layers.authenticate)
    } else {
        handshake_pair(&StaticKem, layers.authenticate)
    };
    match pair {
        Ok((a, b)) => Ok((Channel::new(a, suite, layers.ratchet), Channel::new(b, suite, layers.ratchet))),
        Err(e) => Err(e),
    }
}

/// Establish a channel against an attacker instead of the intended peer.
///
/// The attacker runs a real responder with its own identity and its own KEM
/// keypair, and the victim completes a real handshake with it. Both sides
/// report success, which is precisely the danger. Returns
/// `(victim, attacker)`; only reachable with `layers.authenticate` off.
pub fn establish_mitm<K: Kem>(kem: &K, layers: Layers, suite: Suite) -> (r: Result<(Channel, Channel)>)
    ensures
        layers.authenticate ==> r == Err::<(Channel, Channel), Error>(
            Error::Auth("a pinned peer leaves no room for a machine in the middle"),
        ),
        r matches Ok(p) ==> linked(
            p.0,
            p.1,
            suite,
            layers.ratchet,
            effective_label(*kem, layers),
            effective_pq(*kem, layers),
            false,
        ),
        r matches Ok(p) ==> (!layers.key_agreement ==> p.0.handshake().root@ == session_root(
            codebook_secret(),
            p.0.handshake().transcript_hash@,
        )),
        r matches Err(e) ==> layers.authenticate || (layers.key_agreement && kem_refuses(*kem, e)),
{
    if layers.authenticate {
        return Err(Error::Auth("a pinned peer leaves no room for a machine in the middle"));
    }
    let pair = if layers.key_agreement {
        handshake_pair(kem, false)
    } else {
        handshake_pair(&StaticKem, false)
    };
    match pair {
        Ok((a, b)) => Ok((Channel::new(a, suite, layers.ratchet), Channel::new(b, suite, layers.ratchet))),
        Err(e) => Err(e),
    }
}

/// A recovery, seen as its name and the bytes it carries (none for
/// `MetadataOnly`).
pub open spec fn recovery_view(r: Recovery) -> (&'static str, Seq<u8>) {
    match r {
        Recovery::Plaintext(p) => ("Plaintext", p@),
        Recovery::KeystreamReuse(p) => ("KeystreamReuse", p@),
        Recovery::MachineInTheMiddle(p) => ("MachineInTheMiddle", p@),
        Recovery::MetadataOnly => ("MetadataOnly", Seq::empty()),
    }
}

/// A result holding a recovery, seen through `recovery_view`.
pub open spec fn outcome_view(r: Result<Recovery>) -> Result<(&'static str, Seq<u8>)> {
    match r {
        Ok(rec) => Ok(recovery_view(rec)),
        Err(e) => Err(e),
    }
}

/// The message key a passive adversary rebuilds for the frame numbered
/// `counter` when there was no key agreement: the chain from the codebook
/// root walked `counter` steps with a ratchet (an all-zero key for a frame
/// numbered zero), or the one static key without.
pub open spec fn rebuilt_key(root: Seq<u8>, counter: u32, ratchet: bool) -> Seq<u8> {
    if ratchet {
        if counter == 0 {
            zeros32()
        } else {
            message_key_of(chain_key_at(root, (counter - 1) as nat))
        }
    } else {
        message_key_of(root)
    }
}

/// The root a passive adversary rebuilds from a transcript hash it saw in
/// the clear, when the shared secret was the captured codebook's.
pub open spec fn rebuilt_root(th: Seq<u8>) -> Seq<u8> {
    session_root(codebook_secret(), th)
}

/// What a passive adversary recovers from one frame of a channel with this
/// transcript hash and suite.
pub open spec fn passive_outcome(
    th: Seq<u8>,
    suite: Suite,
    frame: Frame,
    layers: Layers,
    adversary_knows_transport: bool,
) -> Result<(&'static str, Seq<u8>)> {
    if layers.transport && !adversary_knows_transport {
        Ok(("MetadataOnly", Seq::empty()))
    } else {
        match body_of_wire(layers, frame.wire@) {
            Err(e) => Err(e),
            Ok(body) => if !layers.aead {
                Ok(("Plaintext", body))
            } else if !layers.key_agreement {
                match opened(suite, rebuilt_key(rebuilt_root(th), frame.counter, layers.ratchet), frame.nonce@, th, body) {
                    Some(p) => Ok(("Plaintext", p)),
                    None => Err(Error::Aead),
                }
            } else if layers.nonce_reuse && !layers.ratchet {
                Ok(("KeystreamReuse", body))
            } else {
                Ok(("MetadataOnly", Seq::empty()))
            },
        }
    }
}

/// Model what a passive adversary recovers from one frame.
///
/// `adversary_knows_transport` is the Kieyoomia switch: it represents having
/// a linguist. Historically the Japanese had one and got nothing, because the
/// layer beneath was doing the work. With no key agreement the adversary
/// rebuilds the key from the transcript hash (which crossed the wire in the
/// clear) and the codebook's constant secret; it never reads the frame's key.
pub fn adversary(
    ch: &Channel,
    frame: &Frame,
    layers: Layers,
    adversary_knows_transport: bool,
) -> (r: Result<Recovery>)
    requires
        opens_whole(layers, ch.suite_in_use(), frame.wire@),
    ensures
        outcome_view(r) == passive_outcome(
            ch.handshake().transcript_hash@,
            ch.suite_in_use(),
            *frame,
            layers,
            adversary_knows_transport,
        ),
        !(layers.transport && !adversary_knows_transport) && !layers.key_agreement ==> forall|p: Seq<u8>|
            #[trigger] carries(
                layers,
                ch.suite_in_use(),
                rebuilt_key(rebuilt_root(ch.handshake().transcript_hash@), frame.counter, layers.ratchet),
                frame.nonce@,
                ch.handshake().transcript_hash@,
                p,
                frame.wire@,
            ) ==> r is Ok && recovery_view(r.unwrap()) == (("Plaintext", p)),
{
    // L3 is not a security boundary. Anyone who knows the scheme strips it.
    let body = if layers.transport {
        if !adversary_knows_transport {
            return Ok(Recovery::MetadataOnly);
        }
        match crate::transport::deobfuscate(frame.wire.as_slice()) {
            Ok(b) => b,
            Err(e) => {
                proof {
                    assert forall|p: Seq<u8>|
                        #[trigger] carries(
                            layers,
                            ch.suite_in_use(),
                            rebuilt_key(rebuilt_root(ch.handshake().transcript_hash@), frame.counter, layers.ratchet),
                            frame.nonce@,
                            ch.handshake().transcript_hash@,
                            p,
                            frame.wire@,
                        ) implies false by {
                        crate::transport::lemma_unframe_frame(
                            body_for(
                                layers,
                                ch.suite_in_use(),
                                rebuilt_key(rebuilt_root(ch.handshake().transcript_hash@), frame.counter, layers.ratchet),
                                frame.nonce@,
                                ch.handshake().transcript_hash@,
                                p,
                            ),
                            PAD_BLOCK,
                        );
                    }
                }
                return Err(e);
            },
        }
    } else {
        copy_of(frame.wire.as_slice())
    };
    let ghost key = rebuilt_key(rebuilt_root(ch.handshake().transcript_hash@), frame.counter, layers.ratchet);
    proof {
        assert forall|p: Seq<u8>|
            #[trigger] carries(layers, ch.suite_in_use(), key, frame.nonce@, ch.handshake().transcript_hash@, p, frame.wire@)
                implies body@ == body_for(layers, ch.suite_in_use(), key, frame.nonce@, ch.handshake().transcript_hash@, p) by {
            if layers.transport {
                crate::transport::lemma_unframe_frame(
                    body_for(layers, ch.suite_in_use(), key, frame.nonce@, ch.handshake().transcript_hash@, p),
                    PAD_BLOCK,
                );
            }
        }
    }

    if !layers.aead {
        // Obscurity only: the failure mode people mistake for the code talkers.
        return Ok(Recovery::Plaintext(body));
    }

    // No key agreement means there was no secret to agree, so the adversary
    // rebuilds the key rather than being handed it.
    if !layers.key_agreement {
        let ss = match StaticKem.decapsulate(&SecretKey(Vec::new()), &Ciphertext(Vec::new())) {
            Ok(ss) => ss,
            Err(e) => return Err(e),
        };
        let info = root_info(&ch.hs.transcript_hash);
        let root = derive32(ss.as_bytes(), info.as_slice());

        // Walk the chain to this frame's counter. Without a ratchet there is
        // nothing to walk: one key covers every message ever sent.
        let mut chain = Chain::new(root);
        let message_key: [u8; 32] = if layers.ratchet {
            let mut mk: [u8; 32] = vstd::array::array_fill_for_copy_types(0u8);
            assert(mk@ =~= zeros32());
            let mut i: u32 = 0;
            while i < frame.counter
                invariant
                    i <= frame.counter,
                    chain.key() == chain_key_at(root@, i as nat),
                    chain.count() == i,
                    i == 0 ==> mk@ == zeros32(),
                    i > 0 ==> mk@ == message_key_of(chain_key_at(root@, (i - 1) as nat)),
                decreases frame.counter - i,
            {
                let ghost before = chain.key();
                mk = match chain.next() {
                    Ok(k) => k,
                    Err(_) => mk,
                };
                proof {
                    crate::ratchet::lemma_chain_advances(root@, i as nat);
                }
                i = i + 1;
            }
            mk
        } else {
            match chain.static_key() {
                Ok(k) => k,
                Err(_) => [0u8; 32],
            }
        };
        assert(message_key@ == key);

        let pt = match aead::open(ch.suite, &message_key, &frame.nonce, &ch.hs.transcript_hash, body.as_slice()) {
            Ok(pt) => pt,
            Err(e) => return Err(e),
        };
        return Ok(Recovery::Plaintext(pt));
    }

    // Keystream reuse needs the key to repeat as well as the nonce. With the
    // ratchet on, every message is sealed under a fresh key, so a repeated
    // nonce never yields a two-time pad.
    if layers.nonce_reuse && !layers.ratchet {
        return Ok(Recovery::KeystreamReuse(body));
    }

    Ok(Recovery::MetadataOnly)
}

/// What an active attacker reads once it has become one of the two parties.
///
/// The attacker decrypts with a key it derived itself, through the ordinary
/// receive path, because it genuinely completed the handshake.
pub fn adversary_mitm(attacker: &mut Channel, layers: Layers, frame: &Frame) -> (r: Result<Recovery>)
    requires
        !layers.authenticate ==> old(attacker).wf(),
        !layers.authenticate && old(attacker).ratchets() ==> old(attacker).position() < u32::MAX,
        !layers.authenticate ==> opens_whole(layers, old(attacker).suite_in_use(), frame.wire@),
    ensures
        layers.authenticate ==> r == Err::<Recovery, Error>(
            Error::Auth("a pinned peer leaves no room for a machine in the middle"),
        ) && *final(attacker) == *old(attacker),
        !layers.authenticate ==> old(attacker).stepped(final(attacker)) && outcome_view(r) == match received(
            layers,
            old(attacker).suite_in_use(),
            message_key_of(old(attacker).chain_key()),
            frame.nonce@,
            old(attacker).handshake().transcript_hash@,
            frame.wire@,
        ) {
            Ok(p) => Ok::<(&'static str, Seq<u8>), Error>(("MachineInTheMiddle", p)),
            Err(e) => Err(e),
        },
        !layers.authenticate ==> forall|p: Seq<u8>|
            #[trigger] carries(
                layers,
                old(attacker).suite_in_use(),
                message_key_of(old(attacker).chain_key()),
                frame.nonce@,
                old(attacker).handshake().transcript_hash@,
                p,
                frame.wire@,
            ) ==> r is Ok && recovery_view(r.unwrap()) == (("MachineInTheMiddle", p)),
{
    if layers.authenticate {
        return Err(Error::Auth("a pinned peer leaves no room for a machine in the middle"));
    }
    match attacker.recv(layers, frame) {
        Ok(p) => Ok(Recovery::MachineInTheMiddle(p)),
        Err(e) => Err(e),
    }
}

/// Byte-wise XOR of three sequences, as far as the shortest reaches.
pub open spec fn xor3(a: Seq<u8>, b: Seq<u8>, c: Seq<u8>) -> Seq<u8> {
    Seq::new(
        vstd::math::min(vstd::math::min(a.len() as int, b.len() as int), c.len() as int) as nat,
        |i: int| a[i] ^ b[i] ^ c[i],
    )
}

/// Recover a plaintext from two ciphertexts sharing a key and nonce.
/// Returns P2 given C1, C2 and a crib for P1. Bounded by the crib's length.
pub fn two_time_pad(ct1: &[u8], ct2: &[u8], crib: &[u8]) -> (r: Vec<u8>)
    ensures
        r@ == xor3(ct1@, ct2@, crib@),
        r@.len() <= crib@.len() && r@.len() <= ct1@.len() && r@.len() <= ct2@.len(),
        r@.len() == crib@.len() || r@.len() == ct1@.len() || r@.len() == ct2@.len(),
        forall|i: int| 0 <= i < r@.len() ==> #[trigger] r@[i] == ct1@[i] ^ ct2@[i] ^ crib@[i],
{
    let mut n = ct1.len();
    if ct2.len() < n {
        n = ct2.len();
    }
    if crib.len() < n {
        n = crib.len();
    }
    let mut out: Vec<u8> = Vec::with_capacity(n);
    let mut i: usize = 0;
    while i < n
        invariant
            n <= ct1@.len(),
            n <= ct2@.len(),
            n <= crib@.len(),
            i <= n,
            out@.len() == i,
            forall|j: int| 0 <= j < i ==> out@[j] == ct1@[j] ^ ct2@[j] ^ crib@[j],
        decreases n - i,
    {
        out.push(ct1[i] ^ ct2[i] ^ crib[i]);
        i = i + 1;
    }
    assert(out@ =~= xor3(ct1@, ct2@, crib@));
    out
}

/// A crib that is only part of the first message recovers the second exactly
/// as far as the crib reaches, and no further: the recovery is as long as
/// the shorter of the crib and the second message, and it is that much of
/// the second message.
pub proof fn lemma_recovery_stops_at_the_crib(
    keystream: Seq<u8>,
    p1: Seq<u8>,
    p2: Seq<u8>,
    c1: Seq<u8>,
    c2: Seq<u8>,
    crib: Seq<u8>,
)
    requires
        c1.len() == p1.len(),
        c2.len() == p2.len(),
        p1.len() <= keystream.len(),
        p2.len() <= keystream.len(),
        forall|i: int| 0 <= i < p1.len() ==> #[trigger] c1[i] == p1[i] ^ keystream[i],
        forall|i: int| 0 <= i < p2.len() ==> #[trigger] c2[i] == p2[i] ^ keystream[i],
        crib.len() <= p1.len(),
        crib == p1.take(crib.len() as int),
    ensures
        xor3(c1, c2, crib).len() == vstd::math::min(crib.len() as int, p2.len() as int),
        xor3(c1, c2, crib) == p2.take(vstd::math::min(crib.len() as int, p2.len() as int)),
{
    let r = xor3(c1, c2, crib);
    assert forall|i: int| 0 <= i < r.len() implies r[i] == p2[i] by {
        let (a, b, k) = (p1[i], p2[i], keystream[i]);
        assert(crib[i] == a);
        assert(c1[i] == a ^ k);
        assert(c2[i] == b ^ k);
        assert((a ^ k) ^ (b ^ k) ^ a == b) by (bit_vector);
    }
    assert(r =~= p2.take(r.len() as int));
}

/// Two ciphertexts that share one keystream, XORed together with a crib for
/// the first message, give back the second message as far as the crib and
/// both ciphertexts reach.
pub proof fn lemma_two_time_pad(keystream: Seq<u8>, p1: Seq<u8>, p2: Seq<u8>, c1: Seq<u8>, c2: Seq<u8>)
    requires
        c1.len() == p1.len(),
        c2.len() == p2.len(),
        p1.len() <= keystream.len(),
        p2.len() <= keystream.len(),
        forall|i: int| 0 <= i < p1.len() ==> #[trigger] c1[i] == p1[i] ^ keystream[i],
        forall|i: int| 0 <= i < p2.len() ==> #[trigger] c2[i] == p2[i] ^ keystream[i],
    ensures
        xor3(c1, c2, p1) == p2.take(xor3(c1, c2, p1).len() as int),
{
    let r = xor3(c1, c2, p1);
    assert forall|i: int| 0 <= i < r.len() implies r[i] == p2[i] by {
        let (a, b, k) = (p1[i], p2[i], keystream[i]);
        assert(c1[i] == a ^ k);
        assert(c2[i] == b ^ k);
        assert((a ^ k) ^ (b ^ k) ^ a == b) by (bit_vector);
    }
    assert(r =~= p2.take(r.len() as int));
}

/// One full transmission: the sending channel, the two frames it sent, what
/// the adversary got, and what the intended recipient read (when there was
/// one).
pub struct Exchange {
    pub sender: Channel,
    pub frames: [Frame; 2],
    pub recovery: Recovery,
    pub roundtrip: Option<Vec<u8>>,
}

impl Exchange {
    /// Whether the two frames were sealed under different keys: the one
    /// comparison the ratchet lesson turns on.
    pub fn keys_differ(&self) -> (r: bool)
        ensures
            r == (self.frames[0].message_key@ != self.frames[1].message_key@),
    {
        !crate::bytes::same_bytes(self.frames[0].message_key.as_slice(), self.frames[1].message_key.as_slice())
    }

    /// Whether the two frames carried different nonces.
    pub fn nonces_differ(&self) -> (r: bool)
        ensures
            r == (self.frames[0].nonce@ != self.frames[1].nonce@),
    {
        !crate::bytes::same_bytes(self.frames[0].nonce.as_slice(), self.frames[1].nonce.as_slice())
    }

    /// Whether the intended recipient read exactly `sent`.
    pub fn delivered(&self, sent: &[u8]) -> (r: bool)
        ensures
            r == (self.roundtrip is Some && self.roundtrip.unwrap()@ == sent@),
    {
        match &self.roundtrip {
            Some(p) => crate::bytes::same_bytes(p.as_slice(), sent),
            None => false,
        }
    }
}

/// A passive adversary of this configuration gets nothing from the first
/// frame.
pub open spec fn passive_silent(layers: Layers, adversary_knows_transport: bool) -> bool {
    ||| layers.transport && !adversary_knows_transport
    ||| layers.aead && layers.key_agreement && !(layers.nonce_reuse && !layers.ratchet)
}

/// The verdict a configuration produces, by the name of its recovery: what a
/// passive adversary gets, or, when that is nothing and the peer is not
/// pinned, the machine in the middle that reads the message anyway.
pub open spec fn expected_tag(layers: Layers, adversary_knows_transport: bool) -> &'static str {
    if passive_silent(layers, adversary_knows_transport) {
        if layers.authenticate {
            "MetadataOnly"
        } else {
            "MachineInTheMiddle"
        }
    } else if !layers.aead || !layers.key_agreement {
        "Plaintext"
    } else {
        "KeystreamReuse"
    }
}

/// Both messages are small enough for the frame's length prefix (and so for
/// every suite) with the tag added.
pub open spec fn framable(m1: Seq<u8>, m2: Seq<u8>) -> bool {
    m1.len() + 16 <= u32::MAX && m2.len() + 16 <= u32::MAX
}

/// The two frames of an exchange are the ones its sending channel sealed for
/// `m1` and then `m2`: the first under the message key of the handshake's
/// root, the second under the next chain key's when ratcheting and under the
/// same key when not, each carrying the fixed nonce while the fault is
/// injected.
pub open spec fn sent_in_order(ex: Exchange, layers: Layers, suite: Suite, m1: Seq<u8>, m2: Seq<u8>) -> bool {
    let th = ex.sender.handshake().transcript_hash@;
    let root = ex.sender.handshake().root@;
    let second = if layers.ratchet {
        next_chain_key(root)
    } else {
        root
    };
    &&& ex.frames[0].message_key@ == message_key_of(root)
    &&& ex.frames[1].message_key@ == message_key_of(second)
    &&& ex.frames[0].counter == (if layers.ratchet { 1u32 } else { 0u32 })
    &&& ex.frames[1].counter == (if layers.ratchet { 2u32 } else { 0u32 })
    &&& ex.frames[0].wire@ == wire_for(layers, suite, ex.frames[0].message_key@, ex.frames[0].nonce@, th, m1)
    &&& ex.frames[1].wire@ == wire_for(layers, suite, ex.frames[1].message_key@, ex.frames[1].nonce@, th, m2)
    &&& layers.nonce_reuse ==> ex.frames[0].nonce@ == fixed_nonce() && ex.frames[1].nonce@ == fixed_nonce()
}

/// What a passive adversary recovers from the first frame of an exchange.
#[verifier::opaque]
pub open spec fn first_frame_outcome(ex: Exchange, layers: Layers, suite: Suite, adversary_knows_transport: bool) -> Result<(&'static str, Seq<u8>)> {
    passive_outcome(ex.sender.handshake().transcript_hash@, suite, ex.frames[0], layers, adversary_knows_transport)
}

/// Two ends of a channel in step: one transcript, one suite, one ratchet
/// setting, and the chain at the same key and position.
pub open spec fn in_step(a: Channel, b: Channel) -> bool {
    &&& a.handshake().transcript_hash@ == b.handshake().transcript_hash@
    &&& a.suite_in_use() == b.suite_in_use()
    &&& a.ratchets() == b.ratchets()
    &&& a.chain_key() == b.chain_key()
    &&& a.position() == b.position()
}

/// The two channels `establish` returns start in step.
pub proof fn lemma_linked_in_step(
    a: Channel,
    b: Channel,
    suite: Suite,
    ratchet: bool,
    label: &'static str,
    pq: bool,
    authenticated: bool,
)
    requires
        linked(a, b, suite, ratchet, label, pq, authenticated),
    ensures
        in_step(a, b),
{
}

/// Channels advance in lockstep: when one end sends a message and the other
/// receives that frame, the receiver reads the message, and the two ends are
/// in step again afterwards. By induction, every frame of a sequence sent
/// through `send` is read back, in order, through `recv`.
pub proof fn lemma_lockstep(a0: Channel, a1: Channel, b0: Channel, b1: Channel, layers: Layers, f: Frame, m: Seq<u8>)
    requires
        in_step(a0, b0),
        a0.stepped(&a1),
        b0.stepped(&b1),
        f.message_key@ == message_key_of(a0.chain_key()),
        f.wire@ == wire_for(layers, a0.suite_in_use(), f.message_key@, f.nonce@, a0.handshake().transcript_hash@, m),
        body_for(layers, a0.suite_in_use(), f.message_key@, f.nonce@, a0.handshake().transcript_hash@, m).len()
            <= u32::MAX,
        layers.aead ==> seal_accepts(a0.suite_in_use(), m.len(), 32),
    ensures
        reads(b0, layers, f, m),
        in_step(a1, b1),
{
}

/// What a passive adversary who can strip the transport gets is a break
/// (the plaintext or a reused keystream) exactly when the threat assessment
/// finds the passive observer exposed, whatever the KEM.
pub proof fn lemma_recovery_matches_exposure(l: Layers, adversary_knows_transport: bool, kem_is_pq: bool)
    requires
        !l.transport || adversary_knows_transport,
    ensures
        (expected_tag(l, adversary_knows_transport) == "Plaintext" || expected_tag(l, adversary_knows_transport)
            == "KeystreamReuse") <==> crate::threat::assessment(l, kem_is_pq)[0].status is Exposed,
{
    reveal_strlit("Plaintext");
    reveal_strlit("KeystreamReuse");
    reveal_strlit("MetadataOnly");
    reveal_strlit("MachineInTheMiddle");
}

/// The peer holding this key reads `p` from this frame.
pub open spec fn reads(ch: Channel, layers: Layers, frame: Frame, p: Seq<u8>) -> bool {
    carries(
        layers,
        ch.suite_in_use(),
        message_key_of(ch.chain_key()),
        frame.nonce@,
        ch.handshake().transcript_hash@,
        p,
        frame.wire@,
    )
}

/// What an exchange reports, given what the passive adversary got from the
/// first frame: with the peer pinned, that recovery, and what the peer read;
/// without, the passive adversary's recovery when it got something, and the
/// attacker's reading (as the peer) when it did not.
fn report(passive: Recovery, peer: &mut Channel, layers: Layers, f1: &Frame) -> (r: Result<(Recovery, Option<Vec<u8>>)>)
    requires
        old(peer).wf(),
        old(peer).ratchets() ==> old(peer).position() < u32::MAX,
        opens_whole(layers, old(peer).suite_in_use(), f1.wire@),
    ensures
        r matches Ok(o) ==> {
            &&& (layers.authenticate || !(passive is MetadataOnly)) ==> o.0 == passive
            &&& !layers.authenticate ==> o.1 is None
            &&& layers.authenticate ==> forall|p: Seq<u8>|
                #[trigger] reads(*old(peer), layers, *f1, p) ==> o.1 is Some && o.1.unwrap()@ == p
            &&& !layers.authenticate && passive is MetadataOnly ==> forall|p: Seq<u8>|
                #[trigger] reads(*old(peer), layers, *f1, p) ==> recovery_view(o.0) == (("MachineInTheMiddle", p))
        },
        r matches Err(e) ==> !layers.authenticate && passive is MetadataOnly && forall|p: Seq<u8>|
            !(#[trigger] reads(*old(peer), layers, *f1, p)),
{
    if layers.authenticate {
        let rt = match peer.recv(layers, f1) {
            Ok(p) => Some(p),
            Err(_) => None,
        };
        Ok((passive, rt))
    } else {
        match passive {
            Recovery::MetadataOnly => {
                let active = match adversary_mitm(peer, layers, f1) {
                    Ok(rec) => rec,
                    Err(e) => return Err(e),
                };
                Ok((active, None))
            },
            other => Ok((other, None)),
        }
    }
}

/// Send two messages through the configured stack and report what the
/// intended recipient and the adversary get.
///
/// With peer authentication on, the real peer receives the first frame and
/// the adversary is passive. With it off the peer is an attacker who
/// completed the handshake; it reads the first frame whenever a passive
/// observer would get nothing from it, so the report is the worse of the two
/// attacks. The second frame exists for the two-time pad and the ratchet,
/// both claims about consecutive messages.
pub fn exchange<K: Kem>(
    kem: &K,
    layers: Layers,
    suite: Suite,
    adversary_knows_transport: bool,
    m1: &[u8],
    m2: &[u8],
) -> (r: Result<Exchange>)
    requires
        m1@.len() + TAG_ROOM <= usize::MAX,
        m2@.len() + TAG_ROOM <= usize::MAX,
        layers.aead ==> !overruns(suite, m1@.len()) && !overruns(suite, m2@.len()),
    ensures
        r matches Ok(ex) ==> {
            &&& ex.sender.handshake().kem_name == effective_label(*kem, layers)
            &&& ex.sender.handshake().kem_is_pq == effective_pq(*kem, layers)
            &&& ex.sender.handshake().authenticated == layers.authenticate
            &&& !layers.authenticate ==> ex.roundtrip is None
            &&& framable(m1@, m2@) ==> recovery_tag(ex.recovery) == expected_tag(
                layers,
                adversary_knows_transport,
            )
            &&& framable(m1@, m2@) && layers.authenticate ==> ex.roundtrip is Some && ex.roundtrip.unwrap()@ == m1@
            &&& sent_in_order(ex, layers, suite, m1@, m2@)
            &&& framable(m1@, m2@) ==> splittable(ex.frames[0].wire@, layers) && splittable(ex.frames[1].wire@, layers)
            &&& !layers.ratchet ==> ex.frames[0].message_key@ == ex.frames[1].message_key@
            &&& layers.nonce_reuse ==> ex.frames[0].nonce@ == ex.frames[1].nonce@
            &&& first_frame_outcome(ex, layers, suite, adversary_knows_transport) is Ok
            &&& (layers.authenticate || first_frame_outcome(ex, layers, suite, adversary_knows_transport).unwrap().0
                != "MetadataOnly") ==> recovery_view(ex.recovery) == first_frame_outcome(
                ex,
                layers,
                suite,
                adversary_knows_transport,
            ).unwrap()
            &&& framable(m1@, m2@) && !layers.authenticate && first_frame_outcome(
                ex,
                layers,
                suite,
                adversary_knows_transport,
            ).unwrap().0 == "MetadataOnly" ==> recovery_view(ex.recovery) == (("MachineInTheMiddle", m1@))
        },
        r matches Err(e) ==> !framable(m1@, m2@) || (layers.key_agreement && kem_refuses(*kem, e)),
{
    let (mut sender, mut peer) = if layers.authenticate {
        match establish(kem, layers, suite) {
            Ok(p) => p,
            Err(e) => return Err(e),
        }
    } else {
        match establish_mitm(kem, layers, suite) {
            Ok(p) => p,
            Err(e) => return Err(e),
        }
    };
    let ghost s0 = sender;
    let ghost p0 = peer;
    let f1 = match sender.send(layers, m1) {
        Ok(f) => f,
        Err(e) => return Err(e),
    };
    let f2 = match sender.send(layers, m2) {
        Ok(f) => f,
        Err(e) => return Err(e),
    };

    let adv = adversary(&sender, &f1, layers, adversary_knows_transport);
    proof {
        if framable(m1@, m2@) {
            let th = s0.handshake().transcript_hash@;
            let body = body_for(layers, suite, f1.message_key@, f1.nonce@, th, m1@);
            crate::transport::lemma_unframe_frame(body, PAD_BLOCK);
            assert(carries(layers, suite, f1.message_key@, f1.nonce@, th, m1@, f1.wire@));
            assert(body_of_wire(layers, f1.wire@) == Ok::<Seq<u8>, Error>(body));
            if !layers.key_agreement {
                assert(f1.message_key@ == rebuilt_key(rebuilt_root(th), f1.counter, layers.ratchet));
            }
        }
    }
    let passive = match adv {
        Ok(rec) => rec,
        Err(e) => return Err(e),
    };
    proof {
        reveal_strlit("MetadataOnly");
        reveal_strlit("Plaintext");
        reveal_strlit("KeystreamReuse");
        reveal_strlit("MachineInTheMiddle");
    }

    proof {
        if framable(m1@, m2@) {
            assert(reads(p0, layers, f1, m1@));
            let th = s0.handshake().transcript_hash@;
            crate::wire::lemma_sent_wire_splits(body_for(layers, suite, f1.message_key@, f1.nonce@, th, m1@), layers, PAD_BLOCK);
            crate::wire::lemma_sent_wire_splits(body_for(layers, suite, f2.message_key@, f2.nonce@, th, m2@), layers, PAD_BLOCK);
        }
    }
    let (recovery, roundtrip) = match report(passive, &mut peer, layers, &f1) {
        Ok(o) => o,
        Err(e) => return Err(e),
    };
    let ex = Exchange { sender, frames: [f1, f2], recovery, roundtrip };
    proof {
        assert(first_frame_outcome(ex, layers, suite, adversary_knows_transport) == outcome_view(
            Ok::<Recovery, Error>(passive),
        )) by {
            reveal(first_frame_outcome);
        }
    }
    Ok(ex)
}

} // verus!
