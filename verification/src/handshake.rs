//! A real two-party handshake.
//!
//! Responder-authenticated, initiator-anonymous: the same shape as TLS with
//! server-only certificates. Two messages cross the wire and each side holds
//! only its own secrets. Neither function generates both keypairs.
//!
//! ```text
//!   Responder                                   Initiator
//!   (id_sk, id_pk) long-term
//!   (kem_sk, kem_pk) ephemeral
//!   sig = Sign(id_sk, H(transcript))
//!            -- ResponderHello{suite, id_pk, kem_pk, sig} -->
//!                                        verify sig over H(transcript)
//!                                        (ss, ct) = Encap(kem_pk)
//!            <-------- InitiatorReply{ct} ----------
//!   ss = Decap(kem_sk, ct)
//!
//!   root = HKDF(ss, info = "handshake" || H(full transcript))
//! ```
//!
//! The transcript hash is signed and bound into every AEAD as associated
//! data, so splicing messages between sessions fails the tag check. The
//! announced signature suite is absorbed before anything is signed, so
//! rewriting it to force a downgrade changes the hash the signature covers.

use vstd::prelude::*;
use crate::bytes::{copy_of, push_all, same_bytes, text};
use crate::error::{Error, Result};
use crate::identity::{self, ed25519_public, ed25519_signature, suite_name, suite_verify_outcome, Identity, SigSuite};
use crate::kdf::{derive32, derived};
use crate::kem::{Ciphertext, Kem, PublicKey, SecretKey};
use crate::transcript::{absorbed, sha256, started, Transcript};

verus! {

#[derive(Clone, Debug)]
pub struct ResponderHello {
    /// The signature suite the responder announces and signs under.
    pub sig_suite: SigSuite,
    pub identity_pk: Vec<u8>,
    pub kem_pk: PublicKey,
    pub signature: Vec<u8>,
}

#[derive(Clone, Debug)]
pub struct InitiatorReply {
    pub ct: Ciphertext,
}

/// Established session state, identical on both sides if the handshake worked.
pub struct Handshake {
    pub root: [u8; 32],
    pub transcript_hash: [u8; 32],
    pub kem_name: &'static str,
    pub kem_is_pq: bool,
    /// The suite the peer's signature was made under.
    pub sig_suite: SigSuite,
    pub authenticated: bool,
}

impl Handshake {
    /// Post-quantum on both halves: the KEM protects confidentiality against
    /// a future quantum adversary, and the signature suite protects
    /// authentication. One without the other is reported as not fully so.
    pub fn is_fully_pq(&self) -> (r: bool)
        ensures
            r == (self.kem_is_pq && self.sig_suite is MlDsa65),
    {
        self.kem_is_pq && self.sig_suite.is_pq()
    }
}

/// The label a handshake transcript starts under.
pub const HANDSHAKE_LABEL: &'static str = "code-talker/handshake/v1";

/// The transcript both sides start from: the label and the KEM's name.
pub open spec fn base_transcript_bytes(kem_name: &str) -> Seq<u8> {
    absorbed(started(text(HANDSHAKE_LABEL)), text("kem"), text(kem_name))
}

/// The transcript the responder signs: the base, then the suite it signs
/// under, its identity key and its KEM public key.
pub open spec fn hello_transcript(kem_name: &str, sig_suite: SigSuite, id_pk: Seq<u8>, kem_pk: Seq<u8>) -> Seq<u8> {
    absorbed(
        absorbed(
            absorbed(base_transcript_bytes(kem_name), text("sig_suite"), text(suite_name(sig_suite))),
            text("id_pk"),
            id_pk,
        ),
        text("kem_pk"),
        kem_pk,
    )
}

/// The hash the responder's signature covers.
pub open spec fn signed_hash(kem_name: &str, hello: ResponderHello) -> Seq<u8> {
    sha256(hello_transcript(kem_name, hello.sig_suite, hello.identity_pk@, hello.kem_pk@))
}

/// The hash of the whole handshake: the hello, its signature, and the
/// initiator's ciphertext.
pub open spec fn session_hash(kem_name: &str, hello: ResponderHello, ct: Seq<u8>) -> Seq<u8> {
    sha256(
        absorbed(
            absorbed(
                hello_transcript(kem_name, hello.sig_suite, hello.identity_pk@, hello.kem_pk@),
                text("sig"),
                hello.signature@,
            ),
            text("ct"),
            ct,
        ),
    )
}

/// The session root derived from a shared secret and a transcript hash.
pub open spec fn session_root(ss: Seq<u8>, th: Seq<u8>) -> Seq<u8> {
    derived(ss, text("handshake") + th, 32)
}

/// Two hellos carry the same bytes.
pub open spec fn same_hello(a: ResponderHello, b: ResponderHello) -> bool {
    a.sig_suite == b.sig_suite && a.identity_pk@ == b.identity_pk@ && a.kem_pk@ == b.kem_pk@
        && a.signature@ == b.signature@
}

/// `seed` made this hello: it announces Ed25519, the identity key is the
/// seed's public key and the signature is its signature over the hello's
/// transcript.
pub open spec fn signed_by(kem_name: &str, hello: ResponderHello, seed: Seq<u8>) -> bool {
    &&& seed.len() == 32
    &&& hello.sig_suite is Ed25519
    &&& hello.identity_pk@.len() == 32
    &&& hello.signature@.len() == 64
    &&& hello.identity_pk@ == ed25519_public(seed)
    &&& hello.signature@ == ed25519_signature(seed, signed_hash(kem_name, hello))
}

/// A key was pinned and the hello names a different one.
pub open spec fn pin_mismatch(hello: ResponderHello, expected_identity: Option<Seq<u8>>) -> bool {
    match expected_identity {
        Some(e) => e != hello.identity_pk@,
        None => false,
    }
}

/// Why the initiator refuses a hello, if it does: a pinned key that does not
/// match, or a signature that does not verify under the announced suite.
/// `None` when authentication is off or passes.
pub open spec fn refusal(
    kem_name: &str,
    hello: ResponderHello,
    verify_identity: bool,
    expected_identity: Option<Seq<u8>>,
) -> Option<Error> {
    if !verify_identity {
        None
    } else if pin_mismatch(hello, expected_identity) {
        Some(Error::Auth("identity key does not match the pinned peer"))
    } else {
        match suite_verify_outcome(hello.sig_suite, hello.identity_pk@, signed_hash(kem_name, hello), hello.signature@) {
            Ok(_) => None,
            Err(e) => Some(e),
        }
    }
}

/// The handshake state carries these values.
pub open spec fn handshake_holds(
    hs: Handshake,
    root: Seq<u8>,
    th: Seq<u8>,
    kem_name: &'static str,
    kem_is_pq: bool,
    sig_suite: SigSuite,
    authenticated: bool,
) -> bool {
    &&& hs.root@ == root
    &&& hs.transcript_hash@ == th
    &&& hs.kem_name == kem_name
    &&& hs.kem_is_pq == kem_is_pq
    &&& hs.sig_suite == sig_suite
    &&& hs.authenticated == authenticated
}

fn base_transcript<K: Kem>(kem: &K) -> (r: Transcript)
    ensures
        r@ == base_transcript_bytes(kem.label()),
{
    let mut t = Transcript::new(HANDSHAKE_LABEL.as_bytes());
    t.absorb("kem".as_bytes(), kem.name().as_bytes());
    t
}

/// `"handshake"` followed by the transcript hash: the context the root is
/// derived under.
pub(crate) fn root_info(th: &[u8; 32]) -> (r: Vec<u8>)
    ensures
        r@ == text("handshake") + th@,
{
    let mut info: Vec<u8> = Vec::with_capacity(9 + 32);
    push_all(&mut info, "handshake".as_bytes());
    push_all(&mut info, th);
    info
}

pub struct Responder<'a, K: Kem> {
    kem: &'a K,
    identity: Identity,
    kem_sk: SecretKey,
    hello: ResponderHello,
    transcript: Transcript,
}

impl<'a, K: Kem> Responder<'a, K> {
    /// The responder's state is what `new` built: its KEM secret belongs to
    /// the public key it sent, and its identity signed the transcript.
    pub closed spec fn wf(&self) -> bool {
        &&& self.kem.keypair(self.kem_sk@, self.hello.kem_pk@)
        &&& self.transcript@ == hello_transcript(
            self.kem.label(),
            self.hello.sig_suite,
            self.hello.identity_pk@,
            self.hello.kem_pk@,
        )
        &&& signed_by(self.kem.label(), self.hello, self.identity.secret())
    }

    /// The hello this responder sends.
    pub closed spec fn sent(&self) -> ResponderHello {
        self.hello
    }

    /// The KEM secret key behind the hello's public key.
    pub closed spec fn kem_secret(&self) -> Seq<u8> {
        self.kem_sk@
    }

    /// The KEM the responder runs.
    pub closed spec fn engine(&self) -> K {
        *self.kem
    }

    /// The seed of the responder's long-term identity.
    pub closed spec fn signer(&self) -> Seq<u8> {
        self.identity.secret()
    }

    /// Generate ephemeral KEM material and sign it under the long-term identity.
    pub fn new(kem: &'a K, identity: Identity) -> (r: Result<Self>)
        ensures
            r matches Ok(resp) ==> resp.wf() && resp.engine() == *kem && resp.signer() == identity.secret()
                && kem.keypair(resp.kem_secret(), resp.sent().kem_pk@)
                && signed_by(kem.label(), resp.sent(), identity.secret()),
            r matches Err(e) ==> kem.keygen_refuses(e),
    {
        proof {
            identity.lemma_seed_length();
        }
        let (kem_sk, kem_pk) = match kem.keygen() {
            Ok(kp) => kp,
            Err(e) => return Err(e),
        };

        let mut transcript = base_transcript(kem);
        let sig_suite = identity.suite();
        transcript.absorb("sig_suite".as_bytes(), sig_suite.name().as_bytes());
        let identity_pk = identity.public();
        transcript.absorb("id_pk".as_bytes(), identity_pk.as_slice());
        transcript.absorb("kem_pk".as_bytes(), kem_pk.as_bytes());

        // Sign the transcript, not the raw key. Signing the key alone would
        // leave the signature replayable into a different session.
        let th = transcript.hash();
        let signature = identity.sign(&th);

        let hello = ResponderHello { sig_suite, identity_pk, kem_pk, signature };
        Ok(Responder { kem, identity, kem_sk, hello, transcript })
    }

    pub fn hello(&self) -> (r: ResponderHello)
        ensures
            same_hello(r, self.sent()),
    {
        ResponderHello {
            sig_suite: self.hello.sig_suite,
            identity_pk: copy_of(self.hello.identity_pk.as_slice()),
            kem_pk: PublicKey(copy_of(self.hello.kem_pk.as_bytes())),
            signature: copy_of(self.hello.signature.as_slice()),
        }
    }

    pub fn identity_public(&self) -> (r: Vec<u8>)
        requires
            self.wf(),
        ensures
            r@ == self.sent().identity_pk@,
            r@ == ed25519_public(self.signer()),
    {
        self.identity.public()
    }

    /// Consume the initiator's reply and derive the session root.
    pub fn accept(self, reply: &InitiatorReply, authenticated: bool) -> (r: Result<Handshake>)
        requires
            self.wf(),
        ensures
            match self.engine().decapsulation(self.kem_secret(), reply.ct@) {
                Err(e) => r == Err::<Handshake, Error>(e),
                Ok(ss) => r matches Ok(hs) && handshake_holds(
                    hs,
                    session_root(ss, session_hash(self.engine().label(), self.sent(), reply.ct@)),
                    session_hash(self.engine().label(), self.sent(), reply.ct@),
                    self.engine().label(),
                    self.engine().post_quantum(),
                    self.sent().sig_suite,
                    authenticated,
                ),
            },
    {
        let mut transcript = self.transcript;
        let ss = match self.kem.decapsulate(&self.kem_sk, &reply.ct) {
            Ok(ss) => ss,
            Err(e) => return Err(e),
        };

        transcript.absorb("sig".as_bytes(), self.hello.signature.as_slice());
        transcript.absorb("ct".as_bytes(), reply.ct.as_bytes());
        let th = transcript.hash();

        let info = root_info(&th);
        let root = derive32(ss.as_bytes(), info.as_slice());

        Ok(Handshake {
            root,
            transcript_hash: th,
            kem_name: self.kem.name(),
            kem_is_pq: self.kem.is_pq(),
            sig_suite: self.hello.sig_suite,
            authenticated,
        })
    }
}

/// What a successful initiation produced: a ciphertext that encapsulates
/// some shared secret to the hello's KEM key, and the handshake state derived
/// from that secret and the full transcript.
pub open spec fn initiated<K: Kem>(
    kem: K,
    hello: ResponderHello,
    verify_identity: bool,
    hs: Handshake,
    reply: InitiatorReply,
) -> bool {
    exists|ss: Seq<u8>|
        #[trigger] kem.encapsulates(hello.kem_pk@, ss, reply.ct@) && handshake_holds(
            hs,
            session_root(ss, session_hash(kem.label(), hello, reply.ct@)),
            session_hash(kem.label(), hello, reply.ct@),
            kem.label(),
            kem.post_quantum(),
            hello.sig_suite,
            verify_identity,
        )
}

/// The pinned key, as bytes, if one was given.
pub open spec fn pin_of(expected: Option<&[u8]>) -> Option<Seq<u8>> {
    match expected {
        Some(e) => Some(e@),
        None => None,
    }
}

/// Run the initiator side against a received hello.
///
/// `verify_identity` is the ablation switch. With it off the handshake still
/// completes, which is exactly the danger: success is indistinguishable from
/// a session with an attacker in the middle. A hello signed by the identity
/// it names passes authentication whenever the pin (if any) names that key.
/// The initiator's authentication step: the pin, then the signature over the
/// hello's transcript, whose hash is `th1`.
fn check_hello<K: Kem>(
    kem: &K,
    hello: &ResponderHello,
    th1: &[u8; 32],
    verify_identity: bool,
    expected_identity: Option<&[u8]>,
) -> (r: Result<()>)
    requires
        th1@ == signed_hash(kem.label(), *hello),
    ensures
        r == (match refusal(kem.label(), *hello, verify_identity, pin_of(expected_identity)) {
            Some(e) => Err::<(), Error>(e),
            None => Ok(()),
        }),
        forall|seed: Seq<u8>|
            #[trigger] signed_by(kem.label(), *hello, seed) && !(verify_identity
                && pin_mismatch(*hello, pin_of(expected_identity)))
                ==> refusal(kem.label(), *hello, verify_identity, pin_of(expected_identity)) is None,
{
    if verify_identity {
        // Pinning: a valid signature from the wrong key is still the wrong peer.
        if let Some(expected) = expected_identity {
            if !same_bytes(expected, hello.identity_pk.as_slice()) {
                return Err(Error::Auth("identity key does not match the pinned peer"));
            }
        }
        let v = identity::verify_with(hello.sig_suite, hello.identity_pk.as_slice(), th1, hello.signature.as_slice());
        assert(!pin_mismatch(*hello, pin_of(expected_identity)));
        match v {
            Ok(()) => Ok(()),
            Err(e) => Err(e),
        }
    } else {
        Ok(())
    }
}

/// Run the initiator side against a received hello.
///
/// `verify_identity` is the ablation switch. With it off the handshake still
/// completes, which is exactly the danger: success is indistinguishable from
/// a session with an attacker in the middle. A hello signed by the identity
/// it names passes authentication whenever the pin (if any) names that key.
pub fn initiate<K: Kem>(
    kem: &K,
    hello: &ResponderHello,
    verify_identity: bool,
    expected_identity: Option<&[u8]>,
) -> (r: Result<(Handshake, InitiatorReply)>)
    ensures
        refusal(kem.label(), *hello, verify_identity, pin_of(expected_identity)) matches Some(e)
            ==> r == Err::<(Handshake, InitiatorReply), Error>(e),
        forall|seed: Seq<u8>|
            #[trigger] signed_by(kem.label(), *hello, seed) && !(verify_identity
                && pin_mismatch(*hello, pin_of(expected_identity)))
                ==> refusal(kem.label(), *hello, verify_identity, pin_of(expected_identity)) is None,
        r matches Err(e) ==> refusal(kem.label(), *hello, verify_identity, pin_of(expected_identity))
            == Some(e) || (refusal(kem.label(), *hello, verify_identity, pin_of(expected_identity)) is None
            && kem.encapsulation_refuses(hello.kem_pk@, e)),
        r matches Ok(out) ==> refusal(kem.label(), *hello, verify_identity, pin_of(expected_identity)) is None
            && initiated(*kem, *hello, verify_identity, out.0, out.1),
{
    let mut transcript = base_transcript(kem);
    transcript.absorb("sig_suite".as_bytes(), hello.sig_suite.name().as_bytes());
    transcript.absorb("id_pk".as_bytes(), hello.identity_pk.as_slice());
    transcript.absorb("kem_pk".as_bytes(), hello.kem_pk.as_bytes());
    let th1 = transcript.hash();

    match check_hello(kem, hello, &th1, verify_identity, expected_identity) {
        Ok(()) => {},
        Err(e) => return Err(e),
    }

    let (ss, ct) = match kem.encapsulate(&hello.kem_pk) {
        Ok(o) => o,
        Err(e) => return Err(e),
    };
    assert(kem.encapsulates(hello.kem_pk@, ss@, ct@));

    transcript.absorb("sig".as_bytes(), hello.signature.as_slice());
    transcript.absorb("ct".as_bytes(), ct.as_bytes());
    let th = transcript.hash();

    let info = root_info(&th);
    let root = derive32(ss.as_bytes(), info.as_slice());
    assert(root@ == session_root(ss@, th@));

    let hs = Handshake {
        root,
        transcript_hash: th,
        kem_name: kem.name(),
        kem_is_pq: kem.is_pq(),
        sig_suite: hello.sig_suite,
        authenticated: verify_identity,
    };
    let reply = InitiatorReply { ct };
    assert(handshake_holds(
        hs,
        session_root(ss@, session_hash(kem.label(), *hello, reply.ct@)),
        session_hash(kem.label(), *hello, reply.ct@),
        kem.label(),
        kem.post_quantum(),
        hello.sig_suite,
        verify_identity,
    ));
    assert(kem.encapsulates(hello.kem_pk@, ss@, reply.ct@));
    assert(initiated(*kem, *hello, verify_identity, hs, reply));
    Ok((hs, reply))
}

/// Both sides of a handshake agree: decapsulating the initiator's
/// ciphertext with the secret key behind the hello recovers the secret the
/// initiator derived its root from, so the responder's root (derived from
/// that secret and the same transcript) is the initiator's root.
pub proof fn lemma_both_sides_agree<K: Kem>(
    kem: K,
    sk: Seq<u8>,
    hello: ResponderHello,
    verify_identity: bool,
    init_hs: Handshake,
    reply: InitiatorReply,
)
    requires
        kem.keypair(sk, hello.kem_pk@),
        initiated(kem, hello, verify_identity, init_hs, reply),
    ensures
        kem.decapsulation(sk, reply.ct@) is Ok,
        init_hs.root@ == session_root(
            kem.decapsulation(sk, reply.ct@).unwrap(),
            session_hash(kem.label(), hello, reply.ct@),
        ),
        init_hs.transcript_hash@ == session_hash(kem.label(), hello, reply.ct@),
{
    let ss = choose|ss: Seq<u8>|
        #[trigger] kem.encapsulates(hello.kem_pk@, ss, reply.ct@) && handshake_holds(
            init_hs,
            session_root(ss, session_hash(kem.label(), hello, reply.ct@)),
            session_hash(kem.label(), hello, reply.ct@),
            kem.label(),
            kem.post_quantum(),
            hello.sig_suite,
            verify_identity,
        );
    kem.lemma_decapsulation_recovers(sk, hello.kem_pk@, ss, reply.ct@);
}

} // verus!
