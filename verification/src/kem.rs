//! Key encapsulation, behind one trait.
//!
//! Every third-party KEM binding lives in this module and nowhere else. The
//! trait is a genuine KEM interface (separate keygen, encapsulate and
//! decapsulate) rather than a single `agree()` that quietly plays both roles:
//! a function generating both keypairs locally is a simulation of a
//! handshake, not a handshake.

use vstd::prelude::*;
use crate::bytes::{array32, same_bytes, same_text};
use crate::entropy::fill_random;
use crate::error::{Error, Result};

verus! {

broadcast use vstd::array::group_array_axioms;

#[derive(Clone, Debug, PartialEq, Eq)]
pub struct PublicKey(pub Vec<u8>);

impl View for PublicKey {
    type V = Seq<u8>;

    open spec fn view(&self) -> Seq<u8> {
        self.0@
    }
}

impl PublicKey {
    pub fn as_bytes(&self) -> (r: &[u8])
        ensures
            r@ == self@,
    {
        self.0.as_slice()
    }
}

#[derive(Clone, Debug, PartialEq, Eq)]
pub struct Ciphertext(pub Vec<u8>);

impl View for Ciphertext {
    type V = Seq<u8>;

    open spec fn view(&self) -> Seq<u8> {
        self.0@
    }
}

impl Ciphertext {
    pub fn as_bytes(&self) -> (r: &[u8])
        ensures
            r@ == self@,
    {
        self.0.as_slice()
    }
}

/// Secret key material. Never printed.
pub struct SecretKey(pub(crate) Vec<u8>);

impl View for SecretKey {
    type V = Seq<u8>;

    closed spec fn view(&self) -> Seq<u8> {
        self.0@
    }
}

/// Shared secret. Never printed.
#[derive(Clone)]
pub struct SharedSecret(pub(crate) Vec<u8>);

impl View for SharedSecret {
    type V = Seq<u8>;

    closed spec fn view(&self) -> Seq<u8> {
        self.0@
    }
}

impl SharedSecret {
    pub fn as_bytes(&self) -> (r: &[u8])
        ensures
            r@ == self@,
    {
        self.0.as_slice()
    }
}

/// A key encapsulation mechanism.
///
/// The session layer never learns whether this is classical, post-quantum or
/// hybrid. Each mechanism states which secret keys go with which public keys,
/// what an encapsulation may produce, and what decapsulation computes; and it
/// proves that decapsulating an encapsulation to its own public key recovers
/// the shared secret.
pub trait Kem {
    /// The name the mechanism reports.
    spec fn label(&self) -> &'static str;

    /// Whether the mechanism resists a quantum adversary.
    spec fn post_quantum(&self) -> bool;

    /// `sk` is the secret key belonging to `pk`.
    spec fn keypair(&self, sk: Seq<u8>, pk: Seq<u8>) -> bool;

    /// `(ss, ct)` is an outcome that encapsulating to `pk` may produce.
    spec fn encapsulates(&self, pk: Seq<u8>, ss: Seq<u8>, ct: Seq<u8>) -> bool;

    /// What decapsulating `ct` with `sk` yields.
    spec fn decapsulation(&self, sk: Seq<u8>, ct: Seq<u8>) -> Result<Seq<u8>>;

    /// `e` is an error key generation may report.
    spec fn keygen_refuses(&self, e: Error) -> bool;

    /// `e` is an error encapsulating to `pk` may report.
    spec fn encapsulation_refuses(&self, pk: Seq<u8>, e: Error) -> bool;

    /// Decapsulating an encapsulation to one's own public key recovers the
    /// encapsulated secret.
    proof fn lemma_decapsulation_recovers(&self, sk: Seq<u8>, pk: Seq<u8>, ss: Seq<u8>, ct: Seq<u8>)
        requires
            self.keypair(sk, pk),
            self.encapsulates(pk, ss, ct),
        ensures
            self.decapsulation(sk, ct) == Ok::<Seq<u8>, Error>(ss),
    ;

    fn name(&self) -> (r: &'static str)
        ensures
            r == self.label(),
    ;

    fn is_pq(&self) -> (r: bool)
        ensures
            r == self.post_quantum(),
    ;

    fn keygen(&self) -> (r: Result<(SecretKey, PublicKey)>)
        ensures
            r matches Ok(kp) ==> self.keypair(kp.0@, kp.1@),
            r matches Err(e) ==> self.keygen_refuses(e),
    ;

    fn encapsulate(&self, pk: &PublicKey) -> (r: Result<(SharedSecret, Ciphertext)>)
        ensures
            r matches Ok(o) ==> self.encapsulates(pk@, o.0@, o.1@),
            r matches Err(e) ==> self.encapsulation_refuses(pk@, e),
    ;

    fn decapsulate(&self, sk: &SecretKey, ct: &Ciphertext) -> (r: Result<SharedSecret>)
        ensures
            match r {
                Ok(ss) => self.decapsulation(sk@, ct@) == Ok::<Seq<u8>, Error>(ss@),
                Err(e) => self.decapsulation(sk@, ct@) == Err::<Seq<u8>, Error>(e),
            },
    ;
}

/// The X25519 function of RFC 7748: the u-coordinate of the clamped scalar
/// `k` times the point with u-coordinate `u`.
pub uninterp spec fn x25519_fn(k: Seq<u8>, u: Seq<u8>) -> Seq<u8>;

/// The X25519 base point, u = 9.
pub open spec fn basepoint() -> Seq<u8> {
    seq![9u8] + Seq::new(31, |i: int| 0u8)
}

/// Thirty-two zero bytes: the shared secret a low-order point produces.
pub open spec fn zeros32() -> Seq<u8> {
    Seq::new(32, |i: int| 0u8)
}

/// A u-coordinate some 32-byte secret times the base point gives: a public
/// key made the honest way.
pub open spec fn honest_point(u: Seq<u8>) -> bool {
    &&& u.len() == 32
    &&& exists|b: Seq<u8>| b.len() == 32 && u == #[trigger] x25519_fn(b, basepoint())
}

/// `x25519_dalek::x25519`, the RFC 7748 function it documents itself as
/// implementing exactly. Claimed: the result is the named function of its
/// two arguments; Diffie-Hellman holds (multiplying another party's public
/// value, its secret times the base point, by `k` gives what that party gets
/// by multiplying `k` times the base point by its own secret); and an honest
/// public value never gives the all-zero output. The last follows from the
/// clamping RFC 7748 prescribes: a clamped scalar is never a multiple of the
/// base point's prime order, so a multiple of the base point stays in the
/// prime-order subgroup and never reaches the identity or the order-two point,
/// the only points whose u-coordinate is zero.
#[verifier::external_body]
fn x25519_mul(k: &[u8; 32], u: &[u8; 32]) -> (r: [u8; 32])
    ensures
        r@ == x25519_fn(k@, u@),
        forall|b: Seq<u8>|
            b.len() == 32 && u@ == #[trigger] x25519_fn(b, basepoint())
                ==> r@ == x25519_fn(b, x25519_fn(k@, basepoint())) && r@ != zeros32(),
{
    x25519_dalek::x25519(*k, *u)
}

/// Some 32-byte scalar takes the point with u-coordinate `u` to the all-zero
/// output: `u` is a low-order point, which makes the exchange
/// non-contributory.
pub open spec fn zeroed_by_some_scalar(u: Seq<u8>) -> bool {
    exists|k: Seq<u8>| k.len() == 32 && #[trigger] x25519_fn(k, u) == zeros32()
}

/// The outcome of an encapsulation from its Diffie-Hellman output `ss` and
/// the ephemeral public key `eph_pk`: the secret and the key as ciphertext,
/// unless the output is all zero, which is refused as non-contributory.
pub fn encapsulation_from(ss: [u8; 32], eph_pk: [u8; 32]) -> (r: Result<(SharedSecret, Ciphertext)>)
    ensures
        r is Ok <==> ss@ != zeros32(),
        r matches Ok(o) ==> o.0@ == ss@ && o.1@ == eph_pk@,
        r matches Err(e) ==> e == Error::Kem("non-contributory shared secret (low-order point)"),
{
    if is_zero32(&ss) {
        return Err(Error::Kem("non-contributory shared secret (low-order point)"));
    }
    Ok((SharedSecret(crate::bytes::copy_of(&ss)), Ciphertext(crate::bytes::copy_of(&eph_pk))))
}

/// The X25519 base point as bytes.
fn basepoint_bytes() -> (r: [u8; 32])
    ensures
        r@ == basepoint(),
{
    let mut r: [u8; 32] = vstd::array::array_fill_for_copy_types(0u8);
    r[0] = 9;
    assert(r@ =~= basepoint());
    r
}

/// Whether 32 bytes are all zero.
fn is_zero32(b: &[u8; 32]) -> (r: bool)
    ensures
        r == (b@ == zeros32()),
{
    let z: [u8; 32] = vstd::array::array_fill_for_copy_types(0u8);
    let r = same_bytes(b, &z);
    assert(z@ =~= zeros32());
    r
}

/// DHKEM over X25519, as used by HPKE (RFC 9180 §4.1).
///
/// Encapsulation generates an ephemeral keypair, performs the Diffie-Hellman
/// against the recipient's public key, and ships the ephemeral public key as
/// the ciphertext. Not post-quantum; present as the pre-PQ baseline.
#[derive(Clone, Copy, Debug, PartialEq, Eq, Structural)]
pub struct X25519Kem;

impl Kem for X25519Kem {
    open spec fn label(&self) -> &'static str {
        "DHKEM(X25519)"
    }

    open spec fn post_quantum(&self) -> bool {
        false
    }

    open spec fn keypair(&self, sk: Seq<u8>, pk: Seq<u8>) -> bool {
        sk.len() == 32 && pk.len() == 32 && pk == x25519_fn(sk, basepoint())
    }

    open spec fn encapsulates(&self, pk: Seq<u8>, ss: Seq<u8>, ct: Seq<u8>) -> bool {
        &&& ss.len() == 32
        &&& ct.len() == 32
        &&& ss != zeros32()
        &&& forall|sk: Seq<u8>| #[trigger] self.keypair(sk, pk) ==> x25519_fn(sk, ct) == ss
    }

    open spec fn decapsulation(&self, sk: Seq<u8>, ct: Seq<u8>) -> Result<Seq<u8>> {
        if sk.len() != 32 {
            Err(Error::Kem("bad secret key length"))
        } else if ct.len() != 32 {
            Err(Error::Kem("bad ciphertext length"))
        } else if x25519_fn(sk, ct) == zeros32() {
            Err(Error::Kem("non-contributory shared secret (low-order point)"))
        } else {
            Ok(x25519_fn(sk, ct))
        }
    }

    open spec fn keygen_refuses(&self, e: Error) -> bool {
        false
    }

    open spec fn encapsulation_refuses(&self, pk: Seq<u8>, e: Error) -> bool {
        if pk.len() != 32 {
            e == Error::Kem("bad public key length")
        } else {
            e == Error::Kem("non-contributory shared secret (low-order point)") && zeroed_by_some_scalar(pk)
                && !honest_point(pk)
        }
    }

    proof fn lemma_decapsulation_recovers(&self, sk: Seq<u8>, pk: Seq<u8>, ss: Seq<u8>, ct: Seq<u8>) {
        assert(self.keypair(sk, pk));
    }

    fn name(&self) -> (r: &'static str) {
        "DHKEM(X25519)"
    }

    fn is_pq(&self) -> (r: bool) {
        false
    }

    fn keygen(&self) -> (r: Result<(SecretKey, PublicKey)>)
        ensures
            r is Ok,
    {
        let mut sk = [0u8; 32];
        fill_random(&mut sk);
        let pk = x25519_mul(&sk, &basepoint_bytes());
        Ok((SecretKey(crate::bytes::copy_of(&sk)), PublicKey(crate::bytes::copy_of(&pk))))
    }

    fn encapsulate(&self, pk: &PublicKey) -> (r: Result<(SharedSecret, Ciphertext)>)
        ensures
            pk@.len() != 32 ==> r == Err::<(SharedSecret, Ciphertext), Error>(Error::Kem("bad public key length")),
            r matches Err(e) && pk@.len() == 32 ==> zeroed_by_some_scalar(pk@) && !honest_point(pk@),
            honest_point(pk@) ==> r is Ok,
            r matches Ok(o) ==> exists|eph: Seq<u8>|
                eph.len() == 32 && o.1@ == x25519_fn(eph, basepoint()) && #[trigger] x25519_fn(eph, pk@) == o.0@
                    && o.0@ != zeros32(),
    {
        if pk.0.len() != 32 {
            return Err(Error::Kem("bad public key length"));
        }
        let peer = array32(pk.0.as_slice());
        let mut eph = [0u8; 32];
        fill_random(&mut eph);
        let base = basepoint_bytes();
        let eph_pk = x25519_mul(&eph, &base);
        let ss = x25519_mul(&eph, &peer);
        let r = encapsulation_from(ss, eph_pk);
        match r {
            Ok(o) => {
                assert(x25519_fn(eph@, pk@) == o.0@);
                assert forall|sk: Seq<u8>| #[trigger] self.keypair(sk, pk@) implies x25519_fn(sk, o.1@) == o.0@ by {
                    assert(peer@ == x25519_fn(sk, basepoint()));
                };
                Ok(o)
            },
            Err(e) => {
                assert(x25519_fn(eph@, pk@) == zeros32());
                assert(!honest_point(pk@));
                Err(e)
            },
        }
    }

    fn decapsulate(&self, sk: &SecretKey, ct: &Ciphertext) -> (r: Result<SharedSecret>) {
        if sk.0.len() != 32 {
            return Err(Error::Kem("bad secret key length"));
        }
        if ct.0.len() != 32 {
            return Err(Error::Kem("bad ciphertext length"));
        }
        let skb = array32(sk.0.as_slice());
        let ctb = array32(ct.0.as_slice());
        let ss = x25519_mul(&skb, &ctb);
        if is_zero32(&ss) {
            return Err(Error::Kem("non-contributory shared secret (low-order point)"));
        }
        Ok(SharedSecret(crate::bytes::copy_of(&ss)))
    }
}

/// The captured-codebook case: a fixed keypair with a fixed shared secret.
/// Models "no key agreement at all" so the ablation harness has something to
/// compare against. Deliberately, obviously insecure.
#[derive(Clone, Copy, Debug, PartialEq, Eq, Structural)]
pub struct StaticKem;

/// `n` copies of `b`.
pub open spec fn filled(b: u8, n: nat) -> Seq<u8> {
    Seq::new(n, |i: int| b)
}

/// The one shared secret the captured codebook ever yields.
pub open spec fn codebook_secret() -> Seq<u8> {
    filled(0x2a, 32)
}

impl Kem for StaticKem {
    open spec fn label(&self) -> &'static str {
        "static (captured codebook)"
    }

    open spec fn post_quantum(&self) -> bool {
        false
    }

    open spec fn keypair(&self, sk: Seq<u8>, pk: Seq<u8>) -> bool {
        sk == filled(0x11, 32) && pk == filled(0x22, 32)
    }

    open spec fn encapsulates(&self, pk: Seq<u8>, ss: Seq<u8>, ct: Seq<u8>) -> bool {
        ss == codebook_secret() && ct == filled(0x33, 32)
    }

    open spec fn decapsulation(&self, sk: Seq<u8>, ct: Seq<u8>) -> Result<Seq<u8>> {
        Ok(codebook_secret())
    }

    open spec fn keygen_refuses(&self, e: Error) -> bool {
        false
    }

    open spec fn encapsulation_refuses(&self, pk: Seq<u8>, e: Error) -> bool {
        false
    }

    proof fn lemma_decapsulation_recovers(&self, sk: Seq<u8>, pk: Seq<u8>, ss: Seq<u8>, ct: Seq<u8>) {
    }

    fn name(&self) -> (r: &'static str) {
        "static (captured codebook)"
    }

    fn is_pq(&self) -> (r: bool) {
        false
    }

    fn keygen(&self) -> (r: Result<(SecretKey, PublicKey)>)
        ensures
            r is Ok,
    {
        let sk = vec![0x11u8; 32];
        let pk = vec![0x22u8; 32];
        assert(sk@ =~= filled(0x11, 32));
        assert(pk@ =~= filled(0x22, 32));
        Ok((SecretKey(sk), PublicKey(pk)))
    }

    fn encapsulate(&self, _pk: &PublicKey) -> (r: Result<(SharedSecret, Ciphertext)>)
        ensures
            r is Ok,
    {
        let ss = vec![0x2au8; 32];
        let ct = vec![0x33u8; 32];
        assert(ss@ =~= codebook_secret());
        assert(ct@ =~= filled(0x33, 32));
        Ok((SharedSecret(ss), Ciphertext(ct)))
    }

    fn decapsulate(&self, _sk: &SecretKey, _ct: &Ciphertext) -> (r: Result<SharedSecret>) {
        let ss = vec![0x2au8; 32];
        assert(ss@ =~= codebook_secret());
        Ok(SharedSecret(ss))
    }
}

/// A backend chosen by name at run time.
#[derive(Clone, Copy, Debug, PartialEq, Eq, Structural)]
pub enum Backend {
    Static(StaticKem),
    X25519(X25519Kem),
}

impl Kem for Backend {
    open spec fn label(&self) -> &'static str {
        match self {
            Backend::Static(k) => k.label(),
            Backend::X25519(k) => k.label(),
        }
    }

    open spec fn post_quantum(&self) -> bool {
        match self {
            Backend::Static(k) => k.post_quantum(),
            Backend::X25519(k) => k.post_quantum(),
        }
    }

    open spec fn keypair(&self, sk: Seq<u8>, pk: Seq<u8>) -> bool {
        match self {
            Backend::Static(k) => k.keypair(sk, pk),
            Backend::X25519(k) => k.keypair(sk, pk),
        }
    }

    open spec fn encapsulates(&self, pk: Seq<u8>, ss: Seq<u8>, ct: Seq<u8>) -> bool {
        match self {
            Backend::Static(k) => k.encapsulates(pk, ss, ct),
            Backend::X25519(k) => k.encapsulates(pk, ss, ct),
        }
    }

    open spec fn decapsulation(&self, sk: Seq<u8>, ct: Seq<u8>) -> Result<Seq<u8>> {
        match self {
            Backend::Static(k) => k.decapsulation(sk, ct),
            Backend::X25519(k) => k.decapsulation(sk, ct),
        }
    }

    open spec fn keygen_refuses(&self, e: Error) -> bool {
        match self {
            Backend::Static(k) => k.keygen_refuses(e),
            Backend::X25519(k) => k.keygen_refuses(e),
        }
    }

    open spec fn encapsulation_refuses(&self, pk: Seq<u8>, e: Error) -> bool {
        match self {
            Backend::Static(k) => k.encapsulation_refuses(pk, e),
            Backend::X25519(k) => k.encapsulation_refuses(pk, e),
        }
    }

    proof fn lemma_decapsulation_recovers(&self, sk: Seq<u8>, pk: Seq<u8>, ss: Seq<u8>, ct: Seq<u8>) {
        match self {
            Backend::Static(k) => k.lemma_decapsulation_recovers(sk, pk, ss, ct),
            Backend::X25519(k) => k.lemma_decapsulation_recovers(sk, pk, ss, ct),
        }
    }

    fn name(&self) -> (r: &'static str) {
        match self {
            Backend::Static(k) => k.name(),
            Backend::X25519(k) => k.name(),
        }
    }

    fn is_pq(&self) -> (r: bool) {
        match self {
            Backend::Static(k) => k.is_pq(),
            Backend::X25519(k) => k.is_pq(),
        }
    }

    fn keygen(&self) -> (r: Result<(SecretKey, PublicKey)>) {
        match self {
            Backend::Static(k) => k.keygen(),
            Backend::X25519(k) => k.keygen(),
        }
    }

    fn encapsulate(&self, pk: &PublicKey) -> (r: Result<(SharedSecret, Ciphertext)>) {
        match self {
            Backend::Static(k) => k.encapsulate(pk),
            Backend::X25519(k) => k.encapsulate(pk),
        }
    }

    fn decapsulate(&self, sk: &SecretKey, ct: &Ciphertext) -> (r: Result<SharedSecret>) {
        match self {
            Backend::Static(k) => k.decapsulate(sk, ct),
            Backend::X25519(k) => k.decapsulate(sk, ct),
        }
    }
}

/// What `backend` answers for a name. This build carries the classical
/// backend and not the post-quantum one, and says so rather than faking it.
pub open spec fn backend_for(name: Seq<char>) -> Result<Backend> {
    if name == "static"@ {
        Ok(Backend::Static(StaticKem))
    } else if name == "x25519"@ {
        Ok(Backend::X25519(X25519Kem))
    } else if name == "xwing"@ {
        Err(Error::BackendUnavailable("xwing (feature `pq`)"))
    } else {
        Err(Error::Kem("unknown backend"))
    }
}

/// Every backend name the console can offer, in the order it lists them.
pub open spec fn backend_names() -> Seq<&'static str> {
    seq!["static", "x25519", "xwing"]
}

/// The names among `names` that this build has a backend for, in order.
pub open spec fn present(names: Seq<&'static str>) -> Seq<&'static str>
    decreases names.len(),
{
    if names.len() == 0 {
        Seq::empty()
    } else {
        let rest = present(names.drop_last());
        if backend_for(names.last()@) is Ok {
            rest.push(names.last())
        } else {
            rest
        }
    }
}

/// Which backends this build contains, so a missing one shows up as absent
/// instead of faked.
pub fn available_backends() -> (r: Vec<&'static str>)
    ensures
        r@ == present(backend_names()),
{
    let names: [&'static str; 3] = ["static", "x25519", "xwing"];
    assert(names@ == backend_names());
    let mut out: Vec<&'static str> = Vec::new();
    let mut i: usize = 0;
    while i < 3
        invariant
            i <= 3,
            names@ == backend_names(),
            out@ == present(names@.take(i as int)),
        decreases 3 - i,
    {
        assert(names@.take(i + 1).drop_last() =~= names@.take(i as int));
        if backend(names[i]).is_ok() {
            out.push(names[i]);
        }
        i += 1;
    }
    assert(names@.take(3) =~= names@);
    out
}

pub fn backend(name: &str) -> (r: Result<Backend>)
    ensures
        r == backend_for(name@),
{
    if same_text(name, "static") {
        Ok(Backend::Static(StaticKem))
    } else if same_text(name, "x25519") {
        Ok(Backend::X25519(X25519Kem))
    } else if same_text(name, "xwing") {
        Err(Error::BackendUnavailable("xwing (feature `pq`)"))
    } else {
        Err(Error::Kem("unknown backend"))
    }
}

} // verus!
