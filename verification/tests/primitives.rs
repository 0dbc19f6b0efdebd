//! Published and independently computed vectors for the primitives the stack
//! is built on, and the error each refusal reports.

use codetalker_core::aead::{self, Suite};
use codetalker_core::identity::{self, Identity, SigSuite};
use codetalker_core::kdf;
use codetalker_core::kem::{self, Kem};
use codetalker_core::ratchet::Chain;
use codetalker_core::transcript::Transcript;
use codetalker_core::Error;

fn unhex(s: &str) -> Vec<u8> {
    (0..s.len()).step_by(2).map(|i| u8::from_str_radix(&s[i..i + 2], 16).unwrap()).collect()
}

#[test]
fn hkdf_matches_rfc5869_test_case_1() {
    let ikm = [0x0bu8; 22];
    let salt: Vec<u8> = (0u8..13).collect();
    let info: Vec<u8> = (0xf0u8..0xfa).collect();
    let mut okm = [0u8; 42];
    kdf::derive_with_salt(&salt, &ikm, &info, &mut okm).unwrap();
    assert_eq!(
        okm.to_vec(),
        unhex("3cb25f25faacd57a90434f64d0362f2a2d2d0a90cf1a5a4c5db02d56ecc4c5bf34007208d5b887185865")
    );
    assert_eq!(
        kdf::extract(&salt, &ikm).to_vec(),
        unhex("077709362c2e32df0ddc3f0dc47bba6390b6c73bb50f9c3122ec844ad7c2b3e5")
    );
}

#[test]
fn derive_uses_the_stack_salt() {
    let mut out = [0u8; 32];
    kdf::derive(b"ikm", b"info", &mut out).unwrap();
    assert_eq!(out.to_vec(), unhex("572a7eec2c5591c944fe0ed9e9020d974820797276c55162c286f1e3095d85ce"));
    assert_eq!(kdf::derive32(b"ikm", b"info"), out);
    assert_eq!(
        kdf::extract(b"salt", b"ikm").to_vec(),
        unhex("6c1a16bbfd2d010d2b2508af08a0cfb6a6f8445e71e209e4daabbe6d1bebf402")
    );
}

#[test]
fn derive_refuses_more_than_255_blocks_and_leaves_the_output_alone() {
    let mut out = vec![7u8; kdf::MAX_OKM + 1];
    assert_eq!(kdf::derive(b"ikm", b"info", &mut out), Err(Error::Kdf));
    assert!(out.iter().all(|b| *b == 7));
    let mut ok = vec![0u8; kdf::MAX_OKM];
    assert!(kdf::derive(b"ikm", b"info", &mut ok).is_ok());
}

#[test]
fn ratchet_keys_are_the_derivations_of_the_chain() {
    let mut chain = Chain::new([0x55; 32]);
    assert_eq!(
        chain.next().unwrap().to_vec(),
        unhex("0efe1f58b0892c3d08cbcd208425ec6a1c75dd3c90c39dfae0cc30517d6bee16")
    );
    assert_eq!(
        chain.next().unwrap().to_vec(),
        unhex("3ab72c93da136cc3b7ca7223fd19afd28cffa178ec17d6098b2875e731dd9dee")
    );
    assert_eq!(chain.position(), 2);
    let fresh = Chain::new([0x55; 32]);
    assert_eq!(
        fresh.static_key().unwrap().to_vec(),
        unhex("0efe1f58b0892c3d08cbcd208425ec6a1c75dd3c90c39dfae0cc30517d6bee16")
    );
}

#[test]
fn transcript_hashes_length_prefixed_fields() {
    let mut t = Transcript::new(b"x");
    t.absorb(b"a", b"bc");
    assert_eq!(t.hash().to_vec(), unhex("a423e256713462a9efe92dc59a493c3261f8bd3980373d9e161c6be113b7db68"));
    // Moving a byte across the field boundary changes the hash.
    let mut u = Transcript::new(b"x");
    u.absorb(b"ab", b"c");
    assert_ne!(t.hash(), u.hash());
}

#[test]
fn aes_256_gcm_matches_the_published_vectors() {
    let key = [0u8; 32];
    let nonce = [0u8; 12];
    assert_eq!(
        aead::seal(Suite::Aes256Gcm, &key, &nonce, b"", b"").unwrap(),
        unhex("530f8afbc74536b9a963b4f1c4cb738b")
    );
    let ct = aead::seal(Suite::Aes256Gcm, &key, &nonce, b"", &[0u8; 16]).unwrap();
    assert_eq!(ct, unhex("cea7403d4d606b6e074ec5d3baf39d18d0d1c8a799996bf0265b98b5d48ab919"));
    assert_eq!(aead::open(Suite::Aes256Gcm, &key, &nonce, b"", &ct).unwrap(), vec![0u8; 16]);
}

#[test]
fn chacha20_poly1305_matches_rfc8439() {
    let key: [u8; 32] = core::array::from_fn(|i| 0x80 + i as u8);
    let nonce: [u8; 12] = [7, 0, 0, 0, 0x40, 0x41, 0x42, 0x43, 0x44, 0x45, 0x46, 0x47];
    let aad = unhex("50515253c0c1c2c3c4c5c6c7");
    let pt: &[u8] = b"Ladies and Gentlemen of the class of '99: If I could offer you only one tip for the future, sunscreen would be it.";
    let ct = aead::seal(Suite::ChaCha20Poly1305, &key, &nonce, &aad, pt).unwrap();
    assert_eq!(
        ct,
        unhex(
            "d31a8d34648e60db7b86afbc53ef7ec2a4aded51296e08fea9e2b5a736ee62d63dbea45e8ca9671282fafb69da92728b1a71de0a9e060b2905d6a5b67ecd3b3692ddbd7f2d778b8c9803aee328091b58fab324e4fad675945585808b4831d7bc3ff4def08e4b7a9de576d26586cec64b61161ae10b594f09e26a7e902ecbd0600691"
        )
    );
    assert_eq!(aead::open(Suite::ChaCha20Poly1305, &key, &nonce, &aad, &ct).unwrap(), pt);
}

#[test]
fn aead_refuses_a_wrong_key_a_wrong_nonce_and_a_short_ciphertext() {
    for suite in [Suite::Aes256Gcm, Suite::ChaCha20Poly1305] {
        let ct = aead::seal(suite, &[1; 32], &[2; 12], b"aad", b"message").unwrap();
        assert_eq!(ct.len(), b"message".len() + aead::TAG_LEN);
        assert_eq!(aead::open(suite, &[9; 32], &[2; 12], b"aad", &ct), Err(Error::Aead));
        assert_eq!(aead::open(suite, &[1; 32], &[3; 12], b"aad", &ct), Err(Error::Aead));
        assert_eq!(aead::open(suite, &[1; 32], &[2; 12], b"aad", &ct[..10]), Err(Error::Aead));
    }
}

#[test]
fn suite_names_and_console_choices() {
    assert_eq!(Suite::Aes256Gcm.name(), "AES-256-GCM");
    assert_eq!(Suite::ChaCha20Poly1305.name(), "ChaCha20-Poly1305");
    assert_eq!(aead::suite_named("chacha"), Suite::ChaCha20Poly1305);
    assert_eq!(aead::suite_named("aes"), Suite::Aes256Gcm);
    assert_eq!(aead::suite_named(""), Suite::Aes256Gcm);
}

#[test]
fn a_signature_verifies_under_its_own_key_and_nothing_else() {
    let id = Identity::generate();
    let pk = id.public();
    let sig = id.sign(b"orders");
    assert_eq!(pk.len(), 32);
    assert_eq!(sig.len(), 64);
    assert_eq!(identity::verify(&pk, b"orders", &sig), Ok(()));
    assert_eq!(identity::verify(&pk, b"Orders", &sig), Err(Error::Auth("signature rejected")));
    assert_eq!(identity::verify(&pk[..31], b"orders", &sig), Err(Error::Auth("bad identity key length")));
    assert_eq!(identity::verify(&pk, b"orders", &sig[..63]), Err(Error::Auth("bad signature length")));
    // y = 2 is not the y-coordinate of any point on the curve.
    let mut off_curve = vec![0u8; 32];
    off_curve[0] = 2;
    assert_eq!(identity::verify(&off_curve, b"orders", &sig), Err(Error::Auth("malformed identity key")));
    let other = Identity::generate();
    assert_eq!(identity::verify(&other.public(), b"orders", &sig), Err(Error::Auth("signature rejected")));
    assert_eq!(id.suite(), SigSuite::Ed25519);
    assert_eq!(SigSuite::Ed25519.name(), "Ed25519");
    assert!(!SigSuite::Ed25519.is_pq());
}

#[test]
fn kem_round_trip_and_refusals() {
    let k = kem::backend("x25519").unwrap();
    let (sk, pk) = k.keygen().unwrap();
    let (ss, ct) = k.encapsulate(&pk).unwrap();
    let back = k.decapsulate(&sk, &ct).unwrap();
    assert_eq!(ss.as_bytes(), back.as_bytes());
    assert_eq!(pk.as_bytes().len(), 32);
    // The public key is the secret times the base point, not the base point.
    let mut base = vec![0u8; 32];
    base[0] = 9;
    assert_ne!(pk.as_bytes(), &base[..]);
    assert_ne!(ct.as_bytes(), &base[..]);
    assert_eq!(ct.as_bytes().len(), 32);
    let short = kem::PublicKey(vec![1; 31]);
    assert_eq!(k.encapsulate(&short).err(), Some(Error::Kem("bad public key length")));
    let zero = kem::PublicKey(vec![0; 32]);
    assert_eq!(
        k.encapsulate(&zero).err(),
        Some(Error::Kem("non-contributory shared secret (low-order point)"))
    );
    let bad_ct = kem::Ciphertext(vec![1; 3]);
    assert_eq!(k.decapsulate(&sk, &bad_ct).err(), Some(Error::Kem("bad ciphertext length")));

    let st = kem::backend("static").unwrap();
    let (ssk, spk) = st.keygen().unwrap();
    let (s1, c1) = st.encapsulate(&spk).unwrap();
    assert_eq!(st.decapsulate(&ssk, &c1).unwrap().as_bytes(), s1.as_bytes());
    assert_eq!(st.name(), "static (captured codebook)");
}

#[test]
fn backend_names_and_availability() {
    assert_eq!(kem::backend("nonsense").err(), Some(Error::Kem("unknown backend")));
    assert_eq!(kem::available_backends(), vec!["static", "x25519"]);
    assert_eq!(kem::backend("x25519").unwrap().name(), "DHKEM(X25519)");
}

#[test]
fn every_error_reads_as_a_sentence() {
    assert_eq!(Error::Kem("x").message(), "kem failure: x");
    assert_eq!(Error::Kdf.message(), "kdf failure");
    assert_eq!(Error::Auth("y").message(), "authentication failure: y");
    assert_eq!(Error::Aead.message(), "aead failure (bad tag, bad key, or bad nonce)");
    assert_eq!(Error::Transport("bad framing").message(), "transport failure: bad framing");
    assert_eq!(
        Error::BackendUnavailable("xwing (feature `pq`)").message(),
        "backend not compiled in: xwing (feature `pq`) (enable the matching cargo feature)"
    );
}

#[test]
fn ed25519_matches_rfc8032_test_1() {
    let mut seed = [0u8; 32];
    seed.copy_from_slice(&unhex("9d61b19deffd5a60ba844af492ec2cc44449c5697b326919703bac031cae7f60"));
    let id = Identity::from_ed25519_seed(seed);
    assert_eq!(id.public(), unhex("d75a980182b10ab7d54bfed3c964073a0ee172f3daa62325af021a68f707511a"));
    let sig = id.sign(b"");
    assert_eq!(
        sig,
        unhex(
            "e5564300c360ac729086e2cc806e828a84877f1eb8e5d974d873e065224901555fb8821590a33bacc61e39701cf9b46bd25bf5f0595bbe24655141438e7a100b"
        )
    );
    assert_eq!(identity::verify(&id.public(), b"", &sig), Ok(()));
}

#[test]
fn signature_suites_by_name_and_availability() {
    assert_eq!(SigSuite::from_name("Ed25519"), Ok(SigSuite::Ed25519));
    assert_eq!(SigSuite::from_name("ML-DSA-65"), Ok(SigSuite::MlDsa65));
    assert_eq!(SigSuite::from_name("RSA"), Err(Error::Auth("unknown signature suite")));
    assert_eq!(SigSuite::MlDsa65.name(), "ML-DSA-65");
    assert!(SigSuite::MlDsa65.is_pq());
    assert!(!SigSuite::MlDsa65.is_available());
    assert!(SigSuite::Ed25519.is_available());
    assert!(Identity::generate_with(SigSuite::Ed25519).is_ok());
    assert_eq!(
        Identity::generate_with(SigSuite::MlDsa65).err(),
        Some(Error::BackendUnavailable("ml-dsa-65 (feature `pq`)"))
    );
    let id = Identity::from_ed25519_seed([7u8; 32]);
    let sig = id.sign(b"transcript hash stand-in");
    assert_eq!(
        sig,
        unhex(
            "33ff05f21de3ae988e5323fecbc3c5825d0be6727f9e532290f9833f56ff62785b8a1a1ba4262b0357c0913ef8f17e8491f153a65ff9ae5ca23daf097322c10c"
        )
    );
    assert_eq!(identity::verify_with(SigSuite::Ed25519, &id.public(), b"transcript hash stand-in", &sig), Ok(()));
    assert_eq!(
        identity::verify_with(SigSuite::MlDsa65, &id.public(), b"transcript hash stand-in", &sig),
        Err(Error::BackendUnavailable("ml-dsa-65 (feature `pq`)"))
    );
}

#[test]
fn an_all_zero_exchange_output_is_refused_and_any_other_is_kept() {
    assert_eq!(
        kem::encapsulation_from([0u8; 32], [9u8; 32]).err(),
        Some(Error::Kem("non-contributory shared secret (low-order point)"))
    );
    let (ss, ct) = kem::encapsulation_from([5u8; 32], [9u8; 32]).unwrap();
    assert_eq!(ss.as_bytes(), &[5u8; 32][..]);
    assert_eq!(ct.as_bytes(), &[9u8; 32][..]);
}

#[test]
fn chacha_refuses_to_start_a_message_its_keystream_cannot_finish() {
    let last_whole = 64 * (u32::MAX as usize - 1);
    assert!(!aead::keystream_overruns(Suite::ChaCha20Poly1305, last_whole));
    assert!(aead::keystream_overruns(Suite::ChaCha20Poly1305, last_whole + 1));
    assert!(aead::keystream_overruns(Suite::ChaCha20Poly1305, last_whole + 63));
    assert!(!aead::keystream_overruns(Suite::ChaCha20Poly1305, last_whole + 64));
    assert!(!aead::keystream_overruns(Suite::Aes256Gcm, last_whole + 1));
    assert!(!aead::keystream_overruns(Suite::ChaCha20Poly1305, 100));
}

#[test]
fn an_honest_x25519_key_always_encapsulates() {
    let k = kem::backend("x25519").unwrap();
    for _ in 0..16 {
        let (_, pk) = k.keygen().unwrap();
        assert!(k.encapsulate(&pk).is_ok());
    }
}
