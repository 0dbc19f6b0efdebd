//! The transport parser and the AEAD round trip over swept inputs:
//! `deobfuscate` reads a length out of untrusted bytes and slices on it, which
//! is exactly the shape of bug that ships.

use codetalker_core::session::{self, Layers, Recovery};
use codetalker_core::{aead, kem, transport, wire, Error};

fn samples() -> Vec<Vec<u8>> {
    let mut out = vec![Vec::new(), vec![0], vec![0xAA; 4], vec![0xAA; 8], (0u8..=255).collect()];
    for n in [1usize, 7, 63, 64, 65, 127, 128, 300] {
        out.push((0..n).map(|i| (i * 31 + 7) as u8).collect());
    }
    out
}

#[test]
fn obfuscate_roundtrips() {
    for data in samples() {
        for block in [1usize, 2, 16, 64, 255] {
            let wire = transport::obfuscate(&data, block);
            assert_eq!(transport::deobfuscate(&wire).unwrap(), data);
        }
    }
}

#[test]
fn obfuscation_never_truncates_and_fills_whole_blocks() {
    for data in samples() {
        for block in [1usize, 2, 16, 64, 255] {
            let wire = transport::obfuscate(&data, block);
            assert!(wire.len() >= data.len());
            assert_eq!((wire.len() - 8) % block, 0);
            assert!(wire.len() - 8 - data.len() < block);
        }
    }
    // A zero block means no padding at all.
    assert_eq!(transport::obfuscate(b"abc", 0).len(), 11);
}

#[test]
fn deobfuscate_never_panics() {
    for junk in samples() {
        let _ = transport::deobfuscate(&junk);
    }
}

#[test]
fn deobfuscate_survives_hostile_length() {
    for len in [0u32, 1, 5, 6, 7, 1 << 16, u32::MAX] {
        for body in samples() {
            let mut wire = vec![0xAAu8; 4];
            wire.extend_from_slice(&len.to_be_bytes());
            wire.extend_from_slice(&body);
            let r = transport::deobfuscate(&wire);
            if (len as usize) <= body.len() {
                assert_eq!(r.unwrap(), body[..len as usize].to_vec());
            } else {
                assert_eq!(r, Err(Error::Transport("truncated")));
            }
        }
    }
    assert_eq!(transport::deobfuscate(&[0xAB; 8]), Err(Error::Transport("bad framing")));
    assert_eq!(transport::deobfuscate(&[0xAA; 7]), Err(Error::Transport("bad framing")));
}

#[test]
fn observe_reports_size_and_block() {
    let wire = transport::obfuscate(b"nineteen characters", 64);
    let seen = transport::observe(&wire, 64);
    assert_eq!(seen.wire_len, 72);
    assert_eq!(seen.padded_to, 64);
}

#[test]
fn aead_roundtrips() {
    for pt in samples() {
        for aad in [Vec::new(), b"context".to_vec()] {
            for suite in [aead::Suite::Aes256Gcm, aead::Suite::ChaCha20Poly1305] {
                let key = [pt.len() as u8; 32];
                let nonce = [3u8; 12];
                let ct = aead::seal(suite, &key, &nonce, &aad, &pt).unwrap();
                assert_eq!(aead::open(suite, &key, &nonce, &aad, &ct).unwrap(), pt.clone());
            }
        }
    }
}

#[test]
fn aead_binds_aad() {
    let key = [5u8; 32];
    let nonce = [6u8; 12];
    let aad = b"transcript hash".to_vec();
    for pt in samples() {
        let ct = aead::seal(aead::Suite::Aes256Gcm, &key, &nonce, &aad, &pt).unwrap();
        for i in 0..aad.len() {
            let mut bad = aad.clone();
            bad[i] ^= 0x01;
            assert!(aead::open(aead::Suite::Aes256Gcm, &key, &nonce, &bad, &ct).is_err());
        }
    }
}

#[test]
fn hexdump_spans_for_a_hand_built_frame() {
    let body = vec![1u8; 20];
    let w = transport::obfuscate(&body, 64);
    let l = Layers::default();
    let spans = wire::segments(&w, l).unwrap();
    let shape: Vec<(&str, usize, usize)> = spans.iter().map(|s| (s.kind, s.start, s.end)).collect();
    assert_eq!(
        shape,
        vec![("framing", 0, 4), ("length", 4, 8), ("ciphertext", 8, 12), ("tag", 12, 28), ("padding", 28, 72)]
    );
    assert_eq!(wire::ciphertext(&w, l), vec![1u8; 4]);

    let plain = Layers { transport: false, aead: false, ..Layers::default() };
    let spans = wire::segments(b"hello", plain).unwrap();
    assert_eq!(spans.len(), 1);
    assert_eq!((spans[0].kind, spans[0].start, spans[0].end), ("plaintext", 0, 5));
    assert_eq!(wire::ciphertext(b"hello", plain), b"hello".to_vec());

    // A header that announces more than the wire holds, or a body with no
    // room for a tag, cannot be split.
    let mut lying = w.clone();
    lying[7] = 0xFF;
    assert!(wire::segments(&lying, l).is_none());
    assert!(wire::segments(&transport::obfuscate(&[1u8; 5], 64), l).is_none());
    assert!(wire::segments(&[0xAA; 3], l).is_none());
    // Without a frame that parses there is no ciphertext to show.
    assert!(wire::ciphertext(&lying, l).is_empty());
}

#[test]
fn recovery_captions_and_the_text_they_expose() {
    let p = Recovery::Plaintext(b"read".to_vec());
    assert_eq!(p.tag(), "Plaintext");
    assert_eq!(p.headline(), "Plaintext recovered.");
    assert!(p.detail().starts_with("The layer that failed"));
    assert_eq!(p.recovered(), Some(&b"read"[..]));
    assert!(p.is_broken());
    let m = Recovery::MachineInTheMiddle(b"also".to_vec());
    assert_eq!(m.recovered(), Some(&b"also"[..]));
    assert_eq!(m.headline(), "An attacker completed the handshake as the peer.");
    let k = Recovery::KeystreamReuse(vec![1, 2]);
    assert_eq!(k.recovered(), None);
    assert_eq!(k.headline(), "Nonce and key both repeated.");
    assert_eq!(Recovery::MetadataOnly.recovered(), None);
    assert!(!Recovery::MetadataOnly.is_broken());
    assert_eq!(Recovery::MetadataOnly.headline(), "Length and timing only.");
}

#[test]
fn an_exchange_reports_delivery_and_what_the_frames_share() {
    let k = kem::backend("x25519").unwrap();
    let l = Layers::default();
    let ex = session::exchange(&k, l, aead::Suite::ChaCha20Poly1305, true, b"first", b"second").unwrap();
    assert!(ex.delivered(b"first"));
    assert!(!ex.delivered(b"second"));
    assert!(ex.keys_differ());
    assert!(ex.nonces_differ());
    assert_eq!(ex.recovery, Recovery::MetadataOnly);

    let fault = Layers { nonce_reuse: true, ratchet: false, ..l };
    let ex = session::exchange(&k, fault, aead::Suite::Aes256Gcm, true, b"first", b"second").unwrap();
    assert!(!ex.keys_differ());
    assert!(!ex.nonces_differ());
    assert_eq!(ex.recovery.tag(), "KeystreamReuse");

    let open = Layers { authenticate: false, ..l };
    let ex = session::exchange(&k, open, aead::Suite::Aes256Gcm, false, b"first", b"second").unwrap();
    assert!(!ex.delivered(b"first"));
    assert_eq!(ex.recovery, Recovery::MachineInTheMiddle(b"first".to_vec()));
}

#[test]
fn a_two_time_pad_reaches_as_far_as_the_shortest_input() {
    let ct1 = [0x10u8, 0x20, 0x30, 0x40];
    let ct2 = [0x11u8, 0x22, 0x33];
    let crib = [0x01u8, 0x02, 0x03, 0x04, 0x05];
    assert_eq!(session::two_time_pad(&ct1, &ct2, &crib), vec![0x00, 0x00, 0x00]);
    assert!(session::two_time_pad(&ct1, &ct2, &[]).is_empty());
}

#[test]
fn frames_come_back_in_order_and_a_receiver_keeps_in_step() {
    let k = kem::backend("x25519").unwrap();
    for ratchet in [true, false] {
        let l = Layers { ratchet, ..Layers::default() };
        let ex = session::exchange(&k, l, aead::Suite::Aes256Gcm, true, b"first", b"second").unwrap();
        assert_eq!(ex.frames[0].counter, if ratchet { 1 } else { 0 });
        assert_eq!(ex.frames[1].counter, if ratchet { 2 } else { 0 });
        assert_eq!(ex.keys_differ(), ratchet);
        assert!(wire::segments(&ex.frames[0].wire, l).is_some());

        let (mut a, mut b) = session::establish(&k, l, aead::Suite::Aes256Gcm).unwrap();
        for m in [&b"one"[..], b"two", b"three", b""] {
            let f = a.send(l, m).unwrap();
            assert_eq!(b.recv(l, &f).unwrap(), m.to_vec());
        }
    }
}
