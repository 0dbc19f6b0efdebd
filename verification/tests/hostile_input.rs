//! The two parsers that read attacker-chosen bytes, fed near-valid input:
//! the framing parser, and the signature verifier behind every hello.

use codetalker_core::identity::{self, Identity};
use codetalker_core::transport;

/// Overwrite a window of `base` with `patch`, starting at `offset` (taken
/// modulo the length). The length is preserved, so the verifier runs its
/// arithmetic instead of stopping at a length check.
fn splice(base: &[u8], patch: &[u8], offset: usize) -> Vec<u8> {
    let mut out = base.to_vec();
    if out.is_empty() || patch.is_empty() {
        return out;
    }
    let start = offset % out.len();
    for (i, b) in patch.iter().enumerate() {
        if start + i >= out.len() {
            break;
        }
        out[start + i] = *b;
    }
    out
}

#[test]
fn splice_keeps_the_length_and_wraps_the_offset() {
    assert_eq!(splice(&[1, 2, 3, 4], &[9, 9], 3), vec![1, 2, 3, 9]);
    assert_eq!(splice(&[1, 2, 3, 4], &[8], 5), vec![1, 8, 3, 4]);
    assert_eq!(splice(&[], &[8], 5), Vec::<u8>::new());
    assert_eq!(splice(&[1], &[], 0), vec![1]);
}

#[test]
fn the_verifier_rejects_every_tampered_triple_and_accepts_the_genuine_one() {
    // Deterministic, so a failure here reproduces from the seed alone.
    let id = Identity::from_ed25519_seed([7u8; 32]);
    let public = id.public();
    let msg = b"transcript hash stand-in".to_vec();
    let sig = id.sign(&msg);
    assert!(identity::verify(&public, &msg, &sig).is_ok());

    let patches: [&[u8]; 4] = [&[0x00], &[0xFF, 0x01], &[0x5A; 7], &[0x80]];
    for which in 0..3 {
        for patch in patches {
            for offset in [0usize, 1, 13, 31, 40, 63, 200] {
                let (p, m, s) = match which {
                    0 => (splice(&public, patch, offset), msg.clone(), sig.clone()),
                    1 => (public.clone(), splice(&msg, patch, offset), sig.clone()),
                    _ => (public.clone(), msg.clone(), splice(&sig, patch, offset)),
                };
                let tampered = p != public || m != msg || s != sig;
                let got = identity::verify(&p, &m, &s);
                if tampered {
                    assert!(got.is_err(), "accepted a tampered triple ({which}, {offset})");
                } else {
                    assert!(got.is_ok());
                }
            }
        }
    }
}

#[test]
fn the_verifier_refuses_arbitrary_slices() {
    let junk: Vec<u8> = (0u8..=200).collect();
    for (a, b) in [(0usize, 0usize), (32, 64), (31, 64), (32, 63), (32, 100), (100, 32)] {
        let (public, rest) = junk.split_at(a.min(junk.len()));
        let (sig, msg) = rest.split_at(b.min(rest.len()));
        assert!(identity::verify(public, msg, sig).is_err());
    }
}

#[test]
fn a_successful_parse_never_returns_more_than_it_was_given() {
    let mut inputs: Vec<Vec<u8>> = vec![vec![], vec![0xAA; 8], vec![0xAA; 9]];
    for n in 0u32..40 {
        let mut w = vec![0xAAu8; 4];
        w.extend_from_slice(&n.to_be_bytes());
        w.extend((0..(n as usize + 3) / 2).map(|i| i as u8));
        inputs.push(w);
    }
    for data in inputs {
        if let Ok(out) = transport::deobfuscate(&data) {
            assert!(out.len() <= data.len());
        }
    }
}
