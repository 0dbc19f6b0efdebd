//! The guided lab and the captions, run through the real channel: every
//! declared outcome is the one the channel produces.

use codetalker_core::aead::Suite;
use codetalker_core::explain::{fields, glossary, panels, sequence};
use codetalker_core::kem::{self, Backend};
use codetalker_core::lab::{challenges, evaluate, outcomes, scenarios, steps, Requirement, Setup, SWITCHES};
use codetalker_core::session::{self, Layers};
use codetalker_core::wire;

const P1: &[u8] = b"Request immediate air support at grid 214 by 0600.";
const P2: &[u8] = b"Enemy armour massing north of the ridge line tonight.";

fn x25519() -> Backend {
    kem::backend("x25519").unwrap()
}

fn verdict(s: &Setup) -> &'static str {
    let k = match s.kem {
        Some(name) => kem::backend(name).unwrap(),
        None => x25519(),
    };
    let ex = session::exchange(&k, s.layers, Suite::Aes256Gcm, s.adversary_knows_transport, P1, P2).unwrap();
    ex.recovery.tag()
}

#[test]
fn every_scenario_produces_the_outcome_it_declares() {
    for s in scenarios() {
        assert_eq!(verdict(&s.setup), s.expect, "scenario {}", s.id);
    }
}

#[test]
fn every_step_produces_both_outcomes_it_declares() {
    for s in steps() {
        assert_eq!(verdict(&s.before), s.expect_before, "step {} before", s.id);
        assert_eq!(verdict(&s.after), s.expect_after, "step {} after", s.id);
    }
}

#[test]
fn every_step_names_exactly_the_switches_it_moves() {
    for s in steps() {
        assert_eq!(s.before.diff(&s.after), s.moves.to_vec(), "step {}", s.id);
        for m in s.moves {
            assert!(SWITCHES.contains(m), "{} is not a console switch", m);
        }
    }
}

#[test]
fn every_offered_outcome_is_the_answer_to_some_step() {
    let st = steps();
    for o in outcomes() {
        assert!(st.iter().any(|s| s.expect_after == o.tag), "{} is never right", o.tag);
    }
}

#[test]
fn diff_of_a_setup_with_itself_is_empty_and_lists_in_rail_order() {
    let s = scenarios()[0].setup;
    assert!(s.diff(&s).is_empty());
    let mut t = s;
    t.adversary_knows_transport = true;
    t.layers.key_agreement = false;
    t.layers.ratchet = false;
    assert_eq!(s.diff(&t), vec!["keyAgreement", "ratchet", "adversaryKnowsTransport"]);
}

#[test]
fn every_challenge_solution_meets_every_requirement() {
    for ch in challenges() {
        let k = match ch.needs_backend {
            Some(name) => kem::backend(name).unwrap(),
            None => x25519(),
        };
        let flags = evaluate(&ch, &k, ch.solution, Suite::Aes256Gcm, P1, P2).unwrap();
        assert_eq!(flags.len(), ch.requirements.len());
        assert!(flags.iter().all(|f| *f), "challenge {}: {:?}", ch.id, flags);
    }
}

#[test]
fn the_full_stack_is_scored_condition_by_condition() {
    let ch = challenges()[0];
    let full = scenarios()[0].setup;
    let flags = evaluate(&ch, &x25519(), full, Suite::Aes256Gcm, P1, P2).unwrap();
    // Both adversaries fail and the KEM is classical, but the ratchet is on.
    assert_eq!(flags, vec![true, true, true, false]);
}

#[test]
fn an_unneeded_switch_is_not_minimal() {
    let ch = challenges()[1];
    let mut s = ch.solution;
    // Authentication does nothing against the pad, so leaving it on is not
    // the smallest configuration; the verdict stays the pad.
    s.layers.authenticate = true;
    let flags = evaluate(&ch, &x25519(), s, Suite::Aes256Gcm, P1, P2).unwrap();
    assert_eq!(flags, vec![true, false]);
}

#[test]
fn the_post_quantum_condition_is_judged_by_the_kem_in_force() {
    let ch = challenges()[0];
    let mut s = ch.solution;
    s.layers.key_agreement = false;
    let flags = evaluate(&ch, &x25519(), s, Suite::Aes256Gcm, P1, P2).unwrap();
    // With key agreement off nothing holds against either adversary, and the
    // static KEM in force is still not post-quantum.
    assert_eq!(flags, vec![false, false, true, true]);
}

#[test]
fn requirement_labels_are_the_checklist_lines() {
    let ch = challenges()[0];
    assert_eq!(ch.requirements[0].label(), "A passive observer recovers nothing");
    assert!(matches!(ch.requirements[3], Requirement::Switch { id: "ratchet", on: false, .. }));
}

#[test]
fn every_panel_demo_produces_the_verdict_it_declares() {
    for (i, p) in panels().iter().enumerate() {
        assert_eq!(p.id, SWITCHES[i]);
        assert_eq!(verdict(&p.demo), p.demo_verdict, "panel {}", p.id);
    }
}

#[test]
fn the_transport_panel_changes_nothing_an_adversary_notices() {
    let p = panels()[2];
    assert_eq!(p.id, "transport");
    assert!(!p.demo.layers.transport && !p.demo.adversary_knows_transport);
    assert_eq!(p.demo_verdict, "MetadataOnly");
}

#[test]
fn the_glossary_defines_each_term_once() {
    let g = glossary();
    for (i, a) in g.iter().enumerate() {
        assert!(!a.definition.is_empty());
        for b in &g[i + 1..] {
            assert_ne!(a.term, b.term);
        }
    }
    assert_eq!(g[0].term, "KEM");
}

#[test]
fn the_legend_covers_every_label_the_hexdump_uses() {
    let kinds: Vec<&str> = fields().iter().map(|f| f.kind).collect();
    let k = x25519();
    for layers in [
        Layers::default(),
        Layers { aead: false, ..Layers::default() },
        Layers { transport: false, ..Layers::default() },
        Layers { transport: false, aead: false, key_agreement: false, ..Layers::default() },
    ] {
        let (mut a, _) = session::establish(&k, layers, Suite::Aes256Gcm).unwrap();
        let f = a.send(layers, P1).unwrap();
        let spans = wire::segments(&f.wire, layers).unwrap();
        assert_eq!(spans[0].start, 0);
        assert_eq!(spans[spans.len() - 1].end, f.wire.len());
        for w in spans.windows(2) {
            assert_eq!(w[0].end, w[1].start);
        }
        for s in &spans {
            assert!(kinds.contains(&s.kind), "{} has no legend entry", s.kind);
        }
    }
}

#[test]
fn the_handshake_drawing_names_the_attacker_when_nobody_is_pinned() {
    let pinned = sequence(true);
    let open = sequence(false);
    assert_eq!(pinned[0].from, "Responder");
    assert_eq!(open[0].from, "Attacker");
    assert_eq!(open[2].to, "Attacker");
    assert_eq!(pinned[3].message, open[3].message);
    assert_eq!(pinned[1].message, "verify sig against the pinned id_pk");
}
