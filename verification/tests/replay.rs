use core_bridge::errors::BridgeError;
use core_bridge::store::{claim_key, posted_key, sequence_key, ReplayGuard};

#[test]
fn second_claim_of_same_triple_fails() {
    let mut guard = ReplayGuard::new();
    let emitter = vec![7u8; 32];
    guard.claim(&emitter, 2, 99).unwrap();
    let r = guard.claim(&emitter, 2, 99);
    assert_eq!(r.unwrap_err(), BridgeError::MessageAlreadyClaimed);
}

#[test]
fn differing_triples_claim_independently() {
    let mut guard = ReplayGuard::new();
    let emitter = vec![7u8; 32];
    let other = vec![8u8; 32];
    guard.claim(&emitter, 2, 99).unwrap();
    // Any one differing field makes a different claim.
    guard.claim(&other, 2, 99).unwrap();
    guard.claim(&emitter, 3, 99).unwrap();
    guard.claim(&emitter, 2, 100).unwrap();
    // Each of those is itself consumed now.
    assert_eq!(guard.claim(&other, 2, 99).unwrap_err(), BridgeError::MessageAlreadyClaimed);
    assert_eq!(guard.claim(&emitter, 3, 99).unwrap_err(), BridgeError::MessageAlreadyClaimed);
    assert_eq!(guard.claim(&emitter, 2, 100).unwrap_err(), BridgeError::MessageAlreadyClaimed);
}

#[test]
fn claim_keys_separate_fields() {
    let e1 = vec![1u8; 32];
    let e2 = vec![2u8; 32];
    assert_ne!(claim_key(&e1, 5, 10), claim_key(&e2, 5, 10));
    assert_ne!(claim_key(&e1, 5, 10), claim_key(&e1, 6, 10));
    assert_ne!(claim_key(&e1, 5, 10), claim_key(&e1, 5, 11));
    assert_eq!(claim_key(&e1, 5, 10), claim_key(&e1, 5, 10));
    assert_eq!(claim_key(&e1, 5, 10).len(), 43);
}

#[test]
fn derived_keys_never_collide_across_kinds() {
    let e = vec![1u8; 32];
    let d = vec![1u8; 32];
    // A sequence key, a claim key and a posted key carry distinct domain
    // tags, so no two kinds ever share a storage key.
    assert_ne!(sequence_key(&e)[0], claim_key(&e, 0, 0)[0]);
    assert_ne!(sequence_key(&e)[0], posted_key(&d)[0]);
    assert_ne!(claim_key(&e, 0, 0)[0], posted_key(&d)[0]);
    assert_eq!(sequence_key(&e).len(), 33);
    assert_eq!(posted_key(&d).len(), 33);
}
