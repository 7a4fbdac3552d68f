use core_bridge::accounts::{GuardianSet, PostedMessageV1, Sequence};
use core_bridge::codec::{core_bridge_id, AccountVariant, LegacyAccount, LegacyAnchorized};
use core_bridge::errors::BridgeError;

fn guardian_set_example() -> GuardianSet {
    let mut keys = Vec::new();
    for g in 0..3u8 {
        for b in 0..20u8 {
            keys.push(g * 20 + b);
        }
    }
    GuardianSet { index: 7, keys, expiration_time: 99 }
}

fn posted_example() -> PostedMessageV1 {
    PostedMessageV1 {
        submission_time: 1_700_000_000,
        nonce: 42,
        emitter_chain: 2,
        emitter_address: vec![0xEE; 32],
        sequence: 12345,
        consistency_level: 1,
        payload: vec![1, 2, 3, 4, 5],
    }
}

#[test]
fn sequence_round_trip_legacy() {
    let v = AccountVariant::Legacy(Sequence(123456789));
    let bytes = v.try_serialize().unwrap();
    assert_eq!(bytes.len(), 8);
    let back = AccountVariant::<Sequence>::try_deserialize_unchecked(&bytes).unwrap();
    assert!(matches!(back, AccountVariant::Legacy(Sequence(123456789))));
}

#[test]
fn sequence_round_trip_anchor() {
    let v = AccountVariant::Anchor(Sequence(u64::MAX - 1));
    let bytes = v.try_serialize().unwrap();
    assert_eq!(bytes.len(), 16);
    let back = AccountVariant::<Sequence>::try_deserialize_unchecked(&bytes).unwrap();
    assert!(matches!(back, AccountVariant::Anchor(Sequence(v)) if v == u64::MAX - 1));
}

#[test]
fn guardian_set_round_trip_both() {
    let set = guardian_set_example();
    for anchor in [false, true] {
        let v = if anchor {
            AccountVariant::Anchor(set.clone())
        } else {
            AccountVariant::Legacy(set.clone())
        };
        let bytes = v.try_serialize().unwrap();
        let back = AccountVariant::<GuardianSet>::try_deserialize_unchecked(&bytes).unwrap();
        assert_eq!(matches!(back, AccountVariant::Anchor(_)), anchor);
        let inner = back.inner();
        assert_eq!(inner.index, 7);
        assert_eq!(inner.keys, set.keys);
        assert_eq!(inner.expiration_time, 99);
    }
}

#[test]
fn posted_message_round_trip_both() {
    let rec = posted_example();
    for anchor in [false, true] {
        let v = if anchor {
            AccountVariant::Anchor(rec.clone())
        } else {
            AccountVariant::Legacy(rec.clone())
        };
        let bytes = v.try_serialize().unwrap();
        let back = AccountVariant::<PostedMessageV1>::try_deserialize_unchecked(&bytes).unwrap();
        assert_eq!(matches!(back, AccountVariant::Anchor(_)), anchor);
        let inner = back.inner();
        assert_eq!(inner.submission_time, rec.submission_time);
        assert_eq!(inner.nonce, rec.nonce);
        assert_eq!(inner.emitter_chain, rec.emitter_chain);
        assert_eq!(inner.emitter_address, rec.emitter_address);
        assert_eq!(inner.sequence, rec.sequence);
        assert_eq!(inner.consistency_level, rec.consistency_level);
        assert_eq!(inner.payload, rec.payload);
    }
}

#[test]
fn tag_precedence_modern_never_legacy() {
    // A buffer that is exactly the modern discriminator of Sequence: the
    // legacy reading (a bare 8-byte counter) would succeed, but the modern
    // tag must win, and the modern reading has no field bytes left.
    let disc = Sequence::modern_discriminator();
    assert_eq!(disc.len(), 8);
    let r = AccountVariant::<Sequence>::try_deserialize_unchecked(&disc);
    assert_eq!(r.unwrap_err(), BridgeError::AccountDidNotDeserialize);

    // With 8 more bytes appended, it decodes as Anchor, never Legacy.
    let mut bytes = disc.clone();
    bytes.extend_from_slice(&5u64.to_le_bytes());
    let back = AccountVariant::<Sequence>::try_deserialize_unchecked(&bytes).unwrap();
    assert!(matches!(back, AccountVariant::Anchor(Sequence(5))));
}

#[test]
fn decode_rejects_truncation_and_garbage() {
    let set = guardian_set_example();
    let v = AccountVariant::Legacy(set);
    let mut bytes = v.try_serialize().unwrap();
    // Trailing garbage.
    bytes.push(0);
    let r = AccountVariant::<GuardianSet>::try_deserialize_unchecked(&bytes);
    assert_eq!(r.unwrap_err(), BridgeError::AccountDidNotDeserialize);
    // Truncation.
    bytes.pop();
    bytes.pop();
    let r = AccountVariant::<GuardianSet>::try_deserialize_unchecked(&bytes);
    assert_eq!(r.unwrap_err(), BridgeError::AccountDidNotDeserialize);
    // Too short for any layout.
    let r = AccountVariant::<GuardianSet>::try_deserialize_unchecked(&vec![1, 2, 3]);
    assert_eq!(r.unwrap_err(), BridgeError::AccountDidNotDeserialize);
}

#[test]
fn sequence_forbidden_value_never_misread() {
    // The one counter value whose bare bytes equal the modern discriminator
    // cannot be decoded out of a legacy buffer: the modern tag wins.
    let bad = Sequence::forbidden_value();
    let bytes = bad.to_le_bytes().to_vec();
    assert_eq!(bytes, Sequence::modern_discriminator());
    let r = AccountVariant::<Sequence>::try_deserialize_unchecked(&bytes);
    assert_eq!(r.unwrap_err(), BridgeError::AccountDidNotDeserialize);
}

#[test]
fn legacy_anchorized_round_trip() {
    let rec = posted_example();
    let wrapped = LegacyAnchorized::from(rec);
    let bytes = wrapped.try_serialize().unwrap();
    // Legacy posted messages begin with the historical 4-byte discriminator.
    assert_eq!(&bytes[..4], &[118, 97, 97, 1]);
    let back = LegacyAnchorized::<PostedMessageV1>::try_deserialize(&bytes).unwrap();
    assert_eq!(back.as_ref().sequence, 12345);
    assert_eq!(back.as_ref().payload, vec![1, 2, 3, 4, 5]);
    // A wrong discriminator is rejected.
    let mut broken = bytes.clone();
    broken[0] = 0;
    let r = LegacyAnchorized::<PostedMessageV1>::try_deserialize(&broken);
    assert_eq!(r.unwrap_err(), BridgeError::AccountDidNotDeserialize);
}

#[test]
fn owner_is_core_bridge() {
    assert_eq!(LegacyAnchorized::<Sequence>::owner(), core_bridge_id());
    assert_eq!(GuardianSet::program_id(), core_bridge_id());
    assert_eq!(core_bridge_id().len(), 32);
}

#[test]
fn sequence_get_reads_balance() {
    let s = Sequence::get(77).unwrap();
    assert_eq!(s.value(), 77);
}
