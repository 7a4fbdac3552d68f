use core_bridge::crypto::{keccak256, recover_guardian, secp256k1_recover_pubkey};
use core_bridge::errors::BridgeError;
use core_bridge::message::{EncodedMessage, MessageStatus};
use core_bridge::registry::GuardianSetRegistry;
use core_bridge::store::PostedMessageStore;
use core_bridge::vaa::Attestation;

const TIMESTAMP: u32 = 1_700_000_123;
const NONCE: u32 = 7;
const EMITTER_CHAIN: u16 = 2;
const SEQUENCE: u64 = 424242;
const CONSISTENCY: u8 = 1;

fn emitter() -> Vec<u8> {
    vec![0x42; 32]
}

fn payload() -> Vec<u8> {
    vec![0xDE, 0xAD, 0xBE, 0xEF, 0x11, 0x22]
}

fn body() -> Vec<u8> {
    let mut b = Vec::new();
    b.extend_from_slice(&TIMESTAMP.to_be_bytes());
    b.extend_from_slice(&NONCE.to_be_bytes());
    b.extend_from_slice(&EMITTER_CHAIN.to_be_bytes());
    b.extend_from_slice(&emitter());
    b.extend_from_slice(&SEQUENCE.to_be_bytes());
    b.push(CONSISTENCY);
    b.extend_from_slice(&payload());
    b
}

fn digest() -> Vec<u8> {
    keccak256(&keccak256(&body()))
}

/// Thirteen (signature, recovery id, guardian address) entries whose
/// signatures all recover under the digest of `body()`. Recovery is
/// deterministic, so building the guardian set out of the recovered
/// addresses yields a fully valid attestation.
fn signers() -> Vec<(Vec<u8>, u8, Vec<u8>)> {
    let d = digest();
    let mut out = Vec::new();
    let mut r_byte = 1u8;
    while out.len() < 13 {
        let mut sig = vec![0u8; 64];
        sig[31] = r_byte;
        sig[63] = 1;
        let mut done = false;
        for rid in 0..2u8 {
            if done {
                continue;
            }
            if let Some(addr) = recover_guardian(&d, rid, &sig) {
                assert_eq!(addr.len(), 20);
                out.push((sig.clone(), rid, addr));
                done = true;
            }
        }
        r_byte = r_byte.checked_add(1).expect("enough candidates");
    }
    out
}

/// A guardian set of 19 keys: the 13 recovered signers first, then six
/// bystanders that never sign.
fn guardian_keys(signers: &[(Vec<u8>, u8, Vec<u8>)]) -> Vec<u8> {
    let mut keys = Vec::new();
    for (_, _, addr) in signers {
        keys.extend_from_slice(addr);
    }
    for i in 0..6u8 {
        keys.extend_from_slice(&[0xA0 + i; 20]);
    }
    keys
}

fn vaa_bytes(version: u8, set_index: u32, sigs: &[(Vec<u8>, u8, Vec<u8>)], indices: &[u8]) -> Vec<u8> {
    assert_eq!(sigs.len(), indices.len());
    let mut v = Vec::new();
    v.push(version);
    v.extend_from_slice(&set_index.to_be_bytes());
    v.push(sigs.len() as u8);
    for (k, (sig, rid, _)) in sigs.iter().enumerate() {
        v.push(indices[k]);
        v.extend_from_slice(sig);
        v.push(*rid);
    }
    v.extend_from_slice(&body());
    v
}

fn registry_with(signers: &[(Vec<u8>, u8, Vec<u8>)]) -> GuardianSetRegistry {
    let mut reg = GuardianSetRegistry::new();
    reg.create(0, guardian_keys(signers)).unwrap();
    reg
}

fn ascending(n: usize) -> Vec<u8> {
    (0..n as u8).collect()
}

#[test]
fn end_to_end_post_message() {
    let auth = vec![0x77; 32];
    let signers = signers();
    let reg = registry_with(&signers);
    let vaa = vaa_bytes(1, 0, &signers, &ascending(13));

    // Allocate with the exact capacity, then stream the attestation in two
    // bounded writes, as a resumable upload would.
    let mut m = EncodedMessage::allocate(auth.clone(), vaa.len());
    let half = vaa.len() / 2;
    m.write(0, &vaa[..half].to_vec(), &auth).unwrap();
    m.write(half, &vaa[half..].to_vec(), &auth).unwrap();

    m.verify(&reg, &auth, 1000).unwrap();
    assert_eq!(m.status(), MessageStatus::Verified);

    let mut posted = PostedMessageStore::new();
    let rec = m.finalize_to_posted(&auth, &mut posted).unwrap();
    assert_eq!(rec.emitter_address, emitter());
    assert_eq!(rec.emitter_chain, EMITTER_CHAIN);
    assert_eq!(rec.sequence, SEQUENCE);
    assert_eq!(rec.submission_time, TIMESTAMP);
    assert_eq!(rec.nonce, NONCE);
    assert_eq!(rec.consistency_level, CONSISTENCY);
    assert_eq!(rec.payload, payload());

    // Consumers read the record back by its derived key.
    let key = core_bridge::store::posted_key(&digest());
    let stored = posted.get(&key).expect("record stored at the posted key");
    assert_eq!(stored.sequence, SEQUENCE);
    assert_eq!(stored.payload, payload());

    // Re-finalization of the same message is rejected.
    let r = m.finalize_to_posted(&auth, &mut posted);
    assert_eq!(r.unwrap_err(), BridgeError::AlreadyFinalized);

    // A verified account is no longer writeable or verifiable.
    let r = m.verify(&reg, &auth, 1000);
    assert_eq!(r.unwrap_err(), BridgeError::NotWriteable);
    let r = m.write(0, &vec![1], &auth);
    assert_eq!(r.unwrap_err(), BridgeError::NotWriteable);
}

fn verify_bytes(vaa: &[u8], reg: &GuardianSetRegistry, now: u32) -> Result<(), BridgeError> {
    let auth = vec![0x77; 32];
    let mut m = EncodedMessage::allocate(auth.clone(), vaa.len());
    m.write(0, &vaa.to_vec(), &auth).unwrap();
    m.verify(reg, &auth, now)
}

#[test]
fn quorum_thirteen_of_nineteen() {
    let signers = signers();
    let reg = registry_with(&signers);
    // Nineteen guardians need at least floor(2 * 19 / 3) + 1 = 13 valid
    // signatures: 13 passes, 12 fails QuorumNotMet.
    assert_eq!(verify_bytes(&vaa_bytes(1, 0, &signers, &ascending(13)), &reg, 5), Ok(()));
    let twelve = &signers[..12];
    let r = verify_bytes(&vaa_bytes(1, 0, twelve, &ascending(12)), &reg, 5);
    assert_eq!(r.unwrap_err(), BridgeError::QuorumNotMet);
}

#[test]
fn verify_error_paths() {
    let signers = signers();
    let reg = registry_with(&signers);

    // Wrong version.
    let r = verify_bytes(&vaa_bytes(2, 0, &signers, &ascending(13)), &reg, 5);
    assert_eq!(r.unwrap_err(), BridgeError::InvalidAttestationVersion);

    // Unknown guardian set.
    let r = verify_bytes(&vaa_bytes(1, 9, &signers, &ascending(13)), &reg, 5);
    assert_eq!(r.unwrap_err(), BridgeError::GuardianSetNotFound);

    // Signature indices must be strictly ascending and duplicate free:
    // two individually valid entries in the wrong order are rejected.
    let mut reordered = signers.clone();
    reordered.swap(3, 4);
    let mut idx = ascending(13);
    idx.swap(3, 4);
    let r = verify_bytes(&vaa_bytes(1, 0, &reordered, &idx), &reg, 5);
    assert_eq!(r.unwrap_err(), BridgeError::SignatureIndicesOutOfOrder);
    let mut dup = ascending(13);
    dup[4] = dup[3];
    let r = verify_bytes(&vaa_bytes(1, 0, &signers, &dup), &reg, 5);
    assert_eq!(r.unwrap_err(), BridgeError::SignatureIndicesOutOfOrder);

    // A signature attributed to the wrong guardian invalidates the whole
    // attestation.
    let mut shifted = ascending(13);
    shifted[12] = 13;
    let r = verify_bytes(&vaa_bytes(1, 0, &signers, &shifted), &reg, 5);
    assert_eq!(r.unwrap_err(), BridgeError::InvalidGuardianSignature);

    // A guardian index beyond the set is invalid too.
    let mut out_of_range = ascending(13);
    out_of_range[12] = 19;
    let r = verify_bytes(&vaa_bytes(1, 0, &signers, &out_of_range), &reg, 5);
    assert_eq!(r.unwrap_err(), BridgeError::InvalidGuardianSignature);

    // A buffer too short for its own signature count does not parse.
    let vaa = vaa_bytes(1, 0, &signers, &ascending(13));
    let r = verify_bytes(&vaa[..40], &reg, 5);
    assert_eq!(r.unwrap_err(), BridgeError::AccountDidNotDeserialize);

    // Wrong caller.
    let mut m = EncodedMessage::allocate(vec![0x77; 32], vaa.len());
    let r = m.verify(&reg, &vec![0x78; 32], 5);
    assert_eq!(r.unwrap_err(), BridgeError::WriteAuthorityMismatch);
}

#[test]
fn expired_set_rejected_unless_newest() {
    let signers = signers();
    let mut reg = registry_with(&signers);
    // While set 0 is the newest it stays usable even past an expiration.
    assert_eq!(verify_bytes(&vaa_bytes(1, 0, &signers, &ascending(13)), &reg, 5), Ok(()));
    reg.create(1, guardian_keys(&signers)).unwrap();
    reg.expire(0, 100, 50).unwrap();
    // Before expiration the old set still verifies.
    assert_eq!(verify_bytes(&vaa_bytes(1, 0, &signers, &ascending(13)), &reg, 149), Ok(()));
    // From the expiration instant on it is rejected, since a newer set
    // exists.
    let r = verify_bytes(&vaa_bytes(1, 0, &signers, &ascending(13)), &reg, 150);
    assert_eq!(r.unwrap_err(), BridgeError::GuardianSetExpired);
    // The newest set is always usable.
    assert_eq!(verify_bytes(&vaa_bytes(1, 1, &signers, &ascending(13)), &reg, 150), Ok(()));
}

#[test]
fn parse_reads_wire_format() {
    let signers = signers();
    let vaa = vaa_bytes(1, 3, &signers, &ascending(13));
    let att = Attestation::parse(&vaa).unwrap();
    assert_eq!(att.version, 1);
    assert_eq!(att.guardian_set_index, 3);
    assert_eq!(att.signatures.len(), 13);
    assert_eq!(att.signatures[5].guardian_index, 5);
    assert_eq!(att.timestamp, TIMESTAMP);
    assert_eq!(att.nonce, NONCE);
    assert_eq!(att.emitter_chain, EMITTER_CHAIN);
    assert_eq!(att.emitter_address, emitter());
    assert_eq!(att.sequence, SEQUENCE);
    assert_eq!(att.consistency_level, CONSISTENCY);
    assert_eq!(att.payload, payload());
}

#[test]
fn keccak_matches_known_digest() {
    // keccak-256 of the empty input.
    let expected = [
        0xc5, 0xd2, 0x46, 0x01, 0x86, 0xf7, 0x23, 0x3c, 0x92, 0x7e, 0x7d, 0xb2, 0xdc, 0xc7,
        0x03, 0xc0, 0xe5, 0x00, 0xb6, 0x53, 0xca, 0x82, 0x27, 0x3b, 0x7b, 0xfa, 0xd8, 0x04,
        0x5d, 0x85, 0xa4, 0x70,
    ];
    assert_eq!(keccak256(&Vec::new()), expected.to_vec());
}

#[test]
fn recovery_rejects_bad_recovery_id() {
    let d = digest();
    let mut sig = vec![0u8; 64];
    sig[31] = 1;
    sig[63] = 1;
    assert!(secp256k1_recover_pubkey(&d, 9, &sig).is_none());
    // An all-zero signature is unusable as well.
    assert!(recover_guardian(&d, 0, &vec![0u8; 64]).is_none());
}

#[test]
fn derived_addresses_are_deterministic() {
    let id = core_bridge::codec::core_bridge_id();
    let e1 = vec![1u8; 32];
    let e2 = vec![2u8; 32];
    let a1 = core_bridge::accounts::Sequence::key(&id, &e1).unwrap();
    let a1_again = core_bridge::accounts::Sequence::key(&id, &e1).unwrap();
    let a2 = core_bridge::accounts::Sequence::key(&id, &e2).unwrap();
    assert_eq!(a1, a1_again);
    assert_eq!(a1.len(), 32);
    assert_ne!(a1, a2);
    assert_ne!(a1, e1);
}

#[test]
fn upgrade_instruction_layout() {
    let wormhole = core_bridge::codec::core_bridge_id();
    let payer = vec![5u8; 32];
    let posted = vec![6u8; 32];
    let gov_emitter = vec![4u8; 32];
    let ix = core_bridge::instructions::upgrade_guardian_set(
        &wormhole,
        payer.clone(),
        posted.clone(),
        3,
        &gov_emitter,
        11,
    )
    .unwrap();
    assert_eq!(ix.program_id, wormhole);
    assert_eq!(ix.data, vec![6u8]);
    assert_eq!(ix.accounts.len(), 7);
    assert_eq!(ix.accounts[0].pubkey, payer);
    assert!(ix.accounts[0].is_signer && ix.accounts[0].is_writable);
    assert_eq!(ix.accounts[2].pubkey, posted);
    assert!(!ix.accounts[2].is_writable);
    // The old guardian set and its successor have distinct derived
    // addresses.
    assert_ne!(ix.accounts[4].pubkey, ix.accounts[5].pubkey);
    assert_eq!(ix.accounts[6].pubkey, vec![0u8; 32]);
}
