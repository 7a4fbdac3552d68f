use core_bridge::errors::BridgeError;
use core_bridge::message::{EncodedMessage, MessageStatus};
use core_bridge::store::{Ledger, PostedMessageStore};

fn authority() -> Vec<u8> {
    vec![0xAB; 32]
}

#[test]
fn allocate_is_writeable_and_zeroed() {
    let m = EncodedMessage::allocate(authority(), 10);
    assert_eq!(m.status(), MessageStatus::Writeable);
    assert_eq!(m.buffer(), &vec![0u8; 10]);
    assert_eq!(m.write_authority(), &authority());
}

#[test]
fn allocate_at_rejects_occupied_address() {
    let mut ledger: Ledger<()> = Ledger::new();
    let addr = vec![9u8; 32];
    EncodedMessage::allocate_at(&mut ledger, addr.clone(), authority(), 16).unwrap();
    let r = EncodedMessage::allocate_at(&mut ledger, addr, authority(), 16);
    assert_eq!(r.unwrap_err(), BridgeError::AlreadyInitialized);
    // A different address is still free.
    EncodedMessage::allocate_at(&mut ledger, vec![10u8; 32], authority(), 16).unwrap();
}

#[test]
fn writes_are_offset_addressed_and_may_overlap() {
    let auth = authority();
    let mut m = EncodedMessage::allocate(auth.clone(), 8);
    // Out of order and overlapping writes are allowed.
    m.write(4, &vec![5, 6, 7, 8], &auth).unwrap();
    m.write(0, &vec![1, 2, 3, 4], &auth).unwrap();
    m.write(3, &vec![9, 9], &auth).unwrap();
    assert_eq!(m.buffer(), &vec![1, 2, 3, 9, 9, 6, 7, 8]);
}

#[test]
fn write_guards() {
    let auth = authority();
    let mut m = EncodedMessage::allocate(auth.clone(), 4);
    let stranger = vec![0xCD; 32];
    let r = m.write(0, &vec![1], &stranger);
    assert_eq!(r.unwrap_err(), BridgeError::WriteAuthorityMismatch);
    let r = m.write(3, &vec![1, 2], &auth);
    assert_eq!(r.unwrap_err(), BridgeError::BufferOverflow);
    let r = m.write(5, &vec![], &auth);
    assert_eq!(r.unwrap_err(), BridgeError::BufferOverflow);
    // The failed writes changed nothing.
    assert_eq!(m.buffer(), &vec![0u8; 4]);
}

#[test]
fn write_after_close_fails() {
    let auth = authority();
    let mut m = EncodedMessage::allocate(auth.clone(), 4);
    m.close(&auth).unwrap();
    assert_eq!(m.status(), MessageStatus::Closed);
    let r = m.write(0, &vec![1], &auth);
    assert_eq!(r.unwrap_err(), BridgeError::NotWriteable);
}

#[test]
fn close_guards() {
    let auth = authority();
    let mut m = EncodedMessage::allocate(auth.clone(), 4);
    let stranger = vec![0xCD; 32];
    assert_eq!(m.close(&stranger).unwrap_err(), BridgeError::WriteAuthorityMismatch);
    m.close(&auth).unwrap();
    // Close is terminal.
    assert_eq!(m.close(&auth).unwrap_err(), BridgeError::NotWriteable);
}

#[test]
fn verify_after_close_fails_not_writeable() {
    let auth = authority();
    let reg = core_bridge::registry::GuardianSetRegistry::new();
    let mut m = EncodedMessage::allocate(auth.clone(), 4);
    m.close(&auth).unwrap();
    let r = m.verify(&reg, &auth, 0);
    assert_eq!(r.unwrap_err(), BridgeError::NotWriteable);
}

#[test]
fn finalize_requires_verified_state() {
    let auth = authority();
    let m = EncodedMessage::allocate(auth.clone(), 4);
    let mut posted = PostedMessageStore::new();
    let r = m.finalize_to_posted(&auth, &mut posted);
    assert_eq!(r.unwrap_err(), BridgeError::MessageNotVerified);
}

#[test]
fn prepared_message_space() {
    assert_eq!(core_bridge::compute_prepared_message_space(0), 95);
    assert_eq!(core_bridge::compute_prepared_message_space(5), 100);
    assert_eq!(core_bridge::POSTED_MESSAGE_PAYLOAD_START, 95);
}
