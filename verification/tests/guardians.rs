use core_bridge::errors::BridgeError;
use core_bridge::registry::GuardianSetRegistry;

fn keys(n: usize) -> Vec<u8> {
    let mut v = Vec::new();
    for i in 0..n {
        for b in 0..20 {
            v.push((i * 20 + b) as u8);
        }
    }
    v
}

#[test]
fn create_out_of_order_fails() {
    let mut reg = GuardianSetRegistry::new();
    for i in 0..4u32 {
        reg.create(i, keys(3)).unwrap();
    }
    // Current max index is 3: index 5 is out of order, index 4 follows.
    let r = reg.create(5, keys(3));
    assert_eq!(r.unwrap_err(), BridgeError::OutOfOrderGuardianSetIndex);
    reg.create(4, keys(3)).unwrap();
    assert_eq!(reg.len(), 5);
}

#[test]
fn create_must_start_at_zero() {
    let mut reg = GuardianSetRegistry::new();
    let r = reg.create(1, keys(1));
    assert_eq!(r.unwrap_err(), BridgeError::OutOfOrderGuardianSetIndex);
    reg.create(0, keys(1)).unwrap();
}

#[test]
fn get_found_and_not_found() {
    let mut reg = GuardianSetRegistry::new();
    reg.create(0, keys(2)).unwrap();
    let set = reg.get(0).unwrap();
    assert_eq!(set.index, 0);
    assert_eq!(set.num_keys(), 2);
    assert_eq!(set.guardian_key(1), keys(2)[20..40].to_vec());
    assert_eq!(reg.get(1).unwrap_err(), BridgeError::GuardianSetNotFound);
}

#[test]
fn expire_rules() {
    let mut reg = GuardianSetRegistry::new();
    reg.create(0, keys(2)).unwrap();
    // The newest set cannot be expired before a successor exists.
    let r = reg.expire(0, 100, 50);
    assert_eq!(r.unwrap_err(), BridgeError::NoSuccessorGuardianSet);
    reg.create(1, keys(2)).unwrap();
    assert_eq!(reg.expire(7, 100, 50).unwrap_err(), BridgeError::GuardianSetNotFound);
    reg.expire(0, 100, 50).unwrap();
    assert_eq!(reg.get(0).unwrap().expiration_time, 150);
    // `now` equal to the expiration time counts as expired.
    assert!(!reg.get(0).unwrap().is_active(150));
    assert!(reg.get(0).unwrap().is_active(149));
    // A second expiration is rejected once the set is expired.
    let r = reg.expire(0, 150, 10);
    assert_eq!(r.unwrap_err(), BridgeError::GuardianSetExpired);
}

#[test]
fn zero_expiration_means_never() {
    let mut reg = GuardianSetRegistry::new();
    reg.create(0, keys(1)).unwrap();
    assert!(reg.get(0).unwrap().is_active(u32::MAX));
    assert_eq!(reg.get(0).unwrap().expiration_time, 0);
}
