use vstd::prelude::*;

use crate::bytes::copy_range;

verus! {

/// What keccak-256 returns for a byte sequence.
pub uninterp spec fn spec_keccak(b: Seq<u8>) -> Seq<u8>;

/// Relies on solana_program::keccak::hashv: the keccak-256 digest of the
/// input, 32 bytes, a function of the input bytes alone.
#[verifier::external_body]
pub fn keccak256(b: &Vec<u8>) -> (r: Vec<u8>)
    ensures
        r@ == spec_keccak(b@),
        r@.len() == 32,
{
    solana_program::keccak::hashv(&[b.as_slice()]).0.to_vec()
}

/// The digest attestations are signed over: the hash of the hash of the body.
pub open spec fn spec_double_keccak(b: Seq<u8>) -> Seq<u8> {
    spec_keccak(spec_keccak(b))
}

/// The digest attestations are signed over.
pub fn double_keccak(b: &Vec<u8>) -> (r: Vec<u8>)
    ensures
        r@ == spec_double_keccak(b@),
        r@.len() == 32,
{
    let h = keccak256(b);
    keccak256(&h)
}

/// What secp256k1 public-key recovery returns for a 32-byte digest, a
/// recovery id and a 64-byte signature: the 64-byte public key, or nothing
/// where the signature is unusable.
pub uninterp spec fn spec_secp256k1_recovered(digest: Seq<u8>, recovery_id: u8, sig: Seq<u8>) -> Option<
    Seq<u8>,
>;

/// Relies on solana_program::secp256k1_recover::secp256k1_recover: the
/// recovered 64-byte public key, a function of its arguments alone; `None`
/// exactly where the callee reports an error.
#[verifier::external_body]
pub fn secp256k1_recover_pubkey(digest: &Vec<u8>, recovery_id: u8, sig: &Vec<u8>) -> (r: Option<
    Vec<u8>,
>)
    ensures
        (r matches Some(pk) ==> spec_secp256k1_recovered(digest@, recovery_id, sig@) == Some(pk@)
            && pk@.len() == 64),
        (r is None ==> spec_secp256k1_recovered(digest@, recovery_id, sig@) is None),
{
    match solana_program::secp256k1_recover::secp256k1_recover(
        digest.as_slice(),
        recovery_id,
        sig.as_slice(),
    ) {
        Ok(pk) => Some(pk.to_bytes().to_vec()),
        Err(_) => None,
    }
}

/// The 20-byte address of a recovered public key: the tail of its hash.
pub open spec fn spec_eth_address(pk: Seq<u8>) -> Seq<u8> {
    spec_keccak(pk).skip(12)
}

/// The guardian address a signature recovers to for a digest, if any.
pub open spec fn spec_recovered_guardian(digest: Seq<u8>, recovery_id: u8, sig: Seq<u8>) -> Option<
    Seq<u8>,
> {
    match spec_secp256k1_recovered(digest, recovery_id, sig) {
        Some(pk) => Some(spec_eth_address(pk)),
        None => None,
    }
}

/// Recover the 20-byte guardian address that signed `digest`, if the
/// signature is usable.
pub fn recover_guardian(digest: &Vec<u8>, recovery_id: u8, sig: &Vec<u8>) -> (r: Option<Vec<u8>>)
    ensures
        (r matches Some(a) ==> spec_recovered_guardian(digest@, recovery_id, sig@) == Some(a@)
            && a@.len() == 20),
        (r is None ==> spec_recovered_guardian(digest@, recovery_id, sig@) is None),
{
    match secp256k1_recover_pubkey(digest, recovery_id, sig) {
        Some(pk) => {
            let h = keccak256(&pk);
            Some(copy_range(&h, 12, 32))
        },
        None => None,
    }
}

/// What program-address derivation returns for seeds and a program id: a
/// 32-byte address and a bump byte, or nothing where no bump yields a valid
/// address.
pub uninterp spec fn spec_program_address(seeds: Seq<Seq<u8>>, program_id: Seq<u8>) -> Option<
    (Seq<u8>, u8),
>;

/// Relies on solana_program::pubkey::Pubkey::try_find_program_address: a
/// derived 32-byte address and its bump seed, a function of the seeds and
/// the program id alone; `None` exactly where the callee finds no bump.
#[verifier::external_body]
pub fn find_program_address(seeds: &Vec<Vec<u8>>, program_id: &Vec<u8>) -> (r: Option<
    (Vec<u8>, u8),
>)
    requires
        program_id@.len() == 32,
    ensures
        (r matches Some(p) ==> spec_program_address(seeds.deep_view(), program_id@) == Some(
            (p.0@, p.1),
        ) && p.0@.len() == 32),
        (r is None ==> spec_program_address(seeds.deep_view(), program_id@) is None),
{
    let mut slices: Vec<&[u8]> = Vec::new();
    for s in seeds.iter() {
        slices.push(s.as_slice());
    }
    let arr: [u8; 32] = program_id.as_slice().try_into().unwrap();
    let pk = solana_program::pubkey::Pubkey::new_from_array(arr);
    match solana_program::pubkey::Pubkey::try_find_program_address(&slices, &pk) {
        Some((addr, bump)) => Some((addr.to_bytes().to_vec(), bump)),
        None => None,
    }
}

} // verus!
