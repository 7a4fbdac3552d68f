use vstd::prelude::*;

use crate::bytes::{push_bytes, push_u16_be, push_u32_be, push_u64_be, spec_u16_be, spec_u32_be,
    spec_u64_be};
use crate::crypto::{find_program_address, spec_program_address};
use crate::errors::BridgeError;

verus! {

/// One account an instruction touches, with its access attributes.
pub struct AccountMetaSpec {
    pub pubkey: Vec<u8>,
    pub is_signer: bool,
    pub is_writable: bool,
}

/// A built instruction: the program to invoke, the accounts it touches in
/// order, and its data bytes.
pub struct InstructionSpec {
    pub program_id: Vec<u8>,
    pub accounts: Vec<AccountMetaSpec>,
    pub data: Vec<u8>,
}

/// Data byte of the guardian-set upgrade instruction.
pub const UPGRADE_GUARDIAN_SET_IX: u8 = 6;

/// Derivation seeds of the bridge config account.
pub open spec fn spec_config_seeds() -> Seq<Seq<u8>> {
    seq![seq![66u8, 114, 105, 100, 103, 101]]
}

/// Derivation seeds of the guardian set account with the given index.
pub open spec fn spec_guardian_set_seeds(index: u32) -> Seq<Seq<u8>> {
    seq![seq![71u8, 117, 97, 114, 100, 105, 97, 110, 83, 101, 116], spec_u32_be(index)]
}

/// Derivation seeds of the claim account of one (emitter, chain, sequence).
pub open spec fn spec_claim_seeds(emitter: Seq<u8>, chain: u16, sequence: u64) -> Seq<Seq<u8>> {
    seq![
        seq![67u8, 108, 97, 105, 109],
        emitter,
        spec_u16_be(chain),
        spec_u64_be(sequence),
    ]
}

fn config_seeds() -> (r: Vec<Vec<u8>>)
    ensures
        r.deep_view() == spec_config_seeds(),
{
    let tag = vec![66u8, 114, 105, 100, 103, 101];
    let mut out: Vec<Vec<u8>> = Vec::new();
    out.push(tag);
    proof {
        assert(out.deep_view() =~~= spec_config_seeds());
    }
    out
}

fn guardian_set_seeds(index: u32) -> (r: Vec<Vec<u8>>)
    ensures
        r.deep_view() == spec_guardian_set_seeds(index),
{
    let tag = vec![71u8, 117, 97, 114, 100, 105, 97, 110, 83, 101, 116];
    let mut ix: Vec<u8> = Vec::new();
    push_u32_be(&mut ix, index);
    let mut out: Vec<Vec<u8>> = Vec::new();
    out.push(tag);
    out.push(ix);
    proof {
        assert(out.deep_view() =~~= spec_guardian_set_seeds(index));
    }
    out
}

fn claim_seeds(emitter: &Vec<u8>, chain: u16, sequence: u64) -> (r: Vec<Vec<u8>>)
    requires
        emitter@.len() == 32,
    ensures
        r.deep_view() == spec_claim_seeds(emitter@, chain, sequence),
{
    let tag = vec![67u8, 108, 97, 105, 109];
    let mut em: Vec<u8> = Vec::new();
    push_bytes(&mut em, emitter);
    let mut ch: Vec<u8> = Vec::new();
    push_u16_be(&mut ch, chain);
    let mut sq: Vec<u8> = Vec::new();
    push_u64_be(&mut sq, sequence);
    let mut out: Vec<Vec<u8>> = Vec::new();
    out.push(tag);
    out.push(em);
    out.push(ch);
    out.push(sq);
    proof {
        assert(out.deep_view() =~~= spec_claim_seeds(emitter@, chain, sequence));
    }
    out
}

/// The derived address of a seed list under a program, if one exists.
pub open spec fn spec_derived(seeds: Seq<Seq<u8>>, program: Seq<u8>) -> Option<Seq<u8>> {
    match spec_program_address(seeds, program) {
        Some(p) => Some(p.0),
        None => None,
    }
}

fn derive(seeds: &Vec<Vec<u8>>, program: &Vec<u8>) -> (r: Option<Vec<u8>>)
    requires
        program@.len() == 32,
    ensures
        (r matches Some(a) ==> spec_derived(seeds.deep_view(), program@) == Some(a@) && a@.len()
            == 32),
        (r is None ==> spec_derived(seeds.deep_view(), program@) is None),
{
    match find_program_address(seeds, program) {
        Some(p) => Some(p.0),
        None => None,
    }
}

/// The system account: the all-zero address.
fn system_account() -> (r: Vec<u8>)
    ensures
        r@ == Seq::new(32, |i: int| 0u8),
{
    let mut out: Vec<u8> = Vec::new();
    let mut i: usize = 0;
    while i < 32
        invariant
            i <= 32,
            out@ == Seq::new(i as nat, |j: int| 0u8),
        decreases 32 - i,
    {
        out.push(0u8);
        proof {
            assert(out@ =~= Seq::new(i as nat + 1, |j: int| 0u8));
        }
        i = i + 1;
    }
    out
}

/// Build the instruction that posts a guardian-set upgrade: the governance
/// action that creates the successor of guardian set
/// `guardian_set_index_old` and claims the (emitter, chain, sequence) of the
/// governance message. Succeeds exactly when the four account addresses can
/// be derived; the instruction then names, in order: the fee payer, the
/// bridge config, the posted governance message, the claim record, the old
/// guardian set and its successor, and the system account, with its one
/// data byte selecting the upgrade action.
pub fn upgrade_guardian_set(
    wormhole: &Vec<u8>,
    payer: Vec<u8>,
    posted_vaa: Vec<u8>,
    guardian_set_index_old: u32,
    emitter: &Vec<u8>,
    sequence: u64,
) -> (r: Result<InstructionSpec, BridgeError>)
    requires
        wormhole@.len() == 32,
        emitter@.len() == 32,
        guardian_set_index_old < u32::MAX,
    ensures
        (r is Ok <==> spec_derived(spec_config_seeds(), wormhole@) is Some && spec_derived(
            spec_guardian_set_seeds(guardian_set_index_old),
            wormhole@,
        ) is Some && spec_derived(
            spec_guardian_set_seeds((guardian_set_index_old + 1) as u32),
            wormhole@,
        ) is Some && spec_derived(spec_claim_seeds(emitter@, 1, sequence), wormhole@) is Some),
        (r matches Ok(ix) ==> ix.program_id@ == wormhole@ && ix.data@ == seq![
            UPGRADE_GUARDIAN_SET_IX,
        ] && ix.accounts@.len() == 7 && ix.accounts@[0].pubkey@ == payer@ && ix.accounts@[0].is_signer
            && ix.accounts@[0].is_writable && Some(ix.accounts@[1].pubkey@) == spec_derived(
            spec_config_seeds(),
            wormhole@,
        ) && ix.accounts@[2].pubkey@ == posted_vaa@ && !ix.accounts@[2].is_writable && Some(
            ix.accounts@[3].pubkey@,
        ) == spec_derived(spec_claim_seeds(emitter@, 1, sequence), wormhole@) && Some(
            ix.accounts@[4].pubkey@,
        ) == spec_derived(spec_guardian_set_seeds(guardian_set_index_old), wormhole@) && Some(
            ix.accounts@[5].pubkey@,
        ) == spec_derived(
            spec_guardian_set_seeds((guardian_set_index_old + 1) as u32),
            wormhole@,
        )),
        (r matches Err(e) ==> e == BridgeError::AddressUnavailable),
{
    let config = match derive(&config_seeds(), wormhole) {
        Some(a) => a,
        None => {
            return Err(BridgeError::AddressUnavailable);
        },
    };
    let set_old = match derive(&guardian_set_seeds(guardian_set_index_old), wormhole) {
        Some(a) => a,
        None => {
            return Err(BridgeError::AddressUnavailable);
        },
    };
    let set_new = match derive(&guardian_set_seeds(guardian_set_index_old + 1), wormhole) {
        Some(a) => a,
        None => {
            return Err(BridgeError::AddressUnavailable);
        },
    };
    let claim = match derive(&claim_seeds(emitter, 1, sequence), wormhole) {
        Some(a) => a,
        None => {
            return Err(BridgeError::AddressUnavailable);
        },
    };
    let system: Vec<u8> = system_account();
    let mut accounts: Vec<AccountMetaSpec> = Vec::new();
    accounts.push(AccountMetaSpec { pubkey: payer, is_signer: true, is_writable: true });
    accounts.push(AccountMetaSpec { pubkey: config, is_signer: false, is_writable: true });
    accounts.push(AccountMetaSpec { pubkey: posted_vaa, is_signer: false, is_writable: false });
    accounts.push(AccountMetaSpec { pubkey: claim, is_signer: false, is_writable: true });
    accounts.push(AccountMetaSpec { pubkey: set_old, is_signer: false, is_writable: true });
    accounts.push(AccountMetaSpec { pubkey: set_new, is_signer: false, is_writable: true });
    accounts.push(AccountMetaSpec { pubkey: system, is_signer: false, is_writable: false });
    let mut program_id: Vec<u8> = Vec::new();
    push_bytes(&mut program_id, wormhole);
    let data = vec![UPGRADE_GUARDIAN_SET_IX];
    Ok(InstructionSpec { program_id, accounts, data })
}

} // verus!
