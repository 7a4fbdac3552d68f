use vstd::prelude::*;

use crate::accounts::{GuardianSet, PostedMessageV1};
use crate::bytes::bytes_eq;
use crate::crypto::{double_keccak, recover_guardian, spec_double_keccak, spec_recovered_guardian};
use crate::errors::BridgeError;
use crate::registry::GuardianSetRegistry;
use crate::store::{posted_key, spec_posted_key, Ledger, PostedMessageStore};
use crate::vaa::{spec_parse_vaa, spec_vaa_body, Attestation, AttestationView};

verus! {

/// Lifecycle state of an encoded-message account.
#[derive(Clone, Copy, Debug, PartialEq, Eq, Structural)]
pub enum MessageStatus {
    Unset,
    Writeable,
    Verified,
    Closed,
}

/// The account that accumulates raw attestation bytes and advances through
/// allocation, writing, verification and finalization. Only the write
/// authority may act on it.
#[derive(Debug)]
pub struct EncodedMessage {
    status: MessageStatus,
    write_authority: Vec<u8>,
    buffer: Vec<u8>,
}

/// The quorum threshold for a guardian set of `n` keys.
pub open spec fn spec_quorum(n: nat) -> nat {
    2 * n / 3 + 1
}

/// Whether one signature entry is valid against a guardian set and digest:
/// its guardian index is in range and the signature recovers to exactly that
/// guardian's address.
pub open spec fn spec_sig_ok(set: GuardianSet, digest: Seq<u8>, s: (u8, Seq<u8>, u8)) -> bool {
    (s.0 as int) < set.spec_num_keys() && spec_recovered_guardian(digest, s.2, s.1) == Some(
        set.spec_key(s.0 as int),
    )
}

/// Scan the signature entries from position `i` on, with `prev` the guardian
/// index of the previous entry (-1 before the first). The first offence
/// decides the error: an index not strictly above its predecessor fails
/// `SignatureIndicesOutOfOrder`; an out-of-range index or a signature that
/// does not recover to its guardian's address fails
/// `InvalidGuardianSignature`.
pub open spec fn spec_check_sigs(
    set: GuardianSet,
    digest: Seq<u8>,
    sigs: Seq<(u8, Seq<u8>, u8)>,
    i: int,
    prev: int,
) -> Result<(), BridgeError>
    decreases sigs.len() - i,
{
    if i < 0 || i >= sigs.len() {
        Ok(())
    } else if sigs[i].0 <= prev {
        Err(BridgeError::SignatureIndicesOutOfOrder)
    } else if !spec_sig_ok(set, digest, sigs[i]) {
        Err(BridgeError::InvalidGuardianSignature)
    } else {
        spec_check_sigs(set, digest, sigs, i + 1, sigs[i].0 as int)
    }
}

/// What `verify` returns, for every starting state and input: each guard in
/// order, then the signature scan, then the quorum count. Verification
/// succeeds if and only if every guard passes.
pub open spec fn spec_verify_outcome(
    m: EncodedMessage,
    reg: GuardianSetRegistry,
    caller: Seq<u8>,
    now: u32,
) -> Result<(), BridgeError> {
    if !(m.spec_status() is Writeable) {
        Err(BridgeError::NotWriteable)
    } else if caller != m.spec_authority() {
        Err(BridgeError::WriteAuthorityMismatch)
    } else {
        match spec_parse_vaa(m.spec_buffer()) {
            None => Err(BridgeError::AccountDidNotDeserialize),
            Some(v) => {
                if v.version != 1 {
                    Err(BridgeError::InvalidAttestationVersion)
                } else if !((v.guardian_set_index as int) < reg.spec_len()) {
                    Err(BridgeError::GuardianSetNotFound)
                } else {
                    let set = reg.spec_at(v.guardian_set_index as int);
                    if !set.spec_is_active(now) && (v.guardian_set_index as int) != reg.spec_len()
                        - 1 {
                        Err(BridgeError::GuardianSetExpired)
                    } else {
                        let digest = spec_double_keccak(spec_vaa_body(m.spec_buffer()));
                        match spec_check_sigs(set, digest, v.signatures, 0, -1) {
                            Err(e) => Err(e),
                            Ok(()) => {
                                if v.signatures.len() < spec_quorum(set.spec_num_keys()) {
                                    Err(BridgeError::QuorumNotMet)
                                } else {
                                    Ok(())
                                }
                            },
                        }
                    }
                }
            },
        }
    }
}

/// The buffer after writing `data` at `offset`.
pub open spec fn spec_spliced(buf: Seq<u8>, offset: int, data: Seq<u8>) -> Seq<u8> {
    buf.take(offset) + data + buf.skip(offset + data.len())
}

/// Whether a posted record holds exactly the header fields and payload of a
/// parsed attestation.
pub open spec fn spec_record_matches(rec: PostedMessageV1, v: AttestationView) -> bool {
    &&& rec.submission_time == v.timestamp
    &&& rec.nonce == v.nonce
    &&& rec.emitter_chain == v.emitter_chain
    &&& rec.emitter_address@ == v.emitter_address
    &&& rec.sequence == v.sequence
    &&& rec.consistency_level == v.consistency_level
    &&& rec.payload@ == v.payload
}

impl EncodedMessage {
    /// Lifecycle state.
    pub closed spec fn spec_status(self) -> MessageStatus {
        self.status
    }

    /// The only address allowed to act on this account.
    pub closed spec fn spec_authority(self) -> Seq<u8> {
        self.write_authority@
    }

    /// The raw attestation bytes written so far.
    pub closed spec fn spec_buffer(self) -> Seq<u8> {
        self.buffer@
    }

    /// The authority is an address, and a verified account always holds a
    /// parseable version-1 attestation.
    pub closed spec fn wf(self) -> bool {
        &&& self.write_authority@.len() == 32
        &&& (self.status is Verified ==> spec_parse_vaa(self.buffer@) is Some && spec_parse_vaa(
            self.buffer@,
        ).unwrap().version == 1)
    }

    /// Lifecycle state.
    pub fn status(&self) -> (r: MessageStatus)
        ensures
            r == self.spec_status(),
    {
        self.status
    }

    /// The only address allowed to act on this account.
    pub fn write_authority(&self) -> (r: &Vec<u8>)
        ensures
            r@ == self.spec_authority(),
    {
        &self.write_authority
    }

    /// The raw attestation bytes written so far.
    pub fn buffer(&self) -> (r: &Vec<u8>)
        ensures
            r@ == self.spec_buffer(),
    {
        &self.buffer
    }

    /// Create an account with a zeroed buffer of the given capacity. The
    /// account passes through `Unset` and is immediately writeable.
    pub fn allocate(write_authority: Vec<u8>, capacity: usize) -> (m: Self)
        requires
            write_authority@.len() == 32,
        ensures
            m.wf(),
            m.spec_status() is Writeable,
            m.spec_authority() == write_authority@,
            m.spec_buffer() == Seq::new(capacity as nat, |i: int| 0u8),
    {
        let mut buffer: Vec<u8> = Vec::new();
        let mut i: usize = 0;
        while i < capacity
            invariant
                i <= capacity,
                buffer@ == Seq::new(i as nat, |j: int| 0u8),
            decreases capacity - i,
        {
            buffer.push(0u8);
            proof {
                assert(buffer@ =~= Seq::new(i as nat + 1, |j: int| 0u8));
            }
            i = i + 1;
        }
        EncodedMessage { status: MessageStatus::Writeable, write_authority, buffer }
    }

    /// Create an account at a derived address in the ledger. Fails with
    /// `AlreadyInitialized` exactly when the address already holds state;
    /// the store's commitment rule makes this first-writer-wins.
    pub fn allocate_at(
        ledger: &mut Ledger<()>,
        addr: Vec<u8>,
        write_authority: Vec<u8>,
        capacity: usize,
    ) -> (r: Result<Self, BridgeError>)
        requires
            old(ledger).wf(),
            write_authority@.len() == 32,
        ensures
            final(ledger).wf(),
            (r is Ok <==> !old(ledger)@.contains_key(addr@)),
            (r matches Ok(m) ==> final(ledger)@ == old(ledger)@.insert(addr@, ()) && m.wf()
                && m.spec_status() is Writeable && m.spec_authority() == write_authority@
                && m.spec_buffer() == Seq::new(capacity as nat, |i: int| 0u8)),
            (r matches Err(e) ==> e == BridgeError::AlreadyInitialized && *final(ledger) == *old(
                ledger,
            )),
    {
        if ledger.contains_key(&addr) {
            Err(BridgeError::AlreadyInitialized)
        } else {
            ledger.insert_new(addr, ());
            Ok(Self::allocate(write_authority, capacity))
        }
    }

    /// Write `data` at `offset` into the buffer. Writes may overlap and may
    /// arrive in any order; they must stay within the pre-allocated
    /// capacity. Only the write authority may write, and only while the
    /// account is writeable.
    #[verifier::loop_isolation(false)]
    pub fn write(&mut self, offset: usize, data: &Vec<u8>, caller: &Vec<u8>) -> (r: Result<
        (),
        BridgeError,
    >)
        requires
            old(self).wf(),
        ensures
            final(self).wf(),
            (r is Ok <==> old(self).spec_status() is Writeable && caller@ == old(
                self,
            ).spec_authority() && offset + data@.len() <= old(self).spec_buffer().len()),
            (r is Ok ==> final(self).spec_status() is Writeable && final(self).spec_authority()
                == old(self).spec_authority() && final(self).spec_buffer() == spec_spliced(
                old(self).spec_buffer(),
                offset as int,
                data@,
            )),
            (r is Err ==> *final(self) == *old(self)),
            (r matches Err(e) ==> e == (if !(old(self).spec_status() is Writeable) {
                BridgeError::NotWriteable
            } else if caller@ != old(self).spec_authority() {
                BridgeError::WriteAuthorityMismatch
            } else {
                BridgeError::BufferOverflow
            })),
    {
        if !matches!(self.status, MessageStatus::Writeable) {
            return Err(BridgeError::NotWriteable);
        }
        if !bytes_eq(caller, &self.write_authority) {
            return Err(BridgeError::WriteAuthorityMismatch);
        }
        let dlen = data.len();
        let blen = self.buffer.len();
        if offset > blen || dlen > blen - offset {
            return Err(BridgeError::BufferOverflow);
        }
        let mut i: usize = 0;
        while i < dlen
            invariant
                i <= dlen,
                self.status is Writeable,
                self.write_authority@ == old(self).spec_authority(),
                self.buffer@.len() == old(self).spec_buffer().len(),
                self.buffer@ == spec_spliced(old(self).spec_buffer(), offset as int, data@.take(
                    i as int,
                )),
            decreases dlen - i,
        {
            self.buffer[offset + i] = data[i];
            proof {
                assert(self.buffer@ =~= spec_spliced(
                    old(self).spec_buffer(),
                    offset as int,
                    data@.take(i as int + 1),
                ));
            }
            i = i + 1;
        }
        proof {
            assert(data@.take(dlen as int) =~= data@);
            assert(self.buffer@ =~= spec_spliced(old(self).spec_buffer(), offset as int, data@));
        }
        Ok(())
    }

    /// Verify the buffer as a version-1 attestation against the guardian
    /// registry at time `now`. Succeeds if and only if the account is
    /// writeable, the caller is the write authority, the buffer parses, the
    /// version is 1, the referenced guardian set exists and is active (or is
    /// the newest set, which stays usable during rotation), every signature
    /// is valid with strictly ascending guardian indices, and the signatures
    /// reach quorum. On success the account becomes `Verified`; on failure
    /// nothing changes.
    #[verifier::loop_isolation(false)]
    pub fn verify(
        &mut self,
        registry: &GuardianSetRegistry,
        caller: &Vec<u8>,
        now: u32,
    ) -> (r: Result<(), BridgeError>)
        requires
            old(self).wf(),
            registry.wf(),
        ensures
            final(self).wf(),
            r == spec_verify_outcome(*old(self), *registry, caller@, now),
            (r is Ok ==> final(self).spec_status() is Verified && final(self).spec_authority()
                == old(self).spec_authority() && final(self).spec_buffer() == old(
                self,
            ).spec_buffer()),
            (r is Err ==> *final(self) == *old(self)),
    {
        if !matches!(self.status, MessageStatus::Writeable) {
            return Err(BridgeError::NotWriteable);
        }
        if !bytes_eq(caller, &self.write_authority) {
            return Err(BridgeError::WriteAuthorityMismatch);
        }
        let att = match Attestation::parse(&self.buffer) {
            Ok(a) => a,
            Err(e) => {
                return Err(e);
            },
        };
        if att.version != 1 {
            return Err(BridgeError::InvalidAttestationVersion);
        }
        let set = match registry.get(att.guardian_set_index) {
            Ok(s) => s,
            Err(e) => {
                return Err(e);
            },
        };
        let newest = registry.len() - 1;
        if !set.is_active(now) && (att.guardian_set_index as usize) != newest {
            return Err(BridgeError::GuardianSetExpired);
        }
        let body = Attestation::body_of(&self.buffer);
        let digest = double_keccak(&body);
        let nsigs = att.signatures.len();
        let num_keys = set.num_keys();
        let ghost sigs = att@.signatures;
        let mut i: usize = 0;
        let mut prev: i64 = -1;
        while i < nsigs
            invariant
                i <= nsigs,
                -1 <= prev < 256,
                prev == if i == 0 {
                    -1
                } else {
                    sigs[i as int - 1].0 as int
                },
                spec_check_sigs(*set, digest@, sigs, 0, -1) == spec_check_sigs(
                    *set,
                    digest@,
                    sigs,
                    i as int,
                    prev as int,
                ),
            decreases nsigs - i,
        {
            let entry = &att.signatures[i];
            proof {
                assert(sigs[i as int] == (entry.guardian_index, entry.signature@,
                entry.recovery_id));
            }
            if (entry.guardian_index as i64) <= prev {
                return Err(BridgeError::SignatureIndicesOutOfOrder);
            }
            if (entry.guardian_index as usize) >= num_keys {
                return Err(BridgeError::InvalidGuardianSignature);
            }
            let key = set.guardian_key(entry.guardian_index as usize);
            match recover_guardian(&digest, entry.recovery_id, &entry.signature) {
                Some(addr) => {
                    if !bytes_eq(&addr, &key) {
                        return Err(BridgeError::InvalidGuardianSignature);
                    }
                },
                None => {
                    return Err(BridgeError::InvalidGuardianSignature);
                },
            }
            prev = entry.guardian_index as i64;
            i = i + 1;
        }
        proof {
            assert(num_keys <= 255) by (nonlinear_arith)
                requires
                    num_keys == set.keys@.len() / 20,
                    set.keys@.len() <= 20 * 255,
            ;
        }
        let quorum = 2 * num_keys / 3 + 1;
        if nsigs < quorum {
            return Err(BridgeError::QuorumNotMet);
        }
        self.status = MessageStatus::Verified;
        Ok(())
    }

    /// Close the account and reclaim its storage. Permitted from
    /// `Writeable` or `Verified`, by the write authority only; terminal.
    pub fn close(&mut self, caller: &Vec<u8>) -> (r: Result<(), BridgeError>)
        requires
            old(self).wf(),
        ensures
            final(self).wf(),
            (r is Ok <==> (old(self).spec_status() is Writeable || old(self).spec_status()
                is Verified) && caller@ == old(self).spec_authority()),
            (r is Ok ==> final(self).spec_status() is Closed && final(self).spec_buffer().len()
                == 0 && final(self).spec_authority() == old(self).spec_authority()),
            (r is Err ==> *final(self) == *old(self)),
            (r matches Err(e) ==> e == (if !(old(self).spec_status() is Writeable || old(
                self,
            ).spec_status() is Verified) {
                BridgeError::NotWriteable
            } else {
                BridgeError::WriteAuthorityMismatch
            })),
    {
        if !matches!(self.status, MessageStatus::Writeable | MessageStatus::Verified) {
            return Err(BridgeError::NotWriteable);
        }
        if !bytes_eq(caller, &self.write_authority) {
            return Err(BridgeError::WriteAuthorityMismatch);
        }
        self.buffer.clear();
        self.status = MessageStatus::Closed;
        Ok(())
    }

    /// Convert a verified account into a posted record at the posted key of
    /// its digest. Fails with `MessageNotVerified` unless the account is
    /// verified, `WriteAuthorityMismatch` unless the caller is the write
    /// authority, and `AlreadyFinalized` when a record already sits at that
    /// key; finalization happens at most once per message.
    pub fn finalize_to_posted(&self, caller: &Vec<u8>, posted: &mut PostedMessageStore) -> (r:
        Result<PostedMessageV1, BridgeError>)
        requires
            self.wf(),
            old(posted).wf(),
        ensures
            final(posted).wf(),
            (r is Ok <==> self.spec_status() is Verified && caller@ == self.spec_authority() && !old(
                posted,
            )@.contains_key(
                spec_posted_key(spec_double_keccak(spec_vaa_body(self.spec_buffer()))),
            )),
            (r matches Ok(rec) ==> {
                let v = spec_parse_vaa(self.spec_buffer()).unwrap();
                let key = spec_posted_key(spec_double_keccak(spec_vaa_body(self.spec_buffer())));
                spec_record_matches(rec, v) && final(posted)@.contains_key(key) && final(posted)@
                    == old(posted)@.insert(key, final(posted)@[key]) && spec_record_matches(
                    final(posted)@[key],
                    v,
                )
            }),
            (r is Err ==> *final(posted) == *old(posted)),
            (r matches Err(e) ==> e == (if !(self.spec_status() is Verified) {
                BridgeError::MessageNotVerified
            } else if caller@ != self.spec_authority() {
                BridgeError::WriteAuthorityMismatch
            } else {
                BridgeError::AlreadyFinalized
            })),
    {
        if !matches!(self.status, MessageStatus::Verified) {
            return Err(BridgeError::MessageNotVerified);
        }
        if !bytes_eq(caller, &self.write_authority) {
            return Err(BridgeError::WriteAuthorityMismatch);
        }
        let att = match Attestation::parse(&self.buffer) {
            Ok(a) => a,
            Err(_) => {
                proof {
                    assert(false);
                }
                return Err(BridgeError::MessageNotVerified);
            },
        };
        let body = Attestation::body_of(&self.buffer);
        let digest = double_keccak(&body);
        let key = posted_key(&digest);
        let stored = record_of(&att);
        match posted.post(key, stored) {
            Ok(()) => Ok(record_of(&att)),
            Err(e) => Err(e),
        }
    }
}

/// Build the posted record of a parsed attestation.
fn record_of(att: &Attestation) -> (r: PostedMessageV1)
    ensures
        spec_record_matches(r, att@),
{
    let emitter_address = crate::bytes::copy_range(&att.emitter_address, 0, att.emitter_address.len());
    let payload = crate::bytes::copy_range(&att.payload, 0, att.payload.len());
    proof {
        assert(emitter_address@ =~= att.emitter_address@);
        assert(payload@ =~= att.payload@);
    }
    PostedMessageV1 {
        submission_time: att.timestamp,
        nonce: att.nonce,
        emitter_chain: att.emitter_chain,
        emitter_address,
        sequence: att.sequence,
        consistency_level: att.consistency_level,
        payload,
    }
}


/// Whether the guardian indices of a signature list are strictly ascending,
/// so no index repeats.
pub open spec fn spec_strictly_ascending(sigs: Seq<(u8, Seq<u8>, u8)>) -> bool {
    forall|a: int, b: int| 0 <= a < b < sigs.len() ==> (sigs[a].0 as int) < (sigs[b].0 as int)
}

proof fn lemma_check_sigs_iff_from(
    set: GuardianSet,
    digest: Seq<u8>,
    sigs: Seq<(u8, Seq<u8>, u8)>,
    i: int,
    prev: int,
)
    requires
        0 <= i <= sigs.len(),
    ensures
        spec_check_sigs(set, digest, sigs, i, prev) is Ok <==> ((forall|a: int, b: int|
            i <= a < b < sigs.len() ==> (sigs[a].0 as int) < (sigs[b].0 as int)) && (forall|a: int|
            i <= a < sigs.len() ==> prev < (#[trigger] sigs[a].0 as int)) && (forall|a: int|
            i <= a < sigs.len() ==> spec_sig_ok(set, digest, #[trigger] sigs[a]))),
    decreases sigs.len() - i,
{
    if i < sigs.len() {
        lemma_check_sigs_iff_from(set, digest, sigs, i + 1, sigs[i].0 as int);
    }
}

/// Quorum and signature soundness, in one statement: the signature scan of
/// `verify` accepts exactly the lists whose guardian indices are strictly
/// ascending (hence duplicate-free) and whose every signature recovers to
/// its guardian's address; `verify` then succeeds exactly when such a list
/// counts at least `floor(2 N / 3) + 1` entries for a set of `N` guardians.
pub proof fn lemma_check_sigs_iff(set: GuardianSet, digest: Seq<u8>, sigs: Seq<(u8, Seq<u8>, u8)>)
    ensures
        spec_check_sigs(set, digest, sigs, 0, -1) is Ok <==> (spec_strictly_ascending(sigs)
            && (forall|a: int| 0 <= a < sigs.len() ==> spec_sig_ok(set, digest, #[trigger] sigs[a]))),
{
    lemma_check_sigs_iff_from(set, digest, sigs, 0, -1);
}

} // verus!

