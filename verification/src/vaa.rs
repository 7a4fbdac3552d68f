use vstd::prelude::*;

use crate::bytes::{copy_range, read_u16_be, read_u32_be, read_u64_be, spec_u16_of_be,
    spec_u32_of_be, spec_u64_of_be};
use crate::errors::BridgeError;

verus! {

/// One signature entry: which guardian signed, the 64 signature bytes, and
/// the recovery id.
#[derive(Clone, Debug)]
pub struct SignatureEntry {
    pub guardian_index: u8,
    pub signature: Vec<u8>,
    pub recovery_id: u8,
}

/// Mathematical content of a parsed attestation. Signature entries are
/// (guardian index, 64 signature bytes, recovery id) triples.
#[verifier::ext_equal]
pub ghost struct AttestationView {
    pub version: u8,
    pub guardian_set_index: u32,
    pub signatures: Seq<(u8, Seq<u8>, u8)>,
    pub timestamp: u32,
    pub nonce: u32,
    pub emitter_chain: u16,
    pub emitter_address: Seq<u8>,
    pub sequence: u64,
    pub consistency_level: u8,
    pub payload: Seq<u8>,
}

/// A parsed attestation: header, signatures, and body fields. The payload
/// runs to the end of the buffer it was parsed from.
#[derive(Clone, Debug)]
pub struct Attestation {
    pub version: u8,
    pub guardian_set_index: u32,
    pub signatures: Vec<SignatureEntry>,
    pub timestamp: u32,
    pub nonce: u32,
    pub emitter_chain: u16,
    pub emitter_address: Vec<u8>,
    pub sequence: u64,
    pub consistency_level: u8,
    pub payload: Vec<u8>,
}

impl View for Attestation {
    type V = AttestationView;

    open spec fn view(&self) -> AttestationView {
        AttestationView {
            version: self.version,
            guardian_set_index: self.guardian_set_index,
            signatures: Seq::new(
                self.signatures@.len(),
                |i: int|
                    (
                        self.signatures@[i].guardian_index,
                        self.signatures@[i].signature@,
                        self.signatures@[i].recovery_id,
                    ),
            ),
            timestamp: self.timestamp,
            nonce: self.nonce,
            emitter_chain: self.emitter_chain,
            emitter_address: self.emitter_address@,
            sequence: self.sequence,
            consistency_level: self.consistency_level,
            payload: self.payload@,
        }
    }
}

/// What parsing a buffer as an attestation yields: version (1) ‖ guardian
/// set index (4, big-endian) ‖ signature count (1) ‖ that many 66-byte
/// signature entries ‖ timestamp (4) ‖ nonce (4) ‖ emitter chain (2) ‖
/// emitter address (32) ‖ sequence (8) ‖ consistency level (1) ‖ payload
/// (the rest). `None` where the buffer is too short for its own signature
/// count.
pub open spec fn spec_parse_vaa(b: Seq<u8>) -> Option<AttestationView> {
    if b.len() < 6 {
        None
    } else {
        let n = b[5] as int;
        let body = 6 + 66 * n;
        if b.len() < body + 51 {
            None
        } else {
            Some(
                AttestationView {
                    version: b[0],
                    guardian_set_index: spec_u32_of_be(b.subrange(1, 5)),
                    signatures: Seq::new(
                        n as nat,
                        |i: int|
                            (
                                b[6 + 66 * i],
                                b.subrange(6 + 66 * i + 1, 6 + 66 * i + 65),
                                b[6 + 66 * i + 65],
                            ),
                    ),
                    timestamp: spec_u32_of_be(b.subrange(body, body + 4)),
                    nonce: spec_u32_of_be(b.subrange(body + 4, body + 8)),
                    emitter_chain: spec_u16_of_be(b.subrange(body + 8, body + 10)),
                    emitter_address: b.subrange(body + 10, body + 42),
                    sequence: spec_u64_of_be(b.subrange(body + 42, body + 50)),
                    consistency_level: b[body + 50],
                    payload: b.skip(body + 51),
                },
            )
        }
    }
}

/// The body of an attestation buffer: every byte from the timestamp on.
/// The signed digest is computed over exactly these bytes.
pub open spec fn spec_vaa_body(b: Seq<u8>) -> Seq<u8>
    recommends
        spec_parse_vaa(b) is Some,
{
    b.skip(6 + 66 * (b[5] as int))
}

impl Attestation {
    /// Parse a buffer as an attestation. Succeeds exactly where the buffer
    /// is long enough for its own signature count and body.
    pub fn parse(b: &Vec<u8>) -> (r: Result<Attestation, BridgeError>)
        ensures
            (r matches Ok(a) ==> spec_parse_vaa(b@) == Some(a@)),
            (r matches Err(e) ==> e == BridgeError::AccountDidNotDeserialize && spec_parse_vaa(b@)
                is None),
    {
        let total = b.len();
        if total < 6 {
            return Err(BridgeError::AccountDidNotDeserialize);
        }
        let version = b[0];
        let guardian_set_index = read_u32_be(b, 1);
        let n = b[5] as usize;
        if total < 6 + 66 * n + 51 {
            return Err(BridgeError::AccountDidNotDeserialize);
        }
        let body = 6 + 66 * n;
        let mut signatures: Vec<SignatureEntry> = Vec::new();
        let mut i: usize = 0;
        while i < n
            invariant
                n == b@[5] as int,
                total == b@.len(),
                6 + 66 * n + 51 <= total,
                i <= n,
                signatures@.len() == i,
                forall|j: int| #![auto]
                    0 <= j < i ==> signatures@[j].guardian_index == b@[6 + 66 * j]
                        && signatures@[j].signature@ == b@.subrange(6 + 66 * j + 1, 6 + 66 * j + 65)
                        && signatures@[j].recovery_id == b@[6 + 66 * j + 65],
            decreases n - i,
        {
            let base = 6 + 66 * i;
            let entry = SignatureEntry {
                guardian_index: b[base],
                signature: copy_range(b, base + 1, base + 65),
                recovery_id: b[base + 65],
            };
            signatures.push(entry);
            i = i + 1;
        }
        let out = Attestation {
            version,
            guardian_set_index,
            signatures,
            timestamp: read_u32_be(b, body),
            nonce: read_u32_be(b, body + 4),
            emitter_chain: read_u16_be(b, body + 8),
            emitter_address: copy_range(b, body + 10, body + 42),
            sequence: read_u64_be(b, body + 42),
            consistency_level: b[body + 50],
            payload: copy_range(b, body + 51, total),
        };
        proof {
            assert(b@.subrange(1int, 5int) =~= b@.subrange(1, 5));
            assert(b@.subrange(body + 51, total as int) =~= b@.skip(body as int + 51));
            assert(out@.signatures =~= spec_parse_vaa(b@).unwrap().signatures);
            assert(out@ =~= spec_parse_vaa(b@).unwrap());
        }
        Ok(out)
    }

    /// The body bytes of the buffer this attestation was parsed from.
    pub fn body_of(b: &Vec<u8>) -> (r: Vec<u8>)
        requires
            spec_parse_vaa(b@) is Some,
        ensures
            r@ == spec_vaa_body(b@),
    {
        let n = b[5] as usize;
        copy_range(b, 6 + 66 * n, b.len())
    }
}

} // verus!
