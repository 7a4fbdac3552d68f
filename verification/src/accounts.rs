use vstd::prelude::*;

use crate::bytes::{
    copy_range, lemma_u16_le_canonical, lemma_u16_le_round_trip, lemma_u32_le_canonical,
    lemma_u32_le_round_trip, lemma_u64_le_canonical, lemma_u64_le_round_trip, push_bytes,
    push_u16_le, push_u32_le, push_u64_le, read_u16_le, read_u32_le, read_u64_le, spec_u16_le,
    spec_u32_le, spec_u32_of_le, spec_u64_le, spec_u64_of_le,
};
use crate::codec::{spec_core_bridge_id, core_bridge_id, LegacyAccount};
use crate::errors::BridgeError;

verus! {

// ---------------------------------------------------------------------------
// Sequence: the forever-increasing message counter of one emitter.
// ---------------------------------------------------------------------------

/// Counter of messages an emitter has posted.
#[derive(Clone, Copy, Debug, PartialEq, Eq, Structural)]
pub struct Sequence(pub u64);

/// The one counter value whose bare little-endian encoding coincides with the
/// modern discriminator of `Sequence`. A legacy buffer holding it would be
/// misread as a modern one, so well-formedness excludes it.
pub open spec fn spec_sequence_forbidden() -> u64 {
    spec_u64_of_le(seq![44u8, 170, 231, 254, 142, 42, 34, 199])
}

/// Derivation seeds of the sequence account of an emitter.
pub open spec fn spec_sequence_seeds(emitter: Seq<u8>) -> Seq<Seq<u8>> {
    seq![seq![115u8, 101, 113, 117, 101, 110, 99, 101], emitter]
}

impl Sequence {
    /// The address of the sequence account of `emitter` under program `id`,
    /// if one can be derived.
    pub fn key(id: &Vec<u8>, emitter: &Vec<u8>) -> (r: Option<Vec<u8>>)
        requires
            id@.len() == 32,
            emitter@.len() == 32,
        ensures
            (r matches Some(a) ==> (match crate::crypto::spec_program_address(
                spec_sequence_seeds(emitter@),
                id@,
            ) {
                Some(p) => p.0 == a@,
                None => false,
            }) && a@.len() == 32),
            (r is None ==> crate::crypto::spec_program_address(spec_sequence_seeds(emitter@), id@)
                is None),
    {
        let tag = vec![115u8, 101, 113, 117, 101, 110, 99, 101];
        let mut em: Vec<u8> = Vec::new();
        push_bytes(&mut em, emitter);
        let mut seeds: Vec<Vec<u8>> = Vec::new();
        seeds.push(tag);
        seeds.push(em);
        proof {
            assert(seeds.deep_view() =~~= spec_sequence_seeds(emitter@));
        }
        match crate::crypto::find_program_address(&seeds, id) {
            Some(p) => Some(p.0),
            None => None,
        }
    }

    /// Read the counter of a sequence account from its balance, as the
    /// ledger stores it.
    pub fn get(lamports: u64) -> (r: Result<Sequence, BridgeError>)
        ensures
            r == Ok::<Sequence, BridgeError>(Sequence(lamports)),
    {
        Ok(Sequence(lamports))
    }

    /// The counter value.
    pub fn value(&self) -> (r: u64)
        ensures
            r == self.0,
    {
        self.0
    }

    /// The one counter value a legacy-layout account cannot hold.
    pub fn forbidden_value() -> (r: u64)
        ensures
            r == spec_sequence_forbidden(),
    {
        let d = Self::modern_discriminator();
        let r = read_u64_le(&d, 0);
        proof {
            assert(d@.subrange(0, 8) =~= d@);
        }
        r
    }
}

impl LegacyAccount for Sequence {
    open spec fn spec_legacy_discriminator() -> Seq<u8> {
        Seq::<u8>::empty()
    }

    open spec fn spec_modern_discriminator() -> Seq<u8> {
        seq![44u8, 170, 231, 254, 142, 42, 34, 199]
    }

    open spec fn spec_program_id() -> Seq<u8> {
        spec_core_bridge_id()
    }

    open spec fn spec_valid(self) -> bool {
        self.0 != spec_sequence_forbidden()
    }

    open spec fn spec_encoded(self) -> Seq<u8> {
        spec_u64_le(self.0)
    }

    open spec fn spec_congruent(self, other: Self) -> bool {
        self.0 == other.0
    }

    proof fn lemma_discriminator_shape() {
    }

    proof fn lemma_encode_injective(self, other: Self) {
        lemma_u64_le_round_trip(self.0);
        lemma_u64_le_round_trip(other.0);
    }

    proof fn lemma_legacy_prefix_sound(self) {
        let e = Self::spec_legacy_discriminator() + self.spec_encoded();
        assert(e =~= self.spec_encoded());
        assert(e.take(8) =~= self.spec_encoded());
        lemma_u64_le_round_trip(self.0);
        if e.take(8) == Self::spec_modern_discriminator() {
            assert(spec_u64_of_le(self.spec_encoded()) == self.0);
            assert(false);
        }
    }

    fn legacy_discriminator() -> (r: Vec<u8>) {
        Vec::new()
    }

    fn modern_discriminator() -> (r: Vec<u8>) {
        let r = vec![44u8, 170, 231, 254, 142, 42, 34, 199];
        proof {
            assert(r@ =~= Self::spec_modern_discriminator());
        }
        r
    }

    fn program_id() -> (r: Vec<u8>) {
        core_bridge_id()
    }

    fn encode_fields(&self) -> (r: Vec<u8>) {
        let mut out: Vec<u8> = Vec::new();
        push_u64_le(&mut out, self.0);
        proof {
            assert(out@ =~= self.spec_encoded());
        }
        out
    }

    fn decode_fields(b: &Vec<u8>) -> (r: Option<Self>) {
        if b.len() != 8 {
            proof {
                if exists|t: Sequence| t.spec_valid() && t.spec_encoded() == b@ {
                    let t = choose|t: Sequence| t.spec_valid() && t.spec_encoded() == b@;
                    assert(t.spec_encoded().len() == 8);
                }
            }
            return None;
        }
        let v = read_u64_le(b, 0);
        proof {
            assert(b@.subrange(0, 8) =~= b@);
        }
        let forbidden = Self::forbidden_value();
        if v == forbidden {
            proof {
                if exists|t: Sequence| t.spec_valid() && t.spec_encoded() == b@ {
                    let t = choose|t: Sequence| t.spec_valid() && t.spec_encoded() == b@;
                    lemma_u64_le_round_trip(t.0);
                }
            }
            None
        } else {
            proof {
                lemma_u64_le_canonical(b@);
            }
            Some(Sequence(v))
        }
    }
}

// ---------------------------------------------------------------------------
// GuardianSet: one versioned list of guardian addresses with an expiration.
// ---------------------------------------------------------------------------

/// A versioned set of guardian addresses. `keys` holds the 20-byte addresses
/// back to back, in guardian-index order. `expiration_time` is in unix
/// seconds; zero means the set never expires.
#[derive(Clone, Debug)]
pub struct GuardianSet {
    pub index: u32,
    pub keys: Vec<u8>,
    pub expiration_time: u32,
}

impl GuardianSet {
    /// Number of guardians in the set.
    pub open spec fn spec_num_keys(self) -> nat {
        self.keys@.len() / 20
    }

    /// Address of guardian `i`.
    pub open spec fn spec_key(self, i: int) -> Seq<u8> {
        self.keys@.subrange(20 * i, 20 * i + 20)
    }

    /// Whether the set may still vouch for attestations at `now`. A set with
    /// expiration time zero never expires; `now` equal to the expiration time
    /// counts as expired.
    pub open spec fn spec_is_active(self, now: u32) -> bool {
        self.expiration_time == 0 || now < self.expiration_time
    }

    /// Number of guardians in the set.
    pub fn num_keys(&self) -> (r: usize)
        ensures
            r == self.spec_num_keys(),
    {
        self.keys.len() / 20
    }

    /// Address of guardian `i`.
    pub fn guardian_key(&self, i: usize) -> (r: Vec<u8>)
        requires
            i < self.spec_num_keys(),
        ensures
            r@ == self.spec_key(i as int),
            r@.len() == 20,
    {
        let kl = self.keys.len();
        proof {
            assert(20 * i + 20 <= kl) by (nonlinear_arith)
                requires
                    i < kl / 20,
            ;
        }
        copy_range(&self.keys, 20 * i, 20 * i + 20)
    }

    /// Whether the set may still vouch for attestations at `now`.
    pub fn is_active(&self, now: u32) -> (r: bool)
        ensures
            r == self.spec_is_active(now),
    {
        self.expiration_time == 0 || now < self.expiration_time
    }
}

impl LegacyAccount for GuardianSet {
    open spec fn spec_legacy_discriminator() -> Seq<u8> {
        Seq::<u8>::empty()
    }

    open spec fn spec_modern_discriminator() -> Seq<u8> {
        seq![120u8, 77, 74, 98, 34, 83, 96, 125]
    }

    open spec fn spec_program_id() -> Seq<u8> {
        spec_core_bridge_id()
    }

    open spec fn spec_valid(self) -> bool {
        &&& self.keys@.len() % 20 == 0
        &&& self.keys@.len() <= 20 * 255
    }

    open spec fn spec_encoded(self) -> Seq<u8> {
        spec_u32_le(self.index) + spec_u32_le((self.keys@.len() / 20) as u32) + self.keys@
            + spec_u32_le(self.expiration_time)
    }

    open spec fn spec_congruent(self, other: Self) -> bool {
        self.index == other.index && self.keys@ == other.keys@ && self.expiration_time
            == other.expiration_time
    }

    proof fn lemma_discriminator_shape() {
    }

    proof fn lemma_encode_injective(self, other: Self) {
        let a = self.spec_encoded();
        let b = other.spec_encoded();
        assert(a.len() == 12 + self.keys@.len());
        assert(b.len() == 12 + other.keys@.len());
        let ka = self.keys@.len() as int;
        assert(a.subrange(0, 4) =~= spec_u32_le(self.index));
        assert(b.subrange(0, 4) =~= spec_u32_le(other.index));
        lemma_u32_le_round_trip(self.index);
        lemma_u32_le_round_trip(other.index);
        assert(a.subrange(8, 8 + ka) =~= self.keys@);
        assert(b.subrange(8, 8 + ka) =~= other.keys@);
        assert(a.subrange(8 + ka, 12 + ka) =~= spec_u32_le(self.expiration_time));
        assert(b.subrange(8 + ka, 12 + ka) =~= spec_u32_le(other.expiration_time));
        lemma_u32_le_round_trip(self.expiration_time);
        lemma_u32_le_round_trip(other.expiration_time);
        assert(self.index == other.index && self.keys@ == other.keys@ && self.expiration_time
            == other.expiration_time);
    }

    proof fn lemma_legacy_prefix_sound(self) {
        let e = Self::spec_legacy_discriminator() + self.spec_encoded();
        assert(e =~= self.spec_encoded());
        let num = (self.keys@.len() / 20) as u32;
        if e.take(8) == Self::spec_modern_discriminator() {
            assert(e.take(8).subrange(4, 8) =~= spec_u32_le(num));
            assert(Self::spec_modern_discriminator().subrange(4, 8) =~= seq![34u8, 83, 96, 125]);
            lemma_u32_le_round_trip(num);
            assert(spec_u32_of_le(seq![34u8, 83, 96, 125]) == ((125u32) << 24) | ((96u32) << 16) | (
            (83u32) << 8) | (34u32)) by {
                assert(seq![34u8, 83, 96, 125].reverse() =~= seq![125u8, 96, 83, 34]);
            }
            assert(((125u32) << 24) | ((96u32) << 16) | ((83u32) << 8) | (34u32) == 2103464738u32)
                by (bit_vector);
            assert(num == 2103464738);
            assert(false);
        }
    }

    fn legacy_discriminator() -> (r: Vec<u8>) {
        Vec::new()
    }

    fn modern_discriminator() -> (r: Vec<u8>) {
        let r = vec![120u8, 77, 74, 98, 34, 83, 96, 125];
        proof {
            assert(r@ =~= Self::spec_modern_discriminator());
        }
        r
    }

    fn program_id() -> (r: Vec<u8>) {
        core_bridge_id()
    }

    fn encode_fields(&self) -> (r: Vec<u8>) {
        let mut out: Vec<u8> = Vec::new();
        push_u32_le(&mut out, self.index);
        push_u32_le(&mut out, (self.keys.len() / 20) as u32);
        push_bytes(&mut out, &self.keys);
        push_u32_le(&mut out, self.expiration_time);
        proof {
            assert(out@ =~= self.spec_encoded());
        }
        out
    }

    fn decode_fields(b: &Vec<u8>) -> (r: Option<Self>) {
        let total = b.len();
        if total < 12 {
            proof {
                if exists|t: GuardianSet| t.spec_valid() && t.spec_encoded() == b@ {
                    let t = choose|t: GuardianSet| t.spec_valid() && t.spec_encoded() == b@;
                    assert(t.spec_encoded().len() >= 12);
                }
            }
            return None;
        }
        let index = read_u32_le(b, 0);
        let nk = read_u32_le(b, 4);
        proof {
            if exists|t: GuardianSet| t.spec_valid() && t.spec_encoded() == b@ {
                let t = choose|t: GuardianSet| t.spec_valid() && t.spec_encoded() == b@;
                let num = (t.keys@.len() / 20) as u32;
                assert(b@.subrange(4, 8) =~= spec_u32_le(num));
                lemma_u32_le_round_trip(num);
                assert(nk == num);
                assert(nk <= 255);
                assert(b@.len() == 12 + 20 * (nk as int));
            }
        }
        if nk > 255 {
            return None;
        }
        if total != 12 + 20 * (nk as usize) {
            return None;
        }
        let keys = copy_range(b, 8, total - 4);
        let exp = read_u32_le(b, total - 4);
        let out = GuardianSet { index, keys, expiration_time: exp };
        proof {
            let n = total as int;
            lemma_u32_le_canonical(b@.subrange(0, 4));
            lemma_u32_le_canonical(b@.subrange(4, 8));
            lemma_u32_le_canonical(b@.subrange(n - 4, n));
            assert(out.keys@.len() == 20 * (nk as int));
            assert(out.keys@.len() % 20 == 0 && out.keys@.len() <= 20 * 255);
            assert((out.keys@.len() / 20) as u32 == nk);
            assert(b@.subrange(0, 4).len() == 4 && b@.subrange(4, 8).len() == 4 && b@.subrange(
                n - 4,
                n,
            ).len() == 4);
            assert(out.spec_encoded() == spec_u32_le(index) + spec_u32_le(nk) + b@.subrange(
                8,
                n - 4,
            ) + spec_u32_le(exp));
            assert(spec_u32_le(index) == b@.subrange(0, 4));
            assert(spec_u32_le(nk) == b@.subrange(4, 8));
            assert(spec_u32_le(exp) == b@.subrange(n - 4, n));
            assert(out.spec_encoded() =~= b@);
        }
        Some(out)
    }
}

// ---------------------------------------------------------------------------
// PostedMessageV1: the finalized, consumer-facing message record.
// ---------------------------------------------------------------------------

/// A finalized posted message: the verified attestation's header fields and
/// payload, immutable once produced.
#[derive(Clone, Debug)]
pub struct PostedMessageV1 {
    pub submission_time: u32,
    pub nonce: u32,
    pub emitter_chain: u16,
    pub emitter_address: Vec<u8>,
    pub sequence: u64,
    pub consistency_level: u8,
    pub payload: Vec<u8>,
}

impl LegacyAccount for PostedMessageV1 {
    open spec fn spec_legacy_discriminator() -> Seq<u8> {
        seq![118u8, 97, 97, 1]
    }

    open spec fn spec_modern_discriminator() -> Seq<u8> {
        seq![132u8, 123, 204, 167, 115, 183, 240, 7]
    }

    open spec fn spec_program_id() -> Seq<u8> {
        spec_core_bridge_id()
    }

    open spec fn spec_valid(self) -> bool {
        &&& self.emitter_address@.len() == 32
        &&& self.payload@.len() <= 0xffffffff
    }

    open spec fn spec_encoded(self) -> Seq<u8> {
        spec_u32_le(self.submission_time) + spec_u32_le(self.nonce) + spec_u16_le(
            self.emitter_chain,
        ) + self.emitter_address@ + spec_u64_le(self.sequence) + seq![self.consistency_level]
            + spec_u32_le(self.payload@.len() as u32) + self.payload@
    }

    open spec fn spec_congruent(self, other: Self) -> bool {
        self.submission_time == other.submission_time && self.nonce == other.nonce
            && self.emitter_chain == other.emitter_chain && self.emitter_address@
            == other.emitter_address@ && self.sequence == other.sequence
            && self.consistency_level == other.consistency_level && self.payload@
            == other.payload@
    }

    proof fn lemma_discriminator_shape() {
    }

    proof fn lemma_encode_injective(self, other: Self) {
        let a = self.spec_encoded();
        let b = other.spec_encoded();
        assert(a.len() == 55 + self.payload@.len());
        assert(b.len() == 55 + other.payload@.len());
        let pa = self.payload@.len() as int;
        assert(a.subrange(0, 4) =~= spec_u32_le(self.submission_time));
        assert(b.subrange(0, 4) =~= spec_u32_le(other.submission_time));
        assert(a.subrange(4, 8) =~= spec_u32_le(self.nonce));
        assert(b.subrange(4, 8) =~= spec_u32_le(other.nonce));
        assert(a.subrange(8, 10) =~= spec_u16_le(self.emitter_chain));
        assert(b.subrange(8, 10) =~= spec_u16_le(other.emitter_chain));
        assert(a.subrange(10, 42) =~= self.emitter_address@);
        assert(b.subrange(10, 42) =~= other.emitter_address@);
        assert(a.subrange(42, 50) =~= spec_u64_le(self.sequence));
        assert(b.subrange(42, 50) =~= spec_u64_le(other.sequence));
        assert(a[50] == self.consistency_level && b[50] == other.consistency_level);
        assert(a.subrange(55, 55 + pa) =~= self.payload@);
        assert(b.subrange(55, 55 + pa) =~= other.payload@);
        lemma_u32_le_round_trip(self.submission_time);
        lemma_u32_le_round_trip(other.submission_time);
        lemma_u32_le_round_trip(self.nonce);
        lemma_u32_le_round_trip(other.nonce);
        lemma_u16_le_round_trip(self.emitter_chain);
        lemma_u16_le_round_trip(other.emitter_chain);
        lemma_u64_le_round_trip(self.sequence);
        lemma_u64_le_round_trip(other.sequence);
        assert(self.submission_time == other.submission_time && self.nonce == other.nonce
            && self.emitter_chain == other.emitter_chain && self.emitter_address@
            == other.emitter_address@ && self.sequence == other.sequence && self.consistency_level
            == other.consistency_level && self.payload@ == other.payload@);
    }

    proof fn lemma_legacy_prefix_sound(self) {
        let e = Self::spec_legacy_discriminator() + self.spec_encoded();
        assert(e.len() >= 8);
        if e.take(8) == Self::spec_modern_discriminator() {
            assert(e.take(8)[0] == 118u8);
            assert(Self::spec_modern_discriminator()[0] == 132u8);
            assert(false);
        }
    }

    fn legacy_discriminator() -> (r: Vec<u8>) {
        let r = vec![118u8, 97, 97, 1];
        proof {
            assert(r@ =~= Self::spec_legacy_discriminator());
        }
        r
    }

    fn modern_discriminator() -> (r: Vec<u8>) {
        let r = vec![132u8, 123, 204, 167, 115, 183, 240, 7];
        proof {
            assert(r@ =~= Self::spec_modern_discriminator());
        }
        r
    }

    fn program_id() -> (r: Vec<u8>) {
        core_bridge_id()
    }

    fn encode_fields(&self) -> (r: Vec<u8>) {
        let mut out: Vec<u8> = Vec::new();
        push_u32_le(&mut out, self.submission_time);
        push_u32_le(&mut out, self.nonce);
        push_u16_le(&mut out, self.emitter_chain);
        push_bytes(&mut out, &self.emitter_address);
        push_u64_le(&mut out, self.sequence);
        out.push(self.consistency_level);
        push_u32_le(&mut out, self.payload.len() as u32);
        push_bytes(&mut out, &self.payload);
        proof {
            assert(out@ =~= self.spec_encoded());
        }
        out
    }

    #[verifier::rlimit(60)]
    fn decode_fields(b: &Vec<u8>) -> (r: Option<Self>) {
        let total = b.len();
        if total < 55 {
            proof {
                if exists|t: PostedMessageV1| t.spec_valid() && t.spec_encoded() == b@ {
                    let t = choose|t: PostedMessageV1| t.spec_valid() && t.spec_encoded() == b@;
                    assert(t.spec_encoded().len() >= 55);
                }
            }
            return None;
        }
        let submission_time = read_u32_le(b, 0);
        let nonce = read_u32_le(b, 4);
        let emitter_chain = read_u16_le(b, 8);
        let emitter_address = copy_range(b, 10, 42);
        let sequence = read_u64_le(b, 42);
        let consistency_level = b[50];
        let plen = read_u32_le(b, 51);
        proof {
            if exists|t: PostedMessageV1| t.spec_valid() && t.spec_encoded() == b@ {
                let t = choose|t: PostedMessageV1| t.spec_valid() && t.spec_encoded() == b@;
                let num = t.payload@.len() as u32;
                assert(b@.subrange(51, 55) =~= spec_u32_le(num));
                lemma_u32_le_round_trip(num);
                assert(plen == num);
                assert(b@.len() == 55 + (plen as int));
            }
        }
        if !(total - 55 == plen as usize) {
            return None;
        }
        let payload = copy_range(b, 55, total);
        let out = PostedMessageV1 {
            submission_time,
            nonce,
            emitter_chain,
            emitter_address,
            sequence,
            consistency_level,
            payload,
        };
        proof {
            let n = total as int;
            lemma_u32_le_canonical(b@.subrange(0, 4));
            lemma_u32_le_canonical(b@.subrange(4, 8));
            lemma_u16_le_canonical(b@.subrange(8, 10));
            lemma_u64_le_canonical(b@.subrange(42, 50));
            lemma_u32_le_canonical(b@.subrange(51, 55));
            assert(out.payload@.len() == n - 55);
            assert(out.payload@.len() as u32 == plen);
            assert(out.spec_encoded() == spec_u32_le(submission_time) + spec_u32_le(nonce)
                + spec_u16_le(emitter_chain) + b@.subrange(10, 42) + spec_u64_le(sequence) + seq![
                b@[50],
            ] + spec_u32_le(plen) + b@.subrange(55, n));
            assert(spec_u32_le(submission_time) == b@.subrange(0, 4));
            assert(spec_u32_le(nonce) == b@.subrange(4, 8));
            assert(spec_u16_le(emitter_chain) == b@.subrange(8, 10));
            assert(spec_u64_le(sequence) == b@.subrange(42, 50));
            assert(spec_u32_le(plen) == b@.subrange(51, 55));
            assert(out.spec_encoded() =~= b@);
        }
        Some(out)
    }
}

} // verus!
