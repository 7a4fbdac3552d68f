use vstd::prelude::*;

use crate::bytes::{lemma_u16_be_injective, lemma_u64_be_injective, push_bytes, push_u16_be,
    push_u64_be, spec_u16_be, spec_u64_be};
use crate::errors::BridgeError;

verus! {

// ---------------------------------------------------------------------------
// Derived storage keys. Every account kind lives at a key derived from a
// one-byte domain tag and its fixed-width seed fields, so keys of different
// kinds, or of different seeds, never collide.
// ---------------------------------------------------------------------------

/// Key of the sequence account of an emitter.
pub open spec fn spec_sequence_key(emitter: Seq<u8>) -> Seq<u8> {
    seq![1u8] + emitter
}

/// Key of the claim record of one (emitter, chain, sequence) triple.
pub open spec fn spec_claim_key(emitter: Seq<u8>, chain: u16, sequence: u64) -> Seq<u8> {
    seq![2u8] + emitter + spec_u16_be(chain) + spec_u64_be(sequence)
}

/// Key of the posted record of the message with the given digest.
pub open spec fn spec_posted_key(digest: Seq<u8>) -> Seq<u8> {
    seq![3u8] + digest
}

/// Key of the claim record of one (emitter, chain, sequence) triple.
pub fn claim_key(emitter: &Vec<u8>, chain: u16, sequence: u64) -> (r: Vec<u8>)
    requires
        emitter@.len() == 32,
    ensures
        r@ == spec_claim_key(emitter@, chain, sequence),
{
    let mut out: Vec<u8> = Vec::new();
    out.push(2u8);
    push_bytes(&mut out, emitter);
    push_u16_be(&mut out, chain);
    push_u64_be(&mut out, sequence);
    proof {
        assert(out@ =~= spec_claim_key(emitter@, chain, sequence));
    }
    out
}

/// Key of the sequence account of an emitter.
pub fn sequence_key(emitter: &Vec<u8>) -> (r: Vec<u8>)
    requires
        emitter@.len() == 32,
    ensures
        r@ == spec_sequence_key(emitter@),
{
    let mut out: Vec<u8> = Vec::new();
    out.push(1u8);
    push_bytes(&mut out, emitter);
    proof {
        assert(out@ =~= spec_sequence_key(emitter@));
    }
    out
}

/// Key of the posted record of the message with the given digest.
pub fn posted_key(digest: &Vec<u8>) -> (r: Vec<u8>)
    requires
        digest@.len() == 32,
    ensures
        r@ == spec_posted_key(digest@),
{
    let mut out: Vec<u8> = Vec::new();
    out.push(3u8);
    push_bytes(&mut out, digest);
    proof {
        assert(out@ =~= spec_posted_key(digest@));
    }
    out
}

/// Claim keys are collision free: equal keys mean equal triples.
pub proof fn lemma_claim_key_injective(
    e1: Seq<u8>,
    c1: u16,
    s1: u64,
    e2: Seq<u8>,
    c2: u16,
    s2: u64,
)
    requires
        e1.len() == 32,
        e2.len() == 32,
        spec_claim_key(e1, c1, s1) == spec_claim_key(e2, c2, s2),
    ensures
        e1 == e2,
        c1 == c2,
        s1 == s2,
{
    let k1 = spec_claim_key(e1, c1, s1);
    let k2 = spec_claim_key(e2, c2, s2);
    assert(k1.subrange(1, 33) =~= e1);
    assert(k2.subrange(1, 33) =~= e2);
    assert(k1.subrange(33, 35) =~= spec_u16_be(c1));
    assert(k2.subrange(33, 35) =~= spec_u16_be(c2));
    assert(k1.subrange(35, 43) =~= spec_u64_be(s1));
    assert(k2.subrange(35, 43) =~= spec_u64_be(s2));
    lemma_u16_be_injective(c1, c2);
    lemma_u64_be_injective(s1, s2);
}

// ---------------------------------------------------------------------------
// The ledger abstraction: a key-value store in which at most one writer can
// ever win the creation of a given key.
// ---------------------------------------------------------------------------

/// A key-value store keyed by derived keys. Keys are unique; a key, once
/// created, holds its value forever.
pub struct Ledger<V> {
    entries: Vec<(Vec<u8>, V)>,
}

/// Whether the keys of an entry list are pairwise distinct.
pub closed spec fn spec_entries_distinct<V>(s: Seq<(Vec<u8>, V)>) -> bool {
    forall|a: int, b: int| 0 <= a < b < s.len() ==> (#[trigger] s[a]).0@ != (#[trigger] s[b]).0@
}

/// The map a list of entries denotes.
pub closed spec fn spec_entries_map<V>(s: Seq<(Vec<u8>, V)>) -> Map<Seq<u8>, V>
    decreases s.len(),
{
    if s.len() == 0 {
        Map::empty()
    } else {
        spec_entries_map(s.drop_last()).insert(s.last().0@, s.last().1)
    }
}

proof fn lemma_entries_map_domain<V>(s: Seq<(Vec<u8>, V)>, k: Seq<u8>)
    ensures
        spec_entries_map(s).contains_key(k) <==> exists|i: int|
            0 <= i < s.len() && (#[trigger] s[i]).0@ == k,
    decreases s.len(),
{
    if s.len() > 0 {
        lemma_entries_map_domain(s.drop_last(), k);
        if spec_entries_map(s).contains_key(k) {
            if s.last().0@ == k {
                assert((s[s.len() - 1]).0@ == k);
            } else {
                let i = choose|i: int| 0 <= i < s.drop_last().len() && (#[trigger] s.drop_last()[i]).0@ == k;
                assert((s[i]).0@ == k);
            }
        }
        if exists|i: int| 0 <= i < s.len() && (#[trigger] s[i]).0@ == k {
            let i = choose|i: int| 0 <= i < s.len() && (#[trigger] s[i]).0@ == k;
            if i < s.len() - 1 {
                assert((s.drop_last()[i]).0@ == k);
            }
        }
    }
}

proof fn lemma_entries_map_at<V>(s: Seq<(Vec<u8>, V)>, i: int)
    requires
        0 <= i < s.len(),
        spec_entries_distinct(s),
    ensures
        spec_entries_map(s).contains_key(s[i].0@),
        spec_entries_map(s)[s[i].0@] == s[i].1,
    decreases s.len(),
{
    if i == s.len() - 1 {
        lemma_entries_map_domain(s, s[i].0@);
    } else {
        assert(spec_entries_distinct(s.drop_last())) by {
            assert(forall|a: int, b: int|
                0 <= a < b < s.drop_last().len() ==> (#[trigger] s.drop_last()[a]).0@ != (
                #[trigger] s.drop_last()[b]).0@) by {
                assert(forall|a: int|
                    0 <= a < s.drop_last().len() ==> (#[trigger] s.drop_last()[a]) == s[a]);
            }
        }
        lemma_entries_map_at(s.drop_last(), i);
        assert((s.drop_last()[i]).0@ == s[i].0@);
        assert(s.last().0@ != s[i].0@);
    }
}

impl<V> Ledger<V> {
    /// Keys are unique.
    pub closed spec fn wf(self) -> bool {
        spec_entries_distinct(self.entries@)
    }

    /// The stored mapping from keys to values.
    pub closed spec fn view(self) -> Map<Seq<u8>, V> {
        spec_entries_map(self.entries@)
    }

    /// An empty ledger.
    pub fn new() -> (r: Self)
        ensures
            r.wf(),
            r@ == Map::<Seq<u8>, V>::empty(),
    {
        Ledger { entries: Vec::new() }
    }

    /// Whether a key is occupied.
    pub fn contains_key(&self, k: &Vec<u8>) -> (r: bool)
        requires
            self.wf(),
        ensures
            r == self@.contains_key(k@),
    {
        proof {
            lemma_entries_map_domain(self.entries@, k@);
        }
        let n = self.entries.len();
        let mut i: usize = 0;
        while i < n
            invariant
                self.wf(),
                n == self.entries@.len(),
                i <= n,
                forall|j: int| 0 <= j < i ==> (#[trigger] self.entries@[j]).0@ != k@,
            decreases n - i,
        {
            if crate::bytes::bytes_eq(&self.entries[i].0, k) {
                proof {
                    lemma_entries_map_domain(self.entries@, k@);
                    assert((self.entries@[i as int]).0@ == k@);
                }
                return true;
            }
            i = i + 1;
        }
        false
    }

    /// The value at a key, if the key is occupied.
    pub fn get(&self, k: &Vec<u8>) -> (r: Option<&V>)
        requires
            self.wf(),
        ensures
            (r matches Some(v) ==> self@.contains_key(k@) && self@[k@] == *v),
            (r is None ==> !self@.contains_key(k@)),
    {
        proof {
            lemma_entries_map_domain(self.entries@, k@);
        }
        let n = self.entries.len();
        let mut i: usize = 0;
        while i < n
            invariant
                self.wf(),
                n == self.entries@.len(),
                i <= n,
                forall|j: int| 0 <= j < i ==> (#[trigger] self.entries@[j]).0@ != k@,
            decreases n - i,
        {
            if crate::bytes::bytes_eq(&self.entries[i].0, k) {
                proof {
                    lemma_entries_map_at(self.entries@, i as int);
                }
                return Some(&self.entries[i].1);
            }
            i = i + 1;
        }
        None
    }

    /// Create a key. The store's commitment rule makes creation first-writer
    /// -wins: an occupied key can never be created again.
    pub fn insert_new(&mut self, k: Vec<u8>, v: V)
        requires
            old(self).wf(),
            !old(self)@.contains_key(k@),
        ensures
            final(self).wf(),
            final(self)@ == old(self)@.insert(k@, v),
    {
        proof {
            lemma_entries_map_domain(self.entries@, k@);
        }
        self.entries.push((k, v));
        proof {
            let s = self.entries@;
            assert(s.drop_last() =~= old(self).entries@);
            assert(forall|j: int| 0 <= j < s.len() - 1 ==> (#[trigger] s[j]).0@ != s[s.len()
                - 1].0@) by {
                if exists|j: int| 0 <= j < s.len() - 1 && (#[trigger] s[j]).0@ == s[s.len()
                    - 1].0@ {
                    let j = choose|j: int|
                        0 <= j < s.len() - 1 && (#[trigger] s[j]).0@ == s[s.len() - 1].0@;
                    assert((old(self).entries@[j]).0@ == k@);
                    lemma_entries_map_domain(old(self).entries@, s[j].0@);
                }
            }
            assert(spec_entries_distinct(s)) by {
                assert(forall|a: int|
                    0 <= a < s.len() - 1 ==> (#[trigger] s[a]) == old(self).entries@[a]);
            }
        }
    }
}

// ---------------------------------------------------------------------------
// ReplayGuard: first-writer-wins claims over (emitter, chain, sequence).
// ---------------------------------------------------------------------------

/// The anti-replay registry: the existence of a claim key is the claim.
pub struct ReplayGuard {
    claims: Ledger<()>,
}

impl ReplayGuard {
    pub closed spec fn wf(self) -> bool {
        self.claims.wf()
    }

    /// The set of claim keys consumed so far.
    pub closed spec fn view(self) -> Map<Seq<u8>, ()> {
        self.claims@
    }

    /// An empty guard: nothing claimed yet.
    pub fn new() -> (r: Self)
        ensures
            r.wf(),
            r@ == Map::<Seq<u8>, ()>::empty(),
    {
        ReplayGuard { claims: Ledger::new() }
    }

    /// Consume the message of one (emitter, chain, sequence) triple.
    /// Succeeds exactly when the triple has never been claimed; a second
    /// claim of the same triple fails with `MessageAlreadyClaimed` and
    /// changes nothing.
    pub fn claim(&mut self, emitter: &Vec<u8>, chain: u16, sequence: u64) -> (r: Result<
        (),
        BridgeError,
    >)
        requires
            old(self).wf(),
            emitter@.len() == 32,
        ensures
            final(self).wf(),
            (r is Ok <==> !old(self)@.contains_key(spec_claim_key(emitter@, chain, sequence))),
            (r is Ok ==> final(self)@ == old(self)@.insert(
                spec_claim_key(emitter@, chain, sequence),
                (),
            )),
            (r matches Err(e) ==> e == BridgeError::MessageAlreadyClaimed && *final(self) == *old(
                self,
            )),
    {
        let key = claim_key(emitter, chain, sequence);
        if self.claims.contains_key(&key) {
            Err(BridgeError::MessageAlreadyClaimed)
        } else {
            self.claims.insert_new(key, ());
            Ok(())
        }
    }
}

/// Replay protection: after a triple is claimed, a second claim of the same
/// triple finds its key occupied and must fail, while a claim of any
/// different triple is untouched by it: its key is occupied afterwards
/// exactly if it was occupied before.
pub proof fn lemma_claim_at_most_once(
    m: Map<Seq<u8>, ()>,
    e1: Seq<u8>,
    c1: u16,
    s1: u64,
    e2: Seq<u8>,
    c2: u16,
    s2: u64,
)
    requires
        e1.len() == 32,
        e2.len() == 32,
    ensures
        m.insert(spec_claim_key(e1, c1, s1), ()).contains_key(spec_claim_key(e1, c1, s1)),
        (e1, c1, s1) != (e2, c2, s2) ==> (m.insert(spec_claim_key(e1, c1, s1), ()).contains_key(
            spec_claim_key(e2, c2, s2),
        ) <==> m.contains_key(spec_claim_key(e2, c2, s2))),
{
    if (e1, c1, s1) != (e2, c2, s2) {
        if spec_claim_key(e1, c1, s1) == spec_claim_key(e2, c2, s2) {
            lemma_claim_key_injective(e1, c1, s1, e2, c2, s2);
        }
    }
}

// ---------------------------------------------------------------------------
// PostedMessageStore: finalized records, read-only once produced.
// ---------------------------------------------------------------------------

use crate::accounts::PostedMessageV1;

/// The store of finalized message records, keyed by the posted key of the
/// message digest. A record, once produced, is immutable.
pub struct PostedMessageStore {
    posted: Ledger<PostedMessageV1>,
}

impl PostedMessageStore {
    pub closed spec fn wf(self) -> bool {
        self.posted.wf()
    }

    /// The records posted so far, by key.
    pub closed spec fn view(self) -> Map<Seq<u8>, PostedMessageV1> {
        self.posted@
    }

    /// An empty store.
    pub fn new() -> (r: Self)
        ensures
            r.wf(),
            r@ == Map::<Seq<u8>, PostedMessageV1>::empty(),
    {
        PostedMessageStore { posted: Ledger::new() }
    }

    /// Create the record at a key; fails with `AlreadyFinalized` exactly
    /// when the key is already occupied.
    pub fn post(&mut self, key: Vec<u8>, record: PostedMessageV1) -> (r: Result<(), BridgeError>)
        requires
            old(self).wf(),
        ensures
            final(self).wf(),
            (r is Ok <==> !old(self)@.contains_key(key@)),
            (r is Ok ==> final(self)@ == old(self)@.insert(key@, record)),
            (r matches Err(e) ==> e == BridgeError::AlreadyFinalized && *final(self) == *old(
                self,
            )),
    {
        if self.posted.contains_key(&key) {
            Err(BridgeError::AlreadyFinalized)
        } else {
            self.posted.insert_new(key, record);
            Ok(())
        }
    }

    /// Read the record at a key.
    pub fn get(&self, key: &Vec<u8>) -> (r: Option<&PostedMessageV1>)
        requires
            self.wf(),
        ensures
            (r matches Some(v) ==> self@.contains_key(key@) && self@[key@] == *v),
            (r is None ==> !self@.contains_key(key@)),
    {
        self.posted.get(key)
    }
}

} // verus!
