use vstd::prelude::*;

use crate::accounts::GuardianSet;
use crate::codec::LegacyAccount;
use crate::errors::BridgeError;

verus! {

/// The versioned, append-only table of guardian sets. Set `i` sits at
/// position `i`; indices are contiguous from zero.
pub struct GuardianSetRegistry {
    sets: Vec<GuardianSet>,
}

impl GuardianSetRegistry {
    /// Every stored set is well formed and carries its own position as its
    /// index.
    pub closed spec fn wf(self) -> bool {
        forall|i: int| #![trigger self.sets@[i]]
            0 <= i < self.sets@.len() ==> self.sets@[i].index == i && self.sets@[i].spec_valid()
    }

    /// Number of guardian sets ever created.
    pub closed spec fn spec_len(self) -> nat {
        self.sets@.len()
    }

    /// The set with index `i`.
    pub closed spec fn spec_at(self, i: int) -> GuardianSet {
        self.sets@[i]
    }

    /// An empty registry.
    pub fn new() -> (r: Self)
        ensures
            r.wf(),
            r.spec_len() == 0,
    {
        GuardianSetRegistry { sets: Vec::new() }
    }

    /// Number of guardian sets ever created.
    pub fn len(&self) -> (r: usize)
        ensures
            r == self.spec_len(),
    {
        self.sets.len()
    }

    /// Look a guardian set up by its index; fails with `GuardianSetNotFound`
    /// exactly when no set with that index exists.
    pub fn get(&self, index: u32) -> (r: Result<&GuardianSet, BridgeError>)
        requires
            self.wf(),
        ensures
            (r is Ok <==> (index as int) < self.spec_len()),
            (r matches Ok(s) ==> *s == self.spec_at(index as int) && s.spec_valid()),
            (r matches Err(e) ==> e == BridgeError::GuardianSetNotFound),
    {
        let idx = index as usize;
        if idx < self.sets.len() {
            Ok(&self.sets[idx])
        } else {
            Err(BridgeError::GuardianSetNotFound)
        }
    }

    /// Create the guardian set with the given index and keys, never
    /// expiring. Succeeds exactly when `index` follows the newest existing
    /// index (zero on an empty registry); otherwise fails with
    /// `OutOfOrderGuardianSetIndex` and changes nothing.
    pub fn create(&mut self, index: u32, keys: Vec<u8>) -> (r: Result<(), BridgeError>)
        requires
            old(self).wf(),
            keys@.len() % 20 == 0,
            keys@.len() <= 20 * 255,
        ensures
            final(self).wf(),
            (r is Ok <==> index as int == old(self).spec_len()),
            (r is Ok ==> final(self).spec_len() == old(self).spec_len() + 1 && final(self).spec_at(
                index as int,
            ).keys@ == keys@ && final(self).spec_at(index as int).expiration_time == 0 && forall|
                i: int,
            | 0 <= i < old(self).spec_len() ==> final(self).spec_at(i) == old(self).spec_at(i)),
            (r matches Err(e) ==> e == BridgeError::OutOfOrderGuardianSetIndex && *final(self)
                == *old(self)),
    {
        if (index as usize) == self.sets.len() {
            self.sets.push(GuardianSet { index, keys, expiration_time: 0 });
            Ok(())
        } else {
            Err(BridgeError::OutOfOrderGuardianSetIndex)
        }
    }

    /// Set the expiration time of set `index` to `now + delay`. Fails with
    /// `GuardianSetNotFound` when no such set exists, `GuardianSetExpired`
    /// when the set is already expired at `now`, and
    /// `NoSuccessorGuardianSet` when the set is still the newest one: the
    /// newest set must stay usable until a successor exists.
    pub fn expire(&mut self, index: u32, now: u32, delay: u32) -> (r: Result<(), BridgeError>)
        requires
            old(self).wf(),
            now + delay <= u32::MAX,
        ensures
            final(self).wf(),
            (r is Ok <==> (index as int) < old(self).spec_len() && old(self).spec_at(
                index as int,
            ).spec_is_active(now) && (index as int) != old(self).spec_len() - 1),
            (r is Ok ==> final(self).spec_len() == old(self).spec_len() && final(self).spec_at(
                index as int,
            ).expiration_time == now + delay && final(self).spec_at(index as int).keys@ == old(
                self,
            ).spec_at(index as int).keys@ && forall|i: int|
                0 <= i < old(self).spec_len() && i != index as int ==> final(self).spec_at(i)
                    == old(self).spec_at(i)),
            (r is Err ==> *final(self) == *old(self)),
            (r matches Err(e) ==> (e == BridgeError::GuardianSetNotFound <==> (index as int) >= old(
                self,
            ).spec_len()) && (e == BridgeError::GuardianSetExpired <==> (index as int) < old(
                self,
            ).spec_len() && !old(self).spec_at(index as int).spec_is_active(now)) && (e
                == BridgeError::NoSuccessorGuardianSet <==> (index as int) < old(
                self,
            ).spec_len() && old(self).spec_at(index as int).spec_is_active(now) && (index as int)
                == old(self).spec_len() - 1)),
    {
        let idx = index as usize;
        if idx >= self.sets.len() {
            return Err(BridgeError::GuardianSetNotFound);
        }
        if !self.sets[idx].is_active(now) {
            return Err(BridgeError::GuardianSetExpired);
        }
        if idx == self.sets.len() - 1 {
            return Err(BridgeError::NoSuccessorGuardianSet);
        }
        let entry = &mut self.sets[idx];
        entry.expiration_time = now + delay;
        Ok(())
    }
}

} // verus!
