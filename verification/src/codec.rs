use vstd::prelude::*;

use crate::errors::BridgeError;

verus! {

/// Address of the program that owns every account of this bridge, as 32 raw
/// bytes.
pub open spec fn spec_core_bridge_id() -> Seq<u8> {
    seq![
        14u8, 10, 88, 154, 65, 165, 95, 189, 102, 197, 42, 71, 95, 45, 146, 166, 211, 220, 155,
        71, 71, 17, 76, 185, 175, 130, 90, 152, 181, 69, 211, 206,
    ]
}

/// Address of the program that owns every account of this bridge.
pub fn core_bridge_id() -> (r: Vec<u8>)
    ensures
        r@ == spec_core_bridge_id(),
{
    let r = vec![
        14u8, 10, 88, 154, 65, 165, 95, 189, 102, 197, 42, 71, 95, 45, 146, 166, 211, 220, 155,
        71, 71, 17, 76, 185, 175, 130, 90, 152, 181, 69, 211, 206,
    ];
    proof {
        assert(r@ =~= spec_core_bridge_id());
    }
    r
}

/// Capability interface of an account kind: its two discriminator constants,
/// its owner, and its canonical field encoding. The legacy discriminator may
/// be empty; the modern discriminator is always 8 bytes. Each implementation
/// also proves the facts the shared codec rests on: the encoding determines
/// the record's contents, and a legacy-encoded buffer can never begin with
/// the modern discriminator.
pub trait LegacyAccount: Sized {
    /// Discriminator the legacy layout writes before the fields.
    spec fn spec_legacy_discriminator() -> Seq<u8>;

    /// 8-byte discriminator the modern layout writes before the fields.
    spec fn spec_modern_discriminator() -> Seq<u8>;

    /// Address of the program that owns accounts of this kind.
    spec fn spec_program_id() -> Seq<u8>;

    /// Internal well-formedness of a record of this kind.
    spec fn spec_valid(self) -> bool;

    /// Canonical encoding of the fields, without any discriminator.
    spec fn spec_encoded(self) -> Seq<u8>;

    /// Whether two records hold the same contents, field by field; byte
    /// vectors are compared by their bytes.
    spec fn spec_congruent(self, other: Self) -> bool;

    proof fn lemma_discriminator_shape()
        ensures
            Self::spec_modern_discriminator().len() == 8,
    ;

    /// The encoding pins the record down: two well-formed records with the
    /// same encoding hold the same contents.
    proof fn lemma_encode_injective(self, other: Self)
        requires
            self.spec_valid(),
            other.spec_valid(),
            self.spec_encoded() == other.spec_encoded(),
        ensures
            self.spec_congruent(other),
    ;

    /// A legacy-encoded buffer is at least 8 bytes long and never begins with
    /// the modern discriminator.
    proof fn lemma_legacy_prefix_sound(self)
        requires
            self.spec_valid(),
        ensures
            Self::spec_legacy_discriminator().len() + self.spec_encoded().len() >= 8,
            (Self::spec_legacy_discriminator() + self.spec_encoded()).take(8)
                != Self::spec_modern_discriminator(),
    ;

    fn legacy_discriminator() -> (r: Vec<u8>)
        ensures
            r@ == Self::spec_legacy_discriminator(),
    ;

    fn modern_discriminator() -> (r: Vec<u8>)
        ensures
            r@ == Self::spec_modern_discriminator(),
    ;

    fn program_id() -> (r: Vec<u8>)
        ensures
            r@ == Self::spec_program_id(),
    ;

    fn encode_fields(&self) -> (r: Vec<u8>)
        requires
            self.spec_valid(),
        ensures
            r@ == self.spec_encoded(),
    ;

    fn decode_fields(b: &Vec<u8>) -> (r: Option<Self>)
        ensures
            (r matches Some(t) ==> t.spec_valid() && t.spec_encoded() == b@),
            (r is None ==> !(exists|t: Self| t.spec_valid() && t.spec_encoded() == b@)),
    ;
}

/// A record serialized in the legacy layout: legacy discriminator, then the
/// fields.
#[derive(Clone, Debug)]
pub struct LegacyAnchorized<T: LegacyAccount>(pub T);

impl<T: LegacyAccount> LegacyAnchorized<T> {
    /// Wrap a record.
    pub fn from(acct: T) -> (r: Self)
        ensures
            r.0 == acct,
    {
        LegacyAnchorized(acct)
    }

    /// The wrapped record.
    pub fn as_ref(&self) -> (r: &T)
        ensures
            *r == self.0,
    {
        &self.0
    }

    /// Owner of accounts of this kind.
    pub fn owner() -> (r: Vec<u8>)
        ensures
            r@ == T::spec_program_id(),
    {
        T::program_id()
    }

    /// Serialize in the legacy layout: legacy discriminator, then the fields.
    pub fn try_serialize(&self) -> (r: Result<Vec<u8>, BridgeError>)
        requires
            self.0.spec_valid(),
        ensures
            r matches Ok(b) && b@ == T::spec_legacy_discriminator() + self.0.spec_encoded(),
    {
        let mut out = T::legacy_discriminator();
        let mut fields = self.0.encode_fields();
        out.append(&mut fields);
        Ok(out)
    }

    /// Deserialize a legacy-layout buffer, checking the legacy discriminator.
    /// Succeeds exactly on the legacy encodings of well-formed records.
    pub fn try_deserialize(buf: &Vec<u8>) -> (r: Result<Self, BridgeError>)
        ensures
            (r matches Ok(a) ==> a.0.spec_valid() && T::spec_legacy_discriminator()
                + a.0.spec_encoded() == buf@),
            (r matches Err(e) ==> e == BridgeError::AccountDidNotDeserialize && !(exists|t: T|
                t.spec_valid() && T::spec_legacy_discriminator() + t.spec_encoded() == buf@)),
    {
        let ld = T::legacy_discriminator();
        if ld.len() <= buf.len() && range_eq_here(buf, &ld) {
            let r = Self::try_deserialize_unchecked(buf);
            proof {
                let l = T::spec_legacy_discriminator();
                assert(buf@.take(l.len() as int) + buf@.skip(l.len() as int) =~= buf@);
                if r is Err {
                    if exists|t: T| t.spec_valid() && T::spec_legacy_discriminator()
                        + t.spec_encoded() == buf@ {
                        let t = choose|t: T|
                            t.spec_valid() && T::spec_legacy_discriminator() + t.spec_encoded()
                                == buf@;
                        assert((l + t.spec_encoded()).skip(l.len() as int) =~= t.spec_encoded());
                    }
                }
            }
            r
        } else {
            proof {
                if exists|t: T| t.spec_valid() && T::spec_legacy_discriminator()
                    + t.spec_encoded() == buf@ {
                    let t = choose|t: T|
                        t.spec_valid() && T::spec_legacy_discriminator() + t.spec_encoded()
                            == buf@;
                    let l = T::spec_legacy_discriminator();
                    assert((l + t.spec_encoded()).take(l.len() as int) =~= l);
                }
            }
            Err(BridgeError::AccountDidNotDeserialize)
        }
    }

    /// Deserialize a legacy-layout buffer without comparing the
    /// discriminator bytes; they are skipped.
    pub fn try_deserialize_unchecked(buf: &Vec<u8>) -> (r: Result<Self, BridgeError>)
        requires
            T::spec_legacy_discriminator().len() <= buf@.len(),
        ensures
            (r matches Ok(a) ==> a.0.spec_valid() && a.0.spec_encoded() == buf@.skip(
                T::spec_legacy_discriminator().len() as int,
            )),
            (r matches Err(e) ==> e == BridgeError::AccountDidNotDeserialize && !(exists|t: T|
                t.spec_valid() && t.spec_encoded() == buf@.skip(
                    T::spec_legacy_discriminator().len() as int,
                ))),
    {
        let ld = T::legacy_discriminator();
        let rest = crate::bytes::copy_range(buf, ld.len(), buf.len());
        proof {
            assert(rest@ =~= buf@.skip(T::spec_legacy_discriminator().len() as int));
        }
        match T::decode_fields(&rest) {
            Some(t) => Ok(LegacyAnchorized(t)),
            None => Err(BridgeError::AccountDidNotDeserialize),
        }
    }
}

/// Whether `buf` begins with `d`; callable only when `buf` is long enough.
fn range_eq_here(buf: &Vec<u8>, d: &Vec<u8>) -> (r: bool)
    requires
        d@.len() <= buf@.len(),
    ensures
        r == (buf@.take(d@.len() as int) == d@),
{
    let r = crate::bytes::range_eq(buf, 0, d);
    proof {
        assert(buf@.subrange(0, d@.len() as int) =~= buf@.take(d@.len() as int));
    }
    r
}

/// A record together with the layout it was read in or will be written in:
/// `Anchor` carries the modern 8-byte discriminator, `Legacy` the historical
/// one.
#[derive(Clone, Debug)]
pub enum AccountVariant<T: LegacyAccount> {
    Anchor(T),
    Legacy(T),
}

/// Bytes a variant serializes to: its layout's discriminator, then the
/// fields.
pub open spec fn spec_variant_encoded<T: LegacyAccount>(v: AccountVariant<T>) -> Seq<u8> {
    match v {
        AccountVariant::Anchor(t) => T::spec_modern_discriminator() + t.spec_encoded(),
        AccountVariant::Legacy(t) => T::spec_legacy_discriminator() + t.spec_encoded(),
    }
}

/// Whether `b` begins with the modern discriminator of `T`; the decoder
/// reads a buffer as `Anchor` exactly in this case.
pub open spec fn spec_has_modern_tag<T: LegacyAccount>(b: Seq<u8>) -> bool {
    b.len() >= 8 && b.take(8) == T::spec_modern_discriminator()
}

impl<T: LegacyAccount> AccountVariant<T> {
    /// The wrapped record, whichever layout carries it.
    pub open spec fn spec_inner(self) -> T {
        match self {
            AccountVariant::Anchor(t) => t,
            AccountVariant::Legacy(t) => t,
        }
    }

    /// The wrapped record.
    pub fn inner(&self) -> (r: &T)
        ensures
            *r == self.spec_inner(),
    {
        match self {
            AccountVariant::Anchor(t) => t,
            AccountVariant::Legacy(t) => t,
        }
    }

    /// Mutable access to the wrapped record; the layout tag is kept.
    pub fn inner_mut(&mut self) -> (r: &mut T)
        ensures
            *r == old(self).spec_inner(),
            (*final(self)) is Anchor <==> (*old(self)) is Anchor,
            final(self).spec_inner() == *final(r),
    {
        match self {
            AccountVariant::Anchor(t) => t,
            AccountVariant::Legacy(t) => t,
        }
    }

    /// Serialize in the layout the tag names.
    pub fn try_serialize(&self) -> (r: Result<Vec<u8>, BridgeError>)
        requires
            self.spec_inner().spec_valid(),
        ensures
            r matches Ok(b) && b@ == spec_variant_encoded(*self),
    {
        match self {
            AccountVariant::Anchor(t) => {
                let mut out = T::modern_discriminator();
                let mut fields = t.encode_fields();
                out.append(&mut fields);
                Ok(out)
            },
            AccountVariant::Legacy(t) => {
                let mut out = T::legacy_discriminator();
                let mut fields = t.encode_fields();
                out.append(&mut fields);
                Ok(out)
            },
        }
    }

    /// Decode a buffer, trying the modern layout first and falling back to
    /// the legacy layout on a discriminator mismatch. Succeeds exactly on
    /// the encodings of well-formed records; the result re-encodes to the
    /// buffer, and carries the `Anchor` tag exactly when the buffer begins
    /// with the modern discriminator.
    pub fn try_deserialize_unchecked(buf: &Vec<u8>) -> (r: Result<Self, BridgeError>)
        ensures
            (r matches Ok(v) ==> v.spec_inner().spec_valid() && spec_variant_encoded(v) == buf@
                && ((v is Anchor) <==> spec_has_modern_tag::<T>(buf@))),
            (r matches Err(e) ==> e == BridgeError::AccountDidNotDeserialize && !(exists|
                v: AccountVariant<T>,
            | v.spec_inner().spec_valid() && spec_variant_encoded(v) == buf@)),
    {
        proof {
            T::lemma_discriminator_shape();
        }
        if buf.len() < 8 {
            proof {
                if exists|v: AccountVariant<T>| v.spec_inner().spec_valid()
                    && spec_variant_encoded(v) == buf@ {
                    let v = choose|v: AccountVariant<T>|
                        v.spec_inner().spec_valid() && spec_variant_encoded(v) == buf@;
                    T::lemma_legacy_prefix_sound(v.spec_inner());
                }
            }
            return Err(BridgeError::AccountDidNotDeserialize);
        }
        let md = T::modern_discriminator();
        if range_eq_here(buf, &md) {
            let rest = crate::bytes::copy_range(buf, 8, buf.len());
            proof {
                assert(rest@ =~= buf@.skip(8));
            }
            match T::decode_fields(&rest) {
                Some(t) => {
                    proof {
                        assert(T::spec_modern_discriminator() + buf@.skip(8) =~= buf@);
                    }
                    Ok(AccountVariant::Anchor(t))
                },
                None => {
                    proof {
                        if exists|v: AccountVariant<T>| v.spec_inner().spec_valid()
                            && spec_variant_encoded(v) == buf@ {
                            let v = choose|v: AccountVariant<T>|
                                v.spec_inner().spec_valid() && spec_variant_encoded(v) == buf@;
                            let t = v.spec_inner();
                            if v is Anchor {
                                assert((T::spec_modern_discriminator() + t.spec_encoded()).skip(8)
                                    =~= t.spec_encoded());
                                assert(t.spec_valid() && t.spec_encoded() == rest@);
                            } else {
                                T::lemma_legacy_prefix_sound(t);
                                assert((T::spec_legacy_discriminator() + t.spec_encoded()).take(8)
                                    =~= buf@.take(8));
                            }
                        }
                    }
                    Err(BridgeError::AccountDidNotDeserialize)
                },
            }
        } else {
            let ld = T::legacy_discriminator();
            if ld.len() <= buf.len() && range_eq_here(buf, &ld) {
                proof {
                    let l = T::spec_legacy_discriminator();
                    assert(buf@.take(l.len() as int) + buf@.skip(l.len() as int) =~= buf@);
                }
                match LegacyAnchorized::<T>::try_deserialize_unchecked(buf) {
                    Ok(a) => {
                        proof {
                            T::lemma_legacy_prefix_sound(a.0);
                            assert((T::spec_legacy_discriminator() + a.0.spec_encoded()).take(8)
                                =~= buf@.take(8));
                        }
                        Ok(AccountVariant::Legacy(a.0))
                    },
                    Err(e) => {
                        proof {
                            let l = T::spec_legacy_discriminator();
                            if exists|v: AccountVariant<T>| v.spec_inner().spec_valid()
                                && spec_variant_encoded(v) == buf@ {
                                let v = choose|v: AccountVariant<T>|
                                    v.spec_inner().spec_valid() && spec_variant_encoded(v)
                                        == buf@;
                                let t = v.spec_inner();
                                if v is Anchor {
                                    assert((T::spec_modern_discriminator() + t.spec_encoded())
                                        .take(8) =~= T::spec_modern_discriminator());
                                } else {
                                    assert((l + t.spec_encoded()).skip(l.len() as int)
                                        =~= t.spec_encoded());
                                }
                            }
                        }
                        Err(e)
                    },
                }
            } else {
                proof {
                    if exists|v: AccountVariant<T>| v.spec_inner().spec_valid()
                        && spec_variant_encoded(v) == buf@ {
                        let v = choose|v: AccountVariant<T>|
                            v.spec_inner().spec_valid() && spec_variant_encoded(v) == buf@;
                        let t = v.spec_inner();
                        if v is Anchor {
                            assert((T::spec_modern_discriminator() + t.spec_encoded()).take(8)
                                =~= T::spec_modern_discriminator());
                        } else {
                            let l = T::spec_legacy_discriminator();
                            assert((l + t.spec_encoded()).take(l.len() as int) =~= l);
                        }
                    }
                }
                Err(BridgeError::AccountDidNotDeserialize)
            }
        }
    }
}

/// Round trip: whatever decoding admits for the encoding of `v` is `v`
/// itself — an `Ok` result with `v`'s layout tag whose record holds `v`'s
/// contents. Instantiate `r` with the result of `try_deserialize_unchecked`
/// on `spec_variant_encoded(v)`; the first two premises are its contract.
pub proof fn lemma_variant_round_trip<T: LegacyAccount>(
    v: AccountVariant<T>,
    r: Result<AccountVariant<T>, BridgeError>,
)
    requires
        v.spec_inner().spec_valid(),
        (r matches Ok(w) ==> w.spec_inner().spec_valid() && spec_variant_encoded(w)
            == spec_variant_encoded(v) && ((w is Anchor) <==> spec_has_modern_tag::<T>(
            spec_variant_encoded(v),
        ))),
        (r is Err ==> !(exists|w: AccountVariant<T>| w.spec_inner().spec_valid()
            && spec_variant_encoded(w) == spec_variant_encoded(v))),
    ensures
        r matches Ok(w) && ((w is Anchor) <==> (v is Anchor)) && w.spec_inner().spec_congruent(
            v.spec_inner(),
        ),
{
    T::lemma_discriminator_shape();
    if r is Err {
        assert(v.spec_inner().spec_valid() && spec_variant_encoded(v) == spec_variant_encoded(v));
        assert(false);
    }
    let w = r->Ok_0;
    let b = spec_variant_encoded(v);
    if v is Anchor {
        assert(b.take(8) =~= T::spec_modern_discriminator());
        assert(w is Anchor);
        assert((T::spec_modern_discriminator() + v.spec_inner().spec_encoded()).skip(8)
            =~= v.spec_inner().spec_encoded());
        assert((T::spec_modern_discriminator() + w.spec_inner().spec_encoded()).skip(8)
            =~= w.spec_inner().spec_encoded());
        T::lemma_encode_injective(w.spec_inner(), v.spec_inner());
    } else {
        T::lemma_legacy_prefix_sound(v.spec_inner());
        assert((T::spec_legacy_discriminator() + v.spec_inner().spec_encoded()).take(8)
            =~= b.take(8));
        assert(!spec_has_modern_tag::<T>(b));
        assert(w is Legacy);
        let l = T::spec_legacy_discriminator();
        assert((l + v.spec_inner().spec_encoded()).skip(l.len() as int)
            =~= v.spec_inner().spec_encoded());
        assert((l + w.spec_inner().spec_encoded()).skip(l.len() as int)
            =~= w.spec_inner().spec_encoded());
        T::lemma_encode_injective(w.spec_inner(), v.spec_inner());
    }
}

/// Tag precedence: a buffer that begins with the modern discriminator never
/// decodes as `Legacy`, whatever its remaining bytes hold. The premise is
/// the contract of `try_deserialize_unchecked` on `b`.
pub proof fn lemma_tag_precedence<T: LegacyAccount>(
    b: Seq<u8>,
    r: Result<AccountVariant<T>, BridgeError>,
)
    requires
        spec_has_modern_tag::<T>(b),
        (r matches Ok(v) ==> (v is Anchor) <==> spec_has_modern_tag::<T>(b)),
    ensures
        r matches Ok(v) ==> v is Anchor,
{
}

} // verus!
