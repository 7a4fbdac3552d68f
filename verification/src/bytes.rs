use vstd::prelude::*;

verus! {

// Big-endian and little-endian fixed-width integer layouts. The wire format
// of attestations and the derived storage keys use big-endian fields; the
// account field encodings use little-endian fields.

pub open spec fn spec_u16_be(n: u16) -> Seq<u8> {
    seq![((n >> 8) & 0xff) as u8, (n & 0xff) as u8]
}

pub open spec fn spec_u16_le(n: u16) -> Seq<u8> {
    seq![(n & 0xff) as u8, ((n >> 8) & 0xff) as u8]
}

pub open spec fn spec_u32_be(n: u32) -> Seq<u8> {
    seq![
        ((n >> 24) & 0xff) as u8,
        ((n >> 16) & 0xff) as u8,
        ((n >> 8) & 0xff) as u8,
        (n & 0xff) as u8,
    ]
}

pub open spec fn spec_u32_le(n: u32) -> Seq<u8> {
    spec_u32_be(n).reverse()
}

pub open spec fn spec_u64_be(n: u64) -> Seq<u8> {
    seq![
        ((n >> 56) & 0xff) as u8,
        ((n >> 48) & 0xff) as u8,
        ((n >> 40) & 0xff) as u8,
        ((n >> 32) & 0xff) as u8,
        ((n >> 24) & 0xff) as u8,
        ((n >> 16) & 0xff) as u8,
        ((n >> 8) & 0xff) as u8,
        (n & 0xff) as u8,
    ]
}

pub open spec fn spec_u64_le(n: u64) -> Seq<u8> {
    spec_u64_be(n).reverse()
}

pub open spec fn spec_u16_of_be(b: Seq<u8>) -> u16
    recommends
        b.len() == 2,
{
    ((b[0] as u16) << 8) | (b[1] as u16)
}

pub open spec fn spec_u32_of_be(b: Seq<u8>) -> u32
    recommends
        b.len() == 4,
{
    ((b[0] as u32) << 24) | ((b[1] as u32) << 16) | ((b[2] as u32) << 8) | (b[3] as u32)
}

pub open spec fn spec_u64_of_be(b: Seq<u8>) -> u64
    recommends
        b.len() == 8,
{
    ((b[0] as u64) << 56) | ((b[1] as u64) << 48) | ((b[2] as u64) << 40) | ((b[3] as u64) << 32)
        | ((b[4] as u64) << 24) | ((b[5] as u64) << 16) | ((b[6] as u64) << 8) | (b[7] as u64)
}

pub open spec fn spec_u16_of_le(b: Seq<u8>) -> u16
    recommends
        b.len() == 2,
{
    spec_u16_of_be(b.reverse())
}

pub open spec fn spec_u32_of_le(b: Seq<u8>) -> u32
    recommends
        b.len() == 4,
{
    spec_u32_of_be(b.reverse())
}

pub open spec fn spec_u64_of_le(b: Seq<u8>) -> u64
    recommends
        b.len() == 8,
{
    spec_u64_of_be(b.reverse())
}

pub proof fn lemma_u16_be_round_trip(n: u16)
    ensures
        spec_u16_of_be(spec_u16_be(n)) == n,
{
    assert((((((n >> 8) & 0xff) as u8) as u16) << 8 | (((n & 0xff) as u8) as u16)) == n)
        by (bit_vector);
}

pub proof fn lemma_u32_be_round_trip(n: u32)
    ensures
        spec_u32_of_be(spec_u32_be(n)) == n,
{
    assert(((((((n >> 24) & 0xff) as u8) as u32) << 24) | (((((n >> 16) & 0xff) as u8) as u32)
        << 16) | (((((n >> 8) & 0xff) as u8) as u32) << 8) | (((n & 0xff) as u8) as u32)) == n)
        by (bit_vector);
}

pub proof fn lemma_u64_be_round_trip(n: u64)
    ensures
        spec_u64_of_be(spec_u64_be(n)) == n,
{
    assert(((((((n >> 56) & 0xff) as u8) as u64) << 56) | (((((n >> 48) & 0xff) as u8) as u64)
        << 48) | (((((n >> 40) & 0xff) as u8) as u64) << 40) | (((((n >> 32) & 0xff) as u8) as u64)
        << 32) | (((((n >> 24) & 0xff) as u8) as u64) << 24) | (((((n >> 16) & 0xff) as u8) as u64)
        << 16) | (((((n >> 8) & 0xff) as u8) as u64) << 8) | (((n & 0xff) as u8) as u64)) == n)
        by (bit_vector);
}

pub proof fn lemma_u16_be_injective(a: u16, b: u16)
    requires
        spec_u16_be(a) == spec_u16_be(b),
    ensures
        a == b,
{
    lemma_u16_be_round_trip(a);
    lemma_u16_be_round_trip(b);
}

pub proof fn lemma_u64_be_injective(a: u64, b: u64)
    requires
        spec_u64_be(a) == spec_u64_be(b),
    ensures
        a == b,
{
    lemma_u64_be_round_trip(a);
    lemma_u64_be_round_trip(b);
}

pub proof fn lemma_u32_le_round_trip(n: u32)
    ensures
        spec_u32_of_le(spec_u32_le(n)) == n,
{
    assert(spec_u32_le(n).reverse() =~= spec_u32_be(n));
    lemma_u32_be_round_trip(n);
}

pub proof fn lemma_u16_le_round_trip(n: u16)
    ensures
        spec_u16_of_le(spec_u16_le(n)) == n,
{
    assert(spec_u16_le(n).reverse() =~= spec_u16_be(n));
    lemma_u16_be_round_trip(n);
}

pub proof fn lemma_u64_le_round_trip(n: u64)
    ensures
        spec_u64_of_le(spec_u64_le(n)) == n,
{
    assert(spec_u64_le(n).reverse() =~= spec_u64_be(n));
    lemma_u64_be_round_trip(n);
}

/// Append the big-endian bytes of `n` to `out`.
pub fn push_u16_be(out: &mut Vec<u8>, n: u16)
    ensures
        final(out)@ == old(out)@ + spec_u16_be(n),
{
    proof {
        assert((n >> 8) & 0xff < 256 && n & 0xff < 256) by (bit_vector);
    }
    out.push(((n >> 8) & 0xff) as u8);
    out.push((n & 0xff) as u8);
    proof {
        assert(final(out)@ =~= old(out)@ + spec_u16_be(n));
    }
}

/// Append the big-endian bytes of `n` to `out`.
pub fn push_u32_be(out: &mut Vec<u8>, n: u32)
    ensures
        final(out)@ == old(out)@ + spec_u32_be(n),
{
    proof {
        assert((n >> 24) & 0xff < 256 && (n >> 16) & 0xff < 256 && (n >> 8) & 0xff < 256 && n
            & 0xff < 256) by (bit_vector);
    }
    out.push(((n >> 24) & 0xff) as u8);
    out.push(((n >> 16) & 0xff) as u8);
    out.push(((n >> 8) & 0xff) as u8);
    out.push((n & 0xff) as u8);
    proof {
        assert(final(out)@ =~= old(out)@ + spec_u32_be(n));
    }
}

/// Append the big-endian bytes of `n` to `out`.
pub fn push_u64_be(out: &mut Vec<u8>, n: u64)
    ensures
        final(out)@ == old(out)@ + spec_u64_be(n),
{
    proof {
        assert((n >> 56) & 0xff < 256 && (n >> 48) & 0xff < 256 && (n >> 40) & 0xff < 256 && (n
            >> 32) & 0xff < 256 && (n >> 24) & 0xff < 256 && (n >> 16) & 0xff < 256 && (n >> 8)
            & 0xff < 256 && n & 0xff < 256) by (bit_vector);
    }
    out.push(((n >> 56) & 0xff) as u8);
    out.push(((n >> 48) & 0xff) as u8);
    out.push(((n >> 40) & 0xff) as u8);
    out.push(((n >> 32) & 0xff) as u8);
    out.push(((n >> 24) & 0xff) as u8);
    out.push(((n >> 16) & 0xff) as u8);
    out.push(((n >> 8) & 0xff) as u8);
    out.push((n & 0xff) as u8);
    proof {
        assert(final(out)@ =~= old(out)@ + spec_u64_be(n));
    }
}

/// Append the little-endian bytes of `n` to `out`.
pub fn push_u16_le(out: &mut Vec<u8>, n: u16)
    ensures
        final(out)@ == old(out)@ + spec_u16_le(n),
{
    proof {
        assert((n >> 8) & 0xff < 256 && n & 0xff < 256) by (bit_vector);
    }
    out.push((n & 0xff) as u8);
    out.push(((n >> 8) & 0xff) as u8);
    proof {
        assert(final(out)@ =~= old(out)@ + spec_u16_le(n));
    }
}

/// Append the little-endian bytes of `n` to `out`.
pub fn push_u32_le(out: &mut Vec<u8>, n: u32)
    ensures
        final(out)@ == old(out)@ + spec_u32_le(n),
{
    proof {
        assert((n >> 24) & 0xff < 256 && (n >> 16) & 0xff < 256 && (n >> 8) & 0xff < 256 && n
            & 0xff < 256) by (bit_vector);
    }
    out.push((n & 0xff) as u8);
    out.push(((n >> 8) & 0xff) as u8);
    out.push(((n >> 16) & 0xff) as u8);
    out.push(((n >> 24) & 0xff) as u8);
    proof {
        assert(final(out)@ =~= old(out)@ + spec_u32_le(n));
    }
}

/// Append the little-endian bytes of `n` to `out`.
pub fn push_u64_le(out: &mut Vec<u8>, n: u64)
    ensures
        final(out)@ == old(out)@ + spec_u64_le(n),
{
    proof {
        assert((n >> 56) & 0xff < 256 && (n >> 48) & 0xff < 256 && (n >> 40) & 0xff < 256 && (n
            >> 32) & 0xff < 256 && (n >> 24) & 0xff < 256 && (n >> 16) & 0xff < 256 && (n >> 8)
            & 0xff < 256 && n & 0xff < 256) by (bit_vector);
    }
    out.push((n & 0xff) as u8);
    out.push(((n >> 8) & 0xff) as u8);
    out.push(((n >> 16) & 0xff) as u8);
    out.push(((n >> 24) & 0xff) as u8);
    out.push(((n >> 32) & 0xff) as u8);
    out.push(((n >> 40) & 0xff) as u8);
    out.push(((n >> 48) & 0xff) as u8);
    out.push(((n >> 56) & 0xff) as u8);
    proof {
        assert(final(out)@ =~= old(out)@ + spec_u64_le(n));
    }
}

/// Read a big-endian `u16` at `off`.
pub fn read_u16_be(b: &Vec<u8>, off: usize) -> (r: u16)
    requires
        off + 2 <= b@.len(),
    ensures
        r == spec_u16_of_be(b@.subrange(off as int, off as int + 2)),
{
    let bound = b.len();
    let r = ((b[off] as u16) << 8) | (b[off + 1] as u16);
    proof {
        let s = b@.subrange(off as int, off as int + 2);
        assert(s[0] == b@[off as int] && s[1] == b@[off as int + 1]);
    }
    r
}

/// Read a big-endian `u32` at `off`.
pub fn read_u32_be(b: &Vec<u8>, off: usize) -> (r: u32)
    requires
        off + 4 <= b@.len(),
    ensures
        r == spec_u32_of_be(b@.subrange(off as int, off as int + 4)),
{
    let bound = b.len();
    let r = ((b[off] as u32) << 24) | ((b[off + 1] as u32) << 16) | ((b[off + 2] as u32) << 8) | (
    b[off + 3] as u32);
    proof {
        let s = b@.subrange(off as int, off as int + 4);
        assert(s[0] == b@[off as int] && s[1] == b@[off as int + 1] && s[2] == b@[off as int + 2]
            && s[3] == b@[off as int + 3]);
    }
    r
}

/// Read a big-endian `u64` at `off`.
pub fn read_u64_be(b: &Vec<u8>, off: usize) -> (r: u64)
    requires
        off + 8 <= b@.len(),
    ensures
        r == spec_u64_of_be(b@.subrange(off as int, off as int + 8)),
{
    let bound = b.len();
    let r = ((b[off] as u64) << 56) | ((b[off + 1] as u64) << 48) | ((b[off + 2] as u64) << 40) | (
    (b[off + 3] as u64) << 32) | ((b[off + 4] as u64) << 24) | ((b[off + 5] as u64) << 16) | ((b[off
        + 6] as u64) << 8) | (b[off + 7] as u64);
    proof {
        let s = b@.subrange(off as int, off as int + 8);
        assert(s[0] == b@[off as int] && s[1] == b@[off as int + 1] && s[2] == b@[off as int + 2]
            && s[3] == b@[off as int + 3] && s[4] == b@[off as int + 4] && s[5] == b@[off as int
            + 5] && s[6] == b@[off as int + 6] && s[7] == b@[off as int + 7]);
    }
    r
}

/// Read a little-endian `u16` at `off`.
pub fn read_u16_le(b: &Vec<u8>, off: usize) -> (r: u16)
    requires
        off + 2 <= b@.len(),
    ensures
        r == spec_u16_of_le(b@.subrange(off as int, off as int + 2)),
{
    let bound = b.len();
    let r = ((b[off + 1] as u16) << 8) | (b[off] as u16);
    proof {
        let s = b@.subrange(off as int, off as int + 2);
        assert(s.reverse() =~= seq![b@[off as int + 1], b@[off as int]]);
    }
    r
}

/// Read a little-endian `u32` at `off`.
pub fn read_u32_le(b: &Vec<u8>, off: usize) -> (r: u32)
    requires
        off + 4 <= b@.len(),
    ensures
        r == spec_u32_of_le(b@.subrange(off as int, off as int + 4)),
{
    let bound = b.len();
    let r = ((b[off + 3] as u32) << 24) | ((b[off + 2] as u32) << 16) | ((b[off + 1] as u32) << 8)
        | (b[off] as u32);
    proof {
        let s = b@.subrange(off as int, off as int + 4);
        assert(s.reverse() =~= seq![
            b@[off as int + 3],
            b@[off as int + 2],
            b@[off as int + 1],
            b@[off as int],
        ]);
    }
    r
}

/// Read a little-endian `u64` at `off`.
pub fn read_u64_le(b: &Vec<u8>, off: usize) -> (r: u64)
    requires
        off + 8 <= b@.len(),
    ensures
        r == spec_u64_of_le(b@.subrange(off as int, off as int + 8)),
{
    let bound = b.len();
    let r = ((b[off + 7] as u64) << 56) | ((b[off + 6] as u64) << 48) | ((b[off + 5] as u64) << 40)
        | ((b[off + 4] as u64) << 32) | ((b[off + 3] as u64) << 24) | ((b[off + 2] as u64) << 16)
        | ((b[off + 1] as u64) << 8) | (b[off] as u64);
    proof {
        let s = b@.subrange(off as int, off as int + 8);
        assert(s.reverse() =~= seq![
            b@[off as int + 7],
            b@[off as int + 6],
            b@[off as int + 5],
            b@[off as int + 4],
            b@[off as int + 3],
            b@[off as int + 2],
            b@[off as int + 1],
            b@[off as int],
        ]);
    }
    r
}

/// Whether two byte vectors hold the same bytes.
pub fn bytes_eq(a: &Vec<u8>, b: &Vec<u8>) -> (r: bool)
    ensures
        r == (a@ == b@),
{
    if a.len() != b.len() {
        return false;
    }
    let n = a.len();
    let mut i: usize = 0;
    while i < n
        invariant
            n == a@.len(),
            a@.len() == b@.len(),
            i <= n,
            forall|j: int| 0 <= j < i ==> a@[j] == b@[j],
        decreases n - i,
    {
        if a[i] != b[i] {
            return false;
        }
        i = i + 1;
    }
    proof {
        assert(a@ =~= b@);
    }
    true
}

/// Copy `src[start..end]` into a fresh vector.
pub fn copy_range(src: &Vec<u8>, start: usize, end: usize) -> (r: Vec<u8>)
    requires
        start <= end,
        end <= src@.len(),
    ensures
        r@ == src@.subrange(start as int, end as int),
{
    let mut out: Vec<u8> = Vec::new();
    let mut i: usize = start;
    while i < end
        invariant
            start <= i <= end,
            end <= src@.len(),
            out@ == src@.subrange(start as int, i as int),
        decreases end - i,
    {
        out.push(src[i]);
        proof {
            assert(out@ =~= src@.subrange(start as int, i as int + 1));
        }
        i = i + 1;
    }
    out
}

/// Whether `b[off..off + d.len()]` equals `d`.
pub fn range_eq(b: &Vec<u8>, off: usize, d: &Vec<u8>) -> (r: bool)
    requires
        off + d@.len() <= b@.len(),
    ensures
        r == (b@.subrange(off as int, off as int + d@.len() as int) == d@),
{
    let bound = b.len();
    let cut = copy_range(b, off, off + d.len());
    bytes_eq(&cut, d)
}


/// A 8-byte buffer is exactly the little-endian encoding of the value
/// read from it.
pub proof fn lemma_u64_le_canonical(b: Seq<u8>)
    requires
        b.len() == 8,
    ensures
        spec_u64_le(spec_u64_of_le(b)) == b,
{
    let b0 = b[0];
    let b1 = b[1];
    let b2 = b[2];
    let b3 = b[3];
    let b4 = b[4];
    let b5 = b[5];
    let b6 = b[6];
    let b7 = b[7];
    assert(b.reverse() =~= seq![b7, b6, b5, b4, b3, b2, b1, b0]);
    let n = spec_u64_of_le(b);
    assert(n == (((b7 as u64) << 56) | ((b6 as u64) << 48) | ((b5 as u64) << 40) | ((b4 as u64) << 32) | ((b3 as u64) << 24) | ((b2 as u64) << 16) | ((b1 as u64) << 8) | (b0 as u64)));
    assert(((((b7 as u64) << 56) | ((b6 as u64) << 48) | ((b5 as u64) << 40) | ((b4 as u64) << 32) | ((b3 as u64) << 24) | ((b2 as u64) << 16) | ((b1 as u64) << 8) | (b0 as u64)) >> 56) & 0xff == b7 as u64 && ((((b7 as u64) << 56) | ((b6 as u64) << 48) | ((b5 as u64) << 40) | ((b4 as u64) << 32) | ((b3 as u64) << 24) | ((b2 as u64) << 16) | ((b1 as u64) << 8) | (b0 as u64)) >> 48) & 0xff == b6 as u64 && ((((b7 as u64) << 56) | ((b6 as u64) << 48) | ((b5 as u64) << 40) | ((b4 as u64) << 32) | ((b3 as u64) << 24) | ((b2 as u64) << 16) | ((b1 as u64) << 8) | (b0 as u64)) >> 40) & 0xff == b5 as u64 && ((((b7 as u64) << 56) | ((b6 as u64) << 48) | ((b5 as u64) << 40) | ((b4 as u64) << 32) | ((b3 as u64) << 24) | ((b2 as u64) << 16) | ((b1 as u64) << 8) | (b0 as u64)) >> 32) & 0xff == b4 as u64 && ((((b7 as u64) << 56) | ((b6 as u64) << 48) | ((b5 as u64) << 40) | ((b4 as u64) << 32) | ((b3 as u64) << 24) | ((b2 as u64) << 16) | ((b1 as u64) << 8) | (b0 as u64)) >> 24) & 0xff == b3 as u64 && ((((b7 as u64) << 56) | ((b6 as u64) << 48) | ((b5 as u64) << 40) | ((b4 as u64) << 32) | ((b3 as u64) << 24) | ((b2 as u64) << 16) | ((b1 as u64) << 8) | (b0 as u64)) >> 16) & 0xff == b2 as u64 && ((((b7 as u64) << 56) | ((b6 as u64) << 48) | ((b5 as u64) << 40) | ((b4 as u64) << 32) | ((b3 as u64) << 24) | ((b2 as u64) << 16) | ((b1 as u64) << 8) | (b0 as u64)) >> 8) & 0xff == b1 as u64 && (((b7 as u64) << 56) | ((b6 as u64) << 48) | ((b5 as u64) << 40) | ((b4 as u64) << 32) | ((b3 as u64) << 24) | ((b2 as u64) << 16) | ((b1 as u64) << 8) | (b0 as u64)) & 0xff == b0 as u64) by (bit_vector);
    assert(spec_u64_le(n) =~= b);
}

/// A 4-byte buffer is exactly the little-endian encoding of the value
/// read from it.
pub proof fn lemma_u32_le_canonical(b: Seq<u8>)
    requires
        b.len() == 4,
    ensures
        spec_u32_le(spec_u32_of_le(b)) == b,
{
    let b0 = b[0];
    let b1 = b[1];
    let b2 = b[2];
    let b3 = b[3];
    assert(b.reverse() =~= seq![b3, b2, b1, b0]);
    let n = spec_u32_of_le(b);
    assert(n == (((b3 as u32) << 24) | ((b2 as u32) << 16) | ((b1 as u32) << 8) | (b0 as u32)));
    assert(((((b3 as u32) << 24) | ((b2 as u32) << 16) | ((b1 as u32) << 8) | (b0 as u32)) >> 24) & 0xff == b3 as u32 && ((((b3 as u32) << 24) | ((b2 as u32) << 16) | ((b1 as u32) << 8) | (b0 as u32)) >> 16) & 0xff == b2 as u32 && ((((b3 as u32) << 24) | ((b2 as u32) << 16) | ((b1 as u32) << 8) | (b0 as u32)) >> 8) & 0xff == b1 as u32 && (((b3 as u32) << 24) | ((b2 as u32) << 16) | ((b1 as u32) << 8) | (b0 as u32)) & 0xff == b0 as u32) by (bit_vector);
    assert(spec_u32_le(n) =~= b);
}

/// A 2-byte buffer is exactly the little-endian encoding of the value
/// read from it.
pub proof fn lemma_u16_le_canonical(b: Seq<u8>)
    requires
        b.len() == 2,
    ensures
        spec_u16_le(spec_u16_of_le(b)) == b,
{
    let b0 = b[0];
    let b1 = b[1];
    assert(b.reverse() =~= seq![b1, b0]);
    let n = spec_u16_of_le(b);
    assert(n == (((b1 as u16) << 8) | (b0 as u16)));
    assert(((((b1 as u16) << 8) | (b0 as u16)) >> 8) & 0xff == b1 as u16 && (((b1 as u16) << 8) | (b0 as u16)) & 0xff == b0 as u16) by (bit_vector);
    assert(spec_u16_le(n) =~= b);
}


/// Append all of `src` to `out`.
pub fn push_bytes(out: &mut Vec<u8>, src: &Vec<u8>)
    ensures
        final(out)@ == old(out)@ + src@,
{
    let n = src.len();
    let mut i: usize = 0;
    while i < n
        invariant
            n == src@.len(),
            i <= n,
            out@ == old(out)@ + src@.take(i as int),
        decreases n - i,
    {
        out.push(src[i]);
        proof {
            assert(old(out)@ + src@.take(i as int) + seq![src@[i as int]] =~= old(out)@
                + src@.take(i as int + 1));
        }
        i = i + 1;
    }
    proof {
        assert(src@.take(n as int) =~= src@);
    }
}

} // verus!

