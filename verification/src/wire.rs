//! Little-endian field encoding: the building blocks of every structure
//! layout in this crate.
use vstd::prelude::*;

verus! {

/// The four bytes of `v`, least significant first.
pub open spec fn le32(v: u32) -> Seq<u8> {
    seq![(v & 0xff) as u8, ((v >> 8) & 0xff) as u8, ((v >> 16) & 0xff) as u8, ((v >> 24) & 0xff) as u8]
}

/// The eight bytes of `v`, least significant first.
pub open spec fn le64(v: u64) -> Seq<u8> {
    seq![
        (v & 0xff) as u8,
        ((v >> 8) & 0xff) as u8,
        ((v >> 16) & 0xff) as u8,
        ((v >> 24) & 0xff) as u8,
        ((v >> 32) & 0xff) as u8,
        ((v >> 40) & 0xff) as u8,
        ((v >> 48) & 0xff) as u8,
        ((v >> 56) & 0xff) as u8,
    ]
}

/// `n` zero bytes: structure padding.
pub open spec fn zeros(n: nat) -> Seq<u8> {
    Seq::new(n, |i: int| 0u8)
}

/// The 32-bit value whose little-endian bytes are `b0..b3`.
pub open spec fn join32(b0: u8, b1: u8, b2: u8, b3: u8) -> u32 {
    (b0 as u32) | ((b1 as u32) << 8) | ((b2 as u32) << 16) | ((b3 as u32) << 24)
}

/// The 64-bit value whose little-endian bytes are `b0..b7`.
pub open spec fn join64(b0: u8, b1: u8, b2: u8, b3: u8, b4: u8, b5: u8, b6: u8, b7: u8) -> u64 {
    (b0 as u64) | ((b1 as u64) << 8) | ((b2 as u64) << 16) | ((b3 as u64) << 24) | ((b4 as u64)
        << 32) | ((b5 as u64) << 40) | ((b6 as u64) << 48) | ((b7 as u64) << 56)
}

/// The little-endian 32-bit field that starts at byte `off` of `s`.
pub open spec fn u32_at(s: Seq<u8>, off: int) -> u32 {
    join32(s[off], s[off + 1], s[off + 2], s[off + 3])
}

/// The little-endian 64-bit field that starts at byte `off` of `s`.
pub open spec fn u64_at(s: Seq<u8>, off: int) -> u64 {
    join64(
        s[off],
        s[off + 1],
        s[off + 2],
        s[off + 3],
        s[off + 4],
        s[off + 5],
        s[off + 6],
        s[off + 7],
    )
}

/// Reading back the bytes of a 32-bit value gives the value.
pub proof fn lemma_join32_of_bytes(v: u32)
    ensures
        join32(le32(v)[0], le32(v)[1], le32(v)[2], le32(v)[3]) == v,
{
    assert(((v & 0xff) as u8 as u32) | ((((v >> 8) & 0xff) as u8 as u32) << 8) | ((((v >> 16)
        & 0xff) as u8 as u32) << 16) | ((((v >> 24) & 0xff) as u8 as u32) << 24) == v)
        by (bit_vector);
}

/// Reading back the bytes of a 64-bit value gives the value.
pub proof fn lemma_join64_of_bytes(v: u64)
    ensures
        join64(
            le64(v)[0],
            le64(v)[1],
            le64(v)[2],
            le64(v)[3],
            le64(v)[4],
            le64(v)[5],
            le64(v)[6],
            le64(v)[7],
        ) == v,
{
    assert(((v & 0xff) as u8 as u64) | ((((v >> 8) & 0xff) as u8 as u64) << 8) | ((((v >> 16)
        & 0xff) as u8 as u64) << 16) | ((((v >> 24) & 0xff) as u8 as u64) << 24) | ((((v >> 32)
        & 0xff) as u8 as u64) << 32) | ((((v >> 40) & 0xff) as u8 as u64) << 40) | ((((v >> 48)
        & 0xff) as u8 as u64) << 48) | ((((v >> 56) & 0xff) as u8 as u64) << 56) == v)
        by (bit_vector);
}

/// Writing back the value read from four bytes gives the same bytes.
pub proof fn lemma_bytes_of_join32(b0: u8, b1: u8, b2: u8, b3: u8)
    ensures
        le32(join32(b0, b1, b2, b3)) == seq![b0, b1, b2, b3],
{
    let v = join32(b0, b1, b2, b3);
    assert(v == (b0 as u32) | ((b1 as u32) << 8) | ((b2 as u32) << 16) | ((b3 as u32) << 24));
    assert(((b0 as u32) | ((b1 as u32) << 8) | ((b2 as u32) << 16) | ((b3 as u32) << 24)) == v
        ==> (v & 0xff) as u8 == b0 && ((v >> 8) & 0xff) as u8 == b1 && ((v >> 16) & 0xff) as u8
        == b2 && ((v >> 24) & 0xff) as u8 == b3) by (bit_vector);
    assert(le32(v) =~= seq![b0, b1, b2, b3]);
}

/// Writing back the value read from eight bytes gives the same bytes.
pub proof fn lemma_bytes_of_join64(b0: u8, b1: u8, b2: u8, b3: u8, b4: u8, b5: u8, b6: u8, b7: u8)
    ensures
        le64(join64(b0, b1, b2, b3, b4, b5, b6, b7)) == seq![b0, b1, b2, b3, b4, b5, b6, b7],
{
    let v = join64(b0, b1, b2, b3, b4, b5, b6, b7);
    assert(v == (b0 as u64) | ((b1 as u64) << 8) | ((b2 as u64) << 16) | ((b3 as u64) << 24) | ((
    b4 as u64) << 32) | ((b5 as u64) << 40) | ((b6 as u64) << 48) | ((b7 as u64) << 56));
    assert(((b0 as u64) | ((b1 as u64) << 8) | ((b2 as u64) << 16) | ((b3 as u64) << 24) | ((
    b4 as u64) << 32) | ((b5 as u64) << 40) | ((b6 as u64) << 48) | ((b7 as u64) << 56)) == v
        ==> (v & 0xff) as u8 == b0 && ((v >> 8) & 0xff) as u8 == b1 && ((v >> 16) & 0xff) as u8
        == b2 && ((v >> 24) & 0xff) as u8 == b3 && ((v >> 32) & 0xff) as u8 == b4 && ((v >> 40)
        & 0xff) as u8 == b5 && ((v >> 48) & 0xff) as u8 == b6 && ((v >> 56) & 0xff) as u8 == b7)
        by (bit_vector);
    assert(le64(v) =~= seq![b0, b1, b2, b3, b4, b5, b6, b7]);
}

/// A signed 32-bit field survives its two's-complement round trip.
pub proof fn lemma_i32_bits(v: i32)
    ensures
        (v as u32) as i32 == v,
{
    assert((v as u32) as i32 == v) by (bit_vector);
}

/// A signed 64-bit field survives its two's-complement round trip.
pub proof fn lemma_i64_bits(v: i64)
    ensures
        (v as u64) as i64 == v,
{
    assert((v as u64) as i64 == v) by (bit_vector);
}

/// The bits of a 32-bit field survive reading them as signed.
pub proof fn lemma_u32_bits(u: u32)
    ensures
        (u as i32) as u32 == u,
{
    assert((u as i32) as u32 == u) by (bit_vector);
}

/// The bits of a 64-bit field survive reading them as signed.
pub proof fn lemma_u64_bits(u: u64)
    ensures
        (u as i64) as u64 == u,
{
    assert((u as i64) as u64 == u) by (bit_vector);
}

/// A 32-bit field inside a part of `s` is the field of that part at the
/// matching offset.
pub proof fn lemma_u32_at_within(s: Seq<u8>, off: int, t: Seq<u8>, k: int)
    requires
        0 <= off,
        off + t.len() <= s.len(),
        s.subrange(off, off + t.len()) == t,
        0 <= k,
        k + 4 <= t.len(),
    ensures
        u32_at(s, off + k) == u32_at(t, k),
{
    assert(s[off + k] == t[k]);
    assert(s[off + k + 1] == t[k + 1]);
    assert(s[off + k + 2] == t[k + 2]);
    assert(s[off + k + 3] == t[k + 3]);
}

/// A 64-bit field inside a part of `s` is the field of that part at the
/// matching offset.
pub proof fn lemma_u64_at_within(s: Seq<u8>, off: int, t: Seq<u8>, k: int)
    requires
        0 <= off,
        off + t.len() <= s.len(),
        s.subrange(off, off + t.len()) == t,
        0 <= k,
        k + 8 <= t.len(),
    ensures
        u64_at(s, off + k) == u64_at(t, k),
{
    assert(s[off + k] == t[k]);
    assert(s[off + k + 1] == t[k + 1]);
    assert(s[off + k + 2] == t[k + 2]);
    assert(s[off + k + 3] == t[k + 3]);
    assert(s[off + k + 4] == t[k + 4]);
    assert(s[off + k + 5] == t[k + 5]);
    assert(s[off + k + 6] == t[k + 6]);
    assert(s[off + k + 7] == t[k + 7]);
}

/// A run of bytes inside a part of `s` is the matching run of that part.
pub proof fn lemma_subrange_within(s: Seq<u8>, off: int, t: Seq<u8>, k: int, n: int)
    requires
        0 <= off,
        off + t.len() <= s.len(),
        s.subrange(off, off + t.len()) == t,
        0 <= k,
        0 <= n,
        k + n <= t.len(),
    ensures
        s.subrange(off + k, off + k + n) == t.subrange(k, k + n),
{
    assert forall|i: int| 0 <= i < n implies #[trigger] s.subrange(off + k, off + k + n)[i]
        == t.subrange(k, k + n)[i] by {
        assert(s[off + k + i] == t[k + i]);
    }
    assert(s.subrange(off + k, off + k + n) =~= t.subrange(k, k + n));
}

/// Appends the little-endian bytes of `v`.
pub fn push_u32(out: &mut Vec<u8>, v: u32)
    ensures
        final(out)@ == old(out)@ + le32(v),
{
    out.push((v & 0xff) as u8);
    out.push(((v >> 8) & 0xff) as u8);
    out.push(((v >> 16) & 0xff) as u8);
    out.push(((v >> 24) & 0xff) as u8);
    assert(out@ =~= old(out)@ + le32(v));
}

/// Appends the little-endian bytes of `v`.
pub fn push_u64(out: &mut Vec<u8>, v: u64)
    ensures
        final(out)@ == old(out)@ + le64(v),
{
    out.push((v & 0xff) as u8);
    out.push(((v >> 8) & 0xff) as u8);
    out.push(((v >> 16) & 0xff) as u8);
    out.push(((v >> 24) & 0xff) as u8);
    out.push(((v >> 32) & 0xff) as u8);
    out.push(((v >> 40) & 0xff) as u8);
    out.push(((v >> 48) & 0xff) as u8);
    out.push(((v >> 56) & 0xff) as u8);
    assert(out@ =~= old(out)@ + le64(v));
}

/// Appends `n` zero bytes.
pub fn push_zeros(out: &mut Vec<u8>, n: usize)
    ensures
        final(out)@ == old(out)@ + zeros(n as nat),
{
    let ghost start = out@;
    let mut i: usize = 0;
    while i < n
        invariant
            i <= n,
            out@ =~= start + zeros(i as nat),
        decreases n - i,
    {
        out.push(0u8);
        i = i + 1;
    }
}

/// Reads the little-endian 32-bit field at `off`.
pub fn read_u32(s: &[u8], off: usize) -> (v: u32)
    requires
        off + 4 <= s@.len(),
    ensures
        v == u32_at(s@, off as int),
{
    (s[off] as u32) | ((s[off + 1] as u32) << 8) | ((s[off + 2] as u32) << 16) | ((s[off + 3] as u32)
        << 24)
}

/// Reads the little-endian 64-bit field at `off`.
pub fn read_u64(s: &[u8], off: usize) -> (v: u64)
    requires
        off + 8 <= s@.len(),
    ensures
        v == u64_at(s@, off as int),
{
    (s[off] as u64) | ((s[off + 1] as u64) << 8) | ((s[off + 2] as u64) << 16) | ((s[off + 3] as u64)
        << 24) | ((s[off + 4] as u64) << 32) | ((s[off + 5] as u64) << 40) | ((s[off + 6] as u64)
        << 48) | ((s[off + 7] as u64) << 56)
}

} // verus!
