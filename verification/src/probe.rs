//! What the capability probe decides around the handshake calls: which
//! device classes and memory pools to query, and how a metadata blob is
//! shown.
use vstd::prelude::*;
use vstd::utf8::{
    valid_utf8, decode_utf8, encode_utf8, encode_scalar, has_width_1_encoding, char_is_scalar,
    encode_utf8_valid_utf8, encode_utf8_decode_utf8,
};
use vstd::slice::slice_subrange;

verus! {

/// Bit `b` of `mask` is set.
pub open spec fn bit_set(mask: u64, b: u32) -> bool {
    mask & (1u64 << b) != 0
}

/// The set bits of `mask` below `n`, in increasing order.
pub open spec fn set_bits_below(mask: u64, n: u32) -> Seq<u32>
    decreases n,
{
    if n == 0 {
        Seq::empty()
    } else {
        let rest = set_bits_below(mask, (n - 1) as u32);
        if bit_set(mask, (n - 1) as u32) {
            rest.push((n - 1) as u32)
        } else {
            rest
        }
    }
}

/// The members of `set_bits_below(mask, n)` are exactly the set bits below
/// `n`, and they are strictly increasing.
pub proof fn lemma_set_bits_below(mask: u64, n: u32)
    requires
        n <= 64,
    ensures
        forall|b: u32| b < n ==> (set_bits_below(mask, n).contains(b) <==> bit_set(mask, b)),
        forall|b: u32| #[trigger] set_bits_below(mask, n).contains(b) ==> b < n,
        forall|i: int, j: int|
            0 <= i < j < set_bits_below(mask, n).len() ==> set_bits_below(mask, n)[i]
                < set_bits_below(mask, n)[j],
    decreases n,
{
    if n > 0 {
        let m = (n - 1) as u32;
        lemma_set_bits_below(mask, m);
        let rest = set_bits_below(mask, m);
        if bit_set(mask, m) {
            assert forall|b: u32| #[trigger] rest.push(m).contains(b) implies b < n by {
                if b != m {
                    let k = choose|k: int| 0 <= k < rest.push(m).len() && rest.push(m)[k] == b;
                    assert(rest.contains(rest.push(m)[k]));
                }
            }
            assert forall|b: u32| b < n implies (rest.push(m).contains(b) <==> bit_set(mask, b)) by {
                if b == m {
                    assert(rest.push(m)[rest.len() as int] == m);
                } else {
                    if rest.push(m).contains(b) {
                        let k = choose|k: int| 0 <= k < rest.push(m).len() && rest.push(m)[k] == b;
                        assert(rest.contains(rest.push(m)[k]));
                    }
                    if rest.contains(b) {
                        let k = choose|k: int| 0 <= k < rest.len() && rest[k] == b;
                        assert(rest.push(m)[k] == b);
                    }
                }
            }
            assert forall|i: int, j: int| 0 <= i < j < rest.push(m).len() implies rest.push(m)[i]
                < rest.push(m)[j] by {
                if j == rest.len() {
                    assert(rest.contains(rest[i]));
                }
            }
        }
    }
}

/// The device classes (or memory pools) a bitmask advertises: every bit of
/// `mask` that is set, from bit 0 up to bit 63.
pub fn set_bits(mask: u64) -> (bits: Vec<u32>)
    ensures
        bits@ == set_bits_below(mask, 64),
        forall|b: u32| b < 64 ==> (bits@.contains(b) <==> bit_set(mask, b)),
        forall|b: u32| #[trigger] bits@.contains(b) ==> b < 64,
        forall|i: int, j: int| 0 <= i < j < bits@.len() ==> bits@[i] < bits@[j],
{
    let mut bits: Vec<u32> = Vec::new();
    let mut b: u32 = 0;
    while b < 64
        invariant
            b <= 64,
            bits@ == set_bits_below(mask, b),
        decreases 64 - b,
    {
        if mask & (1u64 << b) != 0 {
            bits.push(b);
        }
        b = b + 1;
    }
    proof {
        lemma_set_bits_below(mask, 64);
    }
    bits
}

/// The lowest set bit of `mask` in `from..64`, if there is one.
pub open spec fn lowest_set_bit_from(mask: u64, from: u32) -> Option<u32>
    decreases 64 - from,
{
    if from >= 64 {
        None
    } else if bit_set(mask, from) {
        Some(from)
    } else {
        lowest_set_bit_from(mask, (from + 1) as u32)
    }
}

/// What `lowest_set_bit_from` finds: a set bit with no set bit below it in
/// range, or nothing when no bit in range is set.
pub proof fn lemma_lowest_set_bit_from(mask: u64, from: u32)
    requires
        from <= 64,
    ensures
        lowest_set_bit_from(mask, from) matches Some(b) ==> from <= b < 64 && bit_set(mask, b)
            && forall|c: u32| from <= c < b ==> !bit_set(mask, c),
        lowest_set_bit_from(mask, from) is None ==> forall|c: u32| from <= c < 64 ==> !bit_set(
            mask,
            c,
        ),
    decreases 64 - from,
{
    if from < 64 && !bit_set(mask, from) {
        lemma_lowest_set_bit_from(mask, (from + 1) as u32);
        assert forall|c: u32| from <= c < 64 && lowest_set_bit_from(mask, from) is None implies
            !bit_set(mask, c) by {
            if c != from {
                assert(from + 1 <= c);
            }
        }
    }
}

/// The device class the runner submits to when the user names none: the
/// lowest set bit of `dev_bitmask` among bits 1 to 63, or 1 when none of
/// them is set.
pub open spec fn default_dev_type(dev_bitmask: u64) -> u32 {
    match lowest_set_bit_from(dev_bitmask, 1) {
        Some(b) => b,
        None => 1,
    }
}

/// The device class the runner submits to: the user's choice when there is
/// one, else `default_dev_type(dev_bitmask)`.
pub fn select_dev_type(user_choice: Option<u32>, dev_bitmask: u64) -> (ty: u32)
    ensures
        ty == match user_choice {
            Some(t) => t,
            None => default_dev_type(dev_bitmask),
        },
        user_choice is None ==> 1 <= ty < 64,
        user_choice is None && ty != 1 ==> bit_set(dev_bitmask, ty),
        user_choice is None ==> forall|c: u32| 1 <= c < ty ==> !bit_set(dev_bitmask, c),
{
    proof {
        lemma_lowest_set_bit_from(dev_bitmask, 1);
    }
    match user_choice {
        Some(t) => t,
        None => {
            let mut b: u32 = 1;
            while b < 64
                invariant
                    1 <= b <= 64,
                    user_choice is None,
                    lowest_set_bit_from(dev_bitmask, b) == lowest_set_bit_from(dev_bitmask, 1),
                decreases 64 - b,
            {
                if dev_bitmask & (1u64 << b) != 0 {
                    proof {
                        lemma_lowest_set_bit_from(dev_bitmask, 1);
                    }
                    return b;
                }
                b = b + 1;
            }
            1
        },
    }
}

/// The length of the text in `b`: the bytes before the first zero byte, or
/// all of `b` when it holds none.
pub open spec fn nul_terminated_len(b: Seq<u8>) -> int
    decreases b.len(),
{
    if b.len() == 0 {
        0
    } else if b[0] == 0 {
        0
    } else {
        1 + nul_terminated_len(b.drop_first())
    }
}

/// What `nul_terminated_len` measures: no zero byte before it, and a zero
/// byte at it unless it is the whole length.
pub proof fn lemma_nul_terminated_len(b: Seq<u8>)
    ensures
        0 <= nul_terminated_len(b) <= b.len(),
        forall|i: int| 0 <= i < nul_terminated_len(b) ==> b[i] != 0,
        nul_terminated_len(b) < b.len() ==> b[nul_terminated_len(b)] == 0,
    decreases b.len(),
{
    if b.len() > 0 && b[0] != 0 {
        lemma_nul_terminated_len(b.drop_first());
        assert forall|i: int| 0 <= i < nul_terminated_len(b) implies b[i] != 0 by {
            if i > 0 {
                assert(b[i] == b.drop_first()[i - 1]);
            }
        }
    }
}

/// Finds the first zero byte of `b` (its length if there is none).
pub fn text_len(b: &[u8]) -> (n: usize)
    ensures
        n == nul_terminated_len(b@),
        n <= b@.len(),
        forall|i: int| 0 <= i < n ==> b@[i] != 0,
        n < b@.len() ==> b@[n as int] == 0,
{
    proof {
        lemma_nul_terminated_len(b@);
    }
    let mut i: usize = 0;
    while i < b.len()
        invariant
            i <= b@.len(),
            forall|k: int| 0 <= k < i ==> b@[k] != 0,
            nul_terminated_len(b@) <= b@.len(),
            forall|k: int| 0 <= k < nul_terminated_len(b@) ==> b@[k] != 0,
            nul_terminated_len(b@) < b@.len() ==> b@[nul_terminated_len(b@)] == 0,
            i <= nul_terminated_len(b@),
        decreases b@.len() - i,
    {
        if b[i] == 0 {
            return i;
        }
        i = i + 1;
    }
    i
}

/// The text that `String::from_utf8_lossy` makes of `bytes`: the decoded
/// characters, with U+FFFD in place of each invalid sequence.
pub uninterp spec fn lossy_utf8(bytes: Seq<u8>) -> Seq<char>;

/// Calls `String::from_utf8_lossy` (and `Cow::into_owned`). The result is
/// named `lossy_utf8`; std documents that bytes that are valid UTF-8 come
/// back as the string they encode, and that every invalid sequence becomes
/// U+FFFD, so bytes without a zero byte give text without a NUL character.
/// Which sequences are replaced is not stated beyond the name.
#[verifier::external_body]
fn from_utf8_lossy(bytes: &[u8]) -> (s: String)
    ensures
        s@ == lossy_utf8(bytes@),
        valid_utf8(bytes@) ==> s@ == decode_utf8(bytes@),
        (forall|i: int| 0 <= i < bytes@.len() ==> bytes@[i] != 0) ==> forall|j: int|
            0 <= j < s@.len() ==> #[trigger] s@[j] as u32 != 0,
{
    String::from_utf8_lossy(bytes).into_owned()
}

/// The text of a blob: its bytes before the first zero byte.
pub open spec fn text_bytes(b: Seq<u8>) -> Seq<u8> {
    b.subrange(0, nul_terminated_len(b))
}

/// The printable form of a metadata blob: the bytes before the first zero
/// byte, decoded as UTF-8 with invalid sequences replaced.
pub fn ascii_only(b: &[u8]) -> (s: String)
    ensures
        s@ == lossy_utf8(text_bytes(b@)),
        valid_utf8(text_bytes(b@)) ==> s@ == decode_utf8(text_bytes(b@)),
        forall|j: int| 0 <= j < s@.len() ==> #[trigger] s@[j] as u32 != 0,
{
    proof {
        lemma_nul_terminated_len(b@);
    }
    let n = text_len(b);
    let text = slice_subrange(b, 0, n);
    from_utf8_lossy(text)
}

/// A byte with its top bit set is not zero, whatever is or-ed into it.
proof fn lemma_high_bit_nonzero(hi: u8, y: u8)
    requires
        hi >= 0x80,
    ensures
        hi | y != 0,
{
    assert(hi >= 0x80 ==> hi | y != 0) by (bit_vector);
}

/// The UTF-8 bytes of a character other than NUL are all non-zero.
pub proof fn lemma_encode_scalar_nonzero(c: char)
    requires
        c as u32 != 0,
    ensures
        forall|j: int|
            0 <= j < encode_scalar(c as u32).len() ==> #[trigger] encode_scalar(c as u32)[j] != 0,
{
    let v = c as u32;
    char_is_scalar(c);
    if has_width_1_encoding(v) {
        assert(1 <= v <= 0x7f ==> (v & 0x7F) as u8 != 0) by (bit_vector);
    } else {
        lemma_high_bit_nonzero(0xC0, ((v >> 6) & 0x1F) as u8);
        lemma_high_bit_nonzero(0xE0, ((v >> 12) & 0x0F) as u8);
        lemma_high_bit_nonzero(0xF0, ((v >> 18) & 0x7) as u8);
        lemma_high_bit_nonzero(0x80, (v & 0x3F) as u8);
        lemma_high_bit_nonzero(0x80, ((v >> 6) & 0x3F) as u8);
        lemma_high_bit_nonzero(0x80, ((v >> 12) & 0x3F) as u8);
    }
}

/// The UTF-8 bytes of a text without NUL characters hold no zero byte.
pub proof fn lemma_encode_utf8_nonzero(chars: Seq<char>)
    requires
        forall|i: int| 0 <= i < chars.len() ==> #[trigger] chars[i] as u32 != 0,
    ensures
        forall|j: int| 0 <= j < encode_utf8(chars).len() ==> #[trigger] encode_utf8(chars)[j] != 0,
    decreases chars.len(),
{
    if chars.len() > 0 {
        let head = encode_scalar(chars[0] as u32);
        let rest = chars.drop_first();
        assert(chars[0] as u32 != 0);
        lemma_encode_scalar_nonzero(chars[0]);
        assert forall|i: int| 0 <= i < rest.len() implies #[trigger] rest[i] as u32 != 0 by {
            assert(rest[i] == chars[i + 1]);
        }
        lemma_encode_utf8_nonzero(rest);
        assert(encode_utf8(chars) == head + encode_utf8(rest));
        assert forall|j: int| 0 <= j < encode_utf8(chars).len() implies #[trigger] encode_utf8(
            chars,
        )[j] != 0 by {
            if j < head.len() {
                assert(encode_utf8(chars)[j] == head[j]);
            } else {
                assert(encode_utf8(chars)[j] == encode_utf8(rest)[j - head.len()]);
            }
        }
    }
}

/// The printable form is stable: a text without NUL characters (as every
/// result of `ascii_only` is) is its own whole text when written as UTF-8,
/// those bytes are valid UTF-8, and they decode to the same text. So
/// `ascii_only` of the bytes of what `ascii_only` returned gives it back.
pub proof fn lemma_ascii_only_idempotent(r: Seq<char>)
    requires
        forall|i: int| 0 <= i < r.len() ==> #[trigger] r[i] as u32 != 0,
    ensures
        text_bytes(encode_utf8(r)) == encode_utf8(r),
        valid_utf8(text_bytes(encode_utf8(r))),
        decode_utf8(text_bytes(encode_utf8(r))) == r,
{
    let e = encode_utf8(r);
    lemma_encode_utf8_nonzero(r);
    lemma_nul_terminated_len(e);
    assert(nul_terminated_len(e) == e.len());
    assert(text_bytes(e) =~= e);
    encode_utf8_valid_utf8(r);
    encode_utf8_decode_utf8(r);
}

} // verus!
