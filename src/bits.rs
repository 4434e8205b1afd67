//! LSB-first bit numbering of button words and packed reports.
use vstd::prelude::*;

verus! {

/// The word whose bit `i` is `flags[i]`, least significant bit first.
pub open spec fn flags_word(flags: Seq<bool>) -> u16
    decreases flags.len(),
{
    if flags.len() == 0 {
        0
    } else {
        flags_word(flags.drop_last()) | flag_term(flags.last(), (flags.len() - 1) as u16)
    }
}

/// `1 << i` when `set`, else `0`.
pub open spec fn flag_term(set: bool, i: u16) -> u16 {
    if set {
        1u16 << i
    } else {
        0
    }
}

/// Bit `i` of `w`, least significant first.
pub open spec fn word_bit(w: u16, i: u16) -> bool {
    (w >> i) & 1 == 1
}

/// Bit `i` of the byte `b`, least significant first.
pub open spec fn byte_bit(b: u8, i: u8) -> bool {
    (b >> i) & 1 == 1
}

/// Bit `p` of a packed report: bit `p % 8` of byte `p / 8`.
pub open spec fn report_bit(bytes: Seq<u8>, p: int) -> bool {
    byte_bit(bytes[p / 8], (p % 8) as u8)
}

/// Low byte of a little-endian 16-bit field.
pub open spec fn low_byte(w: u16) -> u8 {
    (w & 0xff) as u8
}

/// High byte of a little-endian 16-bit field.
pub open spec fn high_byte(w: u16) -> u8 {
    (w >> 8) as u8
}

proof fn lemma_or_term_bit(w: u16, t: u16, k: u16, i: u16)
    by (bit_vector)
    requires
        k < 16,
        i < 16,
        t == 0 || t == 1u16 << k,
    ensures
        (1u16 << k) != 0,
        ((w | t) >> i) & 1 == (if i == k && t != 0 {
            1u16
        } else {
            (w >> i) & 1
        }),
{
}

proof fn lemma_zero_word_bit(i: u16)
    by (bit_vector)
    requires
        i < 16,
    ensures
        (0u16 >> i) & 1 == 0,
{
}

/// Bit `i` of `flags_word(flags)` is `flags[i]`, and `0` past the flags.
pub proof fn lemma_flags_word_bits(flags: Seq<bool>)
    requires
        flags.len() <= 16,
    ensures
        forall|i: u16| i < 16 ==> #[trigger] word_bit(flags_word(flags), i) == (i < flags.len() && flags[i as int]),
    decreases flags.len(),
{
    if flags.len() == 0 {
        assert forall|i: u16| i < 16 implies !#[trigger] word_bit(flags_word(flags), i) by {
            lemma_zero_word_bit(i);
        }
    } else {
        let prefix = flags.drop_last();
        lemma_flags_word_bits(prefix);
        let k = (flags.len() - 1) as u16;
        let t = flag_term(flags.last(), k);
        assert(flags_word(flags) == flags_word(prefix) | t);
        assert forall|i: u16| i < 16 implies #[trigger] word_bit(flags_word(flags), i) == (i < flags.len() && flags[i as int]) by {
            lemma_or_term_bit(flags_word(prefix), t, k, i);
            assert(word_bit(flags_word(prefix), i) == (i < prefix.len() && prefix[i as int]));
            if i < k {
                assert(prefix[i as int] == flags[i as int]);
            }
        }
    }
}

/// Bits of the two bytes of a little-endian 16-bit field.
pub proof fn lemma_split_word_bits(w: u16, i: u8)
    by (bit_vector)
    requires
        i < 8,
    ensures
        (((w & 0xff) as u8) >> i) & 1 == 1 <==> (w >> (i as u16)) & 1 == 1,
        (((w >> 8) as u8) >> i) & 1 == 1 <==> (w >> ((i + 8) as u16)) & 1 == 1,
{
}

/// A little-endian 16-bit field read back from its two bytes.
pub proof fn lemma_join_word(lo: u8, hi: u8)
    by (bit_vector)
    ensures
        ((lo as u16 | ((hi as u16) << 8)) & 0xff) as u8 == lo,
        ((lo as u16 | ((hi as u16) << 8)) >> 8) as u8 == hi,
{
}

/// Two words with the same sixteen bits are equal.
pub proof fn lemma_word_ext(a: u16, b: u16)
    by (bit_vector)
    requires
        word_bit(a, 0) == word_bit(b, 0),
        word_bit(a, 1) == word_bit(b, 1),
        word_bit(a, 2) == word_bit(b, 2),
        word_bit(a, 3) == word_bit(b, 3),
        word_bit(a, 4) == word_bit(b, 4),
        word_bit(a, 5) == word_bit(b, 5),
        word_bit(a, 6) == word_bit(b, 6),
        word_bit(a, 7) == word_bit(b, 7),
        word_bit(a, 8) == word_bit(b, 8),
        word_bit(a, 9) == word_bit(b, 9),
        word_bit(a, 10) == word_bit(b, 10),
        word_bit(a, 11) == word_bit(b, 11),
        word_bit(a, 12) == word_bit(b, 12),
        word_bit(a, 13) == word_bit(b, 13),
        word_bit(a, 14) == word_bit(b, 14),
        word_bit(a, 15) == word_bit(b, 15),
    ensures
        a == b,
{
}

/// A word with the same bits as `b` at every position below 16 equals `b`.
pub proof fn lemma_word_ext_forall(a: u16, b: u16)
    requires
        forall|i: u16| i < 16 ==> #[trigger] word_bit(a, i) == word_bit(b, i),
    ensures
        a == b,
{
    assert(word_bit(a, 0) == word_bit(b, 0));
    assert(word_bit(a, 1) == word_bit(b, 1));
    assert(word_bit(a, 2) == word_bit(b, 2));
    assert(word_bit(a, 3) == word_bit(b, 3));
    assert(word_bit(a, 4) == word_bit(b, 4));
    assert(word_bit(a, 5) == word_bit(b, 5));
    assert(word_bit(a, 6) == word_bit(b, 6));
    assert(word_bit(a, 7) == word_bit(b, 7));
    assert(word_bit(a, 8) == word_bit(b, 8));
    assert(word_bit(a, 9) == word_bit(b, 9));
    assert(word_bit(a, 10) == word_bit(b, 10));
    assert(word_bit(a, 11) == word_bit(b, 11));
    assert(word_bit(a, 12) == word_bit(b, 12));
    assert(word_bit(a, 13) == word_bit(b, 13));
    assert(word_bit(a, 14) == word_bit(b, 14));
    assert(word_bit(a, 15) == word_bit(b, 15));
    lemma_word_ext(a, b);
}

/// The little-endian 16-bit field stored at bytes `k` and `k + 1`.
pub open spec fn word_at(bytes: Seq<u8>, k: int) -> u16 {
    (bytes[k] as u16) | ((bytes[k + 1] as u16) << 8)
}

proof fn lemma_split_join(w: u16)
    by (bit_vector)
    ensures
        (((w & 0xff) as u8) as u16 | ((((w >> 8) as u8) as u16) << 8)) == w,
{
}

/// A word written as its two bytes is read back unchanged.
pub proof fn lemma_word_at_bytes(bytes: Seq<u8>, k: int, w: u16)
    requires
        0 <= k,
        k + 1 < bytes.len(),
        bytes[k] == low_byte(w),
        bytes[k + 1] == high_byte(w),
    ensures
        word_at(bytes, k) == w,
{
    lemma_split_join(w);
}

/// Report bit `8 * k + i` is bit `i` of the 16-bit field at byte `k`.
pub proof fn lemma_report_bit_of_word(bytes: Seq<u8>, k: int, i: u16)
    requires
        0 <= k,
        k + 1 < bytes.len(),
        i < 16,
    ensures
        report_bit(bytes, 8 * k + i) == word_bit(word_at(bytes, k), i),
        low_byte(word_at(bytes, k)) == bytes[k],
        high_byte(word_at(bytes, k)) == bytes[k + 1],
{
    let w = word_at(bytes, k);
    lemma_join_word(bytes[k], bytes[k + 1]);
    if i < 8 {
        assert((8 * k + i) / 8 == k);
        assert((8 * k + i) % 8 == i);
        lemma_split_word_bits(w, i as u8);
    } else {
        assert((8 * k + i) / 8 == k + 1);
        assert((8 * k + i) % 8 == i - 8);
        lemma_split_word_bits(w, (i - 8) as u8);
    }
}

/// The word whose bit `i` is `flags[i]`.
pub fn pack_flags(flags: &[bool]) -> (r: u16)
    requires
        flags@.len() <= 16,
    ensures
        r == flags_word(flags@),
{
    let mut word: u16 = 0;
    let mut i: usize = 0;
    while i < flags.len()
        invariant
            flags@.len() <= 16,
            i <= flags@.len(),
            word == flags_word(flags@.take(i as int)),
        decreases flags@.len() - i,
    {
        let term: u16 = if flags[i] {
            1u16 << (i as u16)
        } else {
            0
        };
        proof {
            let next = flags@.take(i as int + 1);
            assert(next.drop_last() =~= flags@.take(i as int));
            assert(next.last() == flags@[i as int]);
        }
        word = word | term;
        i = i + 1;
    }
    assert(flags@.take(flags@.len() as int) =~= flags@);
    word
}

} // verus!
