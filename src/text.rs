//! The bounded text buffer of the diagnostic channel, and decimal rendering.
use vstd::prelude::*;

verus! {

#[verifier::external_type_specification]
#[verifier::external_body]
pub struct ExHeaplessString<const N: usize>(heapless::String<N>);

/// The characters held by a diagnostic record buffer.
pub uninterp spec fn record_chars(s: heapless::String<300>) -> Seq<char>;

/// Every character of `t` is ASCII, so it takes one byte.
#[verifier::opaque]
pub open spec fn is_ascii(t: Seq<char>) -> bool {
    forall|i: int| 0 <= i < t.len() ==> (#[trigger] t[i] as u32) < 128
}

/// Relies on `heapless::String::new`: the new string is empty.
#[verifier::external_body]
pub(crate) fn empty_record() -> (r: heapless::String<300>)
    ensures
        record_chars(r) == Seq::<char>::empty(),
{
    heapless::String::new()
}

/// Relies on `heapless::String::push`: a one-byte character is appended when
/// fewer than 300 bytes are held, else nothing changes and `Err` comes back.
#[verifier::external_body]
pub(crate) fn push_ascii(s: &mut heapless::String<300>, c: char) -> (r: Result<(), ()>)
    requires
        (c as u32) < 128,
        is_ascii(record_chars(*old(s))),
    ensures
        record_chars(*old(s)).len() < 300 ==> r is Ok && record_chars(*final(s)) == record_chars(
            *old(s),
        ).push(c),
        record_chars(*old(s)).len() >= 300 ==> r is Err && record_chars(*final(s)) == record_chars(
            *old(s),
        ),
{
    s.push(c)
}

/// The decimal digit `d`.
pub open spec fn digit_char(d: int) -> char {
    if d == 0 {
        '0'
    } else if d == 1 {
        '1'
    } else if d == 2 {
        '2'
    } else if d == 3 {
        '3'
    } else if d == 4 {
        '4'
    } else if d == 5 {
        '5'
    } else if d == 6 {
        '6'
    } else if d == 7 {
        '7'
    } else if d == 8 {
        '8'
    } else {
        '9'
    }
}

/// The decimal digits of `n`, most significant first, without leading zeros.
pub open spec fn decimal_digits(n: nat) -> Seq<char>
    decreases n,
{
    if n < 10 {
        seq![digit_char(n as int)]
    } else {
        decimal_digits(n / 10).push(digit_char((n % 10) as int))
    }
}

/// Decimal digits are ASCII, and at most ten of them for `n < 10^10`.
pub proof fn lemma_decimal_digits(n: nat)
    ensures
        is_ascii(decimal_digits(n)),
        1 <= decimal_digits(n).len(),
        n < 10_000_000_000 ==> decimal_digits(n).len() <= 10,
        n < 1_000_000_000 ==> decimal_digits(n).len() <= 9,
        n < 100_000_000 ==> decimal_digits(n).len() <= 8,
        n < 10_000_000 ==> decimal_digits(n).len() <= 7,
        n < 1_000_000 ==> decimal_digits(n).len() <= 6,
        n < 100_000 ==> decimal_digits(n).len() <= 5,
        n < 10_000 ==> decimal_digits(n).len() <= 4,
        n < 1000 ==> decimal_digits(n).len() <= 3,
        n < 100 ==> decimal_digits(n).len() <= 2,
    decreases n,
{
    reveal(is_ascii);
    if n >= 10 {
        lemma_decimal_digits(n / 10);
        let t = decimal_digits(n);
        assert forall|i: int| 0 <= i < t.len() implies (#[trigger] t[i] as u32) < 128 by {
            if i < t.len() - 1 {
                assert(t[i] == decimal_digits(n / 10)[i]);
            }
        }
    } else {
        let t = decimal_digits(n);
        assert((t[0] as u32) < 128);
    }
}

/// Appending an ASCII character keeps a text ASCII.
pub proof fn lemma_ascii_push(t: Seq<char>, c: char)
    requires
        is_ascii(t),
        (c as u32) < 128,
    ensures
        is_ascii(t.push(c)),
{
    reveal(is_ascii);
    assert forall|i: int| 0 <= i < t.push(c).len() implies (#[trigger] t.push(c)[i] as u32) < 128 by {
        if i < t.len() {
            assert(t.push(c)[i] == t[i]);
        }
    }
}

/// Joining two ASCII texts gives an ASCII text.
pub proof fn lemma_ascii_concat(a: Seq<char>, b: Seq<char>)
    requires
        is_ascii(a),
        is_ascii(b),
    ensures
        is_ascii(a + b),
{
    reveal(is_ascii);
    assert forall|i: int| 0 <= i < (a + b).len() implies (#[trigger] (a + b)[i] as u32) < 128 by {
        if i < a.len() {
            assert((a + b)[i] == a[i]);
        } else {
            assert((a + b)[i] == b[i - a.len()]);
        }
    }
}

/// Appends one ASCII character when the buffer has room; a full buffer is left
/// as it was.
pub fn push_char(s: &mut heapless::String<300>, c: char)
    requires
        (c as u32) < 128,
        is_ascii(record_chars(*old(s))),
    ensures
        record_chars(*old(s)).len() < 300 ==> record_chars(*final(s)) == record_chars(*old(s)).push(c),
        record_chars(*old(s)).len() >= 300 ==> record_chars(*final(s)) == record_chars(*old(s)),
        is_ascii(record_chars(*final(s))),
{
    let _ = push_ascii(s, c);
    proof {
        lemma_ascii_push(record_chars(*old(s)), c);
    }
}

/// The digit `d` as a character.
pub fn digit(d: u64) -> (r: char)
    requires
        d < 10,
    ensures
        r == digit_char(d as int),
        (r as u32) < 128,
{
    match d {
        0 => '0',
        1 => '1',
        2 => '2',
        3 => '3',
        4 => '4',
        5 => '5',
        6 => '6',
        7 => '7',
        8 => '8',
        _ => '9',
    }
}

/// Appends the decimal digits of `n`.
pub fn push_decimal(s: &mut heapless::String<300>, n: u64)
    requires
        is_ascii(record_chars(*old(s))),
        record_chars(*old(s)).len() + decimal_digits(n as nat).len() <= 300,
    ensures
        record_chars(*final(s)) == record_chars(*old(s)) + decimal_digits(n as nat),
        is_ascii(record_chars(*final(s))),
    decreases n,
{
    proof {
        lemma_decimal_digits(n as nat);
    }
    if n >= 10 {
        proof {
            lemma_decimal_digits((n / 10) as nat);
        }
        push_decimal(s, n / 10);
    }
    let ghost before = record_chars(*s);
    let c = digit(n % 10);
    let _ = push_ascii(s, c);
    proof {
        assert(record_chars(*s) == before.push(c));
        assert(decimal_digits(n as nat) == if n < 10 {
            seq![c]
        } else {
            decimal_digits((n / 10) as nat).push(c)
        });
        if n < 10 {
            assert(before == record_chars(*old(s)));
        }
        assert(record_chars(*s) =~= record_chars(*old(s)) + decimal_digits(n as nat));
        lemma_ascii_push(before, c);
    }
}

} // verus!
