//! Decimal text: the digits of integers as the modem writes them, and the
//! parsing of such text with the rules of the standard `FromStr` impls.

use vstd::prelude::*;

verus! {

/// An ASCII decimal digit.
pub open spec fn is_digit(b: u8) -> bool {
    48 <= b && b <= 57
}

/// Every byte of `s` is an ASCII decimal digit.
pub open spec fn all_digits(s: Seq<u8>) -> bool {
    forall|i: int| 0 <= i < s.len() ==> is_digit(#[trigger] s[i])
}

/// The number that a run of decimal digits denotes.
pub open spec fn digits_value(s: Seq<u8>) -> nat
    decreases s.len(),
{
    if s.len() == 0 {
        0
    } else {
        digits_value(s.drop_last()) * 10 + (s.last() - 48) as nat
    }
}

/// The digits of an unsigned number once one leading `+` is removed.
pub open spec fn unsigned_body(s: Seq<u8>) -> Seq<u8> {
    if s.len() > 0 && s[0] == 43u8 {
        s.drop_first()
    } else {
        s
    }
}

/// What parsing `s` as an unsigned integer whose largest value is `max`
/// gives: an optional `+`, then at least one decimal digit and nothing else,
/// with a value that fits.
pub open spec fn spec_parse_unsigned(s: Seq<u8>, max: int) -> Option<nat> {
    let d = unsigned_body(s);
    if d.len() > 0 && all_digits(d) && digits_value(d) <= max {
        Some(digits_value(d))
    } else {
        None
    }
}

/// What parsing `s` as an `i32` gives: a leading `-` negates, otherwise the
/// unsigned rules apply.
pub open spec fn spec_parse_i32(s: Seq<u8>) -> Option<int> {
    if s.len() > 0 && s[0] == 45u8 {
        let d = s.drop_first();
        if d.len() > 0 && all_digits(d) && digits_value(d) <= 0x8000_0000 {
            Some(-(digits_value(d) as int))
        } else {
            None
        }
    } else {
        match spec_parse_unsigned(s, i32::MAX as int) {
            Some(v) => Some(v as int),
            None => None,
        }
    }
}

/// The shortest decimal text of a natural number.
pub open spec fn decimal(n: nat) -> Seq<u8>
    decreases n,
{
    if n < 10 {
        seq![(48 + n) as u8]
    } else {
        decimal(n / 10).push((48 + n % 10) as u8)
    }
}

/// The decimal text of an integer, with a `-` in front of negative ones.
pub open spec fn int_text(v: int) -> Seq<u8> {
    if v < 0 {
        seq![45u8] + decimal((-v) as nat)
    } else {
        decimal(v as nat)
    }
}

/// A prefix of a run of digits never denotes more than the whole run.
pub proof fn lemma_digits_prefix_le(s: Seq<u8>, i: int)
    requires
        all_digits(s),
        0 <= i <= s.len(),
    ensures
        digits_value(s.take(i)) <= digits_value(s),
    decreases s.len(),
{
    if i < s.len() {
        let t = s.drop_last();
        assert(t.take(i) =~= s.take(i));
        lemma_digits_prefix_le(t, i);
    } else {
        assert(s.take(i) =~= s);
    }
}

/// Appending a digit multiplies by ten and adds the digit.
proof fn lemma_digits_step(s: Seq<u8>, start: int, i: int)
    requires
        0 <= start <= i < s.len(),
    ensures
        digits_value(s.subrange(start, i + 1)) == digits_value(s.subrange(start, i)) * 10 + (
        s[i] - 48) as nat,
{
    assert(s.subrange(start, i + 1).drop_last() =~= s.subrange(start, i));
}

/// `decimal(n)` is a non-empty run of digits that denotes `n`.
pub proof fn lemma_decimal_digits(n: nat)
    ensures
        decimal(n).len() > 0,
        all_digits(decimal(n)),
        digits_value(decimal(n)) == n,
        n < 10 ==> decimal(n).len() == 1,
    decreases n,
{
    if n >= 10 {
        lemma_decimal_digits(n / 10);
        let d = decimal(n / 10).push((48 + n % 10) as u8);
        assert(d.drop_last() =~= decimal(n / 10));
        assert(0 <= n % 10 < 10);
        assert(d.last() == (48 + n % 10) as u8);
        assert((d.last() - 48) as nat == n % 10);
        assert((n / 10) * 10 + n % 10 == n);
        assert(decimal(n) == d);
        assert(digits_value(d) == digits_value(d.drop_last()) * 10 + (d.last() - 48) as nat);
    } else {
        let d = decimal(n);
        assert(d.drop_last() =~= Seq::<u8>::empty());
        assert(digits_value(d) == digits_value(d.drop_last()) * 10 + (d.last() - 48) as nat);
    }
}

/// Parses the digits `s[start..]` as a number that fits in a `u64`.
fn parse_digits_u64(s: &[u8], start: usize) -> (r: Option<u64>)
    requires
        start <= s@.len(),
    ensures
        ({
            let d = s@.subrange(start as int, s@.len() as int);
            r == if d.len() > 0 && all_digits(d) && digits_value(d) <= u64::MAX {
                Some(digits_value(d) as u64)
            } else {
                None
            }
        }),
{
    let ghost d = s@.subrange(start as int, s@.len() as int);
    if start >= s.len() {
        return None;
    }
    let mut acc: u64 = 0;
    let mut i: usize = start;
    while i < s.len()
        invariant
            start <= i <= s@.len(),
            d == s@.subrange(start as int, s@.len() as int),
            all_digits(s@.subrange(start as int, i as int)),
            acc as nat == digits_value(s@.subrange(start as int, i as int)),
        decreases s@.len() - i,
    {
        let b = s[i];
        if b < 48 || b > 57 {
            assert(d[i - start] == b);
            return None;
        }
        proof {
            lemma_digits_step(s@, start as int, i as int);
            assert(s@.subrange(start as int, i + 1).drop_last() =~= s@.subrange(
                start as int,
                i as int,
            ));
        }
        let step = acc.checked_mul(10);
        match step {
            None => {
                proof {
                    if all_digits(d) {
                        assert(d.take(i + 1 - start) =~= s@.subrange(start as int, i + 1));
                        lemma_digits_prefix_le(d, i + 1 - start);
                    }
                }
                return None;
            },
            Some(m) => {
                let next = m.checked_add((b - 48) as u64);
                match next {
                    None => {
                        proof {
                            if all_digits(d) {
                                assert(d.take(i + 1 - start) =~= s@.subrange(
                                    start as int,
                                    i + 1,
                                ));
                                lemma_digits_prefix_le(d, i + 1 - start);
                            }
                        }
                        return None;
                    },
                    Some(v) => {
                        acc = v;
                    },
                }
            },
        }
        i = i + 1;
    }
    assert(s@.subrange(start as int, i as int) =~= d);
    Some(acc)
}

/// Where the digits of an unsigned number start: after one leading `+`.
fn unsigned_start(s: &[u8]) -> (start: usize)
    ensures
        start <= s@.len(),
        s@.subrange(start as int, s@.len() as int) == unsigned_body(s@),
{
    if s.len() > 0 && s[0] == 43u8 {
        assert(s@.subrange(1, s@.len() as int) =~= s@.drop_first());
        1
    } else {
        assert(s@.subrange(0, s@.len() as int) =~= s@);
        0
    }
}

/// Parses `s` as a `u64`, as `u64::from_str` does.
pub fn parse_u64(s: &[u8]) -> (r: Option<u64>)
    ensures
        r == match spec_parse_unsigned(s@, u64::MAX as int) {
            Some(v) => Some(v as u64),
            None => None::<u64>,
        },
{
    let start = unsigned_start(s);
    parse_digits_u64(s, start)
}

/// Parses `s` as a `u32`, as `u32::from_str` does.
pub fn parse_u32(s: &[u8]) -> (r: Option<u32>)
    ensures
        r == match spec_parse_unsigned(s@, u32::MAX as int) {
            Some(v) => Some(v as u32),
            None => None::<u32>,
        },
{
    match parse_u64(s) {
        Some(v) => if v <= u32::MAX as u64 {
            Some(v as u32)
        } else {
            None
        },
        None => {
            None
        },
    }
}

/// Parses `s` as a `u16`, as `u16::from_str` does.
pub fn parse_u16(s: &[u8]) -> (r: Option<u16>)
    ensures
        r == match spec_parse_unsigned(s@, u16::MAX as int) {
            Some(v) => Some(v as u16),
            None => None::<u16>,
        },
{
    match parse_u64(s) {
        Some(v) => if v <= u16::MAX as u64 {
            Some(v as u16)
        } else {
            None
        },
        None => {
            None
        },
    }
}

/// Parses `s` as a `u8`, as `u8::from_str` does.
pub fn parse_u8(s: &[u8]) -> (r: Option<u8>)
    ensures
        r == match spec_parse_unsigned(s@, u8::MAX as int) {
            Some(v) => Some(v as u8),
            None => None::<u8>,
        },
{
    match parse_u64(s) {
        Some(v) => if v <= u8::MAX as u64 {
            Some(v as u8)
        } else {
            None
        },
        None => {
            None
        },
    }
}

/// Parses `s` as an `i32`, as `i32::from_str` does.
pub fn parse_i32(s: &[u8]) -> (r: Option<i32>)
    ensures
        r == match spec_parse_i32(s@) {
            Some(v) => Some(v as i32),
            None => None::<i32>,
        },
{
    if s.len() > 0 && s[0] == 45u8 {
        assert(s@.subrange(1, s@.len() as int) =~= s@.drop_first());
        match parse_digits_u64(s, 1) {
            Some(v) => if v <= 0x8000_0000u64 {
                Some((0i64 - v as i64) as i32)
            } else {
                None
            },
            None => None,
        }
    } else {
        match parse_u64(s) {
            Some(v) => if v <= i32::MAX as u64 {
                Some(v as i32)
            } else {
                None
            },
            None => None,
        }
    }
}

/// Appends the decimal text of `n` to `out`.
pub fn push_decimal(out: &mut Vec<u8>, n: u64)
    ensures
        final(out)@ == old(out)@ + decimal(n as nat),
    decreases n,
{
    if n >= 10 {
        push_decimal(out, n / 10);
    }
    let d: u8 = (n % 10) as u8;
    out.push(48u8 + d);
    proof {
        if n >= 10 {
            assert(decimal(n as nat) == decimal((n / 10) as nat).push((48 + n % 10) as u8));
        }
    }
    assert(final(out)@ =~= old(out)@ + decimal(n as nat));
}

/// Appends the decimal text of `v`, `-` first where it is negative.
pub fn push_i32_text(out: &mut Vec<u8>, v: i32)
    ensures
        final(out)@ == old(out)@ + int_text(v as int),
{
    if v < 0 {
        out.push(45u8);
        let m: u64 = (0i64 - v as i64) as u64;
        push_decimal(out, m);
        assert(final(out)@ =~= old(out)@ + int_text(v as int));
    } else {
        push_decimal(out, v as u64);
    }
}

/// The text of an `i32` parses back to the same `i32`.
pub proof fn lemma_i32_text_roundtrip(v: i32)
    ensures
        spec_parse_i32(int_text(v as int)) == Some(v as int),
{
    if v < 0 {
        let n = (-(v as int)) as nat;
        lemma_decimal_digits(n);
        assert((seq![45u8] + decimal(n)).drop_first() =~= decimal(n));
    } else {
        lemma_decimal_digits(v as nat);
        let t = decimal(v as nat);
        assert(t[0] != 45u8 && t[0] != 43u8);
        assert(unsigned_body(t) == t);
    }
}

} // verus!
