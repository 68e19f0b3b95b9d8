//! Decimal text for unsigned integers, as the routes read and write it.

use vstd::prelude::*;

verus! {

/// The byte of `'+'`.
pub const PLUS: u8 = 43;

/// The byte of `'0'`.
pub const ZERO: u8 = 48;

/// An ASCII decimal digit.
pub open spec fn is_digit(b: u8) -> bool {
    ZERO <= b <= ZERO + 9
}

pub open spec fn all_digits(s: Seq<u8>) -> bool {
    forall|i: int| 0 <= i < s.len() ==> is_digit(#[trigger] s[i])
}

/// The number that a string of decimal digits denotes.
pub open spec fn digits_value(s: Seq<u8>) -> int
    decreases s.len(),
{
    if s.len() == 0 {
        0
    } else {
        digits_value(s.drop_last()) * 10 + (s.last() - ZERO)
    }
}

/// The digits of an unsigned number's text: one leading `'+'` is dropped.
pub open spec fn unsigned_digits(s: Seq<u8>) -> Seq<u8> {
    if s.len() > 0 && s[0] == PLUS {
        s.drop_first()
    } else {
        s
    }
}

/// What parsing `s` as an unsigned integer of maximum `max` gives: a
/// number when, past an optional `'+'`, `s` is a non-empty run of decimal
/// digits whose value does not exceed `max`; nothing otherwise.
pub open spec fn parse_unsigned(s: Seq<u8>, max: int) -> Option<int> {
    let d = unsigned_digits(s);
    if d.len() > 0 && all_digits(d) && digits_value(d) <= max {
        Some(digits_value(d))
    } else {
        None
    }
}

/// The shortest decimal text of a number.
pub open spec fn decimal(n: nat) -> Seq<u8>
    decreases n,
{
    if n < 10 {
        seq![(ZERO + n) as u8]
    } else {
        decimal(n / 10).push((ZERO + n % 10) as u8)
    }
}

proof fn lemma_digits_value_nonneg(s: Seq<u8>)
    requires
        all_digits(s),
    ensures
        digits_value(s) >= 0,
    decreases s.len(),
{
    if s.len() > 0 {
        lemma_digits_value_nonneg(s.drop_last());
    }
}

/// A longer prefix of a run of digits never denotes a smaller number.
proof fn lemma_digits_value_prefix(s: Seq<u8>, k: int)
    requires
        all_digits(s),
        0 <= k <= s.len(),
    ensures
        digits_value(s.take(k)) <= digits_value(s),
    decreases s.len() - k,
{
    if k < s.len() {
        lemma_digits_value_prefix(s, k + 1);
        assert(s.take(k + 1).drop_last() =~= s.take(k));
        lemma_digits_value_nonneg(s.take(k));
    } else {
        assert(s.take(k) =~= s);
    }
}

/// Parses the decimal digits `s[start..]` into a `u64`; `None` where a byte
/// is not a digit or the value exceeds `u64::MAX`.
fn parse_digits(s: &[u8], start: usize) -> (r: Option<u64>)
    requires
        start <= s@.len(),
    ensures
        match r {
            Some(v) => all_digits(s@.skip(start as int)) && v == digits_value(s@.skip(start as int)),
            None => !all_digits(s@.skip(start as int)) || digits_value(s@.skip(start as int))
                > u64::MAX,
        },
{
    let ghost d = s@.skip(start as int);
    let mut acc: u64 = 0;
    let mut i: usize = start;
    while i < s.len()
        invariant
            start <= i <= s@.len(),
            d == s@.skip(start as int),
            all_digits(d.take(i - start)),
            acc == digits_value(d.take(i - start)),
        decreases s@.len() - i,
    {
        let b = s[i];
        assert(d.take(i - start + 1).drop_last() =~= d.take(i - start));
        assert(d[i - start] == b);
        if b < ZERO || b > ZERO + 9 {
            return None;
        }
        let digit: u64 = (b - ZERO) as u64;
        if acc > (u64::MAX - digit) / 10 {
            proof {
                assert(all_digits(d.take(i - start + 1)));
                if all_digits(d) {
                    lemma_digits_value_prefix(d, i - start + 1);
                }
            }
            return None;
        }
        acc = acc * 10 + digit;
        i = i + 1;
    }
    assert(d.take(i - start) =~= d);
    Some(acc)
}

/// Parses the text of an unsigned integer as `u64` does: an optional `'+'`
/// and then one or more decimal digits, with a value up to `u64::MAX`.
pub fn parse_u64(s: &[u8]) -> (r: Option<u64>)
    ensures
        r is Some <==> parse_unsigned(s@, u64::MAX as int) is Some,
        r matches Some(v) ==> parse_unsigned(s@, u64::MAX as int) == Some(v as int),
{
    let start: usize = if s.len() > 0 && s[0] == PLUS {
        1
    } else {
        0
    };
    assert(unsigned_digits(s@) =~= s@.skip(start as int));
    if start == s.len() {
        return None;
    }
    parse_digits(s, start)
}

/// Parses the text of an unsigned integer as `usize` does: an optional
/// `'+'` and then one or more decimal digits, with a value up to
/// `usize::MAX`.
pub fn parse_usize(s: &[u8]) -> (r: Option<usize>)
    ensures
        r is Some <==> parse_unsigned(s@, usize::MAX as int) is Some,
        r matches Some(v) ==> parse_unsigned(s@, usize::MAX as int) == Some(v as int),
{
    let ghost d = unsigned_digits(s@);
    match parse_u64(s) {
        Some(v) => {
            if v as u128 <= usize::MAX as u128 {
                Some(v as usize)
            } else {
                None
            }
        },
        None => {
            assert(usize::MAX as int <= u64::MAX as int);
            None
        },
    }
}

/// Writes a number in decimal, without sign or leading zeros.
pub fn format_u64(n: u64) -> (text: Vec<u8>)
    ensures
        text@ == decimal(n as nat),
    decreases n,
{
    if n < 10 {
        let mut text: Vec<u8> = Vec::new();
        text.push(ZERO + n as u8);
        text
    } else {
        let mut text = format_u64(n / 10);
        text.push(ZERO + (n % 10) as u8);
        text
    }
}

/// The decimal text of a number is a non-empty run of digits, does not
/// start with `'+'`, and denotes the number.
pub proof fn lemma_decimal_denotes(n: nat)
    ensures
        decimal(n).len() > 0,
        all_digits(decimal(n)),
        decimal(n)[0] != PLUS,
        digits_value(decimal(n)) == n,
    decreases n,
{
    if n < 10 {
        assert(decimal(n).drop_last() =~= Seq::<u8>::empty());
        assert(digits_value(Seq::<u8>::empty()) == 0);
        assert(decimal(n).last() == ZERO + n);
        assert(digits_value(decimal(n)) == n);
    } else {
        lemma_decimal_denotes(n / 10);
        let d = decimal(n);
        assert(d.drop_last() =~= decimal(n / 10));
        assert(n == (n / 10) * 10 + n % 10) by (nonlinear_arith);
        assert(d.last() == ZERO + n % 10);
        assert(digits_value(d) == digits_value(decimal(n / 10)) * 10 + n % 10);
        assert forall|i: int| 0 <= i < d.len() implies is_digit(#[trigger] d[i]) by {
            if i < d.len() - 1 {
                assert(d[i] == decimal(n / 10)[i]);
            }
        }
    }
}

/// What `format_u64` writes, `parse_u64` reads back unchanged.
pub proof fn lemma_format_then_parse(n: u64)
    ensures
        parse_unsigned(decimal(n as nat), u64::MAX as int) == Some(n as int),
{
    lemma_decimal_denotes(n as nat);
}

/// One leading `'+'` does not change what a number's text parses to; a
/// second one, an empty text, or a byte that is not a decimal digit makes
/// it fail to parse.
pub proof fn lemma_parse_text(s: Seq<u8>, max: int, i: int)
    ensures
        parse_unsigned(Seq::<u8>::empty(), max) is None,
        parse_unsigned(seq![43u8], max) is None,
        s.len() > 0 && s[0] != 43 ==> parse_unsigned(seq![43u8] + s, max) == parse_unsigned(s, max),
        s.len() > 0 && s[0] == 43 ==> parse_unsigned(seq![43u8] + s, max) is None,
        0 <= i < s.len() && !(48 <= s[i] <= 57) && !(i == 0 && s[0] == 43) ==> parse_unsigned(
            s,
            max,
        ) is None,
{
    assert((seq![43u8] + s).drop_first() =~= s);
    assert(seq![43u8].drop_first() =~= Seq::<u8>::empty());
    if 0 <= i < s.len() && !(48 <= s[i] <= 57) && !(i == 0 && s[0] == 43) {
        let d = unsigned_digits(s);
        if s.len() > 0 && s[0] == PLUS {
            assert(d[i - 1] == s[i]);
        } else {
            assert(d[i] == s[i]);
        }
    }
}

} // verus!
