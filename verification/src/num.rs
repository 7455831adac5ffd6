//! Decimal text of integers: how `i64` values are printed and parsed.
use vstd::prelude::*;

use crate::text::string_from_chars;

verus! {

broadcast use vstd::string::group_string_axioms;

/// Whether `c` is one of the ASCII digits `0` to `9`.
pub open spec fn is_digit(c: char) -> bool {
    '0' <= c && c <= '9'
}

/// The value of an ASCII digit.
pub open spec fn digit_value(c: char) -> int {
    (c as int) - ('0' as int)
}

/// The ASCII digit for a value below ten.
pub open spec fn digit_char(d: int) -> char {
    if d <= 0 {
        '0'
    } else if d == 1 {
        '1'
    } else if d == 2 {
        '2'
    } else if d == 3 {
        '3'
    } else if d == 4 {
        '4'
    } else if d == 5 {
        '5'
    } else if d == 6 {
        '6'
    } else if d == 7 {
        '7'
    } else if d == 8 {
        '8'
    } else {
        '9'
    }
}

/// The decimal digits of a natural number, without leading zeros.
pub open spec fn nat_decimal(n: nat) -> Seq<char>
    decreases n,
{
    if n < 10 {
        seq![digit_char(n as int)]
    } else {
        nat_decimal(n / 10).push(digit_char((n % 10) as int))
    }
}

/// The decimal text of an integer: a `-` for negative values, then its digits.
pub open spec fn int_decimal(v: int) -> Seq<char> {
    if v < 0 {
        seq!['-'] + nat_decimal((-v) as nat)
    } else {
        nat_decimal(v as nat)
    }
}

/// The value of a sequence of decimal digits.
pub open spec fn digits_value(s: Seq<char>) -> int
    decreases s.len(),
{
    if s.len() == 0 {
        0
    } else {
        digits_value(s.drop_last()) * 10 + digit_value(s.last())
    }
}

/// Whether every character of `s` is an ASCII digit.
pub open spec fn all_digits(s: Seq<char>) -> bool {
    forall|i: int| 0 <= i < s.len() ==> is_digit(#[trigger] s[i])
}

/// What `str::parse::<i64>` accepts and returns: an optional `+` or `-` sign
/// followed by at least one digit and nothing else, whose value fits in an `i64`.
pub open spec fn parse_i64(s: Seq<char>) -> Option<i64> {
    let neg = s.len() > 0 && s[0] == '-';
    let digits = if s.len() > 0 && (s[0] == '-' || s[0] == '+') {
        s.drop_first()
    } else {
        s
    };
    let v = if neg {
        -digits_value(digits)
    } else {
        digits_value(digits)
    };
    if digits.len() > 0 && all_digits(digits) && i64::MIN <= v <= i64::MAX {
        Some(v as i64)
    } else {
        None
    }
}

/// The digit character of a value below ten.
fn digit_of(d: u64) -> (c: char)
    requires
        d < 10,
    ensures
        c == digit_char(d as int),
{
    match d {
        0 => '0',
        1 => '1',
        2 => '2',
        3 => '3',
        4 => '4',
        5 => '5',
        6 => '6',
        7 => '7',
        8 => '8',
        _ => '9',
    }
}

/// Appends the decimal digits of `n`.
fn push_digits(n: u64, out: &mut Vec<char>)
    ensures
        final(out)@ == old(out)@ + nat_decimal(n as nat),
    decreases n,
{
    if n < 10 {
        out.push(digit_of(n));
        assert(final(out)@ =~= old(out)@ + nat_decimal(n as nat));
    } else {
        push_digits(n / 10, out);
        let ghost mid = out@;
        out.push(digit_of(n % 10));
        assert(out@ =~= old(out)@ + nat_decimal(n as nat));
    }
}

/// The decimal text of a value, as `i64::to_string` writes it: a `-` for a
/// negative value, then its digits without leading zeros.
pub(crate) fn i64_to_string(v: i64) -> (s: String)
    ensures
        s@ == int_decimal(v as int),
{
    let mut chars: Vec<char> = Vec::new();
    if v < 0 {
        chars.push('-');
        let m: u64 = (-(v as i128)) as u64;
        push_digits(m, &mut chars);
        assert(chars@ =~= seq!['-'] + nat_decimal((-(v as int)) as nat));
    } else {
        push_digits(v as u64, &mut chars);
        assert(chars@ =~= nat_decimal(v as nat));
    }
    string_from_chars(chars.as_slice())
}

/// The value of digits is never negative.
proof fn lemma_digits_value_nonneg(t: Seq<char>)
    requires
        all_digits(t),
    ensures
        digits_value(t) >= 0,
    decreases t.len(),
{
    if t.len() > 0 {
        lemma_digits_value_nonneg(t.drop_last());
    }
}

/// A prefix of digits is worth no more than all of them.
proof fn lemma_digits_prefix_le(t: Seq<char>, k: int)
    requires
        all_digits(t),
        0 <= k <= t.len(),
    ensures
        0 <= digits_value(t.subrange(0, k)) <= digits_value(t),
    decreases t.len(),
{
    if k == t.len() {
        assert(t.subrange(0, k) =~= t);
        lemma_digits_value_nonneg(t);
    } else {
        let p = t.drop_last();
        assert(p.subrange(0, k) =~= t.subrange(0, k));
        lemma_digits_prefix_le(p, k);
        lemma_digits_value_nonneg(p);
    }
}

/// Reads an `i64` from text as `str::parse::<i64>` does: an optional `+` or
/// `-` sign, then at least one digit and nothing else, with a value that fits;
/// `None` where std reports an error.
pub(crate) fn str_parse_i64(s: &str) -> (r: Option<i64>)
    ensures
        r == parse_i64(s@),
{
    let v = crate::text::str_chars(s);
    let n = v.len();
    let neg = n > 0 && v[0] == '-';
    let start: usize = if n > 0 && (v[0] == '-' || v[0] == '+') {
        1
    } else {
        0
    };
    let ghost digits = v@.subrange(start as int, n as int);
    assert(digits =~= if n > 0 && (v@[0] == '-' || v@[0] == '+') {
        v@.drop_first()
    } else {
        v@
    });
    if start >= n {
        return None;
    }
    let mut acc: i64 = 0;
    let mut i: usize = start;
    assert(v@.subrange(start as int, start as int) =~= Seq::<char>::empty());
    while i < n
        invariant
            start <= i <= n,
            n == v@.len(),
            v@ == s@,
            digits == v@.subrange(start as int, n as int),
            digits == (if s@.len() > 0 && (s@[0] == '-' || s@[0] == '+') {
                s@.drop_first()
            } else {
                s@
            }),
            neg == (s@.len() > 0 && s@[0] == '-'),
            digits.len() > 0,
            all_digits(v@.subrange(start as int, i as int)),
            acc == (if neg {
                -digits_value(v@.subrange(start as int, i as int))
            } else {
                digits_value(v@.subrange(start as int, i as int))
            }),
        decreases n - i,
    {
        let c = v[i];
        let pre = Ghost(v@.subrange(start as int, i as int));
        let next = Ghost(v@.subrange(start as int, i + 1));
        assert(next@.drop_last() =~= pre@);
        assert(next@.last() == c);
        assert(digits.subrange(0, i - start) =~= pre@);
        assert(digits.subrange(0, i + 1 - start) =~= next@);
        assert(digits[i - start] == c);
        if !('0' <= c && c <= '9') {
            assert(!is_digit(digits[i - start]));
            assert(!all_digits(digits));
            return None;
        }
        let d: i64 = (c as u32 - '0' as u32) as i64;
        assert(d == digit_value(c));
        assert(all_digits(next@));
        let step = if neg {
            match acc.checked_mul(10) {
                Some(t) => t.checked_sub(d),
                None => None,
            }
        } else {
            match acc.checked_mul(10) {
                Some(t) => t.checked_add(d),
                None => None,
            }
        };
        match step {
            Some(x) => {
                acc = x;
            },
            None => {
                proof {
                    lemma_digits_value_nonneg(pre@);
                    assert(digits_value(next@) == digits_value(pre@) * 10 + d);
                    if all_digits(digits) {
                        lemma_digits_prefix_le(digits, i + 1 - start);
                        if neg {
                            assert(-digits_value(next@) < i64::MIN);
                        } else {
                            assert(digits_value(next@) > i64::MAX);
                        }
                    }
                }
                return None;
            },
        }
        i = i + 1;
    }
    assert(v@.subrange(start as int, n as int) == digits);
    Some(acc)
}

proof fn lemma_digit_char(d: int)
    requires
        0 <= d < 10,
    ensures
        is_digit(digit_char(d)),
        digit_value(digit_char(d)) == d,
{
}

pub proof fn lemma_nat_decimal(n: nat)
    ensures
        nat_decimal(n).len() > 0,
        all_digits(nat_decimal(n)),
        digits_value(nat_decimal(n)) == n,
    decreases n,
{
    if n < 10 {
        let s = nat_decimal(n);
        lemma_digit_char(n as int);
        assert(s.drop_last() =~= Seq::<char>::empty());
        assert(digits_value(s.drop_last()) == 0);
        assert(s.last() == digit_char(n as int));
    } else {
        lemma_nat_decimal(n / 10);
        lemma_digit_char((n % 10) as int);
        let s = nat_decimal(n);
        assert(s.drop_last() =~= nat_decimal(n / 10));
        assert(s.last() == digit_char((n % 10) as int));
        assert(n == (n / 10) * 10 + n % 10) by (nonlinear_arith);
        assert forall|i: int| 0 <= i < s.len() implies is_digit(#[trigger] s[i]) by {
            if i < s.len() - 1 {
                assert(s[i] == nat_decimal(n / 10)[i]);
            }
        }
    }
}

/// Parsing the decimal text of an `i64` gives the value back.
pub proof fn lemma_parse_i64_of_decimal(v: i64)
    ensures
        parse_i64(int_decimal(v as int)) == Some(v),
{
    if v < 0 {
        let m = (-(v as int)) as nat;
        lemma_nat_decimal(m);
        let s = int_decimal(v as int);
        assert(s.drop_first() =~= nat_decimal(m));
    } else {
        lemma_nat_decimal(v as nat);
        let s = nat_decimal(v as nat);
        assert(is_digit(s[0]));
    }
}

} // verus!
