//! Decimal text for unsigned integers: rendering and parsing.

use vstd::prelude::*;

verus! {

/// The character of a decimal digit `d < 10`.
pub open spec fn digit_char(d: nat) -> char {
    if d == 0 { '0' }
    else if d == 1 { '1' }
    else if d == 2 { '2' }
    else if d == 3 { '3' }
    else if d == 4 { '4' }
    else if d == 5 { '5' }
    else if d == 6 { '6' }
    else if d == 7 { '7' }
    else if d == 8 { '8' }
    else { '9' }
}

/// The decimal rendering of `n`: its digits, most significant first, with no
/// leading zero (zero itself is `"0"`).
pub open spec fn decimal(n: nat) -> Seq<char>
    decreases n,
{
    if n < 10 {
        seq![digit_char(n)]
    } else {
        decimal(n / 10).push(digit_char(n % 10))
    }
}

pub open spec fn is_digit(c: char) -> bool {
    '0' <= c && c <= '9'
}

pub open spec fn digit_value(c: char) -> nat {
    (c as nat - '0' as nat) as nat
}

pub open spec fn all_digits(s: Seq<char>) -> bool {
    forall|i: int| 0 <= i < s.len() ==> is_digit(#[trigger] s[i])
}

/// The number that a sequence of decimal digits denotes.
pub open spec fn digits_value(s: Seq<char>) -> nat
    decreases s.len(),
{
    if s.len() == 0 {
        0
    } else {
        digits_value(s.drop_last()) * 10 + digit_value(s.last())
    }
}

/// The digits of a decimal text: what follows an optional leading `+`.
pub open spec fn unsigned_digits(s: Seq<char>) -> Seq<char> {
    if s.len() > 0 && s[0] == '+' {
        s.drop_first()
    } else {
        s
    }
}

/// An unsigned decimal text: an optional `+` and then one or more digits.
pub open spec fn is_decimal_text(s: Seq<char>) -> bool {
    unsigned_digits(s).len() > 0 && all_digits(unsigned_digits(s))
}

/// The number that `s` reads as, when `s` is a decimal text no larger than `max`.
pub open spec fn parse_bounded(s: Seq<char>, max: nat) -> Option<nat> {
    if is_decimal_text(s) && digits_value(unsigned_digits(s)) <= max {
        Some(digits_value(unsigned_digits(s)))
    } else {
        None
    }
}

proof fn lemma_decimal_len(n: nat)
    ensures
        decimal(n).len() >= 1,
        decimal(n).len() == 1 <==> n < 10,
    decreases n,
{
    if n >= 10 {
        lemma_decimal_len(n / 10);
    }
}

/// Distinct numbers have distinct decimal renderings.
pub proof fn lemma_decimal_injective(a: nat, b: nat)
    requires
        decimal(a) == decimal(b),
    ensures
        a == b,
    decreases a,
{
    lemma_decimal_len(a);
    lemma_decimal_len(b);
    if a >= 10 && b >= 10 {
        assert(decimal(a).drop_last() =~= decimal(a / 10));
        assert(decimal(b).drop_last() =~= decimal(b / 10));
        assert(decimal(a).last() == digit_char(a % 10));
        assert(decimal(b).last() == digit_char(b % 10));
        lemma_decimal_injective(a / 10, b / 10);
    } else if a < 10 && b < 10 {
        assert(decimal(a)[0] == digit_char(a));
        assert(decimal(b)[0] == digit_char(b));
    }
}

fn digit_str(d: u64) -> (r: &'static str)
    requires
        d < 10,
    ensures
        r@ == seq![digit_char(d as nat)],
{
    proof {
        reveal_strlit("0");
        reveal_strlit("1");
        reveal_strlit("2");
        reveal_strlit("3");
        reveal_strlit("4");
        reveal_strlit("5");
        reveal_strlit("6");
        reveal_strlit("7");
        reveal_strlit("8");
        reveal_strlit("9");
    }
    if d == 0 { "0" }
    else if d == 1 { "1" }
    else if d == 2 { "2" }
    else if d == 3 { "3" }
    else if d == 4 { "4" }
    else if d == 5 { "5" }
    else if d == 6 { "6" }
    else if d == 7 { "7" }
    else if d == 8 { "8" }
    else { "9" }
}

/// Renders `n` in decimal.
pub fn to_decimal(n: u64) -> (r: String)
    ensures
        r@ == decimal(n as nat),
    decreases n,
{
    if n < 10 {
        String::from_str(digit_str(n))
    } else {
        let mut s = to_decimal(n / 10);
        s.append(digit_str(n % 10));
        s
    }
}

proof fn lemma_prefix_value_bound(s: Seq<char>, i: int)
    requires
        0 <= i <= s.len(),
    ensures
        digits_value(s) >= digits_value(s.take(i)),
    decreases s.len(),
{
    if i < s.len() {
        assert(s.drop_last().take(i) =~= s.take(i));
        lemma_prefix_value_bound(s.drop_last(), i);
    } else {
        assert(s.take(i) =~= s);
    }
}

/// Reads `s` as an unsigned decimal number no larger than `max`; `None` when `s`
/// is not such a text or its value exceeds `max`.
pub fn parse_decimal(s: &str, max: u32) -> (r: Option<u32>)
    ensures
        match parse_bounded(s@, max as nat) {
            Some(v) => r == Some(v as u32),
            None => r is None,
        },
{
    let len = s.unicode_len();
    let start: usize = if len > 0 && s.get_char(0) == '+' { 1 } else { 0 };
    let ghost digits = unsigned_digits(s@);
    assert(digits =~= s@.subrange(start as int, len as int));
    if start >= len {
        return None;
    }
    let mut acc: u64 = 0;
    let mut i: usize = start;
    while i < len
        invariant
            start <= i <= len,
            len == s@.len(),
            digits =~= s@.subrange(start as int, len as int),
            digits == unsigned_digits(s@),
            all_digits(digits.take(i - start)),
            acc == digits_value(digits.take(i - start)),
            acc <= max,
        decreases len - i,
    {
        let c = s.get_char(i);
        let ghost k = i - start;
        assert(digits.take(k + 1).drop_last() =~= digits.take(k));
        assert(digits[k] == c);
        if !('0' <= c && c <= '9') {
            assert(!is_digit(digits[k]));
            assert(!all_digits(digits));
            assert(!is_decimal_text(s@));
            return None;
        }
        let d = (c as u32 - '0' as u32) as u64;
        assert(d == digit_value(c));
        assert(digits_value(digits.take(k + 1)) == acc * 10 + d);
        acc = acc * 10 + d;
        i = i + 1;
        assert(all_digits(digits.take(k + 1))) by {
            assert forall|j: int| 0 <= j < k + 1 implies is_digit(#[trigger] digits.take(k + 1)[j]) by {
                if j < k {
                    assert(digits.take(k + 1)[j] == digits.take(k)[j]);
                }
            }
        }
        if acc > max as u64 {
            proof {
                lemma_prefix_value_bound(digits, k + 1);
            }
            assert(digits_value(unsigned_digits(s@)) > max);
            return None;
        }
    }
    assert(digits.take(len - start) =~= digits);
    Some(acc as u32)
}

} // verus!
