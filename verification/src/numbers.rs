//! Decimal integer parsing over character sequences.

use vstd::prelude::*;

use crate::headings::{all_digits, is_digit};

verus! {

/// Value of one ASCII digit.
pub open spec fn digit_value(c: char) -> int {
    (c as int) - ('0' as int)
}

/// Decimal value of a run of ASCII digits.
pub open spec fn digits_value(s: Seq<char>) -> int
    decreases s.len(),
{
    if s.len() == 0 {
        0
    } else {
        digits_value(s.drop_last()) * 10 + digit_value(s.last())
    }
}

/// What `str::parse::<i64>` gives: an optional sign, then at least one ASCII
/// digit and nothing else, in range.
pub open spec fn parse_i64_spec(s: Seq<char>) -> Option<int> {
    let signed = s.len() > 0 && (s[0] == '-' || s[0] == '+');
    let digits = if signed { s.drop_first() } else { s };
    let magnitude = digits_value(digits);
    let value = if s.len() > 0 && s[0] == '-' { -magnitude } else { magnitude };
    if digits.len() == 0 || !all_digits(digits) || value < i64::MIN || value > i64::MAX {
        None
    } else {
        Some(value)
    }
}

pub proof fn lemma_digits_value_prefix(s: Seq<char>, k: int)
    requires
        all_digits(s),
        0 <= k <= s.len(),
    ensures
        0 <= digits_value(s.take(k)) <= digits_value(s),
    decreases s.len(),
{
    if s.len() > 0 {
        let t = s.drop_last();
        assert(all_digits(t)) by {
            assert forall|i: int| 0 <= i < t.len() implies is_digit(#[trigger] t[i]) by {
                assert(t[i] == s[i]);
            }
        }
        assert(is_digit(s[s.len() - 1]));
        if k == s.len() {
            assert(s.take(k) =~= s);
            lemma_digits_value_prefix(t, t.len() as int);
            assert(t.take(t.len() as int) =~= t);
        } else {
            lemma_digits_value_prefix(t, k);
            assert(t.take(k) =~= s.take(k));
            lemma_digits_value_prefix(t, t.len() as int);
            assert(t.take(t.len() as int) =~= t);
        }
    } else {
        assert(s.take(k) =~= s);
    }
}

/// `str::parse::<i64>` on a character slice.
pub fn parse_i64(v: &[char]) -> (r: Option<i64>)
    ensures
        r matches Some(x) ==> parse_i64_spec(v@) == Some(x as int),
        r is None ==> parse_i64_spec(v@) is None,
{
    let neg = v.len() > 0 && v[0] == '-';
    let start: usize = if v.len() > 0 && (v[0] == '-' || v[0] == '+') { 1 } else { 0 };
    let ghost digits = if start == 1 { v@.drop_first() } else { v@ };
    assert(digits =~= v@.skip(start as int));
    if start >= v.len() {
        return None;
    }
    let limit: u128 = if neg { 9223372036854775808 } else { 9223372036854775807 };
    let mut acc: u128 = 0;
    let mut i: usize = start;
    assert(v@.subrange(start as int, start as int).len() == 0);
    while i < v.len()
        invariant
            start <= i <= v.len(),
            digits =~= v@.skip(start as int),
            acc <= limit,
            limit == if neg { 9223372036854775808u128 } else { 9223372036854775807u128 },
            neg == (v@.len() > 0 && v@[0] == '-'),
            digits == if v@.len() > 0 && (v@[0] == '-' || v@[0] == '+') { v@.drop_first() } else { v@ },
            all_digits(v@.subrange(start as int, i as int)),
            acc == digits_value(v@.subrange(start as int, i as int)),
        decreases v.len() - i,
    {
        let c = v[i];
        if !('0' <= c && c <= '9') {
            assert(digits[i - start] == c);
            assert(!is_digit(digits[i - start]));
            return None;
        }
        let d: u128 = ((c as u32) - ('0' as u32)) as u128;
        let next = acc * 10 + d;
        let ghost pre = v@.subrange(start as int, i as int);
        let ghost post = v@.subrange(start as int, i + 1);
        assert(post.drop_last() =~= pre);
        assert(all_digits(post)) by {
            assert forall|j: int| 0 <= j < post.len() implies is_digit(#[trigger] post[j]) by {
                if j < pre.len() {
                    assert(post[j] == pre[j]);
                }
            }
        }
        if next > limit {
            proof {
                if all_digits(digits) {
                    assert(digits.take(post.len() as int) =~= post);
                    lemma_digits_value_prefix(digits, post.len() as int);
                    assert(digits_value(post) == next);
                }
            }
            return None;
        }
        acc = next;
        i += 1;
    }
    assert(v@.subrange(start as int, v.len() as int) =~= digits);
    if neg {
        if acc == 9223372036854775808 {
            Some(i64::MIN)
        } else {
            let m = acc as i64;
            Some(-m)
        }
    } else {
        Some(acc as i64)
    }
}

/// The ASCII digit for `d` (0 to 9).
pub open spec fn digit_char(d: int) -> char {
    (d + ('0' as int)) as char
}

/// Decimal representation of `n`, without leading zeros.
pub open spec fn decimal(n: nat) -> Seq<char>
    decreases n,
{
    if n < 10 {
        seq![digit_char(n as int)]
    } else {
        decimal(n / 10) + seq![digit_char((n % 10) as int)]
    }
}

/// The decimal digits of `n` (`usize`'s `Display`).
pub fn usize_decimal(n: usize) -> (r: Vec<char>)
    ensures
        r@ == decimal(n as nat),
    decreases n,
{
    if n < 10 {
        let c = char_from_digit((n as u32));
        let mut r: Vec<char> = Vec::new();
        r.push(c);
        assert(r@ =~= seq![digit_char(n as int)]);
        r
    } else {
        let mut r = usize_decimal(n / 10);
        let c = char_from_digit((n % 10) as u32);
        r.push(c);
        assert(r@ =~= decimal((n / 10) as nat) + seq![digit_char((n % 10) as int)]);
        r
    }
}

/// The decimal digits of `n` (`u64`'s `Display`).
pub fn u64_decimal(n: u64) -> (r: Vec<char>)
    ensures
        r@ == decimal(n as nat),
    decreases n,
{
    if n < 10 {
        let c = char_from_digit((n as u32));
        let mut r: Vec<char> = Vec::new();
        r.push(c);
        assert(r@ =~= seq![digit_char(n as int)]);
        r
    } else {
        let mut r = u64_decimal(n / 10);
        let c = char_from_digit((n % 10) as u32);
        r.push(c);
        assert(r@ =~= decimal((n / 10) as nat) + seq![digit_char((n % 10) as int)]);
        r
    }
}

/// The ASCII digit character for `d`.
fn char_from_digit(d: u32) -> (c: char)
    requires
        d < 10,
    ensures
        c == digit_char(d as int),
{
    if d == 0 { '0' } else if d == 1 { '1' } else if d == 2 { '2' } else if d == 3 { '3' }
    else if d == 4 { '4' } else if d == 5 { '5' } else if d == 6 { '6' } else if d == 7 { '7' }
    else if d == 8 { '8' } else { '9' }
}

/// What `str::parse::<usize>` gives: an optional `+`, then at least one
/// ASCII digit and nothing else, at most `usize::MAX`.
pub open spec fn parse_usize_spec(s: Seq<char>) -> Option<int> {
    let digits = if s.len() > 0 && s[0] == '+' { s.drop_first() } else { s };
    if digits.len() == 0 || !all_digits(digits) || digits_value(digits) > usize::MAX {
        None
    } else {
        Some(digits_value(digits))
    }
}

/// `str::parse::<usize>` on a character slice.
pub fn parse_usize(v: &[char]) -> (r: Option<usize>)
    ensures
        r matches Some(x) ==> parse_usize_spec(v@) == Some(x as int),
        r is None ==> parse_usize_spec(v@) is None,
{
    let start: usize = if v.len() > 0 && v[0] == '+' { 1 } else { 0 };
    let ghost digits = if start == 1 { v@.drop_first() } else { v@ };
    assert(digits =~= v@.skip(start as int));
    if start >= v.len() {
        return None;
    }
    let limit: u128 = usize::MAX as u128;
    let mut acc: u128 = 0;
    let mut i: usize = start;
    assert(v@.subrange(start as int, start as int).len() == 0);
    while i < v.len()
        invariant
            start <= i <= v.len(),
            digits =~= v@.skip(start as int),
            digits == if v@.len() > 0 && v@[0] == '+' { v@.drop_first() } else { v@ },
            limit == usize::MAX,
            acc <= limit,
            all_digits(v@.subrange(start as int, i as int)),
            acc == digits_value(v@.subrange(start as int, i as int)),
        decreases v.len() - i,
    {
        let c = v[i];
        if !('0' <= c && c <= '9') {
            assert(digits[i - start] == c);
            assert(!is_digit(digits[i - start]));
            return None;
        }
        let d: u128 = ((c as u32) - ('0' as u32)) as u128;
        let next = acc * 10 + d;
        let ghost pre = v@.subrange(start as int, i as int);
        let ghost post = v@.subrange(start as int, i + 1);
        assert(post.drop_last() =~= pre);
        assert(all_digits(post)) by {
            assert forall|j: int| 0 <= j < post.len() implies is_digit(#[trigger] post[j]) by {
                if j < pre.len() {
                    assert(post[j] == pre[j]);
                }
            }
        }
        if next > limit {
            proof {
                if all_digits(digits) {
                    assert(digits.take(post.len() as int) =~= post);
                    lemma_digits_value_prefix(digits, post.len() as int);
                    assert(digits_value(post) == next);
                }
            }
            return None;
        }
        acc = next;
        i += 1;
    }
    assert(v@.subrange(start as int, v.len() as int) =~= digits);
    Some(acc as usize)
}

/// Decimal representation of an integer, with a `-` when negative.
pub open spec fn int_decimal(x: int) -> Seq<char> {
    if x < 0 {
        seq!['-'] + decimal((-x) as nat)
    } else {
        decimal(x as nat)
    }
}

/// `format!("{:0w$}", x)`: the decimal representation, zeros inserted after
/// the sign until it is `w` characters long.
pub open spec fn zero_padded(x: int, w: int) -> Seq<char> {
    let sign = if x < 0 { seq!['-'] } else { Seq::empty() };
    let digits = if x < 0 { decimal((-x) as nat) } else { decimal(x as nat) };
    let pad = w - sign.len() - digits.len();
    sign + Seq::new(if pad > 0 { pad as nat } else { 0 }, |_i: int| '0') + digits
}

/// The decimal digits of the magnitude of `x` and whether it is negative.
fn magnitude_decimal(x: i64) -> (r: (Vec<char>, bool))
    ensures
        r.1 == (x < 0),
        r.0@ == if x < 0 { decimal((-x) as nat) } else { decimal(x as nat) },
{
    let wide = x as i128;
    let m: u128 = if wide < 0 { (-wide) as u128 } else { wide as u128 };
    let d = u128_decimal(m);
    (d, x < 0)
}

/// The decimal digits of `n`.
fn u128_decimal(n: u128) -> (r: Vec<char>)
    ensures
        r@ == decimal(n as nat),
    decreases n,
{
    if n < 10 {
        let mut r: Vec<char> = Vec::new();
        r.push(char_from_digit(n as u32));
        assert(r@ =~= seq![digit_char(n as int)]);
        r
    } else {
        let mut r = u128_decimal(n / 10);
        r.push(char_from_digit((n % 10) as u32));
        assert(r@ =~= decimal((n / 10) as nat) + seq![digit_char((n % 10) as int)]);
        r
    }
}

/// `x.to_string()` for an `i64`.
pub fn i64_decimal(x: i64) -> (r: Vec<char>)
    ensures
        r@ == int_decimal(x as int),
{
    let (digits, negative) = magnitude_decimal(x);
    let mut r: Vec<char> = Vec::new();
    if negative {
        r.push('-');
    }
    let mut i: usize = 0;
    while i < digits.len()
        invariant
            i <= digits@.len(),
            r@ == (if negative { seq!['-'] } else { Seq::<char>::empty() }) + digits@.take(i as int),
        decreases digits@.len() - i,
    {
        r.push(digits[i]);
        assert(digits@.take(i + 1) =~= digits@.take(i as int).push(digits@[i as int]));
        i += 1;
    }
    assert(digits@.take(digits@.len() as int) =~= digits@);
    r
}

/// `format!("{:0w$}", x)` for an `i64`.
pub fn i64_zero_padded(x: i64, w: usize) -> (r: Vec<char>)
    ensures
        r@ == zero_padded(x as int, w as int),
{
    let (digits, negative) = magnitude_decimal(x);
    let mut r: Vec<char> = Vec::new();
    let sign_len: usize = if negative { 1 } else { 0 };
    if negative {
        r.push('-');
    }
    let ghost sign = if negative { seq!['-'] } else { Seq::<char>::empty() };
    let pad: usize = if digits.len() < w && w - digits.len() > sign_len { w - digits.len() - sign_len } else { 0 };
    let mut k: usize = 0;
    while k < pad
        invariant
            k <= pad,
            r@ == sign + Seq::new(k as nat, |_i: int| '0'),
        decreases pad - k,
    {
        r.push('0');
        assert(sign + Seq::new((k + 1) as nat, |_i: int| '0') =~= (sign + Seq::new(k as nat, |_i: int| '0')).push('0'));
        k += 1;
    }
    let ghost head = r@;
    let mut i: usize = 0;
    while i < digits.len()
        invariant
            i <= digits@.len(),
            r@ == head + digits@.take(i as int),
        decreases digits@.len() - i,
    {
        r.push(digits[i]);
        assert(digits@.take(i + 1) =~= digits@.take(i as int).push(digits@[i as int]));
        i += 1;
    }
    assert(digits@.take(digits@.len() as int) =~= digits@);
    r
}

} // verus!
