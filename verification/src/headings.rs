//! Recognition of headings (volumes, books, parts, chapters, sections and
//! top-level matter) in plain-text books.

use vstd::prelude::*;

use crate::text::{
    ascii_lower_seq, ascii_upper_seq, chars_eq, chars_eq_str, chars_of, contains_chars,
    contains_seq, extend_str, has_char, is_uppercase, is_whitespace, join_range, starts_with,
    starts_with_chars, unicode_uppercase, join_seqs, lemma_prefix_len, lemma_suffix_len, lower_chars, other_than,
    prefix_len, split_ws, sub_vec, trim_by, unicode_white_space, upper_chars, views, ws_words,
};

verus! {

/// Characters trimmed around the words of a heading.
pub open spec fn is_heading_separator(c: char) -> bool {
    unicode_white_space(c) || c == ':' || c == '.' || c == '-' || c == '\u{2013}' || c == '\u{2014}'
        || c == '\u{00b7}'
}

/// The separator predicate as a spec closure.
pub open spec fn sep_pred() -> spec_fn(char) -> bool {
    |c: char| is_heading_separator(c)
}

/// A heading word with surrounding whitespace and separators removed.
pub open spec fn trim_sep(s: Seq<char>) -> Seq<char> {
    trim_by(s, sep_pred())
}

fn heading_separator(c: char) -> (r: bool)
    ensures
        r == is_heading_separator(c),
{
    is_whitespace(c) || c == ':' || c == '.' || c == '-' || c == '\u{2013}' || c == '\u{2014}'
        || c == '\u{00b7}'
}

/// Removes surrounding whitespace and heading separators.
pub fn trim_heading_separator(v: &[char]) -> (r: Vec<char>)
    ensures
        r@ == trim_sep(v@),
{
    let ghost p = sep_pred();
    let mut start: usize = 0;
    while start < v.len() && heading_separator(v[start])
        invariant
            start <= v.len(),
            p == sep_pred(),
            forall|j: int| 0 <= j < start ==> p(#[trigger] v@[j]),
        decreases v.len() - start,
    {
        start += 1;
    }
    proof { lemma_prefix_len(v@, p, start as int); }
    let mut end: usize = v.len();
    while end > start && heading_separator(v[end - 1])
        invariant
            start <= end <= v.len(),
            p == sep_pred(),
            forall|j: int| end <= j < v.len() ==> p(#[trigger] v@[j]),
        decreases end,
    {
        end -= 1;
    }
    proof {
        let t = v@.skip(start as int);
        let k = (v.len() - end) as int;
        assert forall|j: int| t.len() - k <= j < t.len() implies p(#[trigger] t[j]) by {
            assert(t[j] == v@[j + start]);
        }
        if k < t.len() {
            assert(t[t.len() - k - 1] == v@[end - 1]);
        }
        lemma_suffix_len(t, p, k);
        assert(t.take(t.len() - k) =~= v@.subrange(start as int, end as int));
    }
    sub_vec(v, start, end)
}

/// Value of a Roman digit (0 for other characters).
pub open spec fn roman_digit_value(c: char) -> int {
    if c == 'I' {
        1
    } else if c == 'V' {
        5
    } else if c == 'X' {
        10
    } else if c == 'L' {
        50
    } else if c == 'C' {
        100
    } else if c == 'D' {
        500
    } else if c == 'M' {
        1000
    } else {
        0
    }
}

/// Subtractive right-to-left reading of Roman digits: the running
/// `(total, largest digit seen)` after reading `s` from its end.
pub open spec fn roman_reading(s: Seq<char>) -> (int, int)
    decreases s.len(),
{
    if s.len() == 0 {
        (0, 0)
    } else {
        let (total, previous) = roman_reading(s.drop_first());
        let current = roman_digit_value(s[0]);
        if current < previous {
            (if total >= current { total - current } else { 0 }, previous)
        } else {
            (total + current, current)
        }
    }
}

/// Value of the `k`-th entry of the greedy numeral table.
pub open spec fn roman_table_value(k: int) -> int {
    if k == 0 { 1000 } else if k == 1 { 900 } else if k == 2 { 500 } else if k == 3 { 400 }
    else if k == 4 { 100 } else if k == 5 { 90 } else if k == 6 { 50 } else if k == 7 { 40 }
    else if k == 8 { 10 } else if k == 9 { 9 } else if k == 10 { 5 } else if k == 11 { 4 }
    else { 1 }
}

/// Numeral of the `k`-th entry of the greedy numeral table.
pub open spec fn roman_table_numeral(k: int) -> Seq<char> {
    if k == 0 { seq!['M'] } else if k == 1 { seq!['C', 'M'] } else if k == 2 { seq!['D'] }
    else if k == 3 { seq!['C', 'D'] } else if k == 4 { seq!['C'] } else if k == 5 { seq!['X', 'C'] }
    else if k == 6 { seq!['L'] } else if k == 7 { seq!['X', 'L'] } else if k == 8 { seq!['X'] }
    else if k == 9 { seq!['I', 'X'] } else if k == 10 { seq!['V'] } else if k == 11 { seq!['I', 'V'] }
    else { seq!['I'] }
}

/// Canonical numeral of `n` using table entries `k..13` greedily.
pub open spec fn roman_numeral_from(n: int, k: int) -> Seq<char>
    decreases 13 - k, n,
{
    if k >= 13 || k < 0 || n <= 0 {
        Seq::empty()
    } else if n >= roman_table_value(k) {
        roman_table_numeral(k) + roman_numeral_from(n - roman_table_value(k), k)
    } else {
        roman_numeral_from(n, k + 1)
    }
}

/// The canonical Roman numeral of `n`.
pub open spec fn roman_numeral(n: int) -> Seq<char> {
    roman_numeral_from(n, 0)
}

/// `value` (ASCII case-insensitively) is the canonical Roman numeral of a
/// number in `1..=3999`, of at most 15 digits.
pub open spec fn is_canonical_roman(value: Seq<char>) -> bool {
    let upper = ascii_upper_seq(value);
    &&& 0 < upper.len() <= 15
    &&& forall|i: int| 0 <= i < upper.len() ==> roman_digit_value(#[trigger] upper[i]) > 0
    &&& 1 <= roman_reading(upper).0 <= 3999
    &&& roman_numeral(roman_reading(upper).0) == upper
}

fn roman_value(c: char) -> (r: u32)
    ensures
        r == roman_digit_value(c),
{
    match c {
        'I' => 1,
        'V' => 5,
        'X' => 10,
        'L' => 50,
        'C' => 100,
        'D' => 500,
        'M' => 1000,
        _ => 0,
    }
}

fn roman_entry(k: usize) -> (r: (u32, &'static str))
    requires
        k < 13,
    ensures
        r.0 == roman_table_value(k as int),
        r.1@ == roman_table_numeral(k as int),
{
    proof {
        reveal_strlit("M");
        reveal_strlit("CM");
        reveal_strlit("D");
        reveal_strlit("CD");
        reveal_strlit("C");
        reveal_strlit("XC");
        reveal_strlit("L");
        reveal_strlit("XL");
        reveal_strlit("X");
        reveal_strlit("IX");
        reveal_strlit("V");
        reveal_strlit("IV");
        reveal_strlit("I");
    }
    let r = match k {
        0 => (1000, "M"),
        1 => (900, "CM"),
        2 => (500, "D"),
        3 => (400, "CD"),
        4 => (100, "C"),
        5 => (90, "XC"),
        6 => (50, "L"),
        7 => (40, "XL"),
        8 => (10, "X"),
        9 => (9, "IX"),
        10 => (5, "V"),
        11 => (4, "IV"),
        _ => (1, "I"),
    };
    assert(r.1@ =~= roman_table_numeral(k as int));
    r
}

/// Whether `value` is a canonical Roman numeral (e.g. `MCMXCIV`, not `IIII`).
pub fn canonical_roman_number(value: &str) -> (r: bool)
    ensures
        r == is_canonical_roman(value@),
{
    let v = chars_of(value);
    canonical_roman_chars(&v)
}

/// `canonical_roman_number` on characters.
pub fn canonical_roman_chars(value: &[char]) -> (r: bool)
    ensures
        r == is_canonical_roman(value@),
{
    let upper = upper_chars(value);
    if upper.len() == 0 || upper.len() > 15 {
        return false;
    }
    let mut total: u32 = 0;
    let mut previous: u32 = 0;
    let mut i = upper.len();
    assert(upper@.skip(upper.len() as int) =~= Seq::<char>::empty());
    while i > 0
        invariant
            i <= upper.len() <= 15,
            upper@ == ascii_upper_seq(value@),
            (total as int, previous as int) == roman_reading(upper@.skip(i as int)),
            total <= 1000 * (upper.len() - i),
            previous <= 1000,
            forall|j: int| i <= j < upper.len() ==> roman_digit_value(#[trigger] upper@[j]) > 0,
        decreases i,
    {
        let c = upper[i - 1];
        let current = roman_value(c);
        if current == 0 {
            return false;
        }
        assert(upper@.skip(i - 1).drop_first() =~= upper@.skip(i as int));
        assert(upper@.skip(i - 1)[0] == c);
        if current < previous {
            total = if total >= current { total - current } else { 0 };
        } else {
            total = total + current;
            previous = current;
        }
        i -= 1;
    }
    assert(upper@.skip(0) =~= upper@);
    if total < 1 || total > 3999 {
        return false;
    }
    let mut remaining = total;
    let mut canonical: Vec<char> = Vec::new();
    let mut k: usize = 0;
    while k < 13
        invariant
            k <= 13,
            1 <= total <= 3999,
            remaining <= total,
            canonical@ + roman_numeral_from(remaining as int, k as int) == roman_numeral(total as int),
        decreases 13 - k,
    {
        let (number, numeral) = roman_entry(k);
        while remaining >= number
            invariant
                k < 13,
                number == roman_table_value(k as int),
                numeral@ == roman_table_numeral(k as int),
                number >= 1,
                remaining <= total,
                canonical@ + roman_numeral_from(remaining as int, k as int) == roman_numeral(total as int),
            decreases remaining,
        {
            let ghost old_c = canonical@;
            extend_str(&mut canonical, numeral);
            proof {
                assert(roman_numeral_from(remaining as int, k as int)
                    == numeral@ + roman_numeral_from(remaining - number, k as int));
                assert(old_c + (numeral@ + roman_numeral_from(remaining - number, k as int))
                    =~= canonical@ + roman_numeral_from(remaining - number, k as int));
            }
            remaining -= number;
        }
        proof {
            if remaining > 0 {
                assert(roman_numeral_from(remaining as int, k as int) == roman_numeral_from(remaining as int, k + 1));
            } else {
                assert(roman_numeral_from(remaining as int, k as int) == Seq::<char>::empty());
                assert(roman_numeral_from(remaining as int, k + 1) == Seq::<char>::empty());
            }
        }
        k += 1;
    }
    assert(roman_numeral_from(remaining as int, 13) == Seq::<char>::empty());
    assert(canonical@ + Seq::<char>::empty() =~= canonical@);
    chars_eq(&canonical, &upper)
}

} // verus!

verus! {

/// Whether a character is an ASCII decimal digit.
pub open spec fn is_digit(c: char) -> bool {
    '0' <= c && c <= '9'
}

/// All characters are ASCII digits (vacuously true when empty).
pub open spec fn all_digits(s: Seq<char>) -> bool {
    forall|i: int| 0 <= i < s.len() ==> is_digit(#[trigger] s[i])
}

pub fn all_ascii_digits(v: &[char]) -> (r: bool)
    ensures
        r == all_digits(v@),
{
    let mut i: usize = 0;
    while i < v.len()
        invariant
            i <= v.len(),
            forall|j: int| 0 <= j < i ==> is_digit(#[trigger] v@[j]),
        decreases v.len() - i,
    {
        if !('0' <= v[i] && v[i] <= '9') {
            return false;
        }
        i += 1;
    }
    true
}

/// Kind of an upper-case English number word: 1 = zero or ten to nineteen,
/// 2 = one to nine, 3 = a multiple of ten from twenty, 4 = hundred.
pub open spec fn simple_number_word_kind_spec(s: Seq<char>) -> Option<u8> {
    if s == "ZERO"@ || s == "TEN"@ || s == "ELEVEN"@ || s == "TWELVE"@ || s == "THIRTEEN"@
        || s == "FOURTEEN"@ || s == "FIFTEEN"@ || s == "SIXTEEN"@ || s == "SEVENTEEN"@
        || s == "EIGHTEEN"@ || s == "NINETEEN"@ {
        Some(1)
    } else if s == "ONE"@ || s == "TWO"@ || s == "THREE"@ || s == "FOUR"@ || s == "FIVE"@
        || s == "SIX"@ || s == "SEVEN"@ || s == "EIGHT"@ || s == "NINE"@ {
        Some(2)
    } else if s == "TWENTY"@ || s == "THIRTY"@ || s == "FORTY"@ || s == "FIFTY"@ || s == "SIXTY"@
        || s == "SEVENTY"@ || s == "EIGHTY"@ || s == "NINETY"@ {
        Some(3)
    } else if s == "HUNDRED"@ {
        Some(4)
    } else {
        None
    }
}

fn any_eq(s: &[char], words: &[&'static str]) -> (r: bool)
    ensures
        r == exists|i: int| 0 <= i < words@.len() && s@ == (#[trigger] words@[i])@,
{
    let mut i: usize = 0;
    while i < words.len()
        invariant
            i <= words.len(),
            forall|j: int| 0 <= j < i ==> s@ != (#[trigger] words@[j])@,
        decreases words.len() - i,
    {
        if chars_eq_str(s, words[i]) {
            return true;
        }
        i += 1;
    }
    false
}

fn simple_number_word_kind(s: &[char]) -> (r: Option<u8>)
    ensures
        r == simple_number_word_kind_spec(s@),
{
    let kind1 = ["ZERO", "TEN", "ELEVEN", "TWELVE", "THIRTEEN", "FOURTEEN", "FIFTEEN", "SIXTEEN",
        "SEVENTEEN", "EIGHTEEN", "NINETEEN"];
    let kind2 = ["ONE", "TWO", "THREE", "FOUR", "FIVE", "SIX", "SEVEN", "EIGHT", "NINE"];
    let kind3 = ["TWENTY", "THIRTY", "FORTY", "FIFTY", "SIXTY", "SEVENTY", "EIGHTY", "NINETY"];
    if any_eq(s, &kind1) {
        Some(1)
    } else if any_eq(s, &kind2) {
        Some(2)
    } else if any_eq(s, &kind3) {
        Some(3)
    } else if chars_eq_str(s, "HUNDRED") {
        Some(4)
    } else {
        None
    }
}

} // verus!

verus! {

/// Position of the first `c` in `s`, or `s.len()`.
pub open spec fn first_index_of(s: Seq<char>, c: char) -> nat {
    prefix_len(s, other_than(c))
}


/// Kind of a (possibly punctuated, any-case) English number word; a
/// hyphenated compound such as `TWENTY-ONE` counts as kind 1.
pub open spec fn number_word_kind_spec(value: Seq<char>) -> Option<u8> {
    let cleaned = ascii_upper_seq(trim_sep(value));
    let simple = simple_number_word_kind_spec(cleaned);
    if simple is Some {
        simple
    } else {
        let p = first_index_of(cleaned, '-') as int;
        if p < cleaned.len() {
            let tens = cleaned.take(p);
            let units = cleaned.skip(p + 1);
            if !units.contains('-') && simple_number_word_kind_spec(tens) == Some(3u8)
                && simple_number_word_kind_spec(units) == Some(2u8) {
                Some(1)
            } else {
                None
            }
        } else {
            None
        }
    }
}

/// The English words for the tens from twenty to ninety.
pub open spec fn english_tens_words() -> Seq<Seq<char>> {
    seq!["TWENTY"@, "THIRTY"@, "FORTY"@, "FIFTY"@, "SIXTY"@, "SEVENTY"@, "EIGHTY"@, "NINETY"@]
}

/// Every English tens word from twenty to ninety, in any ASCII case and
/// with heading separators around it, is a number word of the tens kind
/// (so `CHAPTER FORTY` numbers a chapter like `CHAPTER THIRTY`).
pub proof fn lemma_tens_words_are_numbers(value: Seq<char>, i: int)
    requires
        0 <= i < 8,
        ascii_upper_seq(trim_sep(value)) == english_tens_words()[i],
    ensures
        number_word_kind_spec(value) == Some(3u8),
{
    let w = english_tens_words()[i];
    reveal_strlit("ZERO");
    reveal_strlit("TEN");
    reveal_strlit("ELEVEN");
    reveal_strlit("TWELVE");
    reveal_strlit("THIRTEEN");
    reveal_strlit("FOURTEEN");
    reveal_strlit("FIFTEEN");
    reveal_strlit("SIXTEEN");
    reveal_strlit("SEVENTEEN");
    reveal_strlit("EIGHTEEN");
    reveal_strlit("NINETEEN");
    reveal_strlit("ONE");
    reveal_strlit("TWO");
    reveal_strlit("THREE");
    reveal_strlit("FOUR");
    reveal_strlit("FIVE");
    reveal_strlit("SIX");
    reveal_strlit("SEVEN");
    reveal_strlit("EIGHT");
    reveal_strlit("NINE");
    reveal_strlit("TWENTY");
    reveal_strlit("THIRTY");
    reveal_strlit("FORTY");
    reveal_strlit("FIFTY");
    reveal_strlit("SIXTY");
    reveal_strlit("SEVENTY");
    reveal_strlit("EIGHTY");
    reveal_strlit("NINETY");
    if i == 0 {
        assert(w == "TWENTY"@);
        assert("TWENTY"@[0] != "ELEVEN"@[0]);
        assert("TWENTY"@[3] != "TWELVE"@[3]);
        assert(simple_number_word_kind_spec("TWENTY"@) == Some(3u8));
    } else if i == 1 {
        assert(w == "THIRTY"@);
        assert("THIRTY"@[0] != "ELEVEN"@[0]);
        assert("THIRTY"@[1] != "TWELVE"@[1]);
        assert(simple_number_word_kind_spec("THIRTY"@) == Some(3u8));
    } else if i == 2 {
        assert(w == "FORTY"@);
        assert("FORTY"@[0] != "THREE"@[0]);
        assert("FORTY"@[0] != "SEVEN"@[0]);
        assert("FORTY"@[0] != "EIGHT"@[0]);
        assert(simple_number_word_kind_spec("FORTY"@) == Some(3u8));
    } else if i == 3 {
        assert(w == "FIFTY"@);
        assert("FIFTY"@[0] != "THREE"@[0]);
        assert("FIFTY"@[0] != "SEVEN"@[0]);
        assert("FIFTY"@[0] != "EIGHT"@[0]);
        assert(simple_number_word_kind_spec("FIFTY"@) == Some(3u8));
    } else if i == 4 {
        assert(w == "SIXTY"@);
        assert("SIXTY"@[0] != "THREE"@[0]);
        assert("SIXTY"@[1] != "SEVEN"@[1]);
        assert("SIXTY"@[0] != "EIGHT"@[0]);
        assert(simple_number_word_kind_spec("SIXTY"@) == Some(3u8));
    } else if i == 5 {
        assert(w == "SEVENTY"@);
        assert("SEVENTY"@[0] != "FIFTEEN"@[0]);
        assert("SEVENTY"@[1] != "SIXTEEN"@[1]);
        assert(simple_number_word_kind_spec("SEVENTY"@) == Some(3u8));
    } else if i == 6 {
        assert(w == "EIGHTY"@);
        assert("EIGHTY"@[1] != "ELEVEN"@[1]);
        assert("EIGHTY"@[0] != "TWELVE"@[0]);
        assert(simple_number_word_kind_spec("EIGHTY"@) == Some(3u8));
    } else if i == 7 {
        assert(w == "NINETY"@);
        assert("NINETY"@[0] != "ELEVEN"@[0]);
        assert("NINETY"@[0] != "TWELVE"@[0]);
        assert(simple_number_word_kind_spec("NINETY"@) == Some(3u8));
    }
    assert(simple_number_word_kind_spec(w) == Some(3u8));
}

fn first_index(v: &[char], c: char) -> (r: usize)
    ensures
        r == first_index_of(v@, c),
        r <= v.len(),
        r < v.len() ==> v@[r as int] == c,
{
    let ghost p = other_than(c);
    let mut i: usize = 0;
    while i < v.len() && v[i] != c
        invariant
            i <= v.len(),
            p == other_than(c),
            forall|j: int| 0 <= j < i ==> p(#[trigger] v@[j]),
        decreases v.len() - i,
    {
        i += 1;
    }
    proof { lemma_prefix_len(v@, p, i as int); }
    i
}

fn number_word_kind(value: &[char]) -> (r: Option<u8>)
    ensures
        r == number_word_kind_spec(value@),
{
    let trimmed = trim_heading_separator(value);
    let cleaned = upper_chars(&trimmed);
    let simple = simple_number_word_kind(&cleaned);
    if simple.is_some() {
        return simple;
    }
    let p = first_index(&cleaned, '-');
    if p < cleaned.len() {
        let tens = sub_vec(&cleaned, 0, p);
        let units = sub_vec(&cleaned, p + 1, cleaned.len());
        assert(tens@ =~= cleaned@.take(p as int));
        assert(units@ =~= cleaned@.skip(p + 1));
        if !has_char(&units, '-') && simple_number_word_kind(&tens) == Some(3u8)
            && simple_number_word_kind(&units) == Some(2u8) {
            Some(1)
        } else {
            None
        }
    } else {
        None
    }
}

/// Kind of the `i`-th word, if there is one.
pub open spec fn word_kind_at(words: Seq<Seq<char>>, i: int) -> Option<u8> {
    if 0 <= i < words.len() {
        number_word_kind_spec(words[i])
    } else {
        None
    }
}

/// Number of leading words that spell a heading number: digits, a
/// canonical Roman numeral, or an English number phrase such as
/// `ONE HUNDRED AND TWENTY THREE`.
pub open spec fn english_number_phrase_len_spec(words: Seq<Seq<char>>) -> nat {
    if words.len() == 0 {
        0
    } else {
        let cleaned = trim_sep(words[0]);
        if all_digits(cleaned) || is_canonical_roman(cleaned) {
            1
        } else {
            let kind = number_word_kind_spec(cleaned);
            if kind == Some(2u8) && word_kind_at(words, 1) == Some(4u8) {
                let length: int = if words.len() > 2 && ascii_lower_seq(words[2]) == "and"@ { 3 } else { 2 };
                let next = word_kind_at(words, length);
                if next == Some(3u8) {
                    if word_kind_at(words, length + 1) == Some(2u8) {
                        (length + 2) as nat
                    } else {
                        (length + 1) as nat
                    }
                } else if next == Some(1u8) || next == Some(2u8) {
                    (length + 1) as nat
                } else {
                    length as nat
                }
            } else if kind == Some(3u8) {
                if word_kind_at(words, 1) == Some(2u8) { 2 } else { 1 }
            } else if kind == Some(1u8) || kind == Some(2u8) || kind == Some(4u8) {
                1
            } else {
                0
            }
        }
    }
}

fn kind_at(words: &[Vec<char>], i: usize) -> (r: Option<u8>)
    ensures
        r == word_kind_at(views(words@), i as int),
{
    if i < words.len() {
        number_word_kind(&words[i])
    } else {
        None
    }
}

/// Length of the number phrase that starts `words` (0 when there is none).
pub fn english_number_phrase_len(words: &[Vec<char>]) -> (r: usize)
    ensures
        r == english_number_phrase_len_spec(views(words@)),
        r <= words.len(),
{
    if words.len() == 0 {
        return 0;
    }
    let cleaned = trim_heading_separator(&words[0]);
    if all_ascii_digits(&cleaned) || canonical_roman_chars(&cleaned) {
        return 1;
    }
    let kind = number_word_kind(&cleaned);
    if kind == Some(2u8) && kind_at(words, 1) == Some(4u8) {
        let mut length: usize = 2;
        if words.len() > 2 {
            let lower = lower_chars(&words[2]);
            if chars_eq_str(&lower, "and") {
                length = 3;
            }
        }
        let next = kind_at(words, length);
        if next == Some(3u8) {
            if kind_at(words, length + 1) == Some(2u8) {
                length + 2
            } else {
                length + 1
            }
        } else if next == Some(1u8) || next == Some(2u8) {
            length + 1
        } else {
            length
        }
    } else if kind == Some(3u8) {
        if kind_at(words, 1) == Some(2u8) { 2 } else { 1 }
    } else if kind == Some(1u8) || kind == Some(2u8) || kind == Some(4u8) {
        1
    } else {
        0
    }
}

/// A word that can number a heading: digits, a canonical Roman numeral or
/// an English number word.
pub open spec fn is_heading_number_spec(value: Seq<char>) -> bool {
    let v = trim_sep(value);
    v.len() > 0 && (all_digits(v) || is_canonical_roman(v) || number_word_kind_spec(v) is Some)
}

fn is_heading_number(value: &[char]) -> (r: bool)
    ensures
        r == is_heading_number_spec(value@),
{
    let v = trim_heading_separator(value);
    if v.len() == 0 {
        return false;
    }
    all_ascii_digits(&v) || canonical_roman_chars(&v) || number_word_kind(&v).is_some()
}

} // verus!

verus! {

/// Heading ranks, from the outermost to the innermost.
#[derive(Debug, Clone, Copy, PartialEq, Eq, Structural)]
pub enum HeadingRank {
    Volume,
    Book,
    Division,
    Chapter,
    Section,
}

/// Nesting order of a rank.
pub open spec fn rank_index(r: HeadingRank) -> int {
    match r {
        HeadingRank::Volume => 0,
        HeadingRank::Book => 1,
        HeadingRank::Division => 2,
        HeadingRank::Chapter => 3,
        HeadingRank::Section => 4,
    }
}

/// Nesting order of a rank.
pub fn rank_order(r: HeadingRank) -> (i: u8)
    ensures
        i == rank_index(r),
{
    match r {
        HeadingRank::Volume => 0,
        HeadingRank::Book => 1,
        HeadingRank::Division => 2,
        HeadingRank::Chapter => 3,
        HeadingRank::Section => 4,
    }
}

/// Rank named by an English heading keyword.
pub open spec fn english_heading_rank_spec(keyword: Seq<char>) -> Option<HeadingRank> {
    let k = ascii_upper_seq(trim_sep(keyword));
    if k == "VOLUME"@ {
        Some(HeadingRank::Volume)
    } else if k == "BOOK"@ {
        Some(HeadingRank::Book)
    } else if k == "PART"@ || k == "ACT"@ {
        Some(HeadingRank::Division)
    } else if k == "CHAPTER"@ || k == "SCENE"@ {
        Some(HeadingRank::Chapter)
    } else if k == "SECTION"@ {
        Some(HeadingRank::Section)
    } else {
        None
    }
}

fn english_heading_rank(keyword: &[char]) -> (r: Option<HeadingRank>)
    ensures
        r == english_heading_rank_spec(keyword@),
{
    let t = trim_heading_separator(keyword);
    let k = upper_chars(&t);
    if chars_eq_str(&k, "VOLUME") {
        Some(HeadingRank::Volume)
    } else if chars_eq_str(&k, "BOOK") {
        Some(HeadingRank::Book)
    } else if chars_eq_str(&k, "PART") || chars_eq_str(&k, "ACT") {
        Some(HeadingRank::Division)
    } else if chars_eq_str(&k, "CHAPTER") || chars_eq_str(&k, "SCENE") {
        Some(HeadingRank::Chapter)
    } else if chars_eq_str(&k, "SECTION") {
        Some(HeadingRank::Section)
    } else {
        None
    }
}

/// A recognised heading line.
#[derive(Debug)]
pub enum ParsedHeading {
    /// A volume/book/part-level heading, possibly carrying a child on the
    /// same line (`PART ONE 1`).
    Parent { title: Vec<char>, rank: HeadingRank, child: Option<(Vec<char>, HeadingRank)> },
    /// A chapter/section-level heading.
    Child { title: Vec<char>, rank: HeadingRank },
    /// Prologue, epilogue and similar front or back matter.
    TopLevel(Vec<char>),
}

/// Spec form of a recognised heading.
pub enum HeadingSpec {
    Parent { title: Seq<char>, rank: HeadingRank, child: Option<(Seq<char>, HeadingRank)> },
    Child { title: Seq<char>, rank: HeadingRank },
    TopLevel(Seq<char>),
}

impl View for ParsedHeading {
    type V = HeadingSpec;

    open spec fn view(&self) -> HeadingSpec {
        match self {
            ParsedHeading::Parent { title, rank, child } => HeadingSpec::Parent {
                title: title@,
                rank: *rank,
                child: match child {
                    Some((t, r)) => Some((t@, *r)),
                    None => None,
                },
            },
            ParsedHeading::Child { title, rank } => HeadingSpec::Child { title: title@, rank: *rank },
            ParsedHeading::TopLevel(title) => HeadingSpec::TopLevel(title@),
        }
    }
}

/// Index of the first word at or after `from` that is not empty once
/// separators are trimmed (or `words.len()`).
pub open spec fn next_nonempty_word(words: Seq<Seq<char>>, from: int) -> int
    decreases words.len() - from,
{
    if from >= words.len() || from < 0 {
        words.len() as int
    } else if trim_sep(words[from]).len() > 0 {
        from
    } else {
        next_nonempty_word(words, from + 1)
    }
}

/// The words of a line with separators trimmed.
pub open spec fn trimmed_words(words: Seq<Seq<char>>) -> Seq<Seq<char>> {
    words.map_values(|w: Seq<char>| trim_sep(w))
}

/// A parent heading such as `PART ONE` or `BOOK II 3` (volume, book or
/// division keyword followed by a number, optionally followed by a child).
pub open spec fn english_parent_heading_spec(line: Seq<char>) -> Option<HeadingSpec> {
    let words = ws_words(line);
    if words.len() < 2 {
        None
    } else {
        match english_heading_rank_spec(ascii_upper_seq(trim_sep(words[0]))) {
            None => None,
            Some(rank) => if rank_index(rank) > rank_index(HeadingRank::Division) {
                None
            } else {
                let n = english_number_phrase_len_spec(words.skip(1));
                if n == 0 {
                    None
                } else {
                    let parent_end: int = 1 + n as int;
                    let parent_title = join_seqs(trimmed_words(words.take(parent_end)), " "@);
                    let child_index = next_nonempty_word(words, parent_end);
                    let child = if child_index < words.len() {
                        let first = trim_sep(words[child_index]);
                        let child_rank = if is_heading_number_spec(first) {
                            Some(HeadingRank::Chapter)
                        } else {
                            english_heading_rank_spec(first)
                        };
                        match child_rank {
                            Some(cr) => Some((trim_sep(join_seqs(words.skip(child_index), " "@)), cr)),
                            None => None,
                        }
                    } else {
                        None
                    };
                    Some(HeadingSpec::Parent {
                        title: if child is Some { parent_title } else { line },
                        rank,
                        child,
                    })
                }
            },
        }
    }
}

fn trimmed_word_list(words: &[Vec<char>], from: usize, to: usize) -> (r: Vec<Vec<char>>)
    requires
        from <= to <= words.len(),
    ensures
        views(r@) == trimmed_words(views(words@).subrange(from as int, to as int)),
        r@.len() == to - from,
{
    let mut r: Vec<Vec<char>> = Vec::new();
    let mut i = from;
    while i < to
        invariant
            from <= i <= to <= words.len(),
            views(r@) == trimmed_words(views(words@).subrange(from as int, i as int)),
        decreases to - i,
    {
        let t = trim_heading_separator(&words[i]);
        let ghost old_r = r@;
        r.push(t);
        assert(views(r@) =~= views(old_r).push(t@));
        assert(trimmed_words(views(words@).subrange(from as int, i + 1))
            =~= trimmed_words(views(words@).subrange(from as int, i as int)).push(t@));
        i += 1;
    }
    r
}

fn english_parent_heading(line: &[char]) -> (r: Option<ParsedHeading>)
    ensures
        match r {
            Some(h) => english_parent_heading_spec(line@) == Some(h@),
            None => english_parent_heading_spec(line@) is None,
        },
{
    let words = split_ws(line);
    let ghost ws = views(words@);
    if words.len() < 2 {
        return None;
    }
    let t0 = trim_heading_separator(&words[0]);
    let keyword = upper_chars(&t0);
    let rank = match english_heading_rank(&keyword) {
        Some(rank) => rank,
        None => return None,
    };
    if rank_order(rank) > rank_order(HeadingRank::Division) {
        return None;
    }
    let n = english_number_phrase_len(&words[1..words.len()]);
    assert(views(words@.skip(1)) =~= ws.skip(1));
    assert(views(words@.subrange(1, words@.len() as int)) =~= ws.skip(1));
    if n == 0 {
        return None;
    }
    let parent_end = 1 + n;
    let trimmed = trimmed_word_list(&words, 0, parent_end);
    let parent_title = join_range(&trimmed, 0, parent_end, " ");
    assert(views(trimmed@).subrange(0, parent_end as int) =~= views(trimmed@));
    assert(ws.subrange(0, parent_end as int) =~= ws.take(parent_end as int));
    let mut child_index = parent_end;
    loop
        invariant
            parent_end <= child_index <= words.len(),
            ws == views(words@),
            next_nonempty_word(ws, parent_end as int) == next_nonempty_word(ws, child_index as int),
        ensures
            parent_end <= child_index <= words.len(),
            child_index >= words.len() || trim_sep(ws[child_index as int]).len() > 0,
            next_nonempty_word(ws, parent_end as int) == next_nonempty_word(ws, child_index as int),
        decreases words.len() - child_index,
    {
        if child_index >= words.len() {
            break;
        }
        let t = trim_heading_separator(&words[child_index]);
        if t.len() > 0 {
            break;
        }
        child_index += 1;
    }
    let child = if child_index < words.len() {
        let first = trim_heading_separator(&words[child_index]);
        let child_rank = if is_heading_number(&first) {
            Some(HeadingRank::Chapter)
        } else {
            english_heading_rank(&first)
        };
        match child_rank {
            Some(cr) => {
                let joined = join_range(&words, child_index, words.len(), " ");
                assert(ws.subrange(child_index as int, ws.len() as int) =~= ws.skip(child_index as int));
                Some((trim_heading_separator(&joined), cr))
            },
            None => None,
        }
    } else {
        None
    };
    let title = if child.is_some() { parent_title } else { sub_vec(line, 0, line.len()) };
    assert(line@.subrange(0, line@.len() as int) =~= line@);
    proof {
        let spec_words = ws_words(line@);
        assert(spec_words == ws);
        assert(english_number_phrase_len_spec(ws.skip(1)) == n);
        assert(join_seqs(trimmed_words(ws.take(parent_end as int)), " "@) == parent_title@);
        assert(next_nonempty_word(ws, parent_end as int) == child_index);
        assert(english_heading_rank_spec(ascii_upper_seq(trim_sep(ws[0]))) == Some(rank));
        if child_index < ws.len() {
            let first = trim_sep(ws[child_index as int]);
            let child_rank = if is_heading_number_spec(first) {
                Some(HeadingRank::Chapter)
            } else {
                english_heading_rank_spec(first)
            };
            match child_rank {
                Some(cr) => {
                    assert(child matches Some((t, r)) && t@ == trim_sep(join_seqs(ws.skip(child_index as int), " "@)) && r == cr);
                },
                None => {
                    assert(child is None);
                },
            }
        } else {
            assert(child is None);
        }
    }
    let r = ParsedHeading::Parent { title, rank, child };
    assert(english_parent_heading_spec(line@) == Some(r@));
    Some(r)
}

} // verus!

verus! {

/// A child heading such as `CHAPTER 3` or `SECTION TWO`.
pub open spec fn english_child_heading_spec(line: Seq<char>) -> Option<HeadingRank> {
    let words = ws_words(line);
    if words.len() == 0 {
        None
    } else {
        match english_heading_rank_spec(words[0]) {
            Some(rank) => if english_number_phrase_len_spec(words.skip(1)) > 0 {
                Some(rank)
            } else {
                None
            },
            None => None,
        }
    }
}

fn english_child_heading(line: &[char]) -> (r: Option<HeadingRank>)
    ensures
        r == english_child_heading_spec(line@),
{
    let words = split_ws(line);
    if words.len() == 0 {
        return None;
    }
    let rank = match english_heading_rank(&words[0]) {
        Some(rank) => rank,
        None => return None,
    };
    assert(views(words@.subrange(1, words@.len() as int)) =~= views(words@).skip(1));
    if english_number_phrase_len(&words[1..words.len()]) > 0 {
        Some(rank)
    } else {
        None
    }
}

/// Characters that may number a Chinese heading after `第`.
pub const CHINESE_NUMERALS: &'static str = "零〇一二三四五六七八九十百千万两壹贰叁肆伍陆柒捌玖拾佰仟";

/// Units that end a `第…` heading.
pub const CHINESE_UNITS: &'static str = "章节回卷部篇集";

/// Characters that may follow `卷`, `部` or `篇` in an unprefixed heading.
pub const CHINESE_SHORT_NUMERALS: &'static str = "零〇一二三四五六七八九十百千两";

/// An ASCII digit or a Chinese numeral character.
pub open spec fn is_chinese_numeral(c: char) -> bool {
    is_digit(c) || CHINESE_NUMERALS@.contains(c)
}

/// The numeral predicate as a spec closure.
pub open spec fn chinese_numeral_pred() -> spec_fn(char) -> bool {
    |c: char| is_chinese_numeral(c)
}

/// The unit of a `第<numeral><unit>` heading (`第十二章` → `章`).
pub open spec fn prefixed_chinese_heading_unit_spec(line: Seq<char>) -> Option<char> {
    if line.len() > 0 && line[0] == '第' {
        let rest = line.drop_first();
        let n = prefix_len(rest, chinese_numeral_pred());
        if n == 0 || n >= rest.len() {
            None
        } else if CHINESE_UNITS@.contains(rest[n as int]) {
            Some(rest[n as int])
        } else {
            None
        }
    } else {
        None
    }
}

fn prefixed_chinese_heading_unit(line: &[char]) -> (r: Option<char>)
    ensures
        r == prefixed_chinese_heading_unit_spec(line@),
{
    if line.len() == 0 || line[0] != '第' {
        return None;
    }
    let numerals = chars_of(CHINESE_NUMERALS);
    let ghost rest = line@.drop_first();
    let ghost p = chinese_numeral_pred();
    let mut i: usize = 1;
    while i < line.len() && (('0' <= line[i] && line[i] <= '9') || has_char(&numerals, line[i]))
        invariant
            1 <= i <= line.len(),
            numerals@ == CHINESE_NUMERALS@,
            rest == line@.drop_first(),
            p == chinese_numeral_pred(),
            forall|j: int| 0 <= j < i - 1 ==> p(#[trigger] rest[j]),
        decreases line.len() - i,
    {
        i += 1;
    }
    proof {
        if i < line.len() {
            assert(rest[i - 1] == line@[i as int]);
        }
        lemma_prefix_len(rest, p, i - 1);
    }
    if i == 1 || i >= line.len() {
        return None;
    }
    let units = chars_of(CHINESE_UNITS);
    let unit = line[i];
    assert(rest[i - 1] == unit);
    if has_char(&units, unit) {
        Some(unit)
    } else {
        None
    }
}

/// Chinese headings: `第…章/节/回` children, `第…卷/部/篇/集` parents, and
/// unprefixed volume markers such as `上卷` or `卷三`.
pub open spec fn chinese_heading_spec(line: Seq<char>) -> Option<HeadingSpec> {
    let unit = prefixed_chinese_heading_unit_spec(line);
    if unit == Some('章') || unit == Some('节') || unit == Some('回') {
        Some(HeadingSpec::Child {
            title: line,
            rank: if unit == Some('节') { HeadingRank::Section } else { HeadingRank::Chapter },
        })
    } else if unit is Some {
        Some(HeadingSpec::Parent {
            title: line,
            rank: if unit == Some('卷') { HeadingRank::Volume } else { HeadingRank::Division },
            child: None,
        })
    } else {
        let words = ws_words(line);
        let compact = if words.len() > 0 { words[0] } else { line };
        let first: Option<char> = if compact.len() > 0 { Some(compact[0]) } else { None };
        let second: Option<char> = if compact.len() > 1 { Some(compact[1]) } else { None };
        let upper_marker = (first == Some('上') || first == Some('中') || first == Some('下'))
            && (second == Some('卷') || second == Some('部') || second == Some('篇'));
        let numbered_marker = (first == Some('卷') || first == Some('部') || first == Some('篇'))
            && second is Some && (is_digit(second->0) || CHINESE_SHORT_NUMERALS@.contains(second->0));
        if upper_marker || numbered_marker {
            Some(HeadingSpec::Parent {
                title: line,
                rank: if second == Some('卷') || first == Some('卷') {
                    HeadingRank::Volume
                } else {
                    HeadingRank::Division
                },
                child: None,
            })
        } else {
            None
        }
    }
}

fn chinese_heading(line: &[char]) -> (r: Option<ParsedHeading>)
    ensures
        match r {
            Some(h) => chinese_heading_spec(line@) == Some(h@),
            None => chinese_heading_spec(line@) is None,
        },
{
    let unit = prefixed_chinese_heading_unit(line);
    assert(line@.subrange(0, line@.len() as int) =~= line@);
    if unit == Some('章') || unit == Some('节') || unit == Some('回') {
        let rank = if unit == Some('节') { HeadingRank::Section } else { HeadingRank::Chapter };
        return Some(ParsedHeading::Child { title: sub_vec(line, 0, line.len()), rank });
    }
    if unit.is_some() {
        let rank = if unit == Some('卷') { HeadingRank::Volume } else { HeadingRank::Division };
        return Some(ParsedHeading::Parent { title: sub_vec(line, 0, line.len()), rank, child: None });
    }
    let words = split_ws(line);
    let compact = if words.len() > 0 { sub_vec(&words[0], 0, words[0].len()) } else { sub_vec(line, 0, line.len()) };
    assert(words.len() > 0 ==> words[0]@.subrange(0, words[0]@.len() as int) =~= words[0]@);
    let first: Option<char> = if compact.len() > 0 { Some(compact[0]) } else { None };
    let second: Option<char> = if compact.len() > 1 { Some(compact[1]) } else { None };
    let upper_marker = (first == Some('上') || first == Some('中') || first == Some('下'))
        && (second == Some('卷') || second == Some('部') || second == Some('篇'));
    let short = chars_of(CHINESE_SHORT_NUMERALS);
    let numbered_marker = (first == Some('卷') || first == Some('部') || first == Some('篇'))
        && match second {
            Some(c) => ('0' <= c && c <= '9') || has_char(&short, c),
            None => false,
        };
    if upper_marker || numbered_marker {
        let rank = if second == Some('卷') || first == Some('卷') {
            HeadingRank::Volume
        } else {
            HeadingRank::Division
        };
        Some(ParsedHeading::Parent { title: sub_vec(line, 0, line.len()), rank, child: None })
    } else {
        None
    }
}

} // verus!

verus! {

/// Minor words allowed in lower case inside a title.
pub open spec fn is_minor_title_word(lower: Seq<char>) -> bool {
    lower == "a"@ || lower == "an"@ || lower == "and"@ || lower == "as"@ || lower == "at"@
        || lower == "by"@ || lower == "for"@ || lower == "from"@ || lower == "in"@ || lower == "of"@
        || lower == "on"@ || lower == "or"@ || lower == "the"@ || lower == "to"@ || lower == "with"@
}

/// A word is capitalised when its first character is upper case.
pub open spec fn starts_upper(s: Seq<char>) -> bool {
    s.len() > 0 && unicode_uppercase(s[0])
}

/// A word fits a title-case heading: empty, a number, an upper-case Roman
/// numeral, a minor word, or capitalised.
pub open spec fn title_case_heading_word_spec(value: Seq<char>) -> bool {
    let v = trim_sep(value);
    if v.len() == 0 || all_digits(v) || (is_canonical_roman(v) && v == ascii_upper_seq(v)) {
        true
    } else if is_minor_title_word(ascii_lower_seq(v)) {
        true
    } else {
        starts_upper(v)
    }
}

fn minor_title_word(lower: &[char]) -> (r: bool)
    ensures
        r == is_minor_title_word(lower@),
{
    chars_eq_str(lower, "a") || chars_eq_str(lower, "an") || chars_eq_str(lower, "and")
        || chars_eq_str(lower, "as") || chars_eq_str(lower, "at") || chars_eq_str(lower, "by")
        || chars_eq_str(lower, "for") || chars_eq_str(lower, "from") || chars_eq_str(lower, "in")
        || chars_eq_str(lower, "of") || chars_eq_str(lower, "on") || chars_eq_str(lower, "or")
        || chars_eq_str(lower, "the") || chars_eq_str(lower, "to") || chars_eq_str(lower, "with")
}

fn title_case_heading_word(value: &[char]) -> (r: bool)
    ensures
        r == title_case_heading_word_spec(value@),
{
    let v = trim_heading_separator(value);
    if v.len() == 0 || all_ascii_digits(&v) {
        return true;
    }
    if canonical_roman_chars(&v) {
        let upper = upper_chars(&v);
        if chars_eq(&v, &upper) {
            return true;
        }
    }
    let lower = lower_chars(&v);
    if minor_title_word(&lower) {
        return true;
    }
    is_uppercase(v[0])
}

/// All words in `ws` are title-case heading words.
pub open spec fn all_title_case(ws: Seq<Seq<char>>) -> bool {
    forall|i: int| 0 <= i < ws.len() ==> title_case_heading_word_spec(#[trigger] ws[i])
}

fn all_title_case_words(words: &[Vec<char>], from: usize) -> (r: bool)
    requires
        from <= words.len(),
    ensures
        r == all_title_case(views(words@).skip(from as int)),
{
    let ghost ws = views(words@).skip(from as int);
    let mut i = from;
    while i < words.len()
        invariant
            from <= i <= words.len(),
            ws == views(words@).skip(from as int),
            forall|j: int| 0 <= j < i - from ==> title_case_heading_word_spec(#[trigger] ws[j]),
        decreases words.len() - i,
    {
        if !title_case_heading_word(&words[i]) {
            assert(ws[i - from] == words@[i as int]@);
            return false;
        }
        assert(ws[i - from] == words@[i as int]@);
        i += 1;
    }
    true
}

/// A word of a heading number written in title case.
pub open spec fn numbered_title_word(word: Seq<char>) -> bool {
    let w = trim_sep(word);
    all_digits(w) || (is_canonical_roman(w) && w == ascii_upper_seq(w)) || starts_upper(w)
}

fn numbered_title_word_exec(word: &[char]) -> (r: bool)
    ensures
        r == numbered_title_word(word@),
{
    let w = trim_heading_separator(word);
    if all_ascii_digits(&w) {
        return true;
    }
    if canonical_roman_chars(&w) {
        let upper = upper_chars(&w);
        if chars_eq(&w, &upper) {
            return true;
        }
    }
    w.len() > 0 && is_uppercase(w[0])
}

/// Keywords that can open an English heading.
pub open spec fn is_heading_keyword(k: Seq<char>) -> bool {
    k == "PART"@ || k == "BOOK"@ || k == "VOLUME"@ || k == "CHAPTER"@ || k == "SECTION"@
        || k == "SCENE"@ || k == "ACT"@
}

/// A line shaped like an English heading: keyword, number, and then
/// nothing, an upper-case or punctuated title, or a title-case title.
pub open spec fn english_heading_shape_spec(line: Seq<char>) -> bool {
    let words = ws_words(line);
    if words.len() == 0 {
        false
    } else {
        let keyword = ascii_upper_seq(trim_sep(words[0]));
        let n = if is_heading_keyword(keyword) { english_number_phrase_len_spec(words.skip(1)) } else { 0 };
        if n == 0 {
            false
        } else {
            let suffix_start = 1 + n;
            if suffix_start == words.len() || line == ascii_upper_seq(line) || line.contains(':')
                || contains_seq(line, " - "@) || contains_seq(line, " \u{2013} "@)
                || contains_seq(line, " \u{2014} "@) {
                true
            } else {
                (forall|i: int| 1 <= i < suffix_start ==> numbered_title_word(#[trigger] words[i]))
                    && all_title_case(words.skip(suffix_start as int))
            }
        }
    }
}

#[verifier::loop_isolation(false)]
fn english_heading_shape(line: &[char]) -> (r: bool)
    ensures
        r == english_heading_shape_spec(line@),
{
    let words = split_ws(line);
    let ghost ws = views(words@);
    if words.len() == 0 {
        return false;
    }
    let t0 = trim_heading_separator(&words[0]);
    let keyword = upper_chars(&t0);
    let is_keyword = chars_eq_str(&keyword, "PART") || chars_eq_str(&keyword, "BOOK")
        || chars_eq_str(&keyword, "VOLUME") || chars_eq_str(&keyword, "CHAPTER")
        || chars_eq_str(&keyword, "SECTION") || chars_eq_str(&keyword, "SCENE")
        || chars_eq_str(&keyword, "ACT");
    assert(views(words@.subrange(1, words@.len() as int)) =~= ws.skip(1));
    let n = if is_keyword { english_number_phrase_len(&words[1..words.len()]) } else { 0 };
    if n == 0 {
        return false;
    }
    let suffix_start = 1 + n;
    let upper = upper_chars(line);
    let dash = chars_of(" - ");
    let en_dash = chars_of(" \u{2013} ");
    let em_dash = chars_of(" \u{2014} ");
    if suffix_start == words.len() || chars_eq(line, &upper) || has_char(line, ':')
        || contains_chars(line, &dash) || contains_chars(line, &en_dash)
        || contains_chars(line, &em_dash) {
        return true;
    }
    let mut i: usize = 1;
    while i < suffix_start
        invariant
            1 <= i <= suffix_start <= words.len(),
            ws == views(words@),
            forall|j: int| 1 <= j < i ==> numbered_title_word(#[trigger] ws[j]),
        decreases suffix_start - i,
    {
        assert(ws[i as int] == words@[i as int]@);
        if !numbered_title_word_exec(&words[i]) {
            assert(!numbered_title_word(ws[i as int]));
            assert(!(forall|j: int| 1 <= j < suffix_start ==> numbered_title_word(#[trigger] ws[j])));
            return false;
        }
        i += 1;
    }
    all_title_case_words(&words, suffix_start)
}

/// Prologue, epilogue and similar top-level headings.
pub open spec fn top_level_headings() -> Seq<Seq<char>> {
    seq![
        "PROLOGUE"@,
        "EPILOGUE"@,
        "INTRODUCTION"@,
        "PREFACE"@,
        "FOREWORD"@,
        "AFTERWORD"@,
        "ACKNOWLEDGMENTS"@,
        "ACKNOWLEDGEMENTS"@,
        "CONCLUSION"@,
        "POSTSCRIPT"@,
    ]
}

/// All words but the first.
pub open spec fn words_after_first(ws: Seq<Seq<char>>) -> Seq<Seq<char>> {
    if ws.len() > 0 {
        ws.skip(1)
    } else {
        Seq::empty()
    }
}

/// `line` (upper-cased as `upper`) is the top-level heading `h`, alone or
/// followed by punctuation or a title.
pub open spec fn top_level_match(line: Seq<char>, upper: Seq<char>, h: Seq<char>) -> bool {
    if upper == h {
        true
    } else if starts_with(upper, h) {
        let rest = upper.skip(h.len() as int);
        rest.len() > 0 && (
            rest[0] == ':' || rest[0] == '-' || rest[0] == '\u{2013}' || rest[0] == '\u{2014}'
            || (rest[0] == ' ' && (line == upper || line.contains(':')
                || all_title_case(words_after_first(ws_words(line))))))
    } else {
        false
    }
}

fn top_level_match_exec(line: &[char], upper: &[char], h: &str) -> (r: bool)
    requires
        upper@ == ascii_upper_seq(line@),
    ensures
        r == top_level_match(line@, upper@, h@),
{
    let hv = chars_of(h);
    if chars_eq(upper, &hv) {
        return true;
    }
    if !starts_with_chars(upper, &hv) {
        return false;
    }
    if upper.len() == hv.len() {
        return false;
    }
    let c = upper[hv.len()];
    assert(upper@.skip(hv@.len() as int)[0] == c);
    if c == ':' || c == '-' || c == '\u{2013}' || c == '\u{2014}' {
        return true;
    }
    if c != ' ' {
        return false;
    }
    if chars_eq(line, upper) || has_char(line, ':') {
        return true;
    }
    let words = split_ws(line);
    if words.len() == 0 {
        return true;
    }
    all_title_case_words(&words, 1)
}

/// Recognises a heading line. `has_parent` tells whether a volume, book
/// or division is open; `paragraph_break_before` whether a blank line
/// preceded the line.
pub open spec fn parse_heading_spec(line: Seq<char>, has_parent: bool, paragraph_break_before: bool) -> Option<HeadingSpec> {
    if line.len() > 120 {
        None
    } else if english_heading_shape_spec(line) && english_parent_heading_spec(line) is Some {
        english_parent_heading_spec(line)
    } else if english_heading_shape_spec(line) && english_child_heading_spec(line) is Some {
        Some(HeadingSpec::Child { title: line, rank: english_child_heading_spec(line)->0 })
    } else if chinese_heading_spec(line) is Some {
        chinese_heading_spec(line)
    } else {
        let upper = ascii_upper_seq(line);
        if exists|i: int| 0 <= i < 10 && top_level_match(line, upper, #[trigger] top_level_headings()[i]) {
            Some(HeadingSpec::TopLevel(line))
        } else {
            let bare_number = ws_words(line).len() == 1 && is_heading_number_spec(line);
            let bare_number_shape = all_digits(line) || line == upper
                || (paragraph_break_before && number_word_kind_spec(line) is Some);
            if bare_number && bare_number_shape && (has_parent || paragraph_break_before) {
                Some(HeadingSpec::Child { title: line, rank: HeadingRank::Chapter })
            } else {
                None
            }
        }
    }
}

/// Recognises a heading line.
#[verifier::loop_isolation(false)]
pub fn parse_heading(line: &[char], has_parent: bool, paragraph_break_before: bool) -> (r: Option<ParsedHeading>)
    ensures
        match r {
            Some(h) => parse_heading_spec(line@, has_parent, paragraph_break_before) == Some(h@),
            None => parse_heading_spec(line@, has_parent, paragraph_break_before) is None,
        },
{
    assert(line@.subrange(0, line@.len() as int) =~= line@);
    if line.len() > 120 {
        return None;
    }
    if english_heading_shape(line) {
        if let Some(heading) = english_parent_heading(line) {
            return Some(heading);
        }
        if let Some(rank) = english_child_heading(line) {
            return Some(ParsedHeading::Child { title: sub_vec(line, 0, line.len()), rank });
        }
    }
    if let Some(heading) = chinese_heading(line) {
        return Some(heading);
    }
    let upper = upper_chars(line);
    let headings = [
        "PROLOGUE",
        "EPILOGUE",
        "INTRODUCTION",
        "PREFACE",
        "FOREWORD",
        "AFTERWORD",
        "ACKNOWLEDGMENTS",
        "ACKNOWLEDGEMENTS",
        "CONCLUSION",
        "POSTSCRIPT",
    ];
    assert(headings@.len() == 10);
    assert forall|i: int| 0 <= i < 10 implies (#[trigger] headings@[i])@ == top_level_headings()[i] by {}
    let mut i: usize = 0;
    while i < 10
        invariant
            i <= 10,
            headings@.len() == 10,
            upper@ == ascii_upper_seq(line@),
            forall|k: int| 0 <= k < 10 ==> (#[trigger] headings@[k])@ == top_level_headings()[k],
            forall|k: int| 0 <= k < i ==> !top_level_match(line@, upper@, #[trigger] top_level_headings()[k]),
        decreases 10 - i,
    {
        if top_level_match_exec(line, &upper, headings[i]) {
            assert(top_level_match(line@, upper@, top_level_headings()[i as int]));
            assert(exists|k: int| 0 <= k < 10 && top_level_match(line@, ascii_upper_seq(line@), #[trigger] top_level_headings()[k]));
            assert(english_heading_shape_spec(line@) ==> english_parent_heading_spec(line@) is None);
            assert(english_heading_shape_spec(line@) ==> english_child_heading_spec(line@) is None);
            assert(chinese_heading_spec(line@) is None);
            return Some(ParsedHeading::TopLevel(sub_vec(line, 0, line.len())));
        }
        i += 1;
    }
    let words = split_ws(line);
    let bare_number = words.len() == 1 && is_heading_number(line);
    let bare_number_shape = all_ascii_digits(line) || chars_eq(line, &upper)
        || (paragraph_break_before && number_word_kind(line).is_some());
    if bare_number && bare_number_shape && (has_parent || paragraph_break_before) {
        Some(ParsedHeading::Child { title: sub_vec(line, 0, line.len()), rank: HeadingRank::Chapter })
    } else {
        None
    }
}

} // verus!
