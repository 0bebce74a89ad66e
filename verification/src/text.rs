//! Character-level helpers shared by the parsers.

use vstd::prelude::*;

verus! {

/// Whether `c` is an ASCII decimal digit.
pub open spec fn is_ascii_digit_spec(c: char) -> bool {
    '0' <= c && c <= '9'
}

/// Collects the characters of `s` into a vector.
pub fn chars_of(s: &str) -> (v: Vec<char>)
    ensures
        v@ == s@,
{
    let mut v: Vec<char> = Vec::new();
    for c in it: s.chars()
        invariant
            v@ == it.seq().take(it.index() as int),
    {
        v.push(c);
    }
    v
}

} // verus!

verus! {

/// Appends one character to `s` (std's `String::push`).
#[verifier::external_body]
pub(crate) fn push_char(s: &mut String, c: char)
    ensures
        final(s)@ == old(s)@.push(c),
{
    s.push(c);
}

/// Appends a string slice to `s` (std's `String::push_str`).
#[verifier::external_body]
pub(crate) fn push_str(s: &mut String, t: &str)
    ensures
        final(s)@ == old(s)@ + t@,
{
    s.push_str(t);
}

/// Builds a `String` holding exactly the characters of `v`.
pub fn string_from_chars(v: &[char]) -> (s: String)
    ensures
        s@ == v@,
{
    let mut s = String::new();
    let mut i: usize = 0;
    while i < v.len()
        invariant
            i <= v.len(),
            s@ == v@.take(i as int),
        decreases v.len() - i,
    {
        push_char(&mut s, v[i]);
        assert(v@.take(i as int).push(v@[i as int]) =~= v@.take(i + 1));
        i += 1;
    }
    assert(v@.take(v.len() as int) =~= v@);
    s
}


} // verus!

verus! {

/// The Unicode `White_Space` property of a character, as std reports it.
pub uninterp spec fn unicode_white_space(c: char) -> bool;

/// The Unicode `Alphabetic` property of a character, as std reports it.
pub uninterp spec fn unicode_alphabetic(c: char) -> bool;

/// The Unicode `Alphabetic` or `Numeric` property, as std reports it.
pub uninterp spec fn unicode_alphanumeric(c: char) -> bool;

/// The Unicode `Uppercase` property of a character, as std reports it.
pub uninterp spec fn unicode_uppercase(c: char) -> bool;

/// The Unicode `Lowercase` property of a character, as std reports it.
pub uninterp spec fn unicode_lowercase(c: char) -> bool;

/// What std's `str::to_lowercase` makes of a character sequence.
pub uninterp spec fn unicode_str_lowercase(s: Seq<char>) -> Seq<char>;

/// std's `char::is_whitespace`: true exactly for characters with the
/// Unicode `White_Space` property.
#[verifier::external_body]
pub(crate) fn is_whitespace(c: char) -> (b: bool)
    ensures
        b == unicode_white_space(c),
{
    c.is_whitespace()
}

/// std's `char::is_alphabetic`: the Unicode `Alphabetic` property.
#[verifier::external_body]
pub(crate) fn is_alphabetic(c: char) -> (b: bool)
    ensures
        b == unicode_alphabetic(c),
{
    c.is_alphabetic()
}

/// std's `char::is_alphanumeric`: `Alphabetic` or `Numeric`.
#[verifier::external_body]
pub(crate) fn is_alphanumeric(c: char) -> (b: bool)
    ensures
        b == unicode_alphanumeric(c),
{
    c.is_alphanumeric()
}

/// std's `char::is_uppercase`: the Unicode `Uppercase` property.
#[verifier::external_body]
pub(crate) fn is_uppercase(c: char) -> (b: bool)
    ensures
        b == unicode_uppercase(c),
{
    c.is_uppercase()
}

/// std's `char::is_lowercase`: the Unicode `Lowercase` property.
#[verifier::external_body]
pub(crate) fn is_lowercase(c: char) -> (b: bool)
    ensures
        b == unicode_lowercase(c),
{
    c.is_lowercase()
}

/// std's `str::to_lowercase`; its result depends on the characters alone.
#[verifier::external_body]
pub(crate) fn to_lowercase(s: &str) -> (r: String)
    ensures
        r@ == unicode_str_lowercase(s@),
{
    s.to_lowercase()
}

/// std's `str` equality, which compares the encoded characters.
#[verifier::external_body]
pub(crate) fn str_eq(a: &str, b: &str) -> (r: bool)
    ensures
        r == (a@ == b@),
{
    a == b
}

/// Number of leading characters of `s` that satisfy `p`.
pub open spec fn prefix_len(s: Seq<char>, p: spec_fn(char) -> bool) -> nat
    decreases s.len(),
{
    if s.len() > 0 && p(s[0]) {
        1 + prefix_len(s.drop_first(), p)
    } else {
        0
    }
}

/// Number of trailing characters of `s` that satisfy `p`.
pub open spec fn suffix_len(s: Seq<char>, p: spec_fn(char) -> bool) -> nat
    decreases s.len(),
{
    if s.len() > 0 && p(s.last()) {
        1 + suffix_len(s.drop_last(), p)
    } else {
        0
    }
}

/// `k` leading characters satisfy `p` and the next one, if any, does not.
pub open spec fn is_prefix_run(s: Seq<char>, p: spec_fn(char) -> bool, k: int) -> bool {
    &&& 0 <= k <= s.len()
    &&& forall|j: int| 0 <= j < k ==> p(#[trigger] s[j])
    &&& k < s.len() ==> !p(s[k])
}

/// `k` trailing characters satisfy `p` and the one before them, if any, does not.
pub open spec fn is_suffix_run(s: Seq<char>, p: spec_fn(char) -> bool, k: int) -> bool {
    &&& 0 <= k <= s.len()
    &&& forall|j: int| s.len() - k <= j < s.len() ==> p(#[trigger] s[j])
    &&& k < s.len() ==> !p(s[s.len() - k - 1])
}

pub proof fn lemma_prefix_len(s: Seq<char>, p: spec_fn(char) -> bool, k: int)
    requires
        is_prefix_run(s, p, k),
    ensures
        prefix_len(s, p) == k,
    decreases s.len(),
{
    if k > 0 {
        assert(p(s[0]));
        let t = s.drop_first();
        assert forall|j: int| 0 <= j < k - 1 implies p(#[trigger] t[j]) by {
            assert(t[j] == s[j + 1]);
        }
        if k - 1 < t.len() {
            assert(t[k - 1] == s[k]);
        }
        lemma_prefix_len(t, p, k - 1);
    }
}

pub proof fn lemma_suffix_len(s: Seq<char>, p: spec_fn(char) -> bool, k: int)
    requires
        is_suffix_run(s, p, k),
    ensures
        suffix_len(s, p) == k,
    decreases s.len(),
{
    if k > 0 {
        assert(p(s[s.len() - 1]));
        let t = s.drop_last();
        assert forall|j: int| t.len() - (k - 1) <= j < t.len() implies p(#[trigger] t[j]) by {
            assert(t[j] == s[j]);
        }
        if k - 1 < t.len() {
            assert(t[t.len() - (k - 1) - 1] == s[s.len() - k - 1]);
        }
        lemma_suffix_len(t, p, k - 1);
    }
}

/// Removes leading and trailing characters satisfying `p`.
pub open spec fn trim_by(s: Seq<char>, p: spec_fn(char) -> bool) -> Seq<char> {
    let t = s.skip(prefix_len(s, p) as int);
    t.take(t.len() - suffix_len(t, p))
}

/// The whitespace predicate as a spec closure.
pub open spec fn ws_pred() -> spec_fn(char) -> bool {
    |c: char| unicode_white_space(c)
}

/// `str::trim`: removes leading and trailing Unicode whitespace.
pub open spec fn trim_ws(s: Seq<char>) -> Seq<char> {
    trim_by(s, ws_pred())
}

/// `str::trim_start`.
pub open spec fn trim_start_ws(s: Seq<char>) -> Seq<char> {
    s.skip(prefix_len(s, ws_pred()) as int)
}

/// Index range `[start, end)` of `v` left after trimming whitespace.
pub fn trim_range(v: &[char]) -> (r: (usize, usize))
    ensures
        r.0 <= r.1 <= v.len(),
        r.0 == prefix_len(v@, ws_pred()),
        v@.subrange(r.0 as int, r.1 as int) == trim_ws(v@),
{
    let ghost p = ws_pred();
    assert(forall|c: char| p(c) == unicode_white_space(c));
    let mut start: usize = 0;
    while start < v.len() && is_whitespace(v[start])
        invariant
            start <= v.len(),
            p == ws_pred(),
            forall|j: int| 0 <= j < start ==> p(#[trigger] v@[j]),
        decreases v.len() - start,
    {
        start += 1;
    }
    proof { lemma_prefix_len(v@, p, start as int); }
    let mut end: usize = v.len();
    while end > start && is_whitespace(v[end - 1])
        invariant
            start <= end <= v.len(),
            p == ws_pred(),
            forall|j: int| end <= j < v.len() ==> p(#[trigger] v@[j]),
        decreases end,
    {
        end -= 1;
    }
    proof {
        let t = v@.skip(start as int);
        let k = (v.len() - end) as int;
        assert forall|j: int| t.len() - k <= j < t.len() implies p(#[trigger] t[j]) by {
            assert(t[j] == v@[j + start]);
        }
        if k < t.len() {
            assert(t[t.len() - k - 1] == v@[end - 1]);
        }
        lemma_suffix_len(t, p, k);
        assert(t.take(t.len() - k) =~= v@.subrange(start as int, end as int));
    }
    (start, end)
}

/// `str::trim` producing an owned string.
pub fn trim(s: &str) -> (r: String)
    ensures
        r@ == trim_ws(s@),
{
    let v = chars_of(s);
    let (a, b) = trim_range(&v);
    string_from_chars(&v[a..b])
}

} // verus!

verus! {

/// Sum of `w` over the characters of `s`.
pub open spec fn weighted_len(s: Seq<char>, w: spec_fn(char) -> nat) -> nat
    decreases s.len(),
{
    if s.len() == 0 {
        0
    } else {
        w(s[0]) + weighted_len(s.drop_first(), w)
    }
}

pub proof fn lemma_weighted_len_add(a: Seq<char>, b: Seq<char>, w: spec_fn(char) -> nat)
    ensures
        weighted_len(a + b, w) == weighted_len(a, w) + weighted_len(b, w),
    decreases a.len(),
{
    if a.len() > 0 {
        assert((a + b).drop_first() =~= a.drop_first() + b);
        lemma_weighted_len_add(a.drop_first(), b, w);
    } else {
        assert(a + b =~= b);
    }
}

pub proof fn lemma_weighted_len_push(a: Seq<char>, c: char, w: spec_fn(char) -> nat)
    ensures
        weighted_len(a.push(c), w) == weighted_len(a, w) + w(c),
{
    lemma_weighted_len_add(a, seq![c], w);
    assert(a.push(c) =~= a + seq![c]);
    assert(seq![c].drop_first() =~= Seq::<char>::empty());
    assert(weighted_len(Seq::<char>::empty(), w) == 0);
    assert(weighted_len(seq![c], w) == w(c) + weighted_len(seq![c].drop_first(), w));
}

pub proof fn lemma_weighted_len_take_next(s: Seq<char>, i: int, w: spec_fn(char) -> nat)
    requires
        0 <= i < s.len(),
    ensures
        weighted_len(s.take(i + 1), w) == weighted_len(s.take(i), w) + w(s[i]),
{
    assert(s.take(i + 1) =~= s.take(i).push(s[i]));
    lemma_weighted_len_push(s.take(i), s[i], w);
}

/// Bytes in the UTF-8 encoding of `c`.
pub open spec fn utf8_width(c: char) -> nat {
    if (c as u32) < 0x80 {
        1
    } else if (c as u32) < 0x800 {
        2
    } else if (c as u32) < 0x10000 {
        3
    } else {
        4
    }
}

/// Code units in the UTF-16 encoding of `c`.
pub open spec fn utf16_width(c: char) -> nat {
    if (c as u32) < 0x10000 {
        1
    } else {
        2
    }
}

/// UTF-8 width as a spec closure.
pub open spec fn utf8_weight() -> spec_fn(char) -> nat {
    |c: char| utf8_width(c)
}

/// UTF-16 width as a spec closure.
pub open spec fn utf16_weight() -> spec_fn(char) -> nat {
    |c: char| utf16_width(c)
}

/// Byte length of the UTF-8 encoding of `s`.
pub open spec fn utf8_len(s: Seq<char>) -> nat {
    weighted_len(s, utf8_weight())
}

/// Number of UTF-16 code units encoding `s`.
pub open spec fn utf16_len_spec(s: Seq<char>) -> nat {
    weighted_len(s, utf16_weight())
}

/// UTF-8 width of one character.
pub fn char_utf8_width(c: char) -> (r: usize)
    ensures
        r == utf8_width(c),
{
    let cp = c as u32;
    if cp < 0x80 {
        1
    } else if cp < 0x800 {
        2
    } else if cp < 0x10000 {
        3
    } else {
        4
    }
}

/// UTF-16 width of one character.
pub fn char_utf16_width(c: char) -> (r: u64)
    ensures
        r == utf16_width(c),
{
    if (c as u32) < 0x10000 {
        1
    } else {
        2
    }
}

/// Number of UTF-16 code units needed to encode `s`.
pub fn utf16_len_of(s: &[char]) -> (r: u64)
    requires
        utf16_len_spec(s@) <= u64::MAX,
    ensures
        r == utf16_len_spec(s@),
{
    let ghost w = utf16_weight();
    let mut total: u64 = 0;
    let mut i: usize = 0;
    while i < s.len()
        invariant
            i <= s.len(),
            w == utf16_weight(),
            total == weighted_len(s@.take(i as int), w),
            utf16_len_spec(s@) <= u64::MAX,
        decreases s.len() - i,
    {
        proof {
            lemma_weighted_len_take_next(s@, i as int, w);
            lemma_weighted_len_add(s@.take(i + 1), s@.skip(i + 1), w);
            assert(s@.take(i + 1) + s@.skip(i + 1) =~= s@);
        }
        total = total + char_utf16_width(s[i]);
        i += 1;
    }
    assert(s@.take(s.len() as int) =~= s@);
    total
}

} // verus!

verus! {

/// ASCII upper-casing of one character; other characters are unchanged.
pub open spec fn ascii_upper(c: char) -> char {
    if 'a' <= c && c <= 'z' {
        ((c as u32) - 32) as char
    } else {
        c
    }
}

/// ASCII lower-casing of one character; other characters are unchanged.
pub open spec fn ascii_lower(c: char) -> char {
    if 'A' <= c && c <= 'Z' {
        ((c as u32) + 32) as char
    } else {
        c
    }
}

/// `str::to_ascii_uppercase`.
pub open spec fn ascii_upper_seq(s: Seq<char>) -> Seq<char> {
    s.map_values(|c: char| ascii_upper(c))
}

/// `str::to_ascii_lowercase`.
pub open spec fn ascii_lower_seq(s: Seq<char>) -> Seq<char> {
    s.map_values(|c: char| ascii_lower(c))
}

pub fn upper_char(c: char) -> (r: char)
    ensures
        r == ascii_upper(c),
{
    if 'a' <= c && c <= 'z' {
        let b = (c as u32) - 32;
        proof { vstd::utf8::char_u32_cast(c, c as u32); }
        char_from_ascii_code(b)
    } else {
        c
    }
}

pub fn lower_char(c: char) -> (r: char)
    ensures
        r == ascii_lower(c),
{
    if 'A' <= c && c <= 'Z' {
        let b = (c as u32) + 32;
        char_from_ascii_code(b)
    } else {
        c
    }
}

/// `char::from_u32` on an ASCII code, which always succeeds.
#[verifier::external_body]
fn char_from_ascii_code(b: u32) -> (r: char)
    requires
        b < 128,
    ensures
        r == b as char,
{
    char::from_u32(b).unwrap()
}

/// ASCII upper-cased copy of a character slice.
pub fn upper_chars(v: &[char]) -> (r: Vec<char>)
    ensures
        r@ == ascii_upper_seq(v@),
{
    let mut r: Vec<char> = Vec::new();
    let mut i: usize = 0;
    while i < v.len()
        invariant
            i <= v.len(),
            r@ == ascii_upper_seq(v@.take(i as int)),
        decreases v.len() - i,
    {
        r.push(upper_char(v[i]));
        assert(ascii_upper_seq(v@.take(i + 1)) =~= ascii_upper_seq(v@.take(i as int)).push(ascii_upper(v@[i as int])));
        i += 1;
    }
    assert(v@.take(v.len() as int) =~= v@);
    r
}

/// ASCII lower-cased copy of a character slice.
pub fn lower_chars(v: &[char]) -> (r: Vec<char>)
    ensures
        r@ == ascii_lower_seq(v@),
{
    let mut r: Vec<char> = Vec::new();
    let mut i: usize = 0;
    while i < v.len()
        invariant
            i <= v.len(),
            r@ == ascii_lower_seq(v@.take(i as int)),
        decreases v.len() - i,
    {
        r.push(lower_char(v[i]));
        assert(ascii_lower_seq(v@.take(i + 1)) =~= ascii_lower_seq(v@.take(i as int)).push(ascii_lower(v@[i as int])));
        i += 1;
    }
    assert(v@.take(v.len() as int) =~= v@);
    r
}

/// Equality of two character slices.
pub fn chars_eq(a: &[char], b: &[char]) -> (r: bool)
    ensures
        r == (a@ == b@),
{
    if a.len() != b.len() {
        return false;
    }
    let mut i: usize = 0;
    while i < a.len()
        invariant
            i <= a.len() == b.len(),
            forall|j: int| 0 <= j < i ==> a@[j] == b@[j],
        decreases a.len() - i,
    {
        if a[i] != b[i] {
            return false;
        }
        i += 1;
    }
    assert(a@ =~= b@);
    true
}

/// Whether a character slice equals a string literal.
pub fn chars_eq_str(a: &[char], b: &str) -> (r: bool)
    ensures
        r == (a@ == b@),
{
    let bv = chars_of(b);
    chars_eq(a, &bv)
}

/// Whether `s` starts with `p`.
pub open spec fn starts_with(s: Seq<char>, p: Seq<char>) -> bool {
    p.len() <= s.len() && s.take(p.len() as int) == p
}

/// Whether `s` ends with `p`.
pub open spec fn ends_with(s: Seq<char>, p: Seq<char>) -> bool {
    p.len() <= s.len() && s.skip(s.len() - p.len()) == p
}

/// Whether `p` occurs in `s` at position `i`.
pub open spec fn occurs_at(s: Seq<char>, p: Seq<char>, i: int) -> bool {
    0 <= i && i + p.len() <= s.len() && s.subrange(i, i + p.len()) == p
}

/// Whether `p` occurs anywhere in `s`.
pub open spec fn contains_seq(s: Seq<char>, p: Seq<char>) -> bool {
    exists|i: int| occurs_at(s, p, i)
}

/// Whether `p` occurs at position `i` of `s`.
pub fn matches_at(s: &[char], p: &[char], i: usize) -> (r: bool)
    ensures
        r == occurs_at(s@, p@, i as int),
{
    if i > s.len() || p.len() > s.len() - i {
        return false;
    }
    let mut j: usize = 0;
    while j < p.len()
        invariant
            j <= p.len(),
            i + p.len() <= s.len(),
            forall|k: int| 0 <= k < j ==> s@[i + k] == p@[k],
        decreases p.len() - j,
    {
        if s[i + j] != p[j] {
            assert(s@.subrange(i as int, i + p.len())[j as int] != p@[j as int]);
            return false;
        }
        j += 1;
    }
    assert(s@.subrange(i as int, i + p.len()) =~= p@);
    true
}

/// Position of the first occurrence of `p` in `s`, if any.
pub fn find_seq(s: &[char], p: &[char]) -> (r: Option<usize>)
    ensures
        r is None ==> !contains_seq(s@, p@),
        r matches Some(i) ==> occurs_at(s@, p@, i as int)
            && forall|k: int| 0 <= k < i ==> !occurs_at(s@, p@, k),
{
    if p.len() > s.len() {
        return None;
    }
    if p.len() == 0 {
        assert(s@.subrange(0, 0) =~= p@);
        return Some(0);
    }
    let last = s.len() - p.len();
    let mut i: usize = 0;
    while i <= last
        invariant
            last == s.len() - p.len(),
            p.len() >= 1,
            i <= last + 1,
            forall|k: int| 0 <= k < i ==> !occurs_at(s@, p@, k),
        decreases last + 1 - i,
    {
        if matches_at(s, p, i) {
            return Some(i);
        }
        i += 1;
    }
    assert forall|k: int| !occurs_at(s@, p@, k) by {
        if 0 <= k && k + p@.len() <= s@.len() {
            assert(k < i);
        }
    }
    None
}

/// Whether `p` occurs in `s`.
pub fn contains_chars(s: &[char], p: &[char]) -> (r: bool)
    ensures
        r == contains_seq(s@, p@),
{
    find_seq(s, p).is_some()
}

/// Whether `s` starts with `p`.
pub fn starts_with_chars(s: &[char], p: &[char]) -> (r: bool)
    ensures
        r == starts_with(s@, p@),
{
    let r = matches_at(s, p, 0);
    proof {
        if p@.len() <= s@.len() {
            assert(s@.subrange(0, p@.len() as int) =~= s@.take(p@.len() as int));
        }
    }
    r
}

/// Whether `s` ends with `p`.
pub fn ends_with_chars(s: &[char], p: &[char]) -> (r: bool)
    ensures
        r == ends_with(s@, p@),
{
    if p.len() > s.len() {
        return false;
    }
    let r = matches_at(s, p, s.len() - p.len());
    proof {
        assert(s@.subrange(s@.len() - p@.len(), s@.len() as int) =~= s@.skip(s@.len() - p@.len()));
    }
    r
}

/// Whether character `c` occurs in `s`.
pub fn has_char(s: &[char], c: char) -> (r: bool)
    ensures
        r == s@.contains(c),
{
    let mut i: usize = 0;
    while i < s.len()
        invariant
            i <= s.len(),
            forall|j: int| 0 <= j < i ==> s@[j] != c,
        decreases s.len() - i,
    {
        if s[i] == c {
            return true;
        }
        i += 1;
    }
    false
}

} // verus!

verus! {

/// Negation of the whitespace predicate.
pub open spec fn not_ws_pred() -> spec_fn(char) -> bool {
    |c: char| !unicode_white_space(c)
}

/// `str::split_whitespace`: maximal runs of non-whitespace characters.
pub open spec fn ws_words(s: Seq<char>) -> Seq<Seq<char>>
    decreases s.len(),
{
    let a = prefix_len(s, ws_pred());
    if a >= s.len() {
        Seq::empty()
    } else {
        let t = s.skip(a as int);
        let k = prefix_len(t, not_ws_pred());
        if k == 0 || k > t.len() {
            Seq::empty()
        } else {
            seq![t.take(k as int)] + ws_words(t.skip(k as int))
        }
    }
}

/// The character views of a sequence of character vectors.
pub open spec fn views(v: Seq<Vec<char>>) -> Seq<Seq<char>> {
    v.map_values(|w: Vec<char>| w@)
}

/// Copy of `v[a..b]`.
pub fn sub_vec(v: &[char], a: usize, b: usize) -> (r: Vec<char>)
    requires
        a <= b <= v.len(),
    ensures
        r@ == v@.subrange(a as int, b as int),
{
    let mut r: Vec<char> = Vec::new();
    let mut i = a;
    while i < b
        invariant
            a <= i <= b <= v.len(),
            r@ == v@.subrange(a as int, i as int),
        decreases b - i,
    {
        r.push(v[i]);
        assert(v@.subrange(a as int, i + 1) =~= v@.subrange(a as int, i as int).push(v@[i as int]));
        i += 1;
    }
    r
}

/// Splits at whitespace like `str::split_whitespace`.
pub fn split_ws(v: &[char]) -> (r: Vec<Vec<char>>)
    ensures
        views(r@) == ws_words(v@),
{
    let mut r: Vec<Vec<char>> = Vec::new();
    let mut i: usize = 0;
    assert(v@.skip(0) =~= v@);
    loop
        invariant
            i <= v.len(),
            views(r@) + ws_words(v@.skip(i as int)) == ws_words(v@),
        decreases v.len() - i,
    {
        let ghost s = v@.skip(i as int);
        let mut a = i;
        while a < v.len() && is_whitespace(v[a])
            invariant
                i <= a <= v.len(),
                forall|j: int| i <= j < a ==> unicode_white_space(#[trigger] v@[j]),
            decreases v.len() - a,
        {
            a += 1;
        }
        proof {
            assert forall|j: int| 0 <= j < a - i implies ws_pred()(#[trigger] s[j]) by {
                assert(s[j] == v@[i + j]);
            }
            if a < v.len() {
                assert(s[a - i] == v@[a as int]);
            }
            lemma_prefix_len(s, ws_pred(), a - i);
        }
        if a == v.len() {
            assert(ws_words(s) =~= Seq::<Seq<char>>::empty());
            assert(views(r@) + Seq::<Seq<char>>::empty() =~= views(r@));
            return r;
        }
        let mut b = a;
        while b < v.len() && !is_whitespace(v[b])
            invariant
                a <= b <= v.len(),
                forall|j: int| a <= j < b ==> !unicode_white_space(#[trigger] v@[j]),
            decreases v.len() - b,
        {
            b += 1;
        }
        let ghost t = s.skip(a - i);
        proof {
            assert(t =~= v@.skip(a as int));
            assert forall|j: int| 0 <= j < b - a implies not_ws_pred()(#[trigger] t[j]) by {
                assert(t[j] == v@[a + j]);
            }
            if b < v.len() {
                assert(t[b - a] == v@[b as int]);
            }
            lemma_prefix_len(t, not_ws_pred(), b - a);
            assert(t.take(b - a) =~= v@.subrange(a as int, b as int));
            assert(t.skip(b - a) =~= v@.skip(b as int));
        }
        let word = sub_vec(v, a, b);
        let ghost old_r = r@;
        r.push(word);
        proof {
            assert(views(r@) =~= views(old_r).push(word@));
            assert(ws_words(s) == seq![t.take(b - a)] + ws_words(t.skip(b - a)));
            assert(views(r@) + ws_words(v@.skip(b as int)) =~= views(old_r) + ws_words(s));
        }
        i = b;
    }
}

} // verus!

verus! {

/// Appends the characters of `w` to `v`.
pub fn extend_chars(v: &mut Vec<char>, w: &[char])
    ensures
        final(v)@ == old(v)@ + w@,
{
    let mut i: usize = 0;
    while i < w.len()
        invariant
            i <= w.len(),
            v@ == old(v)@ + w@.take(i as int),
        decreases w.len() - i,
    {
        v.push(w[i]);
        assert(old(v)@ + w@.take(i + 1) =~= (old(v)@ + w@.take(i as int)).push(w@[i as int]));
        i += 1;
    }
    assert(w@.take(w.len() as int) =~= w@);
}

/// Appends the characters of a string slice to `v`.
pub fn extend_str(v: &mut Vec<char>, w: &str)
    ensures
        final(v)@ == old(v)@ + w@,
{
    let c = chars_of(w);
    extend_chars(v, &c);
}

} // verus!

verus! {

/// Words joined with a separator, like `[&str]::join`.
pub open spec fn join_seqs(ws: Seq<Seq<char>>, sep: Seq<char>) -> Seq<char>
    decreases ws.len(),
{
    if ws.len() == 0 {
        Seq::empty()
    } else if ws.len() == 1 {
        ws[0]
    } else {
        join_seqs(ws.drop_last(), sep) + sep + ws.last()
    }
}

/// Joins `words[from..to]` with `sep`.
pub fn join_range(words: &[Vec<char>], from: usize, to: usize, sep: &str) -> (r: Vec<char>)
    requires
        from <= to <= words.len(),
    ensures
        r@ == join_seqs(views(words@).subrange(from as int, to as int), sep@),
{
    let mut r: Vec<char> = Vec::new();
    let mut i = from;
    while i < to
        invariant
            from <= i <= to <= words.len(),
            r@ == join_seqs(views(words@).subrange(from as int, i as int), sep@),
        decreases to - i,
    {
        let ghost prev = views(words@).subrange(from as int, i as int);
        let ghost next = views(words@).subrange(from as int, i + 1);
        assert(next.drop_last() =~= prev);
        if i > from {
            extend_str(&mut r, sep);
        }
        extend_chars(&mut r, &words[i]);
        proof {
            if i == from {
                assert(r@ =~= next[0]);
            }
        }
        i += 1;
    }
    r
}

} // verus!

verus! {

/// The predicate "differs from `c`".
pub open spec fn other_than(c: char) -> spec_fn(char) -> bool {
    |x: char| x != c
}

pub proof fn lemma_weighted_len_split(v: Seq<char>, x: int, y: int, z: int, w: spec_fn(char) -> nat)
    requires
        0 <= x <= y <= z <= v.len(),
    ensures
        weighted_len(v.subrange(x, z), w) == weighted_len(v.subrange(x, y), w) + weighted_len(v.subrange(y, z), w),
{
    assert(v.subrange(x, z) =~= v.subrange(x, y) + v.subrange(y, z));
    lemma_weighted_len_add(v.subrange(x, y), v.subrange(y, z), w);
}

pub proof fn lemma_weighted_len_sub_le(v: Seq<char>, x: int, y: int, w: spec_fn(char) -> nat)
    requires
        0 <= x <= y <= v.len(),
    ensures
        weighted_len(v.subrange(x, y), w) <= weighted_len(v, w),
{
    lemma_weighted_len_split(v, 0, x, v.len() as int, w);
    lemma_weighted_len_split(v, x, y, v.len() as int, w);
    assert(v.subrange(0, v.len() as int) =~= v);
}

/// Number of UTF-16 code units in `v[a..b]`.
pub fn utf16_range(v: &[char], a: usize, b: usize) -> (r: u64)
    requires
        a <= b <= v.len(),
        utf16_len_spec(v@) <= u64::MAX,
    ensures
        r == utf16_len_spec(v@.subrange(a as int, b as int)),
{
    let ghost w = utf16_weight();
    let mut total: u64 = 0;
    let mut i = a;
    while i < b
        invariant
            a <= i <= b <= v.len(),
            w == utf16_weight(),
            total == weighted_len(v@.subrange(a as int, i as int), w),
            utf16_len_spec(v@) <= u64::MAX,
        decreases b - i,
    {
        proof {
            lemma_weighted_len_split(v@, a as int, i as int, i + 1, w);
            lemma_weighted_len_sub_le(v@, a as int, i + 1, w);
            let one = v@.subrange(i as int, i + 1);
            assert(one.drop_first().len() == 0);
            assert(weighted_len(one.drop_first(), w) == 0);
            assert(one[0] == v@[i as int]);
        }
        total = total + char_utf16_width(v[i]);
        i += 1;
    }
    total
}

/// Window `[a, b)` of `v` is what trimming whitespace leaves.
pub proof fn lemma_trim_ws_window(v: Seq<char>, a: int, b: int)
    requires
        0 <= a <= b <= v.len(),
        forall|j: int| 0 <= j < a ==> unicode_white_space(#[trigger] v[j]),
        a < v.len() ==> !unicode_white_space(v[a]),
        forall|j: int| b <= j < v.len() ==> unicode_white_space(#[trigger] v[j]),
        b > a ==> !unicode_white_space(v[b - 1]),
    ensures
        prefix_len(v, ws_pred()) == a,
        trim_ws(v) == v.subrange(a, b),
{
    let p = ws_pred();
    assert(forall|c: char| p(c) == unicode_white_space(c));
    lemma_prefix_len(v, p, a);
    let t = v.skip(a);
    let k = v.len() - b;
    if a < v.len() {
        assert(b > a) by {
            if b == a {
                assert(unicode_white_space(v[a]));
            }
        }
    }
    assert forall|j: int| t.len() - k <= j < t.len() implies p(#[trigger] t[j]) by {
        assert(t[j] == v[j + a]);
    }
    if k < t.len() {
        assert(t[t.len() - k - 1] == v[b - 1]);
    }
    lemma_suffix_len(t, p, k);
    assert(t.take(t.len() - k) =~= v.subrange(a, b));
}

pub proof fn lemma_prefix_len_bound(s: Seq<char>, p: spec_fn(char) -> bool)
    ensures
        prefix_len(s, p) <= s.len(),
        forall|j: int| 0 <= j < prefix_len(s, p) ==> p(#[trigger] s[j]),
        prefix_len(s, p) < s.len() ==> !p(s[prefix_len(s, p) as int]),
    decreases s.len(),
{
    if s.len() > 0 && p(s[0]) {
        let t = s.drop_first();
        lemma_prefix_len_bound(t, p);
        assert forall|j: int| 0 <= j < prefix_len(s, p) implies p(#[trigger] s[j]) by {
            if j > 0 {
                assert(s[j] == t[j - 1]);
            }
        }
        if prefix_len(s, p) < s.len() {
            assert(s[prefix_len(s, p) as int] == t[prefix_len(t, p) as int]);
        }
    }
}

pub proof fn lemma_suffix_len_bound(s: Seq<char>, p: spec_fn(char) -> bool)
    ensures
        suffix_len(s, p) <= s.len(),
    decreases s.len(),
{
    if s.len() > 0 && p(s.last()) {
        lemma_suffix_len_bound(s.drop_last(), p);
    }
}

} // verus!
