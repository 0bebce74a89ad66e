//! Turning the lines of a plain-text book into a reading document: headings
//! and a table of contents, paragraphs (hard-wrapped lines reflowed), chunks,
//! and the offset table that keeps locations of the earlier format valid.

use vstd::prelude::*;

use crate::headings::{
    all_digits, canonical_roman_chars, is_canonical_roman, is_digit, parse_heading_spec, rank_index,
    rank_order, HeadingRank, HeadingSpec, ParsedHeading,
};
use crate::lines::TextLine;
use crate::text::{
    ascii_lower_seq, chars_of, contains_seq, has_char, is_alphabetic, is_lowercase, is_prefix_run,
    is_suffix_run, is_uppercase, is_whitespace, lemma_prefix_len, lemma_suffix_len,
    lemma_weighted_len_push, lower_chars, matches_at, not_ws_pred, occurs_at, prefix_len,
    starts_with, starts_with_chars, suffix_len, trim_start_ws, unicode_alphabetic,
    unicode_lowercase, unicode_uppercase, unicode_white_space, utf8_len, utf8_weight,
    weighted_len, ws_pred, char_utf8_width,
};

verus! {

/// Closing quotes and brackets that may follow the end of a sentence.
pub open spec fn is_closing_mark(c: char) -> bool {
    c == '"' || c == '\'' || c == ')' || c == ']' || c == '}' || c == '\u{2019}' || c == '\u{201d}'
}

/// Sentence-ending punctuation, Western and CJK.
pub open spec fn is_sentence_end(c: char) -> bool {
    c == '.' || c == '?' || c == '!' || c == '\u{2026}' || c == '\u{3002}' || c == '\u{ff1f}'
        || c == '\u{ff01}'
}

/// The closing-mark predicate as a spec closure.
pub open spec fn closing_pred() -> spec_fn(char) -> bool {
    |c: char| is_closing_mark(c)
}

/// Whether a line ends a sentence, closing quotes and brackets aside.
pub open spec fn sentence_ending_spec(s: Seq<char>) -> bool {
    let t = s.take(s.len() - suffix_len(s, closing_pred()));
    t.len() > 0 && is_sentence_end(t.last())
}

/// Whether a line ends a sentence, closing quotes and brackets aside.
pub fn has_sentence_ending(v: &[char]) -> (r: bool)
    ensures
        r == sentence_ending_spec(v@),
{
    let ghost p = closing_pred();
    let mut end: usize = v.len();
    while end > 0 && (v[end - 1] == '"' || v[end - 1] == '\'' || v[end - 1] == ')' || v[end - 1] == ']'
        || v[end - 1] == '}' || v[end - 1] == '\u{2019}' || v[end - 1] == '\u{201d}')
        invariant
            end <= v.len(),
            p == closing_pred(),
            forall|j: int| end <= j < v.len() ==> p(#[trigger] v@[j]),
        decreases end,
    {
        end -= 1;
    }
    proof {
        let k = (v.len() - end) as int;
        assert(is_suffix_run(v@, p, k));
        lemma_suffix_len(v@, p, k);
    }
    if end == 0 {
        return false;
    }
    let c = v[end - 1];
    c == '.' || c == '?' || c == '!' || c == '\u{2026}' || c == '\u{3002}' || c == '\u{ff1f}'
        || c == '\u{ff01}'
}

/// Bullet and checkbox prefixes of list items.
pub open spec fn list_prefixes() -> Seq<Seq<char>> {
    seq!["- "@, "* "@, "+ "@, "\u{2022} "@, "\u{2023} "@, "\u{25e6} "@, "[ ] "@, "[x] "@, "[X] "@]
}

/// An ASCII letter.
pub open spec fn is_ascii_letter(c: char) -> bool {
    ('a' <= c && c <= 'z') || ('A' <= c && c <= 'Z')
}

/// Whether the marker of a numbered item is a number, a single letter or a
/// canonical Roman numeral.
pub open spec fn list_marker_spec(marker: Seq<char>) -> bool {
    if marker.len() == 0 || utf8_len(marker) > 15 {
        false
    } else {
        all_digits(marker) || (utf8_len(marker) == 1 && is_ascii_letter(marker[0])) || is_canonical_roman(marker)
    }
}

/// Whether a line is a list item: a bullet or checkbox, or a marker such as
/// `1.`, `a)`, `(iv)` followed by whitespace.
pub open spec fn list_item_spec(value: Seq<char>) -> bool {
    let v = trim_start_ws(value);
    if exists|i: int| 0 <= i < 9 && starts_with(v, #[trigger] list_prefixes()[i]) {
        true
    } else {
        let m = prefix_len(v, not_ws_pred()) as int;
        if m >= v.len() {
            false
        } else {
            let raw = v.take(m);
            if raw.len() == 0 || !(raw.last() == '.' || raw.last() == ')') {
                false
            } else {
                let stripped = raw.drop_last();
                let marker = if stripped.len() > 0 && stripped[0] == '(' {
                    stripped.drop_first()
                } else {
                    stripped
                };
                list_marker_spec(marker)
            }
        }
    }
}

/// UTF-8 byte length of a character slice, when it is at most `limit`.
fn utf8_len_upto(v: &[char], limit: usize) -> (r: Option<usize>)
    ensures
        r matches Some(n) ==> n == utf8_len(v@) && n <= limit,
        r is None ==> utf8_len(v@) > limit,
{
    let ghost w = utf8_weight();
    let mut total: usize = 0;
    let mut i: usize = 0;
    while i < v.len()
        invariant
            i <= v.len(),
            w == utf8_weight(),
            total <= limit,
            total == weighted_len(v@.take(i as int), w),
        decreases v.len() - i,
    {
        proof {
            assert(v@.take(i + 1) =~= v@.take(i as int).push(v@[i as int]));
            lemma_weighted_len_push(v@.take(i as int), v@[i as int], w);
        }
        let c = char_utf8_width(v[i]);
        if c > limit - total {
            proof {
                crate::text::lemma_weighted_len_add(v@.take(i + 1), v@.skip(i + 1), w);
                assert(v@.take(i + 1) + v@.skip(i + 1) =~= v@);
            }
            return None;
        }
        total = total + c;
        i += 1;
    }
    assert(v@.take(v.len() as int) =~= v@);
    Some(total)
}

/// Whether the marker of a numbered item is a number, a single letter or a
/// canonical Roman numeral.
fn list_marker(marker: &[char]) -> (r: bool)
    ensures
        r == list_marker_spec(marker@),
{
    if marker.len() == 0 {
        return false;
    }
    match utf8_len_upto(marker, 15) {
        None => false,
        Some(n) => {
            let mut digits = true;
            let mut i: usize = 0;
            while i < marker.len()
                invariant
                    i <= marker.len(),
                    digits == forall|j: int| 0 <= j < i ==> is_digit(#[trigger] marker@[j]),
                decreases marker.len() - i,
            {
                if !('0' <= marker[i] && marker[i] <= '9') {
                    digits = false;
                }
                i += 1;
            }
            let c = marker[0];
            let letter = n == 1 && (('a' <= c && c <= 'z') || ('A' <= c && c <= 'Z'));
            digits || letter || canonical_roman_chars(marker)
        },
    }
}

/// Whether a line is a list item.
pub fn is_list_item_line(value: &[char]) -> (r: bool)
    ensures
        r == list_item_spec(value@),
{
    let mut a: usize = 0;
    while a < value.len() && is_whitespace(value[a])
        invariant
            a <= value.len(),
            forall|j: int| 0 <= j < a ==> ws_pred()(#[trigger] value@[j]),
        decreases value.len() - a,
    {
        a += 1;
    }
    proof {
        lemma_prefix_len(value@, ws_pred(), a as int);
    }
    let v = crate::text::sub_vec(value, a, value.len());
    assert(v@ =~= trim_start_ws(value@));
    let prefixes = ["- ", "* ", "+ ", "\u{2022} ", "\u{2023} ", "\u{25e6} ", "[ ] ", "[x] ", "[X] "];
    assert forall|i: int| 0 <= i < 9 implies (#[trigger] prefixes@[i])@ == list_prefixes()[i] by {}
    let mut i: usize = 0;
    while i < 9
        invariant
            i <= 9,
            prefixes@.len() == 9,
            v@ == trim_start_ws(value@),
            forall|k: int| 0 <= k < 9 ==> (#[trigger] prefixes@[k])@ == list_prefixes()[k],
            forall|k: int| 0 <= k < i ==> !starts_with(v@, #[trigger] list_prefixes()[k]),
        decreases 9 - i,
    {
        if starts_with_chars(&v, &chars_of(prefixes[i])) {
            assert(starts_with(v@, list_prefixes()[i as int]));
            assert(exists|k: int| 0 <= k < 9 && starts_with(trim_start_ws(value@), #[trigger] list_prefixes()[k]));
            return true;
        }
        i += 1;
    }
    let ghost q = not_ws_pred();
    let mut m: usize = 0;
    while m < v.len() && !is_whitespace(v[m])
        invariant
            m <= v.len(),
            q == not_ws_pred(),
            forall|j: int| 0 <= j < m ==> q(#[trigger] v@[j]),
        decreases v.len() - m,
    {
        m += 1;
    }
    proof {
        lemma_prefix_len(v@, q, m as int);
    }
    if m >= v.len() {
        return false;
    }
    if m == 0 || !(v[m - 1] == '.' || v[m - 1] == ')') {
        return false;
    }
    let from: usize = if m >= 2 && v[0] == '(' { 1 } else { 0 };
    let marker = crate::text::sub_vec(&v, from, m - 1);
    proof {
        let raw = v@.take(m as int);
        let stripped = raw.drop_last();
        assert(stripped =~= v@.subrange(0, m - 1));
        if from == 1 {
            assert(marker@ =~= stripped.drop_first());
        } else {
            assert(marker@ =~= stripped);
        }
    }
    list_marker(&marker)
}

/// Spec closure: not an alphabetic character.
pub open spec fn not_alpha_pred() -> spec_fn(char) -> bool {
    |c: char| !unicode_alphabetic(c)
}

/// Position of the first alphabetic character (or the length).
pub open spec fn first_letter_index(s: Seq<char>) -> int {
    prefix_len(s, not_alpha_pred()) as int
}

/// Whether the first letter of a line is upper-case.
pub open spec fn starts_upper_spec(s: Seq<char>) -> bool {
    first_letter_index(s) < s.len() && unicode_uppercase(s[first_letter_index(s)])
}

/// Whether the first letter of a line is lower-case.
pub open spec fn starts_lower_spec(s: Seq<char>) -> bool {
    first_letter_index(s) < s.len() && unicode_lowercase(s[first_letter_index(s)])
}

/// Position of the first alphabetic character (or the length).
fn first_letter(v: &[char]) -> (r: usize)
    ensures
        r == first_letter_index(v@),
        r <= v.len(),
{
    let ghost p = not_alpha_pred();
    let mut i: usize = 0;
    while i < v.len() && !is_alphabetic(v[i])
        invariant
            i <= v.len(),
            p == not_alpha_pred(),
            forall|j: int| 0 <= j < i ==> p(#[trigger] v@[j]),
        decreases v.len() - i,
    {
        i += 1;
    }
    proof {
        lemma_prefix_len(v@, p, i as int);
    }
    i
}

/// Whether the first letter of a line is upper-case.
pub fn starts_with_uppercase_letter(v: &[char]) -> (r: bool)
    ensures
        r == starts_upper_spec(v@),
{
    let i = first_letter(v);
    i < v.len() && is_uppercase(v[i])
}

/// Whether the first letter of a line is lower-case.
pub fn starts_with_lowercase_letter(v: &[char]) -> (r: bool)
    ensures
        r == starts_lower_spec(v@),
{
    let i = first_letter(v);
    i < v.len() && is_lowercase(v[i])
}

/// Target size, in UTF-8 bytes, of a chunk of the reading document and of a
/// chapter of the earlier location format.
pub const TXT_CHAPTER_TARGET_CHARS: usize = 24_000;

/// A chapter title as the earlier location format recognised it.
pub open spec fn legacy_chapter_title_spec(line: Seq<char>) -> bool {
    utf8_len(line) < 100 && (starts_with(ascii_lower_seq(line), "chapter "@)
        || starts_with(ascii_lower_seq(line), "chapter\t"@)
        || (line.len() > 0 && line[0] == '第' && (line.contains('章') || line.contains('节'))))
}

/// Whether a line is a chapter title in the earlier location format.
pub fn legacy_chapter_title(line: &[char]) -> (r: bool)
    ensures
        r == legacy_chapter_title_spec(line@),
{
    match utf8_len_upto(line, 99) {
        None => false,
        Some(_) => {
            let lower = lower_chars(line);
            starts_with_chars(&lower, &chars_of("chapter ")) || starts_with_chars(&lower, &chars_of("chapter\t"))
                || (line.len() > 0 && line[0] == '第' && (has_char(line, '章') || has_char(line, '节')))
        },
    }
}

/// `chapters` with `current` appended when it is not empty.
pub open spec fn legacy_flush(chapters: Seq<Seq<int>>, current: Seq<int>) -> Seq<Seq<int>> {
    if current.len() == 0 {
        chapters
    } else {
        chapters.push(current)
    }
}

/// The offset table of the earlier location format for `lines`, given the
/// chapters already closed, the offsets of the open chapter and its size.
pub open spec fn legacy_from(lines: Seq<crate::lines::LineView>, chapters: Seq<Seq<int>>, current: Seq<int>, size: int) -> Seq<Seq<int>>
    decreases lines.len(),
{
    if lines.len() == 0 {
        let c = legacy_flush(chapters, current);
        if c.len() == 0 {
            seq![seq![0int]]
        } else {
            c
        }
    } else {
        let l = lines[0];
        let rest = lines.drop_first();
        if legacy_chapter_title_spec(l.text) {
            legacy_from(rest, legacy_flush(chapters, current), Seq::empty(), 0)
        } else {
            let cur = current.push(l.source_start);
            let n = size + utf8_len(l.text);
            if n >= TXT_CHAPTER_TARGET_CHARS {
                legacy_from(rest, chapters.push(cur), Seq::empty(), 0)
            } else {
                legacy_from(rest, chapters, cur, n)
            }
        }
    }
}

/// The offset table of the earlier location format: the start offsets of
/// the lines of each of its chapters (chapter titles excluded).
pub open spec fn legacy_locations_spec(lines: Seq<crate::lines::LineView>) -> Seq<Seq<int>> {
    legacy_from(lines, Seq::empty(), Seq::empty(), 0)
}

/// Spec view of an offset table.
pub open spec fn offsets_view(t: Seq<Vec<u64>>) -> Seq<Seq<int>> {
    t.map_values(|v: Vec<u64>| v@.map_values(|x: u64| x as int))
}

/// The offset table that maps locations of the earlier format (chapter and
/// paragraph indexes) to source offsets.
pub fn legacy_text_locations(lines: &[TextLine]) -> (r: Vec<Vec<u64>>)
    ensures
        offsets_view(r@) == legacy_locations_spec(crate::lines::line_views(lines@)),
{
    let ghost all = crate::lines::line_views(lines@);
    let mut chapters: Vec<Vec<u64>> = Vec::new();
    let mut current: Vec<u64> = Vec::new();
    let mut size: usize = 0;
    let mut i: usize = 0;
    assert(all.skip(0) =~= all);
    assert(offsets_view(chapters@) =~= Seq::<Seq<int>>::empty());
    assert(current@.map_values(|x: u64| x as int) =~= Seq::<int>::empty());
    while i < lines.len()
        invariant
            i <= lines.len(),
            all == crate::lines::line_views(lines@),
            size < TXT_CHAPTER_TARGET_CHARS,
            legacy_from(all.skip(i as int), offsets_view(chapters@), current@.map_values(|x: u64| x as int), size as int)
                == legacy_locations_spec(all),
        decreases lines.len() - i,
    {
        let ghost rest = all.skip(i as int);
        let ghost cv = current@.map_values(|x: u64| x as int);
        let ghost chv = offsets_view(chapters@);
        assert(rest[0] == lines@[i as int]@);
        assert(rest.drop_first() =~= all.skip(i + 1));
        let line = &lines[i];
        if legacy_chapter_title(&line.text) {
            if current.len() > 0 {
                let mut taken: Vec<u64> = Vec::new();
                std::mem::swap(&mut taken, &mut current);
                chapters.push(taken);
                assert(offsets_view(chapters@) =~= chv.push(cv));
            }
            assert(current@.map_values(|x: u64| x as int) =~= Seq::<int>::empty());
            size = 0;
        } else {
            current.push(line.source_start);
            assert(current@.map_values(|x: u64| x as int) =~= cv.push(line.source_start as int));
            match utf8_len_upto(&line.text, TXT_CHAPTER_TARGET_CHARS - 1 - size) {
                Some(n) if size + n < TXT_CHAPTER_TARGET_CHARS => {
                    size = size + n;
                },
                _ => {
                    let ghost cur = current@.map_values(|x: u64| x as int);
                    let mut taken: Vec<u64> = Vec::new();
                    std::mem::swap(&mut taken, &mut current);
                    chapters.push(taken);
                    assert(offsets_view(chapters@) =~= chv.push(cur));
                    assert(current@.map_values(|x: u64| x as int) =~= Seq::<int>::empty());
                    size = 0;
                },
            }
        }
        i += 1;
    }
    let ghost cv = current@.map_values(|x: u64| x as int);
    let ghost chv = offsets_view(chapters@);
    if current.len() > 0 {
        chapters.push(current);
        assert(offsets_view(chapters@) =~= chv.push(cv));
    }
    if chapters.len() == 0 {
        let mut first: Vec<u64> = Vec::new();
        first.push(0);
        assert(first@.map_values(|x: u64| x as int) =~= seq![0int]);
        let ghost before = chapters@;
        chapters.push(first);
        assert(chapters@[0] == first);
        assert(offsets_view(chapters@) =~= seq![seq![0int]]);
    }
    chapters
}

/// Tests on the lines of a text that the hard-wrap detection counts.
pub enum LineTest {
    /// Not a heading.
    Body,
    /// A body line of at least 8 characters.
    Long,
    /// A body line that is a list item.
    ListItem,
    /// A body line whose first letter is upper-case.
    UpperStart,
    /// A body line that does not end a sentence.
    SoftEnd,
    /// A long body line shorter than the given length.
    Below(int),
    /// A long body line no longer than the given length.
    UpTo(int),
    /// A long body line within 65% to 140% of the given length.
    Regular(int),
    /// A body line followed, without a blank line, by another body line.
    Joined,
    /// A joined line that does not end a sentence.
    JoinedSoft,
}

/// Whether line `i` passes test `t`.
pub open spec fn line_test(ls: Seq<crate::lines::LineView>, ds: Seq<Option<u8>>, t: LineTest, i: int) -> bool {
    let body = ds[i] is None;
    let len = ls[i].text.len() as int;
    let joined = i + 1 < ls.len() && body && ds[i + 1] is None && !ls[i + 1].paragraph_break_before;
    match t {
        LineTest::Body => body,
        LineTest::Long => body && len >= 8,
        LineTest::ListItem => body && list_item_spec(ls[i].text),
        LineTest::UpperStart => body && starts_upper_spec(ls[i].text),
        LineTest::SoftEnd => body && !sentence_ending_spec(ls[i].text),
        LineTest::Below(m) => body && len >= 8 && len < m,
        LineTest::UpTo(m) => body && len >= 8 && len <= m,
        LineTest::Regular(m) => body && len >= 8 && len * 100 >= m * 65 && len * 100 <= m * 140,
        LineTest::Joined => joined,
        LineTest::JoinedSoft => joined && !sentence_ending_spec(ls[i].text),
    }
}

/// Number of the first `n` lines that pass test `t`.
pub open spec fn count_lines(ls: Seq<crate::lines::LineView>, ds: Seq<Option<u8>>, t: LineTest, n: int) -> nat
    decreases n,
{
    if n <= 0 {
        0
    } else {
        count_lines(ls, ds, t, n - 1) + if line_test(ls, ds, t, n - 1) { 1nat } else { 0nat }
    }
}

pub proof fn lemma_count_lines_bound(ls: Seq<crate::lines::LineView>, ds: Seq<Option<u8>>, t: LineTest, n: int)
    requires
        n >= 0,
    ensures
        count_lines(ls, ds, t, n) <= n,
    decreases n,
{
    if n > 0 {
        lemma_count_lines_bound(ls, ds, t, n - 1);
    }
}

/// A count can only grow when the test is weakened.
pub proof fn lemma_count_lines_mono(ls: Seq<crate::lines::LineView>, ds: Seq<Option<u8>>, t1: LineTest, t2: LineTest, n: int)
    requires
        forall|i: int| 0 <= i < n ==> line_test(ls, ds, t1, i) ==> line_test(ls, ds, t2, i),
    ensures
        count_lines(ls, ds, t1, n) <= count_lines(ls, ds, t2, n),
    decreases n,
{
    if n > 0 {
        lemma_count_lines_mono(ls, ds, t1, t2, n - 1);
    }
}

/// Number of long body lines (the lengths the median is taken of).
pub open spec fn long_count(ls: Seq<crate::lines::LineView>, ds: Seq<Option<u8>>) -> nat {
    count_lines(ls, ds, LineTest::Long, ls.len() as int)
}

/// `m` is the median length of the long body lines: the length at the
/// middle position (half their number, rounded down) once sorted. Fewer
/// lengths than that position lie below `m`, more lie at or below it.
pub open spec fn is_median_length(ls: Seq<crate::lines::LineView>, ds: Seq<Option<u8>>, m: int) -> bool {
    let k = long_count(ls, ds) / 2;
    count_lines(ls, ds, LineTest::Below(m), ls.len() as int) <= k < count_lines(ls, ds, LineTest::UpTo(m), ls.len() as int)
}

/// The median length is unique.
pub proof fn lemma_median_unique(ls: Seq<crate::lines::LineView>, ds: Seq<Option<u8>>, m1: int, m2: int)
    requires
        is_median_length(ls, ds, m1),
        is_median_length(ls, ds, m2),
    ensures
        m1 == m2,
{
    let n = ls.len() as int;
    if m1 < m2 {
        lemma_count_lines_mono(ls, ds, LineTest::UpTo(m1), LineTest::Below(m2), n);
    } else if m2 < m1 {
        lemma_count_lines_mono(ls, ds, LineTest::UpTo(m2), LineTest::Below(m1), n);
    }
}

/// The wrap width of a hard-wrapped text: the median length of its long
/// body lines, when the text looks hard-wrapped (enough regular lines,
/// most joined lines not ending a sentence) and is neither a list nor
/// verse-like; otherwise nothing.
pub open spec fn hard_wrap_spec(ls: Seq<crate::lines::LineView>, ds: Seq<Option<u8>>) -> Option<usize> {
    let n = ls.len() as int;
    let body = count_lines(ls, ds, LineTest::Body, n) as int;
    let long = long_count(ls, ds) as int;
    let list = count_lines(ls, ds, LineTest::ListItem, n) as int;
    let upper = count_lines(ls, ds, LineTest::UpperStart, n) as int;
    let soft = count_lines(ls, ds, LineTest::SoftEnd, n) as int;
    let joined = count_lines(ls, ds, LineTest::Joined, n) as int;
    let joined_soft = count_lines(ls, ds, LineTest::JoinedSoft, n) as int;
    if long < 12 {
        None
    } else if list >= 3 && list * 100 >= body * 20 {
        None
    } else if body >= 8 && upper * 100 >= body * 75 && soft * 100 >= body * 35 {
        None
    } else if !(exists|m: int| 24 <= m <= 120 && is_median_length(ls, ds, m)) {
        None
    } else {
        let m = choose|m: int| 24 <= m <= 120 && is_median_length(ls, ds, m);
        if count_lines(ls, ds, LineTest::Regular(m), n) * 100 < long * 65 {
            None
        } else if joined >= 8 && joined_soft * 100 >= joined * 35 {
            Some(m as usize)
        } else {
            None
        }
    }
}

/// Number of long body lines below (`strict`) or at most `m` characters.
fn count_long_lengths(lines: &[TextLine], depths: &[Option<u8>], m: usize, strict: bool) -> (c: usize)
    requires
        depths.len() == lines.len(),
    ensures
        strict ==> c == count_lines(crate::lines::line_views(lines@), depths@, LineTest::Below(m as int), lines.len() as int),
        !strict ==> c == count_lines(crate::lines::line_views(lines@), depths@, LineTest::UpTo(m as int), lines.len() as int),
{
    let ghost ls = crate::lines::line_views(lines@);
    let ghost t = if strict { LineTest::Below(m as int) } else { LineTest::UpTo(m as int) };
    let mut c: usize = 0;
    let mut i: usize = 0;
    while i < lines.len()
        invariant
            i <= lines.len(),
            depths.len() == lines.len(),
            ls == crate::lines::line_views(lines@),
            t == if strict { LineTest::Below(m as int) } else { LineTest::UpTo(m as int) },
            c == count_lines(ls, depths@, t, i as int),
        decreases lines.len() - i,
    {
        proof {
            lemma_count_lines_bound(ls, depths@, t, i as int);
        }
        assert(ls[i as int] == lines@[i as int]@);
        let len = lines[i].text.len();
        let hit = depths[i].is_none() && len >= 8 && (if strict { len < m } else { len <= m });
        if hit {
            c += 1;
        }
        i += 1;
    }
    c
}

/// Detects a hard-wrapped text and returns its wrap width.
pub fn hard_wrap_width(lines: &[TextLine], depths: &[Option<u8>]) -> (r: Option<usize>)
    requires
        depths.len() == lines.len(),
    ensures
        r == hard_wrap_spec(crate::lines::line_views(lines@), depths@),
{
    let ghost ls = crate::lines::line_views(lines@);
    let ghost ds = depths@;
    let n = lines.len();
    let mut body: usize = 0;
    let mut long: usize = 0;
    let mut list: usize = 0;
    let mut upper: usize = 0;
    let mut soft: usize = 0;
    let mut joined: usize = 0;
    let mut joined_soft: usize = 0;
    let mut i: usize = 0;
    while i < n
        invariant
            i <= n,
            n == lines.len(),
            depths.len() == n,
            ls == crate::lines::line_views(lines@),
            ds == depths@,
            body == count_lines(ls, ds, LineTest::Body, i as int),
            long == count_lines(ls, ds, LineTest::Long, i as int),
            list == count_lines(ls, ds, LineTest::ListItem, i as int),
            upper == count_lines(ls, ds, LineTest::UpperStart, i as int),
            soft == count_lines(ls, ds, LineTest::SoftEnd, i as int),
            joined == count_lines(ls, ds, LineTest::Joined, i as int),
            joined_soft == count_lines(ls, ds, LineTest::JoinedSoft, i as int),
        decreases n - i,
    {
        proof {
            lemma_count_lines_bound(ls, ds, LineTest::Body, i as int);
            lemma_count_lines_bound(ls, ds, LineTest::Long, i as int);
            lemma_count_lines_bound(ls, ds, LineTest::ListItem, i as int);
            lemma_count_lines_bound(ls, ds, LineTest::UpperStart, i as int);
            lemma_count_lines_bound(ls, ds, LineTest::SoftEnd, i as int);
            lemma_count_lines_bound(ls, ds, LineTest::Joined, i as int);
            lemma_count_lines_bound(ls, ds, LineTest::JoinedSoft, i as int);
        }
        let line = &lines[i];
        assert(ls[i as int] == lines@[i as int]@);
        if depths[i].is_none() {
            body += 1;
            if line.text.len() >= 8 {
                long += 1;
            }
            if is_list_item_line(&line.text) {
                list += 1;
            }
            if starts_with_uppercase_letter(&line.text) {
                upper += 1;
            }
            let ends = has_sentence_ending(&line.text);
            if !ends {
                soft += 1;
            }
            if i + 1 < n && depths[i + 1].is_none() && !lines[i + 1].paragraph_break_before {
                assert(ls[i + 1] == lines@[i + 1]@);
                joined += 1;
                if !ends {
                    joined_soft += 1;
                }
            }
        }
        i += 1;
    }
    if long < 12 {
        return None;
    }
    if list >= 3 && (list as u128) * 100 >= (body as u128) * 20 {
        return None;
    }
    if body >= 8 && (upper as u128) * 100 >= (body as u128) * 75 && (soft as u128) * 100 >= (body as u128) * 35 {
        return None;
    }
    let k = long / 2;
    let below_low = count_long_lengths(lines, depths, 24, true);
    if k < below_low {
        proof {
            assert forall|m: int| 24 <= m <= 120 implies !is_median_length(ls, ds, m) by {
                lemma_count_lines_mono(ls, ds, LineTest::Below(24), LineTest::Below(m), n as int);
            }
        }
        return None;
    }
    let upto_high = count_long_lengths(lines, depths, 120, false);
    if k >= upto_high {
        proof {
            assert forall|m: int| 24 <= m <= 120 implies !is_median_length(ls, ds, m) by {
                lemma_count_lines_mono(ls, ds, LineTest::UpTo(m), LineTest::UpTo(120), n as int);
            }
        }
        return None;
    }
    let mut m: usize = 24;
    let mut below = below_low;
    let mut upto = count_long_lengths(lines, depths, 24, false);
    while upto <= k
        invariant
            24 <= m <= 120,
            depths.len() == lines.len(),
            ls == crate::lines::line_views(lines@),
            ds == depths@,
            n == lines.len(),
            k == long_count(ls, ds) / 2,
            k < count_lines(ls, ds, LineTest::UpTo(120), n as int),
            below == count_lines(ls, ds, LineTest::Below(m as int), n as int),
            upto == count_lines(ls, ds, LineTest::UpTo(m as int), n as int),
            below <= k,
        decreases 120 - m,
    {
        if m == 120 {
            assert(false);
        }
        proof {
            lemma_count_lines_mono(ls, ds, LineTest::UpTo(m as int), LineTest::Below(m + 1), n as int);
            lemma_count_lines_mono(ls, ds, LineTest::Below(m + 1), LineTest::UpTo(m as int), n as int);
        }
        m += 1;
        below = upto;
        upto = count_long_lengths(lines, depths, m, false);
    }
    proof {
        assert(is_median_length(ls, ds, m as int));
        let c = choose|x: int| 24 <= x <= 120 && is_median_length(ls, ds, x);
        lemma_median_unique(ls, ds, c, m as int);
    }
    let mut regular: usize = 0;
    let mut j: usize = 0;
    while j < n
        invariant
            j <= n,
            n == lines.len(),
            depths.len() == n,
            ls == crate::lines::line_views(lines@),
            ds == depths@,
            24 <= m <= 120,
            regular == count_lines(ls, ds, LineTest::Regular(m as int), j as int),
        decreases n - j,
    {
        proof {
            lemma_count_lines_bound(ls, ds, LineTest::Regular(m as int), j as int);
        }
        assert(ls[j as int] == lines@[j as int]@);
        let len = lines[j].text.len() as u128;
        let mm = m as u128;
        if depths[j].is_none() && len >= 8 && len * 100 >= mm * 65 && len * 100 <= mm * 140 {
            regular += 1;
        }
        j += 1;
    }
    if (regular as u128) * 100 < (long as u128) * 65 {
        return None;
    }
    if joined >= 8 && (joined_soft as u128) * 100 >= (joined as u128) * 35 {
        Some(m)
    } else {
        None
    }
}

/// Tests on the lines of a run of consecutive body lines.
pub enum RunTest {
    /// Does not end a sentence.
    Soft,
    /// First letter upper-case.
    Upper,
    /// First letter lower-case.
    Lower,
    /// At most 85% of the given wrap width.
    Shorter(int),
}

/// Whether line `l` passes run test `t`.
pub open spec fn run_test(l: crate::lines::LineView, t: RunTest) -> bool {
    match t {
        RunTest::Soft => !sentence_ending_spec(l.text),
        RunTest::Upper => starts_upper_spec(l.text),
        RunTest::Lower => starts_lower_spec(l.text),
        RunTest::Shorter(w) => l.text.len() * 100 <= w * 85,
    }
}

/// Number of lines in `ls[lo..hi]` that pass run test `t`.
pub open spec fn run_count(ls: Seq<crate::lines::LineView>, t: RunTest, lo: int, hi: int) -> nat
    decreases hi - lo,
{
    if hi <= lo {
        0
    } else {
        run_count(ls, t, lo, hi - 1) + if run_test(ls[hi - 1], t) { 1nat } else { 0nat }
    }
}

pub proof fn lemma_run_count_bound(ls: Seq<crate::lines::LineView>, t: RunTest, lo: int, hi: int)
    requires
        lo <= hi,
    ensures
        run_count(ls, t, lo, hi) <= hi - lo,
    decreases hi - lo,
{
    if hi > lo {
        lemma_run_count_bound(ls, t, lo, hi - 1);
    }
}

/// End of the run of body lines that continues at `e`: the first line from
/// `e` on that is a heading or follows a blank line (or the end).
pub open spec fn run_end(ls: Seq<crate::lines::LineView>, ds: Seq<Option<u8>>, e: int) -> int
    decreases ls.len() - e,
{
    if e >= ls.len() || e < 0 {
        ls.len() as int
    } else if ds[e] is Some || ls[e].paragraph_break_before {
        e
    } else {
        run_end(ls, ds, e + 1)
    }
}

pub proof fn lemma_run_end_bounds(ls: Seq<crate::lines::LineView>, ds: Seq<Option<u8>>, e: int)
    requires
        0 <= e,
    ensures
        e <= run_end(ls, ds, e) || e > ls.len(),
        run_end(ls, ds, e) <= ls.len(),
    decreases ls.len() - e,
{
    if e < ls.len() && !(ds[e] is Some || ls[e].paragraph_break_before) {
        lemma_run_end_bounds(ls, ds, e + 1);
    }
}

/// A run of three or more lines that reads like verse: mostly not ending
/// sentences, and mostly capitalised, all lower-case, or mostly short.
pub open spec fn verse_like(ls: Seq<crate::lines::LineView>, lo: int, hi: int, w: int) -> bool {
    let n = hi - lo;
    n >= 3 && run_count(ls, RunTest::Soft, lo, hi) * 100 >= n * 75 && (
    run_count(ls, RunTest::Upper, lo, hi) * 100 >= n * 75 || run_count(ls, RunTest::Lower, lo, hi) == n
        || run_count(ls, RunTest::Shorter(w), lo, hi) * 100 >= n * 75)
}

/// Which lines from `start` on keep their line breaks: the lines of each
/// verse-like run of body lines.
pub open spec fn breaks_from(ls: Seq<crate::lines::LineView>, ds: Seq<Option<u8>>, w: int, start: int) -> Seq<bool>
    decreases ls.len() - start,
{
    if start >= ls.len() || start < 0 {
        Seq::empty()
    } else if ds[start] is Some {
        seq![false] + breaks_from(ls, ds, w, start + 1)
    } else {
        let end = run_end(ls, ds, start + 1);
        proof {
            lemma_run_end_bounds(ls, ds, start + 1);
        }
        let v = verse_like(ls, start, end, w);
        Seq::new((end - start) as nat, |_i: int| v) + breaks_from(ls, ds, w, end)
    }
}

/// Marks the lines whose breaks are intentional (verse and similar) in a
/// hard-wrapped text of wrap width `wrap_width`.
#[verifier::spinoff_prover]
#[verifier::rlimit(40)]
pub fn intentional_line_breaks(lines: &[TextLine], depths: &[Option<u8>], wrap_width: usize) -> (r: Vec<bool>)
    requires
        depths.len() == lines.len(),
    ensures
        r@ == breaks_from(crate::lines::line_views(lines@), depths@, wrap_width as int, 0),
{
    let ghost ls = crate::lines::line_views(lines@);
    let ghost ds = depths@;
    let ghost w = wrap_width as int;
    let n = lines.len();
    let mut protected: Vec<bool> = Vec::new();
    let mut start: usize = 0;
    assert(protected@ + breaks_from(ls, ds, w, 0) =~= breaks_from(ls, ds, w, 0));
    while start < n
        invariant
            start <= n,
            n == lines.len(),
            depths.len() == n,
            ls == crate::lines::line_views(lines@),
            ds == depths@,
            w == wrap_width as int,
            protected@ + breaks_from(ls, ds, w, start as int) == breaks_from(ls, ds, w, 0),
        decreases n - start,
    {
        let ghost before = protected@;
        if depths[start].is_some() {
            protected.push(false);
            assert(protected@ + breaks_from(ls, ds, w, start + 1) =~= before + breaks_from(ls, ds, w, start as int));
            start += 1;
        } else {
            let mut end = start + 1;
            while end < n && depths[end].is_none() && !lines[end].paragraph_break_before
                invariant
                    start < end <= n,
                    n == lines.len(),
                    depths.len() == n,
                    ls == crate::lines::line_views(lines@),
                    ds == depths@,
                    run_end(ls, ds, start + 1) == run_end(ls, ds, end as int),
                decreases n - end,
            {
                assert(ls[end as int] == lines@[end as int]@);
                end += 1;
            }
            proof {
                if end < n {
                    assert(ls[end as int] == lines@[end as int]@);
                }
            }
            let mut soft: usize = 0;
            let mut upper: usize = 0;
            let mut lower: usize = 0;
            let mut shorter: usize = 0;
            let mut k = start;
            while k < end
                invariant
                    start <= k <= end <= n,
                    n == lines.len(),
                    ls == crate::lines::line_views(lines@),
                    w == wrap_width as int,
                    soft == run_count(ls, RunTest::Soft, start as int, k as int),
                    upper == run_count(ls, RunTest::Upper, start as int, k as int),
                    lower == run_count(ls, RunTest::Lower, start as int, k as int),
                    shorter == run_count(ls, RunTest::Shorter(w), start as int, k as int),
                decreases end - k,
            {
                proof {
                    lemma_run_count_bound(ls, RunTest::Soft, start as int, k as int);
                    lemma_run_count_bound(ls, RunTest::Upper, start as int, k as int);
                    lemma_run_count_bound(ls, RunTest::Lower, start as int, k as int);
                    lemma_run_count_bound(ls, RunTest::Shorter(w), start as int, k as int);
                }
                assert(ls[k as int] == lines@[k as int]@);
                let text = &lines[k].text;
                if !has_sentence_ending(text) {
                    soft += 1;
                }
                if starts_with_uppercase_letter(text) {
                    upper += 1;
                }
                if starts_with_lowercase_letter(text) {
                    lower += 1;
                }
                if (text.len() as u128) * 100 <= (wrap_width as u128) * 85 {
                    shorter += 1;
                }
                k += 1;
            }
            let len = (end - start) as u128;
            let verse = end - start >= 3 && (soft as u128) * 100 >= len * 75
                && ((upper as u128) * 100 >= len * 75 || lower == end - start || (shorter as u128) * 100 >= len * 75);
            let mut q = start;
            while q < end
                invariant
                    start <= q <= end,
                    protected@.len() == before.len() + (q - start),
                    protected@.subrange(0, before.len() as int) == before,
                    forall|x: int| before.len() <= x < protected@.len() ==> protected@[x] == verse,
                decreases end - q,
            {
                protected.push(verse);
                q += 1;
            }
            proof {
                let block = Seq::new((end - start) as nat, |_i: int| verse);
                assert(protected@ =~= before + block);
                assert(breaks_from(ls, ds, w, start as int) == block + breaks_from(ls, ds, w, end as int));
            }
            start = end;
        }
    }
    assert(breaks_from(ls, ds, w, start as int) =~= Seq::<bool>::empty());
    assert(protected@ =~= protected@ + Seq::<bool>::empty());
    protected
}

/// Kind of a block of the reading document.
#[derive(Debug, Clone, Copy, PartialEq, Eq, Structural)]
pub enum TextBookBlockKind {
    Heading,
    Paragraph,
}

/// A piece of a block's rendered text and where it came from in the source
/// (UTF-16 offsets).
#[derive(Debug, Clone, Copy, PartialEq, Eq, Structural)]
pub struct TextBookSourceSpan {
    pub rendered_start: u64,
    pub source_start: u64,
    pub length: u64,
}

/// A heading or paragraph of the reading document.
#[derive(Debug)]
pub struct TextBookBlock {
    pub kind: TextBookBlockKind,
    pub text: String,
    pub source_start: u64,
    pub source_end: u64,
    pub source_spans: Vec<TextBookSourceSpan>,
    pub depth: Option<u8>,
    /// True for reading-unit headings (volume, book, part, chapter), whatever
    /// their depth in the table of contents.
    pub starts_page: bool,
}

/// Spec form of a block.
pub struct BlockView {
    pub kind: TextBookBlockKind,
    pub text: Seq<char>,
    pub source_start: int,
    pub source_end: int,
    pub spans: Seq<TextBookSourceSpan>,
    pub depth: Option<u8>,
    pub starts_page: bool,
}

impl View for TextBookBlock {
    type V = BlockView;

    open spec fn view(&self) -> BlockView {
        BlockView {
            kind: self.kind,
            text: self.text@,
            source_start: self.source_start as int,
            source_end: self.source_end as int,
            spans: self.source_spans@,
            depth: self.depth,
            starts_page: self.starts_page,
        }
    }
}

/// A chunk of consecutive blocks, loaded by the reader as one unit.
#[derive(Debug)]
pub struct TextBookChunk {
    pub blocks: Vec<TextBookBlock>,
}

/// An entry of the table of contents.
#[derive(Debug)]
pub struct TextBookTocEntry {
    pub title: String,
    pub depth: u8,
    pub source_offset: u64,
}

/// Spec form of a table-of-contents entry.
pub struct TocView {
    pub title: Seq<char>,
    pub depth: u8,
    pub source_offset: int,
}

impl View for TextBookTocEntry {
    type V = TocView;

    open spec fn view(&self) -> TocView {
        TocView { title: self.title@, depth: self.depth, source_offset: self.source_offset as int }
    }
}

/// The block made of one line.
pub open spec fn block_of_line(l: crate::lines::LineView, kind: TextBookBlockKind, depth: Option<u8>, starts_page: bool) -> BlockView {
    BlockView {
        kind,
        text: l.text,
        source_start: l.source_start,
        source_end: l.source_end,
        spans: seq![TextBookSourceSpan {
            rendered_start: 0,
            source_start: l.source_start as u64,
            length: crate::text::utf16_len_spec(l.text) as u64,
        }],
        depth,
        starts_page,
    }
}

/// Makes the block of one line.
pub fn block_from_line(line: &TextLine, kind: TextBookBlockKind, depth: Option<u8>, starts_page: bool) -> (b: TextBookBlock)
    requires
        crate::text::utf16_len_spec(line.text@) <= u64::MAX,
    ensures
        b@ == block_of_line(line@, kind, depth, starts_page),
{
    let mut spans: Vec<TextBookSourceSpan> = Vec::new();
    spans.push(TextBookSourceSpan {
        rendered_start: 0,
        source_start: line.source_start,
        length: crate::text::utf16_len_of(&line.text),
    });
    let b = TextBookBlock {
        kind,
        text: crate::text::string_from_chars(&line.text),
        source_start: line.source_start,
        source_end: line.source_end,
        source_spans: spans,
        depth,
        starts_page,
    };
    assert(b@.spans =~= block_of_line(line@, kind, depth, starts_page).spans);
    b
}

/// CJK ideographs, kana and hangul, which join without spaces.
pub open spec fn is_cjk(c: char) -> bool {
    ('\u{3040}' <= c && c <= '\u{30ff}') || ('\u{3400}' <= c && c <= '\u{4dbf}')
        || ('\u{4e00}' <= c && c <= '\u{9fff}') || ('\u{ac00}' <= c && c <= '\u{d7af}')
}

/// CJK punctuation after which a CJK character joins without a space.
pub open spec fn is_cjk_punctuation(c: char) -> bool {
    "，。！？；：、）》」』】…"@.contains(c)
}

/// Hyphens after which a wrapped word joins without a space.
pub open spec fn is_join_hyphen(c: char) -> bool {
    c == '-' || c == '\u{2010}' || c == '\u{2011}'
}

/// Whether reflowing `next` onto a block ending in `prev` inserts a space.
pub open spec fn reflow_inserts_space(prev: Seq<char>, next: Seq<char>) -> bool {
    let hyphen = prev.len() > 0 && is_join_hyphen(prev.last());
    let cjk_join = prev.len() > 0 && next.len() > 0 && is_cjk(next[0])
        && (is_cjk(prev.last()) || is_cjk_punctuation(prev.last()));
    !hyphen && !cjk_join
}

/// Block `b` with line `l` reflowed onto it: joined with a space (mapped to
/// the line break it replaces) unless after a hyphen or between CJK text.
pub open spec fn reflowed(b: BlockView, l: crate::lines::LineView) -> BlockView {
    let at = crate::text::utf16_len_spec(b.text) as int;
    let space = reflow_inserts_space(b.text, l.text);
    let separator = match l.separator_before {
        Some(x) => x,
        None => b.source_end,
    };
    BlockView {
        text: b.text + (if space { seq![' '] } else { Seq::empty() }) + l.text,
        spans: b.spans + (if space {
            seq![TextBookSourceSpan { rendered_start: at as u64, source_start: separator as u64, length: 1 }]
        } else {
            Seq::empty()
        }) + seq![TextBookSourceSpan {
            rendered_start: (at + if space { 1int } else { 0int }) as u64,
            source_start: l.source_start as u64,
            length: crate::text::utf16_len_spec(l.text) as u64,
        }],
        source_end: l.source_end,
        ..b
    }
}

/// Whether `c` is CJK punctuation.
fn cjk_punctuation(c: char) -> (r: bool)
    ensures
        r == is_cjk_punctuation(c),
{
    has_char(&chars_of("，。！？；：、）》」』】…"), c)
}

/// Reflows `line` onto the paragraph `block`.
pub fn append_reflowed_line(block: &mut TextBookBlock, line: &TextLine)
    requires
        crate::text::utf16_len_spec(old(block).text@) < u64::MAX,
        crate::text::utf16_len_spec(line.text@) <= u64::MAX,
    ensures
        final(block)@ == reflowed(old(block)@, line@),
{
    let current = chars_of(block.text.as_str());
    let at = crate::text::utf16_len_of(&current);
    let space = {
        let hyphen = current.len() > 0 && (current[current.len() - 1] == '-' || current[current.len() - 1] == '\u{2010}'
            || current[current.len() - 1] == '\u{2011}');
        let cjk_join = if current.len() > 0 && line.text.len() > 0 {
            let left = current[current.len() - 1];
            let right = line.text[0];
            let right_cjk = ('\u{3040}' <= right && right <= '\u{30ff}') || ('\u{3400}' <= right && right <= '\u{4dbf}')
                || ('\u{4e00}' <= right && right <= '\u{9fff}') || ('\u{ac00}' <= right && right <= '\u{d7af}');
            let left_cjk = ('\u{3040}' <= left && left <= '\u{30ff}') || ('\u{3400}' <= left && left <= '\u{4dbf}')
                || ('\u{4e00}' <= left && left <= '\u{9fff}') || ('\u{ac00}' <= left && left <= '\u{d7af}');
            right_cjk && (left_cjk || cjk_punctuation(left))
        } else {
            false
        };
        !hyphen && !cjk_join
    };
    let ghost old_spans = block.source_spans@;
    if space {
        crate::text::push_char(&mut block.text, ' ');
        let separator = match line.separator_before {
            Some(x) => x,
            None => block.source_end,
        };
        block.source_spans.push(TextBookSourceSpan { rendered_start: at, source_start: separator, length: 1 });
    }
    let length = crate::text::utf16_len_of(&line.text);
    block.source_spans.push(TextBookSourceSpan {
        rendered_start: if space { at + 1 } else { at },
        source_start: line.source_start,
        length,
    });
    let text = crate::text::string_from_chars(&line.text);
    crate::text::push_str(&mut block.text, text.as_str());
    block.source_end = line.source_end;
    proof {
        let target = reflowed(old(block)@, line@);
        assert(block.text@ =~= target.text);
        assert(block.source_spans@ =~= target.spans);
    }
}

/// Spec form of a chunk.
pub open spec fn chunk_view(c: TextBookChunk) -> Seq<BlockView> {
    c.blocks@.map_values(|b: TextBookBlock| b@)
}

/// Blocks grouped into chunks of about `TXT_CHAPTER_TARGET_CHARS` bytes,
/// given the chunks already closed and the open one with its size.
pub open spec fn chunks_from(blocks: Seq<BlockView>, chunks: Seq<Seq<BlockView>>, current: Seq<BlockView>, size: int) -> Seq<Seq<BlockView>>
    decreases blocks.len(),
{
    if blocks.len() == 0 {
        if current.len() > 0 {
            chunks.push(current)
        } else {
            chunks
        }
    } else {
        let b = blocks[0];
        let cur = current.push(b);
        let n = size + utf8_len(b.text);
        if n >= TXT_CHAPTER_TARGET_CHARS {
            chunks_from(blocks.drop_first(), chunks.push(cur), Seq::empty(), 0)
        } else {
            chunks_from(blocks.drop_first(), chunks, cur, n)
        }
    }
}

/// Blocks grouped into chunks: a chunk closes once it holds at least
/// `TXT_CHAPTER_TARGET_CHARS` bytes of text.
pub open spec fn chunks_spec(blocks: Seq<BlockView>) -> Seq<Seq<BlockView>> {
    chunks_from(blocks, Seq::empty(), Seq::empty(), 0)
}

/// The empty placeholder block: a paragraph with no text, no source range
/// or spans, no depth, not starting a page.
pub open spec fn empty_block_view() -> BlockView {
    BlockView {
        kind: TextBookBlockKind::Paragraph,
        text: Seq::empty(),
        source_start: 0,
        source_end: 0,
        spans: Seq::empty(),
        depth: None,
        starts_page: false,
    }
}

/// An empty placeholder block.
fn empty_block() -> (b: TextBookBlock)
    ensures
        b@ == empty_block_view(),
{
    TextBookBlock {
        kind: TextBookBlockKind::Paragraph,
        text: String::new(),
        source_start: 0,
        source_end: 0,
        source_spans: Vec::new(),
        depth: None,
        starts_page: false,
    }
}

/// Views of a sequence of blocks.
pub open spec fn block_views(b: Seq<TextBookBlock>) -> Seq<BlockView> {
    b.map_values(|x: TextBookBlock| x@)
}

/// Views of a sequence of chunks.
pub open spec fn chunk_views(c: Seq<TextBookChunk>) -> Seq<Seq<BlockView>> {
    c.map_values(|x: TextBookChunk| chunk_view(x))
}

/// Groups blocks into chunks.
pub fn chunk_text_blocks(blocks: Vec<TextBookBlock>) -> (r: Vec<TextBookChunk>)
    ensures
        chunk_views(r@) == chunks_spec(block_views(blocks@)),
{
    let ghost all = block_views(blocks@);
    let mut blocks = blocks;
    let mut chunks: Vec<TextBookChunk> = Vec::new();
    let mut current: Vec<TextBookBlock> = Vec::new();
    let mut size: usize = 0;
    let mut i: usize = 0;
    assert(all.skip(0) =~= all);
    assert(chunk_views(chunks@) =~= Seq::<Seq<BlockView>>::empty());
    assert(block_views(current@) =~= Seq::<BlockView>::empty());
    while i < blocks.len()
        invariant
            i <= blocks@.len(),
            all.len() == blocks@.len(),
            forall|k: int| i <= k < blocks@.len() ==> (#[trigger] blocks@[k])@ == all[k],
            size < TXT_CHAPTER_TARGET_CHARS,
            chunks_from(all.skip(i as int), chunk_views(chunks@), block_views(current@), size as int) == chunks_spec(all),
        decreases blocks@.len() - i,
    {
        let ghost rest = all.skip(i as int);
        let ghost cv = block_views(current@);
        let ghost chv = chunk_views(chunks@);
        assert(rest[0] == all[i as int]);
        assert(rest.drop_first() =~= all.skip(i + 1));
        let mut block = empty_block();
        std::mem::swap(&mut block, &mut blocks[i]);
        assert(block@ == all[i as int]);
        let limit = TXT_CHAPTER_TARGET_CHARS - 1 - size;
        let fits = utf8_len_upto(&chars_of(block.text.as_str()), limit);
        current.push(block);
        assert(block_views(current@) =~= cv.push(all[i as int]));
        match fits {
            Some(n) => {
                size = size + n;
            },
            None => {
                let ghost cur = block_views(current@);
                let mut taken: Vec<TextBookBlock> = Vec::new();
                std::mem::swap(&mut taken, &mut current);
                chunks.push(TextBookChunk { blocks: taken });
                assert(chunk_views(chunks@) =~= chv.push(cur));
                assert(block_views(current@) =~= Seq::<BlockView>::empty());
                size = 0;
            },
        }
        i += 1;
    }
    let ghost chv = chunk_views(chunks@);
    let ghost cv = block_views(current@);
    if current.len() > 0 {
        chunks.push(TextBookChunk { blocks: current });
        assert(chunk_views(chunks@) =~= chv.push(cv));
    }
    chunks
}

/// An open heading while the text is scanned: its rank and the identity
/// (upper-cased, separators trimmed) used to recognise a repeated heading.
#[derive(Debug)]
pub struct HeadingContext {
    pub rank: HeadingRank,
    pub identity: Vec<char>,
}

/// Spec form of an open heading.
pub struct ContextView {
    pub rank: HeadingRank,
    pub identity: Seq<char>,
}

impl View for HeadingContext {
    type V = ContextView;

    open spec fn view(&self) -> ContextView {
        ContextView { rank: self.rank, identity: self.identity@ }
    }
}

/// Views of a stack of open headings.
pub open spec fn contexts_view(s: Seq<HeadingContext>) -> Seq<ContextView> {
    s.map_values(|c: HeadingContext| c@)
}

/// Open headings nest strictly: each is of a deeper rank than the one below.
pub open spec fn ranks_increasing(s: Seq<ContextView>) -> bool {
    forall|i: int, j: int| 0 <= i < j < s.len() ==> rank_index(#[trigger] s[i].rank) < rank_index(#[trigger] s[j].rank)
}

pub proof fn lemma_rank_depth(s: Seq<ContextView>, i: int)
    requires
        ranks_increasing(s),
        0 <= i < s.len(),
    ensures
        rank_index(s[i].rank) >= i,
    decreases i,
{
    if i > 0 {
        lemma_rank_depth(s, i - 1);
    }
}

/// The stack with every heading deeper than `rank` closed.
pub open spec fn pop_deeper(s: Seq<ContextView>, rank: HeadingRank) -> Seq<ContextView>
    decreases s.len(),
{
    if s.len() > 0 && rank_index(s.last().rank) > rank_index(rank) {
        pop_deeper(s.drop_last(), rank)
    } else {
        s
    }
}

pub proof fn lemma_pop_deeper(s: Seq<ContextView>, rank: HeadingRank)
    requires
        ranks_increasing(s),
    ensures
        ranks_increasing(pop_deeper(s, rank)),
        pop_deeper(s, rank).len() <= s.len(),
        pop_deeper(s, rank) == s.take(pop_deeper(s, rank).len() as int),
        pop_deeper(s, rank).len() > 0 ==> rank_index(pop_deeper(s, rank).last().rank) <= rank_index(rank),
    decreases s.len(),
{
    if s.len() > 0 && rank_index(s.last().rank) > rank_index(rank) {
        lemma_pop_deeper(s.drop_last(), rank);
        let p = pop_deeper(s.drop_last(), rank);
        assert(s.drop_last().take(p.len() as int) =~= s.take(p.len() as int));
    } else {
        assert(s.take(s.len() as int) =~= s);
    }
}

/// Identity of a heading title.
pub open spec fn heading_identity(title: Seq<char>) -> Seq<char> {
    crate::text::ascii_upper_seq(crate::headings::trim_sep(title))
}

/// Entering a heading of `rank` titled `title`: deeper headings close; an
/// open heading of the same rank is kept when it has the same identity
/// (the heading repeats) and replaced otherwise. Gives the new stack, the
/// heading's depth and whether it repeats.
pub open spec fn entered(s: Seq<ContextView>, rank: HeadingRank, title: Seq<char>) -> (Seq<ContextView>, int, bool) {
    let p = pop_deeper(s, rank);
    let id = heading_identity(title);
    if p.len() > 0 && p.last().rank == rank {
        if p.last().identity == id {
            (p, p.len() - 1, true)
        } else {
            let t = p.drop_last().push(ContextView { rank, identity: id });
            (t, t.len() - 1, false)
        }
    } else {
        let t = p.push(ContextView { rank, identity: id });
        (t, t.len() - 1, false)
    }
}

pub proof fn lemma_entered(s: Seq<ContextView>, rank: HeadingRank, title: Seq<char>)
    requires
        ranks_increasing(s),
    ensures
        ranks_increasing(entered(s, rank, title).0),
        0 <= entered(s, rank, title).1 <= 4,
        entered(s, rank, title).1 == entered(s, rank, title).0.len() - 1,
{
    lemma_pop_deeper(s, rank);
    let p = pop_deeper(s, rank);
    let e = entered(s, rank, title);
    let t = e.0;
    if p.len() > 0 && p.last().rank == rank && p.last().identity == heading_identity(title) {
        lemma_rank_depth(p, p.len() - 1);
    } else {
        let base = if p.len() > 0 && p.last().rank == rank { p.drop_last() } else { p };
        assert(ranks_increasing(base));
        assert(base.len() > 0 ==> rank_index(base.last().rank) < rank_index(rank)) by {
            if base.len() > 0 {
                if p.len() > 0 && p.last().rank == rank {
                    assert(base.last() == p[p.len() - 2]);
                }
            }
        }
        assert(t == base.push(ContextView { rank, identity: heading_identity(title) }));
        assert forall|i: int, j: int| 0 <= i < j < t.len() implies rank_index(#[trigger] t[i].rank) < rank_index(#[trigger] t[j].rank) by {
            if j == t.len() - 1 && i < j {
                if i < base.len() - 1 {
                    assert(rank_index(base[i].rank) < rank_index(base.last().rank));
                }
            }
        }
        lemma_rank_depth(t, t.len() - 1);
    }
}

/// Enters a heading into the stack of open headings; gives its depth in the
/// table of contents and whether it repeats the open heading of its rank.
pub fn enter_heading_context(stack: &mut Vec<HeadingContext>, rank: HeadingRank, title: &[char]) -> (r: (u8, bool))
    requires
        ranks_increasing(contexts_view(old(stack)@)),
    ensures
        ({
            let e = entered(contexts_view(old(stack)@), rank, title@);
            &&& contexts_view(final(stack)@) == e.0
            &&& r.0 as int == e.1
            &&& r.1 == e.2
        }),
        ranks_increasing(contexts_view(final(stack)@)),
{
    let ghost s0 = contexts_view(stack@);
    proof {
        lemma_entered(s0, rank, title@);
        lemma_pop_deeper(s0, rank);
    }
    while stack.len() > 0 && rank_order(stack[stack.len() - 1].rank) > rank_order(rank)
        invariant
            pop_deeper(contexts_view(stack@), rank) == pop_deeper(s0, rank),
        decreases stack@.len(),
    {
        let ghost before = contexts_view(stack@);
        stack.pop();
        assert(contexts_view(stack@) =~= before.drop_last());
    }
    let ghost p = contexts_view(stack@);
    assert(p == pop_deeper(s0, rank));
    let trimmed = crate::headings::trim_heading_separator(title);
    let identity = crate::text::upper_chars(&trimmed);
    if stack.len() > 0 && stack[stack.len() - 1].rank == rank {
        if crate::text::chars_eq(&stack[stack.len() - 1].identity, &identity) {
            return (((stack.len() - 1) as u8), true);
        }
        stack.pop();
        assert(contexts_view(stack@) =~= p.drop_last());
    }
    let ghost q = contexts_view(stack@);
    stack.push(HeadingContext { rank, identity });
    assert(contexts_view(stack@) =~= q.push(ContextView { rank, identity: heading_identity(title@) }));
    (((stack.len() - 1) as u8), false)
}

/// State of the heading scan: open headings, table of contents so far,
/// depth of each line scanned (none for body lines) and whether it starts a
/// reading page.
pub struct HeadingPass {
    pub stack: Seq<ContextView>,
    pub toc: Seq<TocView>,
    pub depths: Seq<Option<u8>>,
    pub starts: Seq<bool>,
}

/// Whether a volume, book or division is open.
pub open spec fn has_parent_context(s: Seq<ContextView>) -> bool {
    exists|i: int| 0 <= i < s.len() && rank_index(#[trigger] s[i].rank) < rank_index(HeadingRank::Chapter)
}

/// A table-of-contents entry.
pub open spec fn toc_entry(title: Seq<char>, depth: int, offset: int) -> TocView {
    TocView { title, depth: depth as u8, source_offset: offset }
}

/// The heading scan after one more line.
pub open spec fn heading_step(st: HeadingPass, l: crate::lines::LineView) -> HeadingPass {
    match parse_heading_spec(l.text, has_parent_context(st.stack), l.paragraph_break_before) {
        Some(HeadingSpec::Parent { title, rank, child }) => {
            let e = entered(st.stack, rank, title);
            let toc = if child is None || !e.2 {
                st.toc.push(toc_entry(title, e.1, l.source_start))
            } else {
                st.toc
            };
            match child {
                Some((c, cr)) => {
                    let f = entered(e.0, cr, c);
                    HeadingPass {
                        stack: f.0,
                        toc: toc.push(toc_entry(c, f.1, l.source_start)),
                        depths: st.depths.push(Some(f.1 as u8)),
                        starts: st.starts.push(rank_index(cr) <= rank_index(HeadingRank::Chapter)),
                    }
                },
                None => HeadingPass {
                    stack: e.0,
                    toc,
                    depths: st.depths.push(Some(e.1 as u8)),
                    starts: st.starts.push(rank_index(rank) <= rank_index(HeadingRank::Chapter)),
                },
            }
        },
        Some(HeadingSpec::Child { title, rank }) => {
            let e = entered(st.stack, rank, title);
            HeadingPass {
                stack: e.0,
                toc: st.toc.push(toc_entry(title, e.1, l.source_start)),
                depths: st.depths.push(Some(e.1 as u8)),
                starts: st.starts.push(rank_index(rank) <= rank_index(HeadingRank::Chapter)),
            }
        },
        Some(HeadingSpec::TopLevel(title)) => HeadingPass {
            stack: Seq::empty(),
            toc: st.toc.push(toc_entry(title, 0, l.source_start)),
            depths: st.depths.push(Some(0u8)),
            starts: st.starts.push(true),
        },
        None => HeadingPass {
            stack: st.stack,
            toc: st.toc,
            depths: st.depths.push(None),
            starts: st.starts.push(false),
        },
    }
}

/// The heading scan over the first `n` lines.
pub open spec fn heading_pass(ls: Seq<crate::lines::LineView>, n: int) -> HeadingPass
    decreases n,
{
    if n <= 0 {
        HeadingPass { stack: Seq::empty(), toc: Seq::empty(), depths: Seq::empty(), starts: Seq::empty() }
    } else {
        heading_step(heading_pass(ls, n - 1), ls[n - 1])
    }
}

pub proof fn lemma_heading_pass(ls: Seq<crate::lines::LineView>, n: int)
    requires
        n >= 0,
    ensures
        ranks_increasing(heading_pass(ls, n).stack),
        heading_pass(ls, n).depths.len() == n,
        heading_pass(ls, n).starts.len() == n,
    decreases n,
{
    if n > 0 {
        lemma_heading_pass(ls, n - 1);
        let st = heading_pass(ls, n - 1);
        let l = ls[n - 1];
        match parse_heading_spec(l.text, has_parent_context(st.stack), l.paragraph_break_before) {
            Some(HeadingSpec::Parent { title, rank, child }) => {
                lemma_entered(st.stack, rank, title);
                let e = entered(st.stack, rank, title);
                match child {
                    Some((c, cr)) => {
                        lemma_entered(e.0, cr, c);
                    },
                    None => {},
                }
            },
            Some(HeadingSpec::Child { title, rank }) => {
                lemma_entered(st.stack, rank, title);
            },
            _ => {},
        }
    }
}

/// Views of a table of contents.
pub open spec fn toc_views(t: Seq<TextBookTocEntry>) -> Seq<TocView> {
    t.map_values(|e: TextBookTocEntry| e@)
}

/// Whether a volume, book or division is open.
fn has_parent(stack: &Vec<HeadingContext>) -> (r: bool)
    ensures
        r == has_parent_context(contexts_view(stack@)),
{
    let mut i: usize = 0;
    while i < stack.len()
        invariant
            i <= stack@.len(),
            forall|k: int| 0 <= k < i ==> rank_index(#[trigger] stack@[k].rank) >= rank_index(HeadingRank::Chapter),
        decreases stack@.len() - i,
    {
        if rank_order(stack[i].rank) < 3 {
            assert(contexts_view(stack@)[i as int].rank == stack@[i as int].rank);
            return true;
        }
        i += 1;
    }
    proof {
        assert forall|k: int| 0 <= k < stack@.len() implies rank_index(#[trigger] contexts_view(stack@)[k].rank) >= rank_index(HeadingRank::Chapter) by {
            assert(contexts_view(stack@)[k].rank == stack@[k].rank);
        }
    }
    false
}

/// A copy of a character vector.
fn copy_chars(v: &Vec<char>) -> (r: Vec<char>)
    ensures
        r@ == v@,
{
    crate::text::sub_vec(v, 0, v.len())
}

/// Scans the lines for headings: the table of contents, the depth of each
/// line (none for body lines) and whether it starts a reading page.
pub fn scan_headings(lines: &[TextLine]) -> (r: (Vec<TextBookTocEntry>, Vec<Option<u8>>, Vec<bool>))
    ensures
        ({
            let hp = heading_pass(crate::lines::line_views(lines@), lines@.len() as int);
            &&& toc_views(r.0@) == hp.toc
            &&& r.1@ == hp.depths
            &&& r.2@ == hp.starts
        }),
{
    let ghost ls = crate::lines::line_views(lines@);
    let mut stack: Vec<HeadingContext> = Vec::new();
    let mut toc: Vec<TextBookTocEntry> = Vec::new();
    let mut depths: Vec<Option<u8>> = Vec::new();
    let mut starts: Vec<bool> = Vec::new();
    let mut i: usize = 0;
    assert(contexts_view(stack@) =~= Seq::<ContextView>::empty());
    assert(toc_views(toc@) =~= Seq::<TocView>::empty());
    assert(depths@ =~= Seq::<Option<u8>>::empty());
    assert(starts@ =~= Seq::<bool>::empty());
    while i < lines.len()
        invariant
            i <= lines.len(),
            ls == crate::lines::line_views(lines@),
            ranks_increasing(contexts_view(stack@)),
            contexts_view(stack@) == heading_pass(ls, i as int).stack,
            toc_views(toc@) == heading_pass(ls, i as int).toc,
            depths@ == heading_pass(ls, i as int).depths,
            starts@ == heading_pass(ls, i as int).starts,
        decreases lines.len() - i,
    {
        let line = &lines[i];
        assert(ls[i as int] == line@);
        let ghost st = heading_pass(ls, i as int);
        let ghost tv = toc_views(toc@);
        let parent = has_parent(&stack);
        match crate::headings::parse_heading(&line.text, parent, line.paragraph_break_before) {
            Some(ParsedHeading::Parent { title, rank, child }) => {
                let (parent_depth, repeated) = enter_heading_context(&mut stack, rank, &title);
                if child.is_none() || !repeated {
                    toc.push(TextBookTocEntry {
                        title: crate::text::string_from_chars(&title),
                        depth: parent_depth,
                        source_offset: line.source_start,
                    });
                    assert(toc_views(toc@) =~= tv.push(toc_entry(title@, parent_depth as int, line.source_start as int)));
                } else {
                    assert(toc_views(toc@) =~= tv);
                }
                let ghost tv1 = toc_views(toc@);
                match child {
                    Some((child_title, child_rank)) => {
                        let (child_depth, _) = enter_heading_context(&mut stack, child_rank, &child_title);
                        toc.push(TextBookTocEntry {
                            title: crate::text::string_from_chars(&child_title),
                            depth: child_depth,
                            source_offset: line.source_start,
                        });
                        assert(toc_views(toc@) =~= tv1.push(toc_entry(child_title@, child_depth as int, line.source_start as int)));
                        depths.push(Some(child_depth));
                        starts.push(rank_order(child_rank) <= 3);
                    },
                    None => {
                        depths.push(Some(parent_depth));
                        starts.push(rank_order(rank) <= 3);
                    },
                }
            },
            Some(ParsedHeading::Child { title, rank }) => {
                let (depth, _) = enter_heading_context(&mut stack, rank, &title);
                toc.push(TextBookTocEntry {
                    title: crate::text::string_from_chars(&title),
                    depth,
                    source_offset: line.source_start,
                });
                assert(toc_views(toc@) =~= tv.push(toc_entry(title@, depth as int, line.source_start as int)));
                depths.push(Some(depth));
                starts.push(rank_order(rank) <= 3);
            },
            Some(ParsedHeading::TopLevel(title)) => {
                stack.clear();
                assert(contexts_view(stack@) =~= Seq::<ContextView>::empty());
                toc.push(TextBookTocEntry {
                    title: crate::text::string_from_chars(&title),
                    depth: 0,
                    source_offset: line.source_start,
                });
                assert(toc_views(toc@) =~= tv.push(toc_entry(title@, 0, line.source_start as int)));
                depths.push(Some(0));
                starts.push(true);
            },
            None => {
                depths.push(None);
                starts.push(false);
            },
        }
        i += 1;
    }
    (toc, depths, starts)
}

/// State of the paragraph assembly: blocks closed so far and the paragraph
/// being reflowed.
pub struct ParagraphPass {
    pub blocks: Seq<BlockView>,
    pub paragraph: Option<BlockView>,
}

/// `blocks` with the open paragraph, if any, closed.
pub open spec fn close_paragraph(blocks: Seq<BlockView>, p: Option<BlockView>) -> Seq<BlockView> {
    match p {
        Some(b) => blocks.push(b),
        None => blocks,
    }
}

/// Whether body line `i` starts a new paragraph rather than continuing
/// the open one.
pub open spec fn starts_paragraph(
    ls: Seq<crate::lines::LineView>,
    i: int,
    open: bool,
    wrap: Option<usize>,
    protected: Seq<bool>,
) -> bool {
    let l = ls[i];
    let prev = ls[i - 1];
    let width = match wrap {
        Some(w) => w as int,
        None => 0,
    };
    ||| !open
    ||| wrap is None
    ||| l.paragraph_break_before
    ||| l.leading_whitespace > 0
    ||| (i > 0 && prev.leading_whitespace > 0)
    ||| list_item_spec(l.text)
    ||| (i > 0 && list_item_spec(prev.text))
    ||| protected[i]
    ||| (i > 0 && protected[i - 1])
    ||| (i > 0 && prev.text.len() * 100 < width * 60)
}

/// The paragraph assembly after line `i`.
pub open spec fn paragraph_step(
    st: ParagraphPass,
    ls: Seq<crate::lines::LineView>,
    ds: Seq<Option<u8>>,
    starts: Seq<bool>,
    wrap: Option<usize>,
    protected: Seq<bool>,
    i: int,
) -> ParagraphPass {
    let l = ls[i];
    match ds[i] {
        Some(d) => ParagraphPass {
            blocks: close_paragraph(st.blocks, st.paragraph).push(block_of_line(l, TextBookBlockKind::Heading, Some(d), starts[i])),
            paragraph: None,
        },
        None => if starts_paragraph(ls, i, st.paragraph is Some, wrap, protected) {
            ParagraphPass {
                blocks: close_paragraph(st.blocks, st.paragraph),
                paragraph: Some(block_of_line(l, TextBookBlockKind::Paragraph, None, false)),
            }
        } else {
            ParagraphPass { blocks: st.blocks, paragraph: Some(reflowed(st.paragraph->0, l)) }
        },
    }
}

/// The paragraph assembly over the first `n` lines.
pub open spec fn paragraph_pass(
    ls: Seq<crate::lines::LineView>,
    ds: Seq<Option<u8>>,
    starts: Seq<bool>,
    wrap: Option<usize>,
    protected: Seq<bool>,
    n: int,
) -> ParagraphPass
    decreases n,
{
    if n <= 0 {
        ParagraphPass { blocks: Seq::empty(), paragraph: None }
    } else {
        paragraph_step(paragraph_pass(ls, ds, starts, wrap, protected, n - 1), ls, ds, starts, wrap, protected, n - 1)
    }
}

/// The reading document's parts for `text`: chunks of blocks, the table of
/// contents (led by a `Reading` entry when text precedes the first heading)
/// and the offset table of the earlier location format. Hard-wrapped lines
/// are reflowed into paragraphs only when `reflow_hard_wraps` is set.
pub open spec fn document_parts_spec(text: Seq<char>, reflow_hard_wraps: bool) -> (Seq<Seq<BlockView>>, Seq<TocView>, Seq<Seq<int>>) {
    let ls = crate::lines::normalized_text_lines_spec(text);
    let hp = heading_pass(ls, ls.len() as int);
    let wrap = if reflow_hard_wraps { hard_wrap_spec(ls, hp.depths) } else { None };
    let protected = match wrap {
        Some(w) => breaks_from(ls, hp.depths, w as int, 0),
        None => Seq::new(ls.len(), |_i: int| false),
    };
    let pp = paragraph_pass(ls, hp.depths, hp.starts, wrap, protected, ls.len() as int);
    let blocks = close_paragraph(pp.blocks, pp.paragraph);
    let toc = if blocks.len() > 0 && (hp.toc.len() == 0 || hp.toc[0].source_offset > blocks[0].source_start) {
        seq![toc_entry("Reading"@, 0, blocks[0].source_start)] + hp.toc
    } else {
        hp.toc
    };
    (chunks_spec(blocks), toc, legacy_locations_spec(ls))
}

/// Parses a plain-text book into the chunks, table of contents and offset
/// table of its reading document.
#[verifier::spinoff_prover]
#[verifier::rlimit(40)]
pub fn text_document_parts(text: &str, reflow_hard_wraps: bool) -> (r: (Vec<TextBookChunk>, Vec<TextBookTocEntry>, Vec<Vec<u64>>))
    requires
        crate::text::utf16_len_spec(text@) < u64::MAX,
    ensures
        ({
            let spec = document_parts_spec(text@, reflow_hard_wraps);
            &&& chunk_views(r.0@) == spec.0
            &&& toc_views(r.1@) == spec.1
            &&& offsets_view(r.2@) == spec.2
        }),
{
    let lines = crate::lines::normalized_text_lines(text);
    let ghost ls = crate::lines::line_views(lines@);
    let ghost total = crate::text::utf16_len_spec(text@) as int;
    let legacy_locations = legacy_text_locations(&lines);
    let (mut toc, depths, page_starts) = scan_headings(&lines);
    proof {
        lemma_heading_pass(ls, ls.len() as int);
    }
    let ghost hp = heading_pass(ls, ls.len() as int);
    let wrap_width = if reflow_hard_wraps { hard_wrap_width(&lines, &depths) } else { None };
    let protected: Vec<bool> = match wrap_width {
        Some(width) => intentional_line_breaks(&lines, &depths, width),
        None => {
            let mut v: Vec<bool> = Vec::new();
            let mut k: usize = 0;
            while k < lines.len()
                invariant
                    k <= lines.len(),
                    v@ =~= Seq::new(k as nat, |_i: int| false),
                decreases lines.len() - k,
            {
                v.push(false);
                k += 1;
            }
            v
        },
    };
    proof {
        if wrap_width is Some {
            let w = wrap_width->0 as int;
            lemma_breaks_len(ls, hp.depths, w, 0);
        }
    }
    let ghost prot = protected@;
    let mut blocks: Vec<TextBookBlock> = Vec::new();
    let mut paragraph: Option<TextBookBlock> = None;
    let mut i: usize = 0;
    assert(block_views(blocks@) =~= Seq::<BlockView>::empty());
    while i < lines.len()
        invariant
            i <= lines.len(),
            ls == crate::lines::line_views(lines@),
            crate::lines::lines_ordered(ls, 0, total),
            total < u64::MAX,
            depths@ == hp.depths,
            page_starts@ == hp.starts,
            depths@.len() == lines.len(),
            page_starts@.len() == lines.len(),
            protected@ == prot,
            prot.len() == lines.len(),
            ({
                let pp = paragraph_pass(ls, hp.depths, hp.starts, wrap_width, prot, i as int);
                &&& block_views(blocks@) == pp.blocks
                &&& match paragraph {
                    Some(b) => pp.paragraph == Some(b@),
                    None => pp.paragraph is None,
                }
            }),
            paragraph matches Some(b) ==> i > 0 && b@.source_end == ls[i - 1].source_end
                && 0 <= b@.source_start <= b@.source_end
                && crate::text::utf16_len_spec(b@.text) <= b@.source_end - b@.source_start,
        decreases lines.len() - i,
    {
        let line = &lines[i];
        assert(ls[i as int] == line@);
        let ghost pp = paragraph_pass(ls, hp.depths, hp.starts, wrap_width, prot, i as int);
        let ghost bv = block_views(blocks@);
        proof {
            assert(0 <= ls[i as int].source_start);
            if i > 0 {
                assert(ls[i - 1].source_end < ls[i as int].source_start);
            }
        }
        match depths[i] {
            Some(depth) => {
                match paragraph {
                    Some(p) => {
                        blocks.push(p);
                    },
                    None => {},
                }
                paragraph = None;
                blocks.push(block_from_line(line, TextBookBlockKind::Heading, Some(depth), page_starts[i]));
                assert(block_views(blocks@) =~= close_paragraph(bv, pp.paragraph).push(
                    block_of_line(ls[i as int], TextBookBlockKind::Heading, Some(depth), hp.starts[i as int])));
            },
            None => {
                let open = paragraph.is_some();
                let mut starts = !open || wrap_width.is_none() || line.paragraph_break_before || line.leading_whitespace > 0
                    || is_list_item_line(&line.text) || protected[i];
                if !starts && i > 0 {
                    let previous = &lines[i - 1];
                    assert(ls[i - 1] == previous@);
                    let width: usize = match wrap_width {
                        Some(w) => w,
                        None => 0,
                    };
                    starts = previous.leading_whitespace > 0 || is_list_item_line(&previous.text) || protected[i - 1]
                        || (previous.text.len() as u128) * 100 < (width as u128) * 60;
                }
                if starts {
                    let fresh = block_from_line(line, TextBookBlockKind::Paragraph, None, false);
                    match paragraph {
                        Some(p) => {
                            blocks.push(p);
                        },
                        None => {},
                    }
                    assert(block_views(blocks@) =~= close_paragraph(bv, pp.paragraph));
                    paragraph = Some(fresh);
                } else {
                    match &mut paragraph {
                        Some(p) => {
                            proof {
                                let l = ls[i as int];
                                let sp = if reflow_inserts_space(p@.text, l.text) { seq![' '] } else { Seq::empty() };
                                let w = crate::text::utf16_weight();
                                crate::text::lemma_weighted_len_add(p@.text + sp, l.text, w);
                                crate::text::lemma_weighted_len_add(p@.text, sp, w);
                                assert(crate::text::utf16_len_spec(sp) <= 1) by {
                                    if sp.len() > 0 {
                                        assert(sp.drop_first().len() == 0);
                                        assert(crate::text::weighted_len(sp.drop_first(), w) == 0);
                                    }
                                }
                            }
                            append_reflowed_line(p, line);
                        },
                        None => {},
                    }
                }
            },
        }
        i += 1;
    }
    let ghost pp = paragraph_pass(ls, hp.depths, hp.starts, wrap_width, prot, lines.len() as int);
    let ghost bv = block_views(blocks@);
    match paragraph {
        Some(p) => {
            blocks.push(p);
        },
        None => {},
    }
    assert(block_views(blocks@) =~= close_paragraph(pp.blocks, pp.paragraph));
    let first_start: Option<u64> = if blocks.len() > 0 { Some(blocks[0].source_start) } else { None };
    assert(first_start matches Some(x) ==> x as int == block_views(blocks@)[0].source_start);
    let chunks = chunk_text_blocks(blocks);
    match first_start {
        Some(start) => {
            if toc.len() == 0 || toc[0].source_offset > start {
                let ghost tv = toc_views(toc@);
                toc.insert(0, TextBookTocEntry { title: "Reading".to_string(), depth: 0, source_offset: start });
                assert(toc_views(toc@) =~= seq![toc_entry("Reading"@, 0, start as int)] + tv);
            }
        },
        None => {},
    }
    (chunks, toc, legacy_locations)
}

pub proof fn lemma_breaks_len(ls: Seq<crate::lines::LineView>, ds: Seq<Option<u8>>, w: int, start: int)
    requires
        0 <= start <= ls.len(),
    ensures
        breaks_from(ls, ds, w, start).len() == ls.len() - start,
    decreases ls.len() - start,
{
    if start < ls.len() {
        if ds[start] is Some {
            lemma_breaks_len(ls, ds, w, start + 1);
        } else {
            lemma_run_end_bounds(ls, ds, start + 1);
            lemma_breaks_len(ls, ds, w, run_end(ls, ds, start + 1));
        }
    }
}

/// Whether entry `i` of the table of contents is a leaf: the last entry, or
/// followed by an entry that is not deeper.
pub open spec fn is_toc_leaf(toc: Seq<TocView>, i: int) -> bool {
    i + 1 >= toc.len() || toc[i + 1].depth <= toc[i].depth
}

/// Number of leaves among the first `n` entries.
pub open spec fn toc_leaves(toc: Seq<TocView>, n: int) -> nat
    decreases n,
{
    if n <= 0 {
        0
    } else {
        toc_leaves(toc, n - 1) + if is_toc_leaf(toc, n - 1) { 1nat } else { 0nat }
    }
}

/// Number of leaf entries of a table of contents (the page count of a text
/// book).
pub fn text_toc_leaf_count(toc: &[TextBookTocEntry]) -> (r: usize)
    ensures
        r == toc_leaves(toc_views(toc@), toc@.len() as int),
{
    let ghost tv = toc_views(toc@);
    let mut count: usize = 0;
    let mut i: usize = 0;
    while i < toc.len()
        invariant
            i <= toc.len(),
            tv == toc_views(toc@),
            count == toc_leaves(tv, i as int),
            count <= i,
        decreases toc.len() - i,
    {
        assert(tv[i as int] == toc@[i as int]@);
        if i + 1 < toc.len() {
            assert(tv[i + 1] == toc@[i + 1]@);
        }
        if i + 1 >= toc.len() || toc[i + 1].depth <= toc[i].depth {
            count += 1;
        }
        i += 1;
    }
    count
}

/// Version of the prepared text document format.
pub const TEXT_DOCUMENT_VERSION: i32 = 3;

/// A prepared text book: its reading document and where it came from.
#[derive(Debug)]
pub struct TextBookDocument {
    pub version: i32,
    pub source_sha256: Option<String>,
    pub coordinate_space: String,
    pub chunks: Vec<TextBookChunk>,
    pub toc: Vec<TextBookTocEntry>,
    pub legacy_locations: Vec<Vec<u64>>,
}

} // verus!
