//! Splitting plain text into trimmed lines with UTF-16 source offsets.

use vstd::prelude::*;

use crate::text::{
    chars_of, char_utf16_width, lemma_prefix_len, lemma_suffix_len, lemma_weighted_len_add,
    lemma_weighted_len_take_next, prefix_len, sub_vec, suffix_len, trim_start_ws, trim_ws,
    unicode_white_space, utf16_len_spec, utf16_weight, utf16_width, weighted_len, ws_pred, is_whitespace,
    other_than, is_prefix_run, lemma_trim_ws_window, utf16_range, lemma_weighted_len_split, lemma_weighted_len_sub_le,
};

verus! {

/// Line endings normalised: `\r\n` and lone `\r` both become `\n`.
pub open spec fn normalize_newlines(s: Seq<char>) -> Seq<char>
    decreases s.len(),
{
    if s.len() == 0 {
        Seq::empty()
    } else if s[0] == '\r' && s.len() > 1 && s[1] == '\n' {
        seq!['\n'] + normalize_newlines(s.skip(2))
    } else if s[0] == '\r' {
        seq!['\n'] + normalize_newlines(s.skip(1))
    } else {
        seq![s[0]] + normalize_newlines(s.skip(1))
    }
}

pub proof fn lemma_normalize_newlines_len(s: Seq<char>)
    ensures
        normalize_newlines(s).len() <= s.len(),
        utf16_len_spec(normalize_newlines(s)) <= utf16_len_spec(s),
    decreases s.len(),
{
    if s.len() > 0 {
        let w = utf16_weight();
        if s[0] == '\r' && s.len() > 1 && s[1] == '\n' {
            lemma_normalize_newlines_len(s.skip(2));
            lemma_weighted_len_add(seq!['\n'], normalize_newlines(s.skip(2)), w);
            lemma_weighted_len_add(s.take(2), s.skip(2), w);
            assert(s.take(2) + s.skip(2) =~= s);
            lemma_single_utf16(s.take(2));
            lemma_single_utf16(seq!['\n']);
        } else {
            lemma_normalize_newlines_len(s.skip(1));
            let first = if s[0] == '\r' { '\n' } else { s[0] };
            lemma_weighted_len_add(seq![first], normalize_newlines(s.skip(1)), w);
            lemma_weighted_len_add(s.take(1), s.skip(1), w);
            assert(s.take(1) + s.skip(1) =~= s);
            lemma_single_utf16(s.take(1));
            lemma_single_utf16(seq![first]);
            assert(s.take(1)[0] == s[0]);
            assert(seq![first][0] == first);
        }
    }
}

proof fn lemma_single_utf16(s: Seq<char>)
    requires
        1 <= s.len() <= 2,
    ensures
        utf16_len_spec(s) >= s.len(),
        s.len() == 1 ==> utf16_len_spec(s) == utf16_width(s[0]),
{
    let w = utf16_weight();
    let t = s.drop_first();
    assert(weighted_len(s, w) == w(s[0]) + weighted_len(t, w));
    if s.len() == 2 {
        let u = t.drop_first();
        assert(u.len() == 0);
        assert(weighted_len(u, w) == 0);
        assert(weighted_len(t, w) == w(t[0]) + weighted_len(u, w));
    } else {
        assert(t.len() == 0);
        assert(weighted_len(t, w) == 0);
    }
}

/// Copy of the text with line endings normalised.
pub fn normalized_newlines(text: &[char]) -> (r: Vec<char>)
    ensures
        r@ == normalize_newlines(text@),
{
    let mut r: Vec<char> = Vec::new();
    let mut i: usize = 0;
    assert(text@.skip(0) =~= text@);
    assert(r@ + normalize_newlines(text@) =~= normalize_newlines(text@));
    while i < text.len()
        invariant
            i <= text.len(),
            r@ + normalize_newlines(text@.skip(i as int)) == normalize_newlines(text@),
        decreases text.len() - i,
    {
        let ghost rest = text@.skip(i as int);
        let ghost old_r = r@;
        if text[i] == '\r' && i + 1 < text.len() && text[i + 1] == '\n' {
            r.push('\n');
            assert(rest.skip(2) =~= text@.skip(i + 2));
            assert(old_r + normalize_newlines(rest) =~= r@ + normalize_newlines(text@.skip(i + 2)));
            i += 2;
        } else {
            let c = if text[i] == '\r' { '\n' } else { text[i] };
            r.push(c);
            assert(rest.skip(1) =~= text@.skip(i + 1));
            assert(old_r + normalize_newlines(rest) =~= r@ + normalize_newlines(text@.skip(i + 1)));
            i += 1;
        }
    }
    assert(normalize_newlines(text@.skip(text.len() as int)) =~= Seq::<char>::empty());
    assert(r@ + Seq::<char>::empty() =~= r@);
    r
}

} // verus!

verus! {

/// One non-blank line of a text book, trimmed, with its UTF-16 position in
/// the normalised source.
#[derive(Debug, Clone)]
pub struct TextLine {
    pub text: Vec<char>,
    pub source_start: u64,
    pub source_end: u64,
    /// Offset of the line break that ended the previous source line.
    pub separator_before: Option<u64>,
    /// Whether a blank line (or the start of the text) precedes the line.
    pub paragraph_break_before: bool,
    /// Number of whitespace characters the line was indented by.
    pub leading_whitespace: usize,
}

/// Spec form of a text line.
pub struct LineView {
    pub text: Seq<char>,
    pub source_start: int,
    pub source_end: int,
    pub separator_before: Option<int>,
    pub paragraph_break_before: bool,
    pub leading_whitespace: int,
}

impl View for TextLine {
    type V = LineView;

    open spec fn view(&self) -> LineView {
        LineView {
            text: self.text@,
            source_start: self.source_start as int,
            source_end: self.source_end as int,
            separator_before: match self.separator_before {
                Some(v) => Some(v as int),
                None => None,
            },
            paragraph_break_before: self.paragraph_break_before,
            leading_whitespace: self.leading_whitespace as int,
        }
    }
}

/// Views of a sequence of lines.
pub open spec fn line_views(lines: Seq<TextLine>) -> Seq<LineView> {
    lines.map_values(|l: TextLine| l@)
}

/// Length of the first `split_inclusive('\n')` segment of `s`.
pub open spec fn segment_len(s: Seq<char>) -> int {
    let p = prefix_len(s, other_than('\n')) as int;
    if p < s.len() {
        p + 1
    } else {
        s.len() as int
    }
}

/// The trimmed lines of the normalised text `s`, which starts at UTF-16
/// offset `offset`; `separator` is the line break before `s`, `pbb` whether
/// a paragraph break is pending and `any` whether a line was already emitted.
pub open spec fn lines_from(s: Seq<char>, offset: int, separator: Option<int>, pbb: bool, any: bool) -> Seq<LineView>
    decreases s.len(),
{
    if s.len() == 0 {
        Seq::empty()
    } else {
        let k = segment_len(s);
        if k <= 0 || k > s.len() {
            Seq::empty()
        } else {
            let segment = s.take(k);
            let ends_line = segment.last() == '\n';
            let raw = if ends_line { segment.drop_last() } else { segment };
            let lead = prefix_len(raw, ws_pred()) as int;
            let trimmed = trim_ws(raw);
            let next_separator = if ends_line { Some(offset + utf16_len_spec(raw)) } else { None };
            let next_offset = offset + utf16_len_spec(segment);
            if trimmed.len() > 0 {
                let start = offset + utf16_len_spec(raw.take(lead));
                seq![LineView {
                    text: trimmed,
                    source_start: start,
                    source_end: start + utf16_len_spec(trimmed),
                    separator_before: separator,
                    paragraph_break_before: pbb,
                    leading_whitespace: lead,
                }] + lines_from(s.skip(k), next_offset, next_separator, false, true)
            } else {
                lines_from(s.skip(k), next_offset, next_separator, if any { true } else { pbb }, any)
            }
        }
    }
}

/// The non-blank lines of `text`, trimmed, with UTF-16 offsets into the
/// newline-normalised text.
pub open spec fn normalized_text_lines_spec(text: Seq<char>) -> Seq<LineView> {
    lines_from(normalize_newlines(text), 0, None, true, false)
}

/// Spec view of an optional UTF-16 offset.
pub open spec fn offset_view(o: Option<u64>) -> Option<int> {
    match o {
        Some(v) => Some(v as int),
        None => None,
    }
}

/// One step of `lines_from`: the segment `n[i..j]` (ended by a line break
/// at `j` unless `j` is the end), whose trimmed window is `n[a..b]`.
proof fn lemma_lines_from_step(
    n: Seq<char>,
    i: int,
    j: int,
    a: int,
    b: int,
    offset: int,
    sep: Option<int>,
    pbb: bool,
    any: bool,
)
    requires
        0 <= i < n.len(),
        i <= a <= b <= j <= n.len(),
        forall|x: int| i <= x < j ==> #[trigger] n[x] != '\n',
        j < n.len() ==> n[j] == '\n',
        forall|x: int| i <= x < a ==> unicode_white_space(#[trigger] n[x]),
        a < j ==> !unicode_white_space(n[a]),
        forall|x: int| b <= x < j ==> unicode_white_space(#[trigger] n[x]),
        b > a ==> !unicode_white_space(n[b - 1]),
    ensures
        ({
            let e = if j < n.len() { j + 1 } else { j };
            let next_sep = if j < n.len() { Some(offset + utf16_len_spec(n.subrange(i, j))) } else { None };
            let next_off = offset + utf16_len_spec(n.subrange(i, e));
            let start = offset + utf16_len_spec(n.subrange(i, a));
            lines_from(n.skip(i), offset, sep, pbb, any) == if b > a {
                seq![LineView {
                    text: n.subrange(a, b),
                    source_start: start,
                    source_end: start + utf16_len_spec(n.subrange(a, b)),
                    separator_before: sep,
                    paragraph_break_before: pbb,
                    leading_whitespace: a - i,
                }] + lines_from(n.skip(e), next_off, next_sep, false, true)
            } else {
                lines_from(n.skip(e), next_off, next_sep, if any { true } else { pbb }, any)
            }
        }),
{
    let s = n.skip(i);
    let e = if j < n.len() { j + 1 } else { j };
    let q = other_than('\n');
    assert forall|x: int| 0 <= x < j - i implies q(#[trigger] s[x]) by {
        assert(s[x] == n[x + i]);
    }
    if j < n.len() {
        assert(s[j - i] == n[j]);
    }
    assert(is_prefix_run(s, q, j - i));
    lemma_prefix_len(s, q, j - i);
    let k = segment_len(s);
    assert(k == e - i);
    let segment = s.take(k);
    assert(segment =~= n.subrange(i, e));
    let raw = n.subrange(i, j);
    if j < n.len() {
        assert(segment.last() == '\n');
        assert(segment.drop_last() =~= raw);
    } else {
        assert(segment.last() == n[j - 1]);
        assert(segment =~= raw);
    }
    lemma_trim_ws_window(raw, a - i, b - i);
    assert(raw.subrange(a - i, b - i) =~= n.subrange(a, b));
    assert(raw.take(a - i) =~= n.subrange(i, a));
    assert(s.skip(k) =~= n.skip(e));
}

/// The non-blank lines of `text`, trimmed, with UTF-16 offsets into the
/// text after line endings are normalised.
pub fn normalized_text_lines(text: &str) -> (r: Vec<TextLine>)
    requires
        utf16_len_spec(text@) <= u64::MAX,
    ensures
        line_views(r@) == normalized_text_lines_spec(text@),
        lines_ordered(line_views(r@), 0, utf16_len_spec(text@) as int),
{
    proof {
        lemma_lines_from_ordered(normalize_newlines(text@), 0, None, true, false);
        lemma_normalize_newlines_len(text@);
    }
    let chars = chars_of(text);
    let n = normalized_newlines(&chars);
    proof {
        lemma_normalize_newlines_len(text@);
    }
    let ghost w = utf16_weight();
    let mut result: Vec<TextLine> = Vec::new();
    let mut offset: u64 = 0;
    let mut separator: Option<u64> = None;
    let mut pbb = true;
    let mut i: usize = 0;
    assert(n@.skip(0) =~= n@);
    assert(line_views(result@) =~= Seq::<LineView>::empty());
    assert(n@.subrange(0, 0).len() == 0);
    while i < n.len()
        invariant
            i <= n.len(),
            w == utf16_weight(),
            n@ == normalize_newlines(text@),
            utf16_len_spec(n@) <= u64::MAX,
            offset == utf16_len_spec(n@.subrange(0, i as int)),
            match separator {
                Some(v) => v <= offset,
                None => true,
            },
            line_views(result@) + lines_from(n@.skip(i as int), offset as int, offset_view(separator), pbb, result.len() > 0)
                == normalized_text_lines_spec(text@),
        decreases n.len() - i,
    {
        let mut j = i;
        while j < n.len() && n[j] != '\n'
            invariant
                i <= j <= n.len(),
                forall|x: int| i <= x < j ==> #[trigger] n@[x] != '\n',
            decreases n.len() - j,
        {
            j += 1;
        }
        let mut a = i;
        while a < j && is_whitespace(n[a])
            invariant
                i <= a <= j,
                j <= n.len(),
                forall|x: int| i <= x < a ==> unicode_white_space(#[trigger] n@[x]),
            decreases j - a,
        {
            a += 1;
        }
        let mut b = j;
        while b > a && is_whitespace(n[b - 1])
            invariant
                a <= b <= j,
                j <= n.len(),
                forall|x: int| b <= x < j ==> unicode_white_space(#[trigger] n@[x]),
            decreases b,
        {
            b -= 1;
        }
        let e = if j < n.len() { j + 1 } else { j };
        proof {
            lemma_lines_from_step(n@, i as int, j as int, a as int, b as int, offset as int,
                offset_view(separator), pbb, result.len() > 0);
            lemma_weighted_len_split(n@, 0, i as int, e as int, w);
            lemma_weighted_len_split(n@, i as int, j as int, e as int, w);
            lemma_weighted_len_split(n@, i as int, a as int, j as int, w);
            lemma_weighted_len_split(n@, a as int, b as int, j as int, w);
            lemma_weighted_len_sub_le(n@, 0, e as int, w);
        }
        let raw_u16 = utf16_range(&n, i, j);
        let seg_u16 = utf16_range(&n, i, e);
        let ghost old_views = line_views(result@);
        if b > a {
            let lead_u16 = utf16_range(&n, i, a);
            let trimmed_u16 = utf16_range(&n, a, b);
            let start = offset + lead_u16;
            let line = TextLine {
                text: sub_vec(&n, a, b),
                source_start: start,
                source_end: start + trimmed_u16,
                separator_before: separator,
                paragraph_break_before: pbb,
                leading_whitespace: a - i,
            };
            result.push(line);
            proof {
                assert(line_views(result@) =~= old_views.push(line@));
                assert(line@.separator_before == offset_view(separator));
            }
            pbb = false;
        } else if result.len() > 0 {
            pbb = true;
        }
        separator = if j < n.len() { Some(offset + raw_u16) } else { None };
        offset = offset + seg_u16;
        i = e;
    }
    assert(lines_from(n@.skip(i as int), offset as int, offset_view(separator), pbb, result.len() > 0)
        =~= Seq::<LineView>::empty());
    assert(line_views(result@) + Seq::<LineView>::empty() =~= line_views(result@));
    result
}

/// Lines in source order, non-overlapping, each within `[lo, hi]`, each
/// with a separator between it and the line before.
pub open spec fn lines_ordered(ls: Seq<LineView>, lo: int, hi: int) -> bool {
    &&& forall|i: int| 0 <= i < ls.len() ==> {
        &&& lo <= (#[trigger] ls[i]).source_start <= ls[i].source_end <= hi
        &&& ls[i].source_end - ls[i].source_start == utf16_len_spec(ls[i].text)
        &&& ls[i].text.len() > 0
    }
    &&& forall|i: int, j: int| 0 <= i < j < ls.len() ==> (#[trigger] ls[i]).source_end < (#[trigger] ls[j]).source_start
    &&& forall|i: int| 0 < i < ls.len() ==> separator_between(#[trigger] ls[i], ls[i - 1])
}

/// Line `cur` records a line break at or after the end of `prev`.
pub open spec fn separator_between(cur: LineView, prev: LineView) -> bool {
    cur.separator_before matches Some(x) && prev.source_end <= x < cur.source_start
}

/// Line `l` records a line break at or after `offset`, before its start.
pub open spec fn first_separator_within(l: LineView, offset: int) -> bool {
    l.separator_before matches Some(x) && offset <= x < l.source_start
}

/// The lines of a text lie in source order within it, without overlap, and
/// each line after the first records the line break before it.
#[verifier::rlimit(100)]
pub proof fn lemma_lines_from_ordered(s: Seq<char>, offset: int, sep: Option<int>, pbb: bool, any: bool)
    requires
        offset >= 0,
    ensures
        lines_ordered(lines_from(s, offset, sep, pbb, any), offset, offset + utf16_len_spec(s)),
        ({
            let ls = lines_from(s, offset, sep, pbb, any);
            ls.len() > 0 ==> (ls[0].separator_before == sep || first_separator_within(ls[0], offset))
        }),
    decreases s.len(),
{
    let ls = lines_from(s, offset, sep, pbb, any);
    if s.len() > 0 {
        let w = utf16_weight();
        let k = segment_len(s);
        let p = prefix_len(s, other_than('\n')) as int;
        crate::text::lemma_prefix_len_bound(s, other_than('\n'));
        if k > 0 && k <= s.len() {
            let segment = s.take(k);
            let ends_line = segment.last() == '\n';
            let raw = if ends_line { segment.drop_last() } else { segment };
            let lead = prefix_len(raw, ws_pred()) as int;
            crate::text::lemma_prefix_len_bound(raw, ws_pred());
            let trimmed = trim_ws(raw);
            let rest = s.skip(k);
            let next_off = offset + utf16_len_spec(segment);
            let next_sep = if ends_line { Some(offset + utf16_len_spec(raw)) } else { None };
            lemma_lines_from_ordered(rest, next_off, next_sep, false, true);
            lemma_lines_from_ordered(rest, next_off, next_sep, if any { true } else { pbb }, any);
            // lengths
            assert(s =~= segment + rest);
            crate::text::lemma_weighted_len_add(segment, rest, w);
            if ends_line {
                assert(segment =~= raw.push('\n'));
                crate::text::lemma_weighted_len_push(raw, '\n', w);
            }
            let t = raw.skip(lead);
            let tk = crate::text::suffix_len(t, ws_pred()) as int;
            crate::text::lemma_suffix_len_bound(t, ws_pred());
            assert(raw =~= raw.take(lead) + t);
            crate::text::lemma_weighted_len_add(raw.take(lead), t, w);
            assert(t =~= trimmed + t.skip(t.len() - tk));
            crate::text::lemma_weighted_len_add(trimmed, t.skip(t.len() - tk), w);
            let rest_lines = lines_from(rest, next_off, next_sep, false, true);
            if trimmed.len() > 0 {
                let start = offset + utf16_len_spec(raw.take(lead));
                let head = LineView {
                    text: trimmed,
                    source_start: start,
                    source_end: start + utf16_len_spec(trimmed),
                    separator_before: sep,
                    paragraph_break_before: pbb,
                    leading_whitespace: lead,
                };
                assert(ls == seq![head] + rest_lines);
                if !ends_line {
                    assert(rest.len() == 0);
                    assert(rest_lines.len() == 0);
                }
                assert forall|i: int, j: int| 0 <= i < j < ls.len() implies (#[trigger] ls[i]).source_end < (#[trigger] ls[j]).source_start by {
                    if i == 0 {
                        assert(ls[j] == rest_lines[j - 1]);
                    } else {
                        assert(ls[i] == rest_lines[i - 1]);
                        assert(ls[j] == rest_lines[j - 1]);
                    }
                }
                assert forall|i: int| 0 < i < ls.len() implies separator_between(#[trigger] ls[i], ls[i - 1]) by {
                    assert(ls[i] == rest_lines[i - 1]);
                    if i > 1 {
                        assert(ls[i - 1] == rest_lines[i - 2]);
                    }
                }
                assert forall|i: int| 0 <= i < ls.len() implies {
                    &&& offset <= (#[trigger] ls[i]).source_start <= ls[i].source_end <= offset + utf16_len_spec(s)
                    &&& ls[i].source_end - ls[i].source_start == utf16_len_spec(ls[i].text)
                    &&& ls[i].text.len() > 0
                } by {
                    if i > 0 {
                        assert(ls[i] == rest_lines[i - 1]);
                    }
                }
            } else {
                let rl = lines_from(rest, next_off, next_sep, if any { true } else { pbb }, any);
                assert(ls == rl);
            }
        }
    }
}

} // verus!
