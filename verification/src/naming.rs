//! File names for imported books.

use vstd::prelude::*;

use crate::chat::{lemma_utf8_prefix, utf8_prefix, utf8_prefix_chars};
use crate::text::{
    chars_of, extend_chars, extend_str, is_alphanumeric, is_suffix_run, join_range, join_seqs,
    lemma_suffix_len, other_than, split_ws, string_from_chars, sub_vec, suffix_len, to_lowercase,
    unicode_alphanumeric, unicode_str_lowercase, utf8_len, views, ws_words,
};

verus! {

/// Longest slug, in UTF-8 bytes, before it is cut at a word boundary.
pub const SLUG_MAX_BYTES: usize = 60;

/// Characters kept in a slug; every other character separates words.
pub open spec fn slug_char(c: char) -> char {
    if unicode_alphanumeric(c) || c == ' ' || c == '-' || c == '_' {
        c
    } else {
        ' '
    }
}

/// The title's words (runs of kept characters) joined with `-`, lower-cased.
pub open spec fn full_slug(title: Seq<char>) -> Seq<char> {
    unicode_str_lowercase(join_seqs(ws_words(title.map_values(|c: char| slug_char(c))), "-"@))
}

/// `s` up to (not including) its last `c`, or all of `s` without one.
pub open spec fn before_last(s: Seq<char>, c: char) -> Seq<char> {
    let k = suffix_len(s, other_than(c));
    if k < s.len() {
        s.take(s.len() - k - 1)
    } else {
        s
    }
}

/// A title as a file-name slug: the full slug when it fits in
/// `SLUG_MAX_BYTES` bytes, else its longest fitting prefix cut back to the
/// last `-`.
pub open spec fn slugify_spec(title: Seq<char>) -> Seq<char> {
    let s = full_slug(title);
    if utf8_len(s) <= SLUG_MAX_BYTES {
        s
    } else {
        before_last(utf8_prefix(s, SLUG_MAX_BYTES as int), '-')
    }
}

/// A slug is never longer than `SLUG_MAX_BYTES` bytes, whatever the title.
pub proof fn lemma_slug_fits(title: Seq<char>)
    ensures
        utf8_len(slugify_spec(title)) <= SLUG_MAX_BYTES,
{
    let s = full_slug(title);
    if utf8_len(s) > SLUG_MAX_BYTES {
        let p = utf8_prefix(s, SLUG_MAX_BYTES as int);
        lemma_utf8_prefix(s, SLUG_MAX_BYTES as int);
        let k = suffix_len(p, other_than('-'));
        if k < p.len() {
            crate::text::lemma_weighted_len_sub_le(p, 0, p.len() - k - 1, crate::text::utf8_weight());
            assert(p.subrange(0, p.len() - k - 1) =~= p.take(p.len() - k - 1));
        }
    }
}

/// Number of trailing characters of `v` that differ from `c`.
fn trailing_other_than(v: &[char], c: char) -> (k: usize)
    ensures
        k == suffix_len(v@, other_than(c)),
        k <= v.len(),
{
    let ghost p = other_than(c);
    let mut k: usize = 0;
    while k < v.len() && v[v.len() - 1 - k] != c
        invariant
            k <= v.len(),
            p == other_than(c),
            forall|j: int| v.len() - k <= j < v.len() ==> p(#[trigger] v@[j]),
        decreases v.len() - k,
    {
        k += 1;
    }
    proof {
        assert(is_suffix_run(v@, p, k as int));
        lemma_suffix_len(v@, p, k as int);
    }
    k
}

/// Sanitises a book title into a file-name slug: letters, digits, `-` and
/// `_` kept, other characters turned into word breaks, words joined with
/// `-`, lower-cased, and cut to at most 60 bytes at a word boundary
/// without splitting a character.
pub fn slugify(title: &str) -> (r: String)
    ensures
        r@ == slugify_spec(title@),
        utf8_len(r@) <= SLUG_MAX_BYTES,
{
    proof {
        lemma_slug_fits(title@);
    }
    let t = chars_of(title);
    let mut mapped: Vec<char> = Vec::new();
    let mut i: usize = 0;
    while i < t.len()
        invariant
            i <= t.len(),
            mapped@ == t@.take(i as int).map_values(|c: char| slug_char(c)),
        decreases t.len() - i,
    {
        let c = t[i];
        let kept = if is_alphanumeric(c) || c == ' ' || c == '-' || c == '_' { c } else { ' ' };
        mapped.push(kept);
        assert(t@.take(i + 1).map_values(|c: char| slug_char(c)) =~= t@.take(i as int).map_values(|c: char| slug_char(c)).push(slug_char(c)));
        i += 1;
    }
    assert(t@.take(t.len() as int) =~= t@);
    let words = split_ws(&mapped);
    let joined = join_range(&words, 0, words.len(), "-");
    assert(views(words@).subrange(0, words.len() as int) =~= views(words@));
    let lower = to_lowercase(string_from_chars(&joined).as_str());
    let s = chars_of(lower.as_str());
    let (head, used) = utf8_prefix_chars(&s, SLUG_MAX_BYTES);
    proof {
        lemma_utf8_prefix(s@, SLUG_MAX_BYTES as int);
    }
    if head.len() == s.len() {
        assert(head@ =~= s@);
        return lower;
    }
    let k = trailing_other_than(&head, '-');
    if k < head.len() {
        let cut = sub_vec(&head, 0, head.len() - k - 1);
        string_from_chars(&cut)
    } else {
        string_from_chars(&head)
    }
}

/// The file name of an imported book: `{slug}_{first 8 bytes of id}.{ext}`,
/// or `{id}.{ext}` when the title has no slug.
pub open spec fn book_filename_spec(title: Seq<char>, book_id: Seq<char>, ext: Seq<char>) -> Seq<char> {
    let slug = slugify_spec(title);
    if slug.len() == 0 {
        book_id + "."@ + ext
    } else {
        slug + "_"@ + utf8_prefix(book_id, 8) + "."@ + ext
    }
}

/// Builds the human-readable file name of an imported book.
pub fn book_filename(title: &str, book_id: &str, ext: &str) -> (r: String)
    requires
        utf8_len(utf8_prefix(book_id@, 8)) == 8,
    ensures
        r@ == book_filename_spec(title@, book_id@, ext@),
{
    let slug = slugify(title);
    let mut out: Vec<char> = Vec::new();
    if slug.as_str().is_empty() {
        extend_str(&mut out, book_id);
        extend_str(&mut out, ".");
        extend_str(&mut out, ext);
    } else {
        let id = chars_of(book_id);
        let (short, _) = utf8_prefix_chars(&id, 8);
        extend_str(&mut out, slug.as_str());
        extend_str(&mut out, "_");
        extend_chars(&mut out, &short);
        extend_str(&mut out, ".");
        extend_str(&mut out, ext);
    }
    string_from_chars(&out)
}

/// Byte length of the longest prefix of `s` that fits in `max_bytes` bytes
/// without splitting a character.
pub fn floor_char_boundary(s: &str, max_bytes: usize) -> (r: usize)
    ensures
        r == utf8_len(utf8_prefix(s@, max_bytes as int)),
        r <= max_bytes,
{
    let v = chars_of(s);
    let (_, used) = utf8_prefix_chars(&v, max_bytes);
    used
}

} // verus!
