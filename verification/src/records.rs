//! The records the reader lists (lookups, notes, custom fonts, AI index
//! details, language assessments, build information) and the rules for
//! paging and normalising them.

use vstd::prelude::*;

use crate::error::AppError;
use crate::text::{chars_of, str_eq, string_from_chars, unicode_alphanumeric, unicode_str_lowercase};

verus! {

/// A retrieved chunk of a book's AI index, as listed to the reader.
#[derive(Debug, Clone)]
pub struct IndexChunkView {
    pub index: i64,
    pub section_title: Option<String>,
    pub snippet: String,
}

/// A stored summary of a book or one of its sections.
#[derive(Debug, Clone)]
pub struct IndexSummaryView {
    pub section_index: Option<i64>,
    pub section_title: Option<String>,
    pub content: String,
    pub user_edited: bool,
}

/// The state of a book's AI index, as shown to the reader. `status` is the
/// index status code.
#[derive(Debug)]
pub struct BookIndexDetails {
    pub status: String,
    pub error: Option<String>,
    pub chunk_count: i64,
    pub embedded_count: i64,
    pub embedding_model: Option<String>,
    pub indexed_at: Option<i64>,
    pub overview: Option<IndexSummaryView>,
    pub sections: Vec<IndexSummaryView>,
    pub chunks: Vec<IndexChunkView>,
}

/// What an index update changed.
#[derive(Debug, Clone, Copy, PartialEq, Eq, Structural)]
pub struct IndexUpdateResult {
    pub reindexed: bool,
    pub embeddings_updated: bool,
    pub summaries_updated: bool,
}

/// A book's index state as stored: the source hash indexed, the index
/// version and the time indexed; none when the book was never indexed.
pub type IndexStamp = Option<(Option<String>, i64, i64)>;

/// Whether two index states are the same.
pub open spec fn same_stamp(a: IndexStamp, b: IndexStamp) -> bool {
    match (a, b) {
        (None, None) => true,
        (Some(x), Some(y)) => crate::preparation::opt_view(x.0) == crate::preparation::opt_view(y.0) && x.1 == y.1 && x.2 == y.2,
        _ => false,
    }
}

/// What an index update does once the index is brought up to date, by its
/// status: when it is ready, it fills in missing embeddings (when there is
/// an embedding source) and regenerates the summaries when there are none
/// or they are stale.
pub fn index_update_steps(
    status: crate::chat::IndexStatus,
    has_embedding_source: bool,
    embeddings_complete: bool,
    has_summaries: bool,
    summaries_stale: bool,
) -> (r: (bool, bool))
    ensures
        r.0 == (status == crate::chat::IndexStatus::Ready && has_embedding_source && !embeddings_complete),
        r.1 == (status == crate::chat::IndexStatus::Ready && (!has_summaries || summaries_stale)),
{
    let ready = match status {
        crate::chat::IndexStatus::Ready => true,
        _ => false,
    };
    (ready && has_embedding_source && !embeddings_complete, ready && (!has_summaries || summaries_stale))
}

/// What an index update reports: reindexed when the stored index state
/// changed, with what it updated.
pub fn index_update_result(before: &IndexStamp, after: &IndexStamp, embeddings_updated: bool, summaries_updated: bool) -> (r: IndexUpdateResult)
    ensures
        r.reindexed == !same_stamp(*before, *after),
        r.embeddings_updated == embeddings_updated,
        r.summaries_updated == summaries_updated,
{
    let same = match (before, after) {
        (None, None) => true,
        (Some(x), Some(y)) => {
            let hashes = match (&x.0, &y.0) {
                (None, None) => true,
                (Some(a), Some(b)) => crate::text::str_eq(a.as_str(), b.as_str()),
                _ => false,
            };
            hashes && x.1 == y.1 && x.2 == y.2
        },
        _ => false,
    };
    IndexUpdateResult { reindexed: !same, embeddings_updated, summaries_updated }
}

/// Scope of each stored summary: `book` or `section`.
pub open spec fn summary_scopes(s: Seq<(String, IndexSummaryView)>) -> Seq<Seq<char>> {
    s.map_values(|x: (String, IndexSummaryView)| x.0@)
}

/// Index of the first summary of scope `book`, if any.
pub open spec fn first_book_summary(s: Seq<(String, IndexSummaryView)>, i: int) -> bool {
    0 <= i < s.len() && s[i].0@ == "book"@ && forall|k: int| 0 <= k < i ==> s[k].0@ != "book"@
}

/// The section summaries, in order.
pub open spec fn section_summaries(s: Seq<(String, IndexSummaryView)>) -> Seq<(String, IndexSummaryView)> {
    s.filter(|x: (String, IndexSummaryView)| x.0@ == "section"@)
}

/// Assembles a book's index details from what is stored: the index state
/// (error, chunk count, time indexed; none when the book was never indexed),
/// the embedding counts, the summaries with their scopes (in stored order)
/// and the first chunks. The overview is the first book-scope summary; a
/// time of 0 or less means "never".
pub fn index_details(
    status: String,
    state: Option<(Option<String>, i64, i64)>,
    embedded_count: i64,
    embedding_model: Option<String>,
    summaries: Vec<(String, IndexSummaryView)>,
    chunks: Vec<IndexChunkView>,
) -> (r: BookIndexDetails)
    ensures
        r.status == status,
        r.embedded_count == embedded_count,
        r.embedding_model == embedding_model,
        r.chunks == chunks,
        match state {
            Some((error, count, at)) => r.error == error && r.chunk_count == count
                && r.indexed_at == (if at > 0 { Some(at) } else { None }),
            None => r.error is None && r.chunk_count == 0 && r.indexed_at is None,
        },
        match r.overview {
            Some(o) => exists|i: int| first_book_summary(summaries@, i) && o.content@ == summaries@[i].1.content@
                && o.section_index == summaries@[i].1.section_index && o.user_edited == summaries@[i].1.user_edited,
            None => forall|i: int| 0 <= i < summaries@.len() ==> summaries@[i].0@ != "book"@,
        },
        r.sections@.len() == section_summaries(summaries@).len(),
        forall|k: int| 0 <= k < r.sections@.len() ==> #[trigger] r.sections@[k] == section_summaries(summaries@)[k].1,
{
    let (error, chunk_count, indexed_at) = match state {
        Some(s) => s,
        None => (None, 0, 0),
    };
    let ghost all = summaries@;
    let ghost pred = |x: (String, IndexSummaryView)| x.0@ == "section"@;
    let mut overview: Option<IndexSummaryView> = None;
    let mut sections: Vec<IndexSummaryView> = Vec::new();
    let mut rest: Vec<(String, IndexSummaryView)> = Vec::new();
    let mut source = summaries;
    while source.len() > 0
        invariant
            source@ + rest@.reverse() == all,
        decreases source@.len(),
    {
        let ghost s0 = source@;
        let ghost r0 = rest@;
        let item = source.pop().unwrap();
        rest.push(item);
        assert(rest@.reverse() =~= seq![item] + r0.reverse());
        assert(s0 =~= source@.push(item));
    }
    assert(rest@.reverse() =~= all);
    assert(Seq::<(String, IndexSummaryView)>::empty().filter(pred) =~= Seq::<(String, IndexSummaryView)>::empty()) by {
        reveal(Seq::filter);
    }
    let mut done: usize = 0;
    let ghost mut oi: int = 0;
    let total = rest.len();
    assert(all.take(0) =~= Seq::<(String, IndexSummaryView)>::empty());
    while rest.len() > 0
        invariant
            done + rest@.len() == all.len(),
            all.len() == total,
            rest@.reverse() == all.skip(done as int),
            pred == (|x: (String, IndexSummaryView)| x.0@ == "section"@),
            sections@ == all.take(done as int).filter(pred).map_values(|x: (String, IndexSummaryView)| x.1),
            match overview {
                Some(o) => oi < done && first_book_summary(all, oi) && o == all[oi].1,
                None => forall|i: int| 0 <= i < done ==> all[i].0@ != "book"@,
            },
        decreases rest@.len(),
    {
        let ghost r0 = rest@;
        let item = rest.pop().unwrap();
        proof {
            assert(all.skip(done as int)[0] == item) by {
                assert(r0.reverse()[0] == r0[r0.len() - 1]);
            }
            assert(all[done as int] == item);
            assert(rest@.reverse() =~= all.skip(done + 1)) by {
                assert forall|k: int| 0 <= k < rest@.reverse().len() implies rest@.reverse()[k] == all.skip(done + 1)[k] by {
                    assert(rest@.reverse()[k] == rest@[rest@.len() - 1 - k]);
                    assert(r0.reverse()[k + 1] == r0[r0.len() - 1 - (k + 1)]);
                    assert(all.skip(done as int)[k + 1] == all.skip(done + 1)[k]);
                }
            }
            reveal(Seq::filter);
            reveal_strlit("section");
            reveal_strlit("book");
            assert(all.take(done + 1).drop_last() =~= all.take(done as int));
            assert(all.take(done + 1).last() == item);
        }
        let (scope, summary) = item;
        assert(scope@ == all[done as int].0@);
        assert(summary == all[done as int].1);
        if str_eq(scope.as_str(), "section") {
            let ghost before = sections@;
            sections.push(summary);
            proof {
                let f = |x: (String, IndexSummaryView)| x.1;
                assert(all.take(done as int).filter(pred).push(all[done as int]).map_values(f)
                    =~= all.take(done as int).filter(pred).map_values(f).push(all[done as int].1));
            }
        } else if str_eq(scope.as_str(), "book") {
            if overview.is_none() {
                proof {
                    assert(first_book_summary(all, done as int));
                }
                overview = Some(summary);
                proof {
                    oi = done as int;
                }
            }
        }
        proof {
            if overview is Some {
                assert(oi <= done);
                assert(first_book_summary(all, oi));
                assert(overview->0 == all[oi].1);
            } else {
                assert(all[done as int].0@ != "book"@);
            }
        }
        done += 1;
    }
    proof {
        assert(all.take(done as int) =~= all);
        let f = |x: (String, IndexSummaryView)| x.1;
        assert forall|k: int| 0 <= k < sections@.len() implies #[trigger] sections@[k] == section_summaries(all)[k].1 by {
            assert(sections@ == section_summaries(all).map_values(f));
        }
    }
    BookIndexDetails {
        status,
        error,
        chunk_count,
        embedded_count,
        embedding_model,
        indexed_at: if indexed_at > 0 { Some(indexed_at) } else { None },
        overview,
        sections,
        chunks,
    }
}

/// A word or phrase the reader looked up.
#[derive(Debug)]
pub struct LookupRecord {
    pub id: String,
    pub book_id: String,
    pub lookup_text: String,
    pub normalized_text: String,
    pub context_sentence: Option<String>,
    pub chapter: Option<String>,
    pub cfi: Option<String>,
    pub definition: String,
    pub context_explanation: Option<String>,
    pub created_at: i64,
    pub last_looked_up_at: i64,
    pub lookup_count: i64,
    pub book_title: Option<String>,
}

/// A page of lookup records, with the cursor of the next page, the total
/// count and the books the matching records belong to.
#[derive(Debug)]
pub struct LookupRecordPage {
    pub records: Vec<LookupRecord>,
    pub next_cursor: Option<String>,
    pub total: usize,
    pub books: Vec<LookupBookFacet>,
}

/// A book among the lookup records, with how many records it has.
#[derive(Debug)]
pub struct LookupBookFacet {
    pub book_id: String,
    pub book_title: Option<String>,
    pub count: usize,
}

/// Characters trimmed around a looked-up word: all but letters, digits and
/// apostrophes.
pub open spec fn lookup_edge(c: char) -> bool {
    !unicode_alphanumeric(c) && c != '\''
}

/// A looked-up text as stored for matching: trimmed of punctuation and
/// spaces at both ends, lower-cased.
pub open spec fn normalized_lookup_spec(text: Seq<char>) -> Seq<char> {
    unicode_str_lowercase(crate::text::trim_by(text, |c: char| lookup_edge(c)))
}

/// Normalises a looked-up text; an empty result is refused.
pub fn normalized_lookup_text(lookup_text: &str) -> (r: Result<String, AppError>)
    ensures
        match r {
            Ok(s) => s@ == normalized_lookup_spec(lookup_text@) && s@.len() > 0,
            Err(e) => normalized_lookup_spec(lookup_text@).len() == 0 && e is Other
                && e.message_view() == "Lookup text cannot be empty"@,
        },
{
    let v = chars_of(lookup_text);
    let ghost p = |c: char| lookup_edge(c);
    let mut a: usize = 0;
    while a < v.len() && !crate::text::is_alphanumeric(v[a]) && v[a] != '\''
        invariant
            a <= v@.len(),
            p == (|c: char| lookup_edge(c)),
            forall|j: int| 0 <= j < a ==> p(#[trigger] v@[j]),
        decreases v@.len() - a,
    {
        a += 1;
    }
    proof {
        crate::text::lemma_prefix_len(v@, p, a as int);
    }
    let mut b: usize = v.len();
    while b > a && !crate::text::is_alphanumeric(v[b - 1]) && v[b - 1] != '\''
        invariant
            a <= b <= v@.len(),
            p == (|c: char| lookup_edge(c)),
            forall|j: int| b <= j < v@.len() ==> p(#[trigger] v@[j]),
        decreases b,
    {
        b -= 1;
    }
    proof {
        let t = v@.skip(a as int);
        let k = (v@.len() - b) as int;
        assert forall|j: int| t.len() - k <= j < t.len() implies p(#[trigger] t[j]) by {
            assert(t[j] == v@[j + a]);
        }
        if k < t.len() {
            assert(t[t.len() - k - 1] == v@[b - 1]);
        }
        crate::text::lemma_suffix_len(t, p, k);
        assert(t.take(t.len() - k) =~= v@.subrange(a as int, b as int));
    }
    let trimmed = string_from_chars(&v[a..b]);
    let lower = crate::text::to_lowercase(trimmed.as_str());
    if lower.as_str().is_empty() {
        return Err(crate::error::other("Lookup text cannot be empty"));
    }
    Ok(lower)
}

/// `limit` (or `default`) clamped to `[lo, hi]`.
pub open spec fn page_size_spec(limit: Option<usize>, default: int, lo: int, hi: int) -> int {
    let x = match limit {
        Some(l) => l as int,
        None => default,
    };
    if x < lo {
        lo
    } else if x > hi {
        hi
    } else {
        x
    }
}

/// Page size of the lookup history: 50 by default, between 1 and 200.
pub fn lookup_page_size(limit: Option<usize>) -> (r: usize)
    ensures
        r as int == page_size_spec(limit, 50, 1, 200),
{
    let x = match limit {
        Some(l) => l,
        None => 50,
    };
    if x < 1 { 1 } else if x > 200 { 200 } else { x }
}

/// Cursor of the page after a lookup record: `<last looked up>:<id>`.
pub open spec fn lookup_cursor(r: LookupRecord) -> Seq<char> {
    crate::numbers::int_decimal(r.last_looked_up_at as int) + ":"@ + r.id@
}

/// A page of lookup records from the rows fetched (one more than the page
/// size when a next page exists): the first `page_size` rows, and the cursor
/// after the last of them when rows were left over.
pub fn lookup_page(
    records: Vec<LookupRecord>,
    page_size: usize,
    total: usize,
    books: Vec<LookupBookFacet>,
) -> (r: LookupRecordPage)
    requires
        page_size >= 1,
    ensures
        records@.len() > page_size ==> r.records@ == records@.take(page_size as int)
            && (r.next_cursor matches Some(c) && c@ == lookup_cursor(records@[page_size - 1])),
        records@.len() <= page_size ==> r.records@ == records@ && r.next_cursor is None,
        r.total == total,
        r.books == books,
{
    let mut records = records;
    if records.len() > page_size {
        records.truncate(page_size);
        let last = &records[page_size - 1];
        let mut cursor = crate::numbers::i64_decimal(last.last_looked_up_at);
        crate::text::extend_str(&mut cursor, ":");
        crate::text::extend_str(&mut cursor, last.id.as_str());
        LookupRecordPage { records, next_cursor: Some(string_from_chars(&cursor)), total, books }
    } else {
        LookupRecordPage { records, next_cursor: None, total, books }
    }
}

/// Milliseconds in a day.
pub const DAY_MILLIS: i64 = 86_400_000;

/// The lookup history's retention from its stored setting: a positive
/// number of days; none (keep everything) when unset, not a number, or not
/// positive.
pub open spec fn retention_days_spec(setting: Option<Seq<char>>) -> Option<int> {
    match setting {
        Some(s) => match crate::numbers::parse_i64_spec(s) {
            Some(d) => if d > 0 { Some(d) } else { None },
            None => None,
        },
        None => None,
    }
}

/// Reads the lookup history's retention setting.
pub fn retention_days(setting: Option<&str>) -> (r: Option<i64>)
    ensures
        match r {
            Some(d) => retention_days_spec(crate::chat::opt_str_view(setting)) == Some(d as int),
            None => retention_days_spec(crate::chat::opt_str_view(setting)) is None,
        },
{
    match setting {
        Some(s) => match crate::numbers::parse_i64(&chars_of(s)) {
            Some(d) => if d > 0 { Some(d) } else { None },
            None => None,
        },
        None => None,
    }
}

/// A retention of `days` in milliseconds, saturating at `i64::MAX`.
pub open spec fn retention_millis(days: int) -> int {
    if days * DAY_MILLIS > i64::MAX { i64::MAX as int } else { days * DAY_MILLIS }
}

/// The time before which lookups are pruned: `days` days before `now_ms`.
pub fn prune_cutoff(now_ms: i64, days: i64) -> (r: i64)
    requires
        days > 0,
        now_ms - retention_millis(days as int) >= i64::MIN,
    ensures
        r == now_ms - retention_millis(days as int),
{
    let span: i64 = if days > i64::MAX / DAY_MILLIS { i64::MAX } else { days * DAY_MILLIS };
    assert(span == retention_millis(days as int)) by (nonlinear_arith)
        requires
            days > 0,
            span == (if days > i64::MAX / DAY_MILLIS { i64::MAX as int } else { days * DAY_MILLIS }),
            DAY_MILLIS == 86_400_000,
    ;
    now_ms - span
}

/// The search pattern of the notes list: the trimmed search text,
/// lower-cased, between `%` signs; none for a blank or absent search.
pub open spec fn note_pattern_spec(search: Option<Seq<char>>) -> Option<Seq<char>> {
    match search {
        Some(s) => if crate::text::trim_ws(s).len() == 0 {
            None
        } else {
            Some("%"@ + unicode_str_lowercase(crate::text::trim_ws(s)) + "%"@)
        },
        None => None,
    }
}

/// Builds the notes list's search pattern.
pub fn note_search_pattern(search: Option<&str>) -> (r: Option<String>)
    ensures
        crate::preparation::opt_view(r) == note_pattern_spec(crate::chat::opt_str_view(search)),
{
    match search {
        Some(s) => {
            let trimmed = crate::text::trim(s);
            if trimmed.as_str().is_empty() {
                None
            } else {
                let lowered = crate::text::to_lowercase(trimmed.as_str());
                let mut v = chars_of("%");
                crate::text::extend_str(&mut v, lowered.as_str());
                crate::text::extend_str(&mut v, "%");
                Some(string_from_chars(&v))
            }
        },
        None => None,
    }
}

/// Longest edited summary, in characters.
pub const SUMMARY_MAX_CHARS: usize = 20_000;

/// An edited summary as stored: trimmed; refused when blank or longer than
/// 20 000 characters.
pub fn checked_summary_content(content: &str) -> (r: Result<String, AppError>)
    ensures
        match r {
            Ok(s) => s@ == crate::text::trim_ws(content@) && s@.len() > 0 && s@.len() <= SUMMARY_MAX_CHARS,
            Err(e) => e is Other && e.message_view() == "AI_SUMMARY_CONTENT_INVALID"@
                && (crate::text::trim_ws(content@).len() == 0 || crate::text::trim_ws(content@).len() > SUMMARY_MAX_CHARS),
        },
{
    let v = chars_of(content);
    let (a, b) = crate::text::trim_range(&v);
    if a == b || b - a > SUMMARY_MAX_CHARS {
        return Err(crate::error::other("AI_SUMMARY_CONTENT_INVALID"));
    }
    Ok(string_from_chars(&v[a..b]))
}

/// A note on a word or a passage of a book.
#[derive(Debug)]
pub struct Note {
    pub id: String,
    pub book_id: Option<String>,
    pub book_title: Option<String>,
    pub anchor_kind: String,
    pub normalized_word: Option<String>,
    pub scope: String,
    pub location: Option<String>,
    pub selected_text: Option<String>,
    pub content: String,
    pub content_format: String,
    pub created_at: i64,
    pub updated_at: i64,
}

/// A page of notes, with the cursor of the next page and the total count.
#[derive(Debug)]
pub struct NotePage {
    pub notes: Vec<Note>,
    pub next_cursor: Option<String>,
    pub total: usize,
}

/// Page size of the notes list: 100 by default, between 1 and 500.
pub fn note_page_size(limit: Option<usize>) -> (r: usize)
    ensures
        r as int == page_size_spec(limit, 100, 1, 500),
{
    let x = match limit {
        Some(l) => l,
        None => 100,
    };
    if x < 1 { 1 } else if x > 500 { 500 } else { x }
}

/// Cursor of the page after a note: its update time zero-padded to 20
/// characters, `:`, its id (so cursors order as the notes do).
pub open spec fn note_cursor(n: Note) -> Seq<char> {
    crate::numbers::zero_padded(n.updated_at as int, 20) + ":"@ + n.id@
}

/// A page of notes from the rows fetched (one more than the page size when a
/// next page exists).
pub fn note_page(notes: Vec<Note>, page_limit: usize, total: usize) -> (r: NotePage)
    requires
        page_limit >= 1,
    ensures
        notes@.len() > page_limit ==> r.notes@ == notes@.take(page_limit as int)
            && (r.next_cursor matches Some(c) && c@ == note_cursor(notes@[page_limit - 1])),
        notes@.len() <= page_limit ==> r.notes@ == notes@ && r.next_cursor is None,
        r.total == total,
{
    let mut notes = notes;
    if notes.len() > page_limit {
        notes.truncate(page_limit);
        let last = &notes[page_limit - 1];
        let mut cursor = crate::numbers::i64_zero_padded(last.updated_at, 20);
        crate::text::extend_str(&mut cursor, ":");
        crate::text::extend_str(&mut cursor, last.id.as_str());
        NotePage { notes, next_cursor: Some(string_from_chars(&cursor)), total }
    } else {
        NotePage { notes, next_cursor: None, total }
    }
}

/// A font the reader imported.
#[derive(Debug)]
pub struct CustomFont {
    pub id: String,
    pub family_name: String,
    pub format: String,
    pub file_size: i64,
    pub file_path: String,
    pub created_at: i64,
}

/// Whether an id can name an imported font: `custom-` and a SHA-256 hex
/// digest, 71 bytes in all.
pub open spec fn custom_font_id_spec(id: Seq<char>) -> bool {
    crate::text::starts_with(id, "custom-"@) && crate::text::utf8_len(id) == 71
}

/// Checks an imported font's id before it is deleted.
pub fn check_custom_font_id(id: &str) -> (r: Result<(), AppError>)
    ensures
        r is Ok == custom_font_id_spec(id@),
        r matches Err(e) ==> e is Other && e.message_view() == "CUSTOM_FONT_ID_INVALID"@,
{
    let v = chars_of(id);
    let prefixed = crate::text::starts_with_chars(&v, &chars_of("custom-"));
    let (p, used) = crate::chat::utf8_prefix_chars(&v, 72);
    proof {
        crate::chat::lemma_utf8_prefix(v@, 72);
    }
    let exact = p.len() == v.len() && used == 71;
    proof {
        if p.len() < v.len() {
            crate::text::lemma_weighted_len_add(v@.take(p@.len() as int + 1), v@.skip(p@.len() as int + 1), crate::text::utf8_weight());
            assert(v@.take(p@.len() as int + 1) + v@.skip(p@.len() as int + 1) =~= v@);
        } else {
            assert(p@ =~= v@);
        }
    }
    if prefixed && exact {
        Ok(())
    } else {
        Err(crate::error::other("CUSTOM_FONT_ID_INVALID"))
    }
}

/// What the marker styles use after a custom font is deleted: a marker
/// font that was the deleted one falls back to `inherit`.
pub open spec fn released_font(font: Seq<char>, id: Seq<char>) -> Seq<char> {
    if font == id { "inherit"@ } else { font }
}

/// Releases the deleted custom font `id` from the manual and automatic
/// marker styles; says whether either changed.
pub fn release_marker_fonts(manual: &mut String, automatic: &mut String, id: &str) -> (changed: bool)
    ensures
        final(manual)@ == released_font(old(manual)@, id@),
        final(automatic)@ == released_font(old(automatic)@, id@),
        changed == (old(manual)@ == id@ || old(automatic)@ == id@),
{
    let mut changed = false;
    if crate::text::str_eq(manual.as_str(), id) {
        *manual = "inherit".to_string();
        changed = true;
    }
    if crate::text::str_eq(automatic.as_str(), id) {
        *automatic = "inherit".to_string();
        changed = true;
    }
    changed
}

/// Font file extensions that can be imported.
pub open spec fn font_extension_spec(ext: Seq<char>) -> bool {
    let e = crate::text::ascii_lower_seq(ext);
    e == "ttf"@ || e == "otf"@ || e == "woff"@ || e == "woff2"@
}

/// The import format of a font file from its extension (lower-cased), or
/// `CUSTOM_FONT_FORMAT_UNSUPPORTED`.
pub fn font_format(extension: Option<&str>) -> (r: Result<String, AppError>)
    ensures
        match r {
            Ok(f) => extension matches Some(e) && font_extension_spec(e@) && f@ == crate::text::ascii_lower_seq(e@),
            Err(err) => !(extension matches Some(e) && font_extension_spec(e@)) && err is Other
                && err.message_view() == "CUSTOM_FONT_FORMAT_UNSUPPORTED"@,
        },
{
    match extension {
        Some(e) => {
            let lower = crate::text::lower_chars(&chars_of(e));
            if crate::text::chars_eq_str(&lower, "ttf") || crate::text::chars_eq_str(&lower, "otf")
                || crate::text::chars_eq_str(&lower, "woff") || crate::text::chars_eq_str(&lower, "woff2") {
                Ok(string_from_chars(&lower))
            } else {
                Err(crate::error::other("CUSTOM_FONT_FORMAT_UNSUPPORTED"))
            }
        },
        None => Err(crate::error::other("CUSTOM_FONT_FORMAT_UNSUPPORTED")),
    }
}

/// An estimated CEFR level with its range and confidence.
#[derive(Debug)]
pub struct CefrEstimate {
    pub estimated_cefr: String,
    pub lower_cefr: Option<String>,
    pub upper_cefr: Option<String>,
    pub confidence: String,
    pub mapping_version: String,
    pub needs_confirmation: bool,
}

/// The reader's combined language level from their assessments.
#[derive(Debug)]
pub struct LanguageAssessmentSummary {
    pub estimated_cefr: String,
    pub lower_cefr: Option<String>,
    pub upper_cefr: Option<String>,
    pub confidence: String,
    pub needs_confirmation: bool,
    pub assessment_count: usize,
    pub reading_assessment_count: usize,
    pub official_assessment_count: usize,
    pub latest_exam_date: Option<String>,
    pub primary_assessment_id: String,
}

/// Position of a CEFR level in `A1 .. C2`; 0 for anything else.
pub open spec fn level_index_spec(level: Seq<char>) -> int {
    if level == "A1"@ {
        0
    } else if level == "A2"@ {
        1
    } else if level == "B1"@ {
        2
    } else if level == "B2"@ {
        3
    } else if level == "C1"@ {
        4
    } else if level == "C2"@ {
        5
    } else {
        0
    }
}

/// Position of a CEFR level in `A1 .. C2`; 0 for anything else.
pub fn level_index(level: &str) -> (r: usize)
    ensures
        r as int == level_index_spec(level@),
        r <= 5,
{
    if str_eq(level, "A1") {
        0
    } else if str_eq(level, "A2") {
        1
    } else if str_eq(level, "B1") {
        2
    } else if str_eq(level, "B2") {
        3
    } else if str_eq(level, "C1") {
        4
    } else if str_eq(level, "C2") {
        5
    } else {
        0
    }
}

/// Weight of an assessment's mapping confidence.
pub open spec fn confidence_rank_spec(confidence: Seq<char>) -> int {
    if confidence == "official_band_approximation"@ {
        3
    } else if confidence == "approximate"@ {
        2
    } else {
        1
    }
}

/// Weight of an assessment's mapping confidence.
pub fn confidence_rank(confidence: &str) -> (r: usize)
    ensures
        r as int == confidence_rank_spec(confidence@),
{
    if str_eq(confidence, "official_band_approximation") {
        3
    } else if str_eq(confidence, "approximate") {
        2
    } else {
        1
    }
}

/// Whether assessments whose levels range from `lowest` to `highest`
/// disagree enough (two levels or more) to need the reader's confirmation.
pub fn levels_need_confirmation(lowest: &str, highest: &str) -> (r: bool)
    ensures
        r == (level_index_spec(lowest@) - level_index_spec(highest@) >= 2
            || level_index_spec(highest@) - level_index_spec(lowest@) >= 2),
{
    let a = level_index(lowest);
    let b = level_index(highest);
    if a >= b { a - b >= 2 } else { b - a >= 2 }
}

/// Build information of the application.
#[derive(Debug)]
pub struct BuildInfo {
    pub version: String,
    pub upstream_baseline: String,
    pub commit: String,
    pub built_at: String,
    pub channel: String,
    pub bundle_identifier: String,
    pub repository: String,
    pub upstream_repository: String,
}

/// Build information from the values fixed at build time, with the
/// application's identifier and repositories.
pub fn build_info(version: &str, upstream_baseline: &str, commit: &str, built_at: &str, channel: &str) -> (r: BuildInfo)
    ensures
        r.version@ == version@,
        r.upstream_baseline@ == upstream_baseline@,
        r.commit@ == commit@,
        r.built_at@ == built_at@,
        r.channel@ == channel@,
        r.bundle_identifier@ == "com.klaragraff.quill"@,
        r.repository@ == "https://github.com/KlaraGraff/quill"@,
        r.upstream_repository@ == "https://github.com/yicheng47/quill"@,
{
    BuildInfo {
        version: version.to_string(),
        upstream_baseline: upstream_baseline.to_string(),
        commit: commit.to_string(),
        built_at: built_at.to_string(),
        channel: channel.to_string(),
        bundle_identifier: "com.klaragraff.quill".to_string(),
        repository: "https://github.com/KlaraGraff/quill".to_string(),
        upstream_repository: "https://github.com/yicheng47/quill".to_string(),
    }
}

} // verus!
