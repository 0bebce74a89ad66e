//! The decisions of a preparation job between its outside steps: what to
//! report when its source cannot be read, what its result comes to, and
//! how the report lands on the book table.
//!
//! A job is claimed with `claim_job`; the caller then looks up the source
//! file, asks `source_report` whether to stop there, reads and prepares the
//! source, turns the result into a report with `preparation_report` or
//! `conversion_report`, and hands the report to `report_job`, which changes
//! the book only while the job is still current.

use vstd::prelude::*;

use crate::document::{toc_leaves, toc_views, text_toc_leaf_count, TextBookDocument, TextBookTocEntry};
use crate::error::AppError;
use crate::text::chars_of;
use crate::preparation::{
    in_pipeline, job_matches, job_reported, opt_view, pipeline_row_state, transition_state, transitioned, update_current_job, BookRowView,
    BookTable, PreparationKind, PreparationSource,
};

verus! {

/// What the file system says of a source file.
#[derive(Debug, Clone, Copy, PartialEq, Eq, Structural)]
pub enum SourceAvailability {
    /// The file is on this device.
    Available,
    /// The file is a cloud placeholder; a download has to be asked for.
    CloudPlaceholder,
    /// The file is nowhere.
    Missing,
}

/// Where a job's source stands before it is read.
#[derive(Debug)]
pub enum SourceLookup {
    /// The book records no source path.
    NoPath,
    /// The recorded path could not be resolved; the message says why.
    Unresolvable(String),
    /// The path resolved to a file in this state.
    Found(SourceAvailability),
}

/// What a job reports back.
#[derive(Debug, PartialEq, Eq)]
pub enum JobReport {
    /// The prepared form is in place (with the page count of a text book).
    Ready(Option<i32>),
    /// The job waits for its source and goes back to the queue.
    Pending,
    /// The job failed with this message.
    Failed(String),
}

/// Spec form of a report: the state it sets, the error it records and the
/// page count it sets.
pub open spec fn report_fields(r: JobReport) -> (Seq<char>, Option<Seq<char>>, Option<i32>) {
    match r {
        JobReport::Ready(pages) => ("ready"@, None, pages),
        JobReport::Pending => ("pending"@, None, None),
        JobReport::Failed(m) => ("failed"@, Some(m@), None),
    }
}

/// The failure code of a job whose book records no source.
pub open spec fn missing_source_code(kind: PreparationKind) -> Seq<char> {
    match kind {
        PreparationKind::Text => "TEXT_SOURCE_MISSING"@,
        PreparationKind::Conversion => "SOURCE_MISSING"@,
    }
}

/// The failure code of a job whose source file is nowhere.
pub open spec fn unavailable_source_code(kind: PreparationKind) -> Seq<char> {
    match kind {
        PreparationKind::Text => "TEXT_SOURCE_UNAVAILABLE"@,
        PreparationKind::Conversion => "SOURCE_UNAVAILABLE"@,
    }
}

/// The report owed before the source is read: a failure without a source
/// path, with an unresolvable one or with a vanished file; back to pending
/// for a cloud placeholder; none for a file on this device.
pub open spec fn source_report_spec(kind: PreparationKind, lookup: SourceLookup) -> Option<(Seq<char>, Option<Seq<char>>, Option<i32>)> {
    match lookup {
        SourceLookup::NoPath => Some(("failed"@, Some(missing_source_code(kind)), None)),
        SourceLookup::Unresolvable(m) => Some(("failed"@, Some(m@), None)),
        SourceLookup::Found(SourceAvailability::Available) => None,
        SourceLookup::Found(SourceAvailability::CloudPlaceholder) => Some(("pending"@, None, None)),
        SourceLookup::Found(SourceAvailability::Missing) => Some(("failed"@, Some(unavailable_source_code(kind)), None)),
    }
}

/// Decides whether a job stops before reading its source, and with what
/// report.
pub fn source_report(kind: PreparationKind, lookup: SourceLookup) -> (r: Option<JobReport>)
    ensures
        match r {
            Some(rep) => source_report_spec(kind, lookup) == Some(report_fields(rep)),
            None => source_report_spec(kind, lookup) is None,
        },
{
    match lookup {
        SourceLookup::NoPath => Some(JobReport::Failed(match kind {
            PreparationKind::Text => "TEXT_SOURCE_MISSING".to_string(),
            PreparationKind::Conversion => "SOURCE_MISSING".to_string(),
        })),
        SourceLookup::Unresolvable(m) => Some(JobReport::Failed(m)),
        SourceLookup::Found(SourceAvailability::Available) => None,
        SourceLookup::Found(SourceAvailability::CloudPlaceholder) => Some(JobReport::Pending),
        SourceLookup::Found(SourceAvailability::Missing) => Some(JobReport::Failed(match kind {
            PreparationKind::Text => "TEXT_SOURCE_UNAVAILABLE".to_string(),
            PreparationKind::Conversion => "SOURCE_UNAVAILABLE".to_string(),
        })),
    }
}

/// The page count of a text book: its number of table-of-contents leaves,
/// at least 1.
pub open spec fn page_count_spec(toc: Seq<TextBookTocEntry>) -> int {
    let n = toc_leaves(toc_views(toc), toc.len() as int);
    if n < 1 { 1 } else { n as int }
}

/// The page count of a prepared text book, or `TEXT_BOOK_TOO_LARGE` when
/// it does not fit an `i32`.
pub fn document_pages(toc: &[TextBookTocEntry]) -> (r: Result<i32, AppError>)
    ensures
        match r {
            Ok(p) => p as int == page_count_spec(toc@),
            Err(e) => page_count_spec(toc@) > i32::MAX && e is Other && e.message_view() == "TEXT_BOOK_TOO_LARGE"@,
        },
{
    let leaves = text_toc_leaf_count(toc);
    let pages: usize = if leaves < 1 { 1 } else { leaves };
    if pages > 2147483647 {
        return Err(crate::error::other("TEXT_BOOK_TOO_LARGE"));
    }
    Ok(pages as i32)
}

/// The report of a text preparation: ready with the page count, or failed
/// with the message of whatever went wrong (preparing the document, or a
/// page count too large).
pub fn preparation_report(prepared: Result<TextBookDocument, AppError>) -> (r: JobReport)
    ensures
        match prepared {
            Ok(d) => if page_count_spec(d.toc@) <= i32::MAX {
                r == JobReport::Ready(Some(page_count_spec(d.toc@) as i32))
            } else {
                r matches JobReport::Failed(m) && m@ == "TEXT_BOOK_TOO_LARGE"@
            },
            Err(e) => r matches JobReport::Failed(m) && m@ == e.message_view(),
        },
{
    match prepared {
        Ok(document) => match document_pages(&document.toc) {
            Ok(pages) => JobReport::Ready(Some(pages)),
            Err(e) => JobReport::Failed(e.to_string()),
        },
        Err(e) => JobReport::Failed(e.to_string()),
    }
}

/// The report of a conversion: ready when the converter wrote its output,
/// `CONVERSION_EMPTY_OUTPUT` when it wrote nothing, or the converter's own
/// failure.
pub fn conversion_report(converted: Result<bool, AppError>) -> (r: JobReport)
    ensures
        match converted {
            Ok(true) => r == JobReport::Ready(None),
            Ok(false) => r matches JobReport::Failed(m) && m@ == "CONVERSION_EMPTY_OUTPUT"@,
            Err(e) => r matches JobReport::Failed(m) && m@ == e.message_view(),
        },
{
    match converted {
        Ok(true) => JobReport::Ready(None),
        Ok(false) => JobReport::Failed("CONVERSION_EMPTY_OUTPUT".to_string()),
        Err(e) => JobReport::Failed(e.to_string()),
    }
}

/// The state a changed book is announced with.
pub open spec fn announced(changed: bool, state: Seq<char>) -> Option<Seq<char>> {
    if changed { Some(state) } else { None }
}

/// Lands a job's report on the book table, only while the job is still
/// current (its book unchanged since the claim); gives the new state to
/// announce when the book changed.
pub fn report_job(
    books: &mut BookTable,
    kind: PreparationKind,
    book_id: &str,
    source: &PreparationSource,
    report: JobReport,
) -> (r: Option<&'static str>)
    ensures
        ({
            let (state, error, pages) = report_fields(report);
            let current = exists|i: int| 0 <= i < old(books)@.len()
                && job_matches(kind, #[trigger] old(books)@[i], book_id@, source@);
            &&& final(books)@ == job_reported(old(books)@, kind, book_id@, source@, state, error, pages)
            &&& current ==> (r matches Some(s) && s@ == state)
            &&& !current ==> r is None
        }),
{
    proof {
        reveal_strlit("ready");
        reveal_strlit("pending");
        reveal_strlit("failed");
    }
    match report {
        JobReport::Ready(pages) => {
            if update_current_job(books, kind, book_id, source, "ready", None, pages) {
                Some("ready")
            } else {
                None
            }
        },
        JobReport::Pending => {
            if update_current_job(books, kind, book_id, source, "pending", None, None) {
                Some("pending")
            } else {
                None
            }
        },
        JobReport::Failed(message) => {
            if update_current_job(books, kind, book_id, source, "failed", Some(message.as_str()), None) {
                Some("failed")
            } else {
                None
            }
        },
    }
}

/// The code the reader gets while a book's prepared form is not there yet.
pub open spec fn pending_code(kind: PreparationKind) -> Seq<char> {
    match kind {
        PreparationKind::Text => "TEXT_PREPARATION_PENDING"@,
        PreparationKind::Conversion => "CONVERSION_PENDING"@,
    }
}

/// The message the reader gets for a failed preparation: a prefix, then
/// the recorded error or `UNKNOWN`.
pub open spec fn failed_message(kind: PreparationKind, error: Option<Seq<char>>) -> Seq<char> {
    let prefix = match kind {
        PreparationKind::Text => "TEXT_PREPARATION_FAILED:"@,
        PreparationKind::Conversion => "CONVERSION_FAILED:"@,
    };
    prefix + match error {
        Some(e) => e,
        None => "UNKNOWN"@,
    }
}

/// What the reader gets when it opens a prepared book, and whether the
/// book's job has to be scheduled.
#[derive(Debug)]
pub struct ReaderOpen {
    pub result: Result<(), AppError>,
    pub schedule: bool,
}

/// What opening row `row` gives: a ready book with a usable prepared form
/// is served; a ready book whose prepared form is gone goes back to pending
/// and is scheduled; a pending book is scheduled; a failed book reports its
/// error; any other state waits.
pub open spec fn reader_open_spec(
    kind: PreparationKind,
    row: BookRowView,
    prepared_usable: bool,
    before: Seq<BookRowView>,
    after: Seq<BookRowView>,
    o: ReaderOpen,
) -> bool {
    let st = row.preparation_state;
    if st == "ready"@ && prepared_usable {
        o.result is Ok && !o.schedule && after == before
    } else if st == "ready"@ {
        &&& o.result matches Err(e) && e is Other && e.message_view() == pending_code(kind)
        &&& o.schedule
        &&& after == transitioned(before, kind, row.id, "ready"@, "pending"@, None)
    } else if st == "pending"@ {
        o.result matches Err(e) && e is Other && e.message_view() == pending_code(kind) && o.schedule && after == before
    } else if st == "failed"@ {
        &&& o.result matches Err(e) && e is Other && e.message_view() == failed_message(kind, row.preparation_error)
        &&& !o.schedule
        &&& after == before
    } else {
        o.result matches Err(e) && e is Other && e.message_view() == pending_code(kind) && !o.schedule && after == before
    }
}

/// Opens the prepared form of book `book_id` in pipeline `kind` for the
/// reader. `prepared_usable` says whether the prepared form on this device
/// is there and belongs to the book's current source (it matters only for
/// a ready book). `None` when the book is not in that pipeline.
pub fn open_prepared_book(books: &mut BookTable, kind: PreparationKind, book_id: &str, prepared_usable: bool) -> (r: Option<ReaderOpen>)
    ensures
        r is None <==> forall|i: int| 0 <= i < old(books)@.len() && (#[trigger] old(books)@[i]).id == book_id@
            ==> !in_pipeline(kind, old(books)@[i]),
        r is None ==> final(books)@ == old(books)@,
        r matches Some(o) ==> exists|i: int| 0 <= i < old(books)@.len() && (#[trigger] old(books)@[i]).id == book_id@
            && in_pipeline(kind, old(books)@[i])
            && reader_open_spec(kind, old(books)@[i], prepared_usable, old(books)@, final(books)@, o),
{
    let ghost before = books@;
    let (state, error) = match pipeline_row_state(books, kind, book_id) {
        Some(pair) => pair,
        None => return None,
    };
    let ghost i = choose|i: int| 0 <= i < before.len() && (#[trigger] before[i]).id == book_id@;
    proof {
        reveal_strlit("ready");
        reveal_strlit("pending");
        reveal_strlit("failed");
        assert(before[i].id == book_id@);
    }
    let pending = match kind {
        PreparationKind::Text => "TEXT_PREPARATION_PENDING",
        PreparationKind::Conversion => "CONVERSION_PENDING",
    };
    if crate::text::str_eq(state.as_str(), "ready") {
        if prepared_usable {
            return Some(ReaderOpen { result: Ok(()), schedule: false });
        }
        let changed = transition_state(books, kind, book_id, "ready", "pending", None);
        return Some(ReaderOpen { result: Err(crate::error::other(pending)), schedule: changed });
    }
    if crate::text::str_eq(state.as_str(), "pending") {
        return Some(ReaderOpen { result: Err(crate::error::other(pending)), schedule: true });
    }
    if crate::text::str_eq(state.as_str(), "failed") {
        let mut message = crate::text::chars_of(match kind {
            PreparationKind::Text => "TEXT_PREPARATION_FAILED:",
            PreparationKind::Conversion => "CONVERSION_FAILED:",
        });
        match &error {
            Some(e) => crate::text::extend_str(&mut message, e.as_str()),
            None => crate::text::extend_str(&mut message, "UNKNOWN"),
        }
        let message = crate::text::string_from_chars(&message);
        return Some(ReaderOpen { result: Err(AppError::Other(message)), schedule: false });
    }
    Some(ReaderOpen { result: Err(crate::error::other(pending)), schedule: false })
}

/// Whether a prepared text document read back from this device can be
/// served: written by this document version, and, when the book records a
/// source digest, made from that source.
pub open spec fn prepared_document_usable_spec(d: TextBookDocument, expected_source_sha256: Option<Seq<char>>) -> bool {
    d.version == crate::document::TEXT_DOCUMENT_VERSION && match expected_source_sha256 {
        Some(e) => opt_view(d.source_sha256) == Some(e),
        None => true,
    }
}

/// Checks a prepared text document read back from this device.
pub fn prepared_document_usable(document: &TextBookDocument, expected_source_sha256: Option<&str>) -> (r: bool)
    ensures
        r == prepared_document_usable_spec(*document, crate::chat::opt_str_view(expected_source_sha256)),
{
    if document.version != crate::document::TEXT_DOCUMENT_VERSION {
        return false;
    }
    match expected_source_sha256 {
        Some(e) => match &document.source_sha256 {
            Some(s) => crate::text::str_eq(s.as_str(), e),
            None => false,
        },
        None => true,
    }
}

/// The last line of `s` (lines split at `\n`) that is not blank, trimmed.
pub open spec fn last_nonblank_line(s: Seq<char>) -> Option<Seq<char>>
    decreases s.len(),
{
    let k = crate::text::suffix_len(s, crate::text::other_than('\n'));
    let line = crate::text::trim_ws(s.skip(s.len() - k));
    if line.len() > 0 {
        Some(line)
    } else if k >= s.len() {
        None
    } else {
        last_nonblank_line(s.take(s.len() - k - 1))
    }
}

/// Longest excerpt of a conversion tool's output kept in an error, in
/// characters.
pub const TOOL_EXCERPT_MAX_CHARS: usize = 300;

/// What a failed conversion tool said: the last non-blank line of its error
/// output, or of its standard output when the error output is blank, or
/// `no tool output`; at most 300 characters.
pub open spec fn tool_error_excerpt_spec(stdout: Seq<char>, stderr: Seq<char>) -> Seq<char> {
    let text = if crate::text::trim_ws(stderr).len() == 0 { stdout } else { stderr };
    let line = match last_nonblank_line(text) {
        Some(l) => l,
        None => "no tool output"@,
    };
    crate::chat::take_at_most(line, TOOL_EXCERPT_MAX_CHARS as int)
}

/// Finds the last non-blank line of `v`.
fn last_line_of(v: &Vec<char>) -> (r: Option<Vec<char>>)
    ensures
        match r {
            Some(l) => last_nonblank_line(v@) == Some(l@),
            None => last_nonblank_line(v@) is None,
        },
{
    let mut end: usize = v.len();
    assert(v@.take(end as int) =~= v@);
    while true
        invariant
            end <= v@.len(),
            last_nonblank_line(v@.take(end as int)) == last_nonblank_line(v@),
        decreases end,
    {
        let ghost s = v@.take(end as int);
        let mut start = end;
        while start > 0 && v[start - 1] != '\n'
            invariant
                start <= end <= v@.len(),
                forall|j: int| start <= j < end ==> v@[j] != '\n',
            decreases start,
        {
            start -= 1;
        }
        proof {
            let k = (end - start) as int;
            assert(crate::text::is_suffix_run(s, crate::text::other_than('\n'), k)) by {
                assert forall|j: int| s.len() - k <= j < s.len() implies (crate::text::other_than('\n'))(#[trigger] s[j]) by {
                    assert(s[j] == v@[j]);
                }
                if k < s.len() {
                    assert(s[s.len() - k - 1] == v@[start - 1]);
                }
            }
            crate::text::lemma_suffix_len(s, crate::text::other_than('\n'), k);
            assert(s.skip(s.len() - k) =~= v@.subrange(start as int, end as int));
        }
        let segment = crate::text::sub_vec(v, start, end);
        let (a, b) = crate::text::trim_range(&segment);
        if a < b {
            return Some(crate::text::sub_vec(&segment, a, b));
        }
        if start == 0 {
            return None;
        }
        proof {
            assert(s.take(s.len() - (end - start) - 1) =~= v@.take(start - 1));
        }
        end = start - 1;
    }
    None
}

/// The excerpt of a failed conversion tool's output kept in its error.
pub fn tool_error_excerpt(stdout: &str, stderr: &str) -> (r: String)
    ensures
        r@ == tool_error_excerpt_spec(stdout@, stderr@),
{
    let err = chars_of(stderr);
    let (a, b) = crate::text::trim_range(&err);
    let text = if a == b { chars_of(stdout) } else { err };
    let line = match last_line_of(&text) {
        Some(l) => l,
        None => chars_of("no tool output"),
    };
    let n = if line.len() <= TOOL_EXCERPT_MAX_CHARS { line.len() } else { TOOL_EXCERPT_MAX_CHARS };
    assert(line@.subrange(0, n as int) =~= crate::chat::take_at_most(line@, TOOL_EXCERPT_MAX_CHARS as int));
    crate::text::string_from_chars(&line[0..n])
}

} // verus!
