//! The crash-safe preparation state machine of text books and converted
//! books, over the library's table of book rows.
//!
//! A book whose reading form is derived from its source (a text book's
//! prepared document, or an EPUB converted from another format) moves through
//! `pending` → `preparing` → `ready` or `failed`. Every change is a
//! compare-and-set on the row's current state, so a stale worker or a
//! repeated scan never overwrites newer work.

use vstd::prelude::*;

use crate::text::{chars_of, str_eq};

verus! {

/// One book as the preparation machine sees it.
#[derive(Debug)]
pub struct BookRow {
    pub id: String,
    pub render_format: Option<String>,
    pub source_format: Option<String>,
    pub source_file_path: Option<String>,
    pub source_sha256: Option<String>,
    pub conversion_version: Option<i32>,
    pub preparation_state: String,
    pub preparation_error: Option<String>,
    pub pages: Option<i32>,
}

/// Spec form of a book row.
pub struct BookRowView {
    pub id: Seq<char>,
    pub render_format: Option<Seq<char>>,
    pub source_format: Option<Seq<char>>,
    pub source_file_path: Option<Seq<char>>,
    pub source_sha256: Option<Seq<char>>,
    pub conversion_version: Option<i32>,
    pub preparation_state: Seq<char>,
    pub preparation_error: Option<Seq<char>>,
    pub pages: Option<i32>,
}

/// View of an optional string.
pub open spec fn opt_view(o: Option<String>) -> Option<Seq<char>> {
    match o {
        Some(s) => Some(s@),
        None => None,
    }
}

/// View of an optional string slice.
pub open spec fn opt_str(o: Option<&str>) -> Option<Seq<char>> {
    match o {
        Some(s) => Some(s@),
        None => None,
    }
}

impl View for BookRow {
    type V = BookRowView;

    open spec fn view(&self) -> BookRowView {
        BookRowView {
            id: self.id@,
            render_format: opt_view(self.render_format),
            source_format: opt_view(self.source_format),
            source_file_path: opt_view(self.source_file_path),
            source_sha256: opt_view(self.source_sha256),
            conversion_version: self.conversion_version,
            preparation_state: self.preparation_state@,
            preparation_error: opt_view(self.preparation_error),
            pages: self.pages,
        }
    }
}

/// Code-point order on identifiers (the byte order of their UTF-8 form).
pub open spec fn id_less(a: Seq<char>, b: Seq<char>) -> bool
    decreases a.len(),
{
    if a.len() == 0 {
        b.len() > 0
    } else if b.len() == 0 {
        false
    } else if a[0] != b[0] {
        a[0] < b[0]
    } else {
        id_less(a.drop_first(), b.drop_first())
    }
}

pub proof fn lemma_id_less_irreflexive(a: Seq<char>)
    ensures
        !id_less(a, a),
    decreases a.len(),
{
    if a.len() > 0 {
        lemma_id_less_irreflexive(a.drop_first());
    }
}

pub proof fn lemma_id_less_transitive(a: Seq<char>, b: Seq<char>, c: Seq<char>)
    requires
        id_less(a, b),
        id_less(b, c),
    ensures
        id_less(a, c),
    decreases a.len(),
{
    if a.len() > 0 && b.len() > 0 && c.len() > 0 && a[0] == b[0] && b[0] == c[0] {
        lemma_id_less_transitive(a.drop_first(), b.drop_first(), c.drop_first());
    }
}

pub proof fn lemma_id_less_total(a: Seq<char>, b: Seq<char>)
    ensures
        a == b || id_less(a, b) || id_less(b, a),
    decreases a.len(),
{
    if a.len() > 0 && b.len() > 0 && a[0] == b[0] {
        lemma_id_less_total(a.drop_first(), b.drop_first());
        if a.drop_first() == b.drop_first() {
            assert(a =~= seq![a[0]] + a.drop_first());
            assert(b =~= seq![b[0]] + b.drop_first());
        }
    } else if a.len() == 0 && b.len() == 0 {
        assert(a =~= b);
    } else if a.len() > 0 && b.len() > 0 {
        assert(a[0] < b[0] || b[0] < a[0]);
    }
}

/// Whether `a` comes before `b` in code-point order.
pub fn chars_less(a: &[char], b: &[char]) -> (r: bool)
    ensures
        r == id_less(a@, b@),
{
    let mut i: usize = 0;
    assert(a@.skip(0) =~= a@);
    assert(b@.skip(0) =~= b@);
    while i < a.len() && i < b.len() && a[i] == b[i]
        invariant
            i <= a.len(),
            i <= b.len(),
            id_less(a@, b@) == id_less(a@.skip(i as int), b@.skip(i as int)),
        decreases a.len() - i,
    {
        proof {
            let sa = a@.skip(i as int);
            let sb = b@.skip(i as int);
            assert(sa[0] == a@[i as int]);
            assert(sb[0] == b@[i as int]);
            assert(sa.drop_first() =~= a@.skip(i + 1));
            assert(sb.drop_first() =~= b@.skip(i + 1));
        }
        i += 1;
    }
    proof {
        let sa = a@.skip(i as int);
        let sb = b@.skip(i as int);
        if i < a.len() {
            assert(sa[0] == a@[i as int]);
        }
        if i < b.len() {
            assert(sb[0] == b@[i as int]);
        }
    }
    if i == a.len() {
        i < b.len()
    } else if i == b.len() {
        false
    } else {
        a[i] < b[i]
    }
}

/// Identifiers in strictly increasing order (so also distinct).
pub open spec fn ids_sorted(rows: Seq<BookRowView>) -> bool {
    forall|i: int, j: int| 0 <= i < j < rows.len() ==> id_less(#[trigger] rows[i].id, #[trigger] rows[j].id)
}

/// The book rows, kept in identifier order.
pub struct BookTable {
    rows: Vec<BookRow>,
}

impl View for BookTable {
    type V = Seq<BookRowView>;

    closed spec fn view(&self) -> Seq<BookRowView> {
        self.rows@.map_values(|r: BookRow| r@)
    }
}

impl BookTable {
    #[verifier::type_invariant]
    closed spec fn rows_sorted(&self) -> bool {
        ids_sorted(self.rows@.map_values(|r: BookRow| r@))
    }

    /// An empty table.
    pub fn new() -> (t: BookTable)
        ensures
            t@ == Seq::<BookRowView>::empty(),
    {
        let t = BookTable { rows: Vec::new() };
        assert(t@ =~= Seq::<BookRowView>::empty());
        t
    }

    /// Number of rows.
    pub fn len(&self) -> (n: usize)
        ensures
            n == self@.len(),
    {
        self.rows.len()
    }

    /// Position of the row with identifier `id`, if any.
    pub fn position(&self, id: &str) -> (r: Option<usize>)
        ensures
            r matches Some(i) ==> i < self@.len() && self@[i as int].id == id@,
            r is None ==> forall|i: int| 0 <= i < self@.len() ==> self@[i].id != id@,
    {
        let mut i: usize = 0;
        while i < self.rows.len()
            invariant
                i <= self.rows@.len(),
                forall|k: int| 0 <= k < i ==> self.rows@[k]@.id != id@,
            decreases self.rows@.len() - i,
        {
            if str_eq(self.rows[i].id.as_str(), id) {
                return Some(i);
            }
            i += 1;
        }
        None
    }

    /// The row with identifier `id`, if any.
    pub fn get(&self, id: &str) -> (r: Option<&BookRow>)
        ensures
            r matches Some(row) ==> exists|i: int| 0 <= i < self@.len() && self@[i] == row@ && row@.id == id@,
            r is None ==> forall|i: int| 0 <= i < self@.len() ==> self@[i].id != id@,
    {
        match self.position(id) {
            Some(i) => Some(&self.rows[i]),
            None => None,
        }
    }

    /// Adds a row; refuses an identifier already present.
    pub fn insert(&mut self, row: BookRow) -> (r: bool)
        ensures
            r == (forall|i: int| 0 <= i < old(self)@.len() ==> old(self)@[i].id != row@.id),
            r ==> exists|p: int| 0 <= p <= old(self)@.len() && final(self)@ == old(self)@.insert(p, row@),
            !r ==> final(self)@ == old(self)@,
    {
        proof {
            use_type_invariant(&*self);
        }
        let ghost rows = self@;
        let key = chars_of(row.id.as_str());
        let mut p: usize = 0;
        while p < self.rows.len() && chars_less(&chars_of(self.rows[p].id.as_str()), &key)
            invariant
                p <= self.rows@.len(),
                rows == self.rows@.map_values(|r: BookRow| r@),
                key@ == row@.id,
                forall|k: int| 0 <= k < p ==> id_less(#[trigger] rows[k].id, key@),
            decreases self.rows@.len() - p,
        {
            p += 1;
        }
        if p < self.rows.len() && str_eq(self.rows[p].id.as_str(), row.id.as_str()) {
            return false;
        }
        proof {
            if p < rows.len() {
                lemma_id_less_total(rows[p as int].id, key@);
                assert(id_less(key@, rows[p as int].id));
            }
            assert forall|i: int| 0 <= i < rows.len() implies rows[i].id != row@.id by {
                if i < p {
                    lemma_id_less_irreflexive(key@);
                } else if i > p {
                    lemma_id_less_transitive(key@, rows[p as int].id, rows[i].id);
                    lemma_id_less_irreflexive(key@);
                } else {
                    lemma_id_less_irreflexive(key@);
                }
            }
            let next = rows.insert(p as int, row@);
            assert forall|i: int, j: int| 0 <= i < j < next.len() implies id_less(#[trigger] next[i].id, #[trigger] next[j].id) by {
                if j < p {
                } else if i < p && j == p {
                } else if i < p && j > p {
                    assert(next[j] == rows[j - 1]);
                    if j - 1 > p {
                        lemma_id_less_transitive(key@, rows[p as int].id, rows[j - 1].id);
                    }
                    lemma_id_less_transitive(rows[i].id, key@, rows[j - 1].id);
                } else if i == p {
                    assert(next[j] == rows[j - 1]);
                    if j - 1 > p {
                        lemma_id_less_transitive(key@, rows[p as int].id, rows[j - 1].id);
                    }
                } else {
                    assert(next[i] == rows[i - 1]);
                    assert(next[j] == rows[j - 1]);
                }
            }
        }
        let mut taken: Vec<BookRow> = Vec::new();
        std::mem::swap(&mut taken, &mut self.rows);
        taken.insert(p, row);
        assert(taken@.map_values(|r: BookRow| r@) =~= rows.insert(p as int, row@));
        self.rows = taken;
        true
    }

    /// Removes the row with identifier `id`; says whether there was one.
    pub fn remove(&mut self, id: &str) -> (r: bool)
        ensures
            r == exists|i: int| 0 <= i < old(self)@.len() && old(self)@[i].id == id@,
            r ==> exists|p: int| 0 <= p < old(self)@.len() && old(self)@[p].id == id@
                && final(self)@ == old(self)@.remove(p),
            !r ==> final(self)@ == old(self)@,
    {
        proof {
            use_type_invariant(&*self);
        }
        let ghost rows = self@;
        match self.position(id) {
            Some(p) => {
                proof {
                    let next = rows.remove(p as int);
                    assert forall|i: int, j: int| 0 <= i < j < next.len() implies id_less(#[trigger] next[i].id, #[trigger] next[j].id) by {
                        if i >= p {
                            assert(next[i] == rows[i + 1]);
                            assert(next[j] == rows[j + 1]);
                        } else if j >= p {
                            assert(next[j] == rows[j + 1]);
                        }
                    }
                }
                let mut taken: Vec<BookRow> = Vec::new();
                std::mem::swap(&mut taken, &mut self.rows);
                taken.remove(p);
                assert(taken@.map_values(|r: BookRow| r@) =~= rows.remove(p as int));
                self.rows = taken;
                true
            },
            None => false,
        }
    }
}

/// The two pipelines that derive a book's reading form from its source.
#[derive(Debug, Clone, Copy, PartialEq, Eq, Structural)]
pub enum PreparationKind {
    /// A plain-text, Markdown or HTML source prepared into a text document.
    Text,
    /// A source in another format converted into an EPUB.
    Conversion,
}

/// A text book: its reading form is a prepared text document.
pub open spec fn is_text_row(r: BookRowView) -> bool {
    r.render_format == Some("text"@)
}

/// A book read as EPUB that came from another source format.
pub open spec fn is_conversion_spec(render_format: Option<Seq<char>>, source_format: Option<Seq<char>>) -> bool {
    render_format == Some("epub"@) && source_format is Some && source_format != Some("epub"@)
}

/// Whether row `r` belongs to the pipeline `kind`.
pub open spec fn in_pipeline(kind: PreparationKind, r: BookRowView) -> bool {
    match kind {
        PreparationKind::Text => is_text_row(r),
        PreparationKind::Conversion => is_conversion_spec(r.render_format, r.source_format),
    }
}

/// Whether an optional string equals a literal.
fn opt_is(o: &Option<String>, lit: &str) -> (r: bool)
    ensures
        r == (opt_view(*o) == Some(lit@)),
{
    match o {
        Some(s) => str_eq(s.as_str(), lit),
        None => false,
    }
}

/// Whether a book renders as EPUB but was converted from another source
/// format; a missing or `epub` source format means a native EPUB.
pub fn is_conversion_book(render_format: Option<&str>, source_format: Option<&str>) -> (r: bool)
    ensures
        r == is_conversion_spec(opt_str(render_format), opt_str(source_format)),
{
    let epub_render = match render_format {
        Some(f) => str_eq(f, "epub"),
        None => false,
    };
    let converted_source = match source_format {
        Some(f) => !str_eq(f, "epub"),
        None => false,
    };
    epub_render && converted_source
}

/// Whether `row` belongs to the pipeline `kind`.
pub(crate) fn row_in_pipeline(kind: PreparationKind, row: &BookRow) -> (r: bool)
    ensures
        r == in_pipeline(kind, row@),
{
    match kind {
        PreparationKind::Text => opt_is(&row.render_format, "text"),
        PreparationKind::Conversion => {
            let epub_render = opt_is(&row.render_format, "epub");
            let converted_source = match &row.source_format {
                Some(f) => !str_eq(f.as_str(), "epub"),
                None => false,
            };
            epub_render && converted_source
        },
    }
}

/// Row `r` with a new preparation state and error.
pub open spec fn with_state(r: BookRowView, state: Seq<char>, error: Option<Seq<char>>) -> BookRowView {
    BookRowView { preparation_state: state, preparation_error: error, ..r }
}

/// Row `r` after a job reports: new state and error, and the page count
/// when one is given.
pub open spec fn with_job_result(
    r: BookRowView,
    state: Seq<char>,
    error: Option<Seq<char>>,
    pages: Option<i32>,
) -> BookRowView {
    BookRowView {
        preparation_state: state,
        preparation_error: error,
        pages: match pages {
            Some(p) => Some(p),
            None => r.pages,
        },
        ..r
    }
}

/// Whether a compare-and-set from `expected` applies to row `r`.
pub open spec fn transition_applies(kind: PreparationKind, r: BookRowView, id: Seq<char>, expected: Seq<char>) -> bool {
    r.id == id && in_pipeline(kind, r) && r.preparation_state == expected
}

/// The rows after a compare-and-set of the state of book `id`.
pub open spec fn transitioned(
    rows: Seq<BookRowView>,
    kind: PreparationKind,
    id: Seq<char>,
    expected: Seq<char>,
    next: Seq<char>,
    error: Option<Seq<char>>,
) -> Seq<BookRowView> {
    rows.map_values(|r: BookRowView| if transition_applies(kind, r, id, expected) {
        with_state(r, next, error)
    } else {
        r
    })
}

/// Copy of an optional string.
fn copy_opt(o: Option<&str>) -> (r: Option<String>)
    ensures
        opt_view(r) == opt_str(o),
{
    match o {
        Some(s) => Some(s.to_string()),
        None => None,
    }
}

/// Copy of an optional owned string.
fn clone_opt_string(o: &Option<String>) -> (r: Option<String>)
    ensures
        opt_view(r) == opt_view(*o),
{
    match o {
        Some(s) => Some(s.clone()),
        None => None,
    }
}

/// Distinct rows of a sorted table have distinct identifiers.
proof fn lemma_ids_distinct(rows: Seq<BookRowView>, i: int, j: int)
    requires
        ids_sorted(rows),
        0 <= i < rows.len(),
        0 <= j < rows.len(),
        i != j,
    ensures
        rows[i].id != rows[j].id,
{
    if i < j {
        lemma_id_less_irreflexive(rows[i].id);
    } else {
        lemma_id_less_irreflexive(rows[j].id);
    }
}

/// Compare-and-set of the preparation state of book `book_id` in pipeline
/// `kind`: the state becomes `next_state` (with `error`) only if it is
/// `expected_state`; says whether a row changed.
pub fn transition_state(
    books: &mut BookTable,
    kind: PreparationKind,
    book_id: &str,
    expected_state: &str,
    next_state: &str,
    error: Option<&str>,
) -> (changed: bool)
    ensures
        final(books)@ == transitioned(old(books)@, kind, book_id@, expected_state@, next_state@, opt_str(error)),
        changed == exists|i: int| 0 <= i < old(books)@.len()
            && transition_applies(kind, #[trigger] old(books)@[i], book_id@, expected_state@),
{
    proof {
        use_type_invariant(&*books);
    }
    let ghost rows = books@;
    let ghost target = transitioned(rows, kind, book_id@, expected_state@, next_state@, opt_str(error));
    match books.position(book_id) {
        None => {
            assert(target =~= rows);
            false
        },
        Some(p) => {
            let applies = row_in_pipeline(kind, &books.rows[p])
                && str_eq(books.rows[p].preparation_state.as_str(), expected_state);
            proof {
                assert forall|i: int| 0 <= i < rows.len() && i != p implies !transition_applies(kind, #[trigger] rows[i], book_id@, expected_state@) by {
                    lemma_ids_distinct(rows, i, p as int);
                }
            }
            if !applies {
                assert(target =~= rows);
                return false;
            }
            let mut taken: Vec<BookRow> = Vec::new();
            std::mem::swap(&mut taken, &mut books.rows);
            taken[p].preparation_state = next_state.to_string();
            taken[p].preparation_error = copy_opt(error);
            assert(taken@.map_values(|r: BookRow| r@) =~= target);
            books.rows = taken;
            true
        },
    }
}

/// Compare-and-set of a text book's preparation state.
pub fn transition_text_preparation_state(
    books: &mut BookTable,
    book_id: &str,
    expected_state: &str,
    next_state: &str,
    error: Option<&str>,
) -> (changed: bool)
    ensures
        final(books)@ == transitioned(old(books)@, PreparationKind::Text, book_id@, expected_state@, next_state@, opt_str(error)),
        changed == exists|i: int| 0 <= i < old(books)@.len()
            && transition_applies(PreparationKind::Text, #[trigger] old(books)@[i], book_id@, expected_state@),
{
    transition_state(books, PreparationKind::Text, book_id, expected_state, next_state, error)
}

/// Compare-and-set of a converted book's preparation state.
pub fn transition_conversion_state(
    books: &mut BookTable,
    book_id: &str,
    expected_state: &str,
    next_state: &str,
    error: Option<&str>,
) -> (changed: bool)
    ensures
        final(books)@ == transitioned(old(books)@, PreparationKind::Conversion, book_id@, expected_state@, next_state@, opt_str(error)),
        changed == exists|i: int| 0 <= i < old(books)@.len()
            && transition_applies(PreparationKind::Conversion, #[trigger] old(books)@[i], book_id@, expected_state@),
{
    transition_state(books, PreparationKind::Conversion, book_id, expected_state, next_state, error)
}

/// The source a preparation job started from; a job may only report back
/// while its book still has this source.
#[derive(Debug)]
pub struct PreparationSource {
    pub file_path: Option<String>,
    pub format: Option<String>,
    pub sha256: Option<String>,
    pub conversion_version: i32,
}

/// Spec form of a preparation source.
pub struct SourceView {
    pub file_path: Option<Seq<char>>,
    pub format: Option<Seq<char>>,
    pub sha256: Option<Seq<char>>,
    pub conversion_version: int,
}

impl View for PreparationSource {
    type V = SourceView;

    open spec fn view(&self) -> SourceView {
        SourceView {
            file_path: opt_view(self.file_path),
            format: opt_view(self.format),
            sha256: opt_view(self.sha256),
            conversion_version: self.conversion_version as int,
        }
    }
}

/// A missing conversion version counts as 0.
pub open spec fn version_or_zero(v: Option<i32>) -> int {
    match v {
        Some(x) => x as int,
        None => 0,
    }
}

/// Row `r` is book `id`, still preparing in pipeline `kind`, from `source`.
pub open spec fn job_matches(kind: PreparationKind, r: BookRowView, id: Seq<char>, source: SourceView) -> bool {
    &&& r.id == id
    &&& in_pipeline(kind, r)
    &&& r.preparation_state == "preparing"@
    &&& r.source_file_path == source.file_path
    &&& r.source_format == source.format
    &&& r.source_sha256 == source.sha256
    &&& version_or_zero(r.conversion_version) == source.conversion_version
}

/// Equality of two optional strings.
fn opt_eq(a: &Option<String>, b: &Option<String>) -> (r: bool)
    ensures
        r == (opt_view(*a) == opt_view(*b)),
{
    match (a, b) {
        (Some(x), Some(y)) => str_eq(x.as_str(), y.as_str()),
        (None, None) => true,
        _ => false,
    }
}

/// Whether `row` is book `book_id` still preparing from `source`.
fn row_job_matches(kind: PreparationKind, row: &BookRow, book_id: &str, source: &PreparationSource) -> (r: bool)
    ensures
        r == job_matches(kind, row@, book_id@, source@),
{
    let version: i32 = match row.conversion_version {
        Some(v) => v,
        None => 0,
    };
    str_eq(row.id.as_str(), book_id) && row_in_pipeline(kind, row)
        && str_eq(row.preparation_state.as_str(), "preparing")
        && opt_eq(&row.source_file_path, &source.file_path)
        && opt_eq(&row.source_format, &source.format)
        && opt_eq(&row.source_sha256, &source.sha256)
        && version == source.conversion_version
}

/// Whether the job for `book_id` that started from `source` is still the
/// book's current job.
pub fn job_is_current(books: &BookTable, kind: PreparationKind, book_id: &str, source: &PreparationSource) -> (r: bool)
    ensures
        r == exists|i: int| 0 <= i < books@.len() && job_matches(kind, #[trigger] books@[i], book_id@, source@),
{
    match books.position(book_id) {
        None => false,
        Some(p) => {
            proof {
                use_type_invariant(books);
                assert forall|i: int| 0 <= i < books@.len() && i != p implies !job_matches(kind, #[trigger] books@[i], book_id@, source@) by {
                    lemma_ids_distinct(books@, i, p as int);
                }
            }
            row_job_matches(kind, &books.rows[p], book_id, source)
        },
    }
}

/// Whether a text preparation job is still current.
pub fn text_preparation_job_is_current(books: &BookTable, book_id: &str, source: &PreparationSource) -> (r: bool)
    ensures
        r == exists|i: int| 0 <= i < books@.len() && job_matches(PreparationKind::Text, #[trigger] books@[i], book_id@, source@),
{
    job_is_current(books, PreparationKind::Text, book_id, source)
}

/// Whether a conversion job is still current.
pub fn conversion_job_is_current(books: &BookTable, book_id: &str, source: &PreparationSource) -> (r: bool)
    ensures
        r == exists|i: int| 0 <= i < books@.len() && job_matches(PreparationKind::Conversion, #[trigger] books@[i], book_id@, source@),
{
    job_is_current(books, PreparationKind::Conversion, book_id, source)
}

/// The rows after the job for `id` from `source` reports `state`.
pub open spec fn job_reported(
    rows: Seq<BookRowView>,
    kind: PreparationKind,
    id: Seq<char>,
    source: SourceView,
    state: Seq<char>,
    error: Option<Seq<char>>,
    pages: Option<i32>,
) -> Seq<BookRowView> {
    rows.map_values(|r: BookRowView| if job_matches(kind, r, id, source) {
        with_job_result(r, state, error, pages)
    } else {
        r
    })
}

/// Records the outcome of the job for `book_id` that started from `source`,
/// only while that job is still current; says whether a row changed.
pub fn update_current_job(
    books: &mut BookTable,
    kind: PreparationKind,
    book_id: &str,
    source: &PreparationSource,
    next_state: &str,
    error: Option<&str>,
    pages: Option<i32>,
) -> (changed: bool)
    ensures
        final(books)@ == job_reported(old(books)@, kind, book_id@, source@, next_state@, opt_str(error), pages),
        changed == exists|i: int| 0 <= i < old(books)@.len() && job_matches(kind, #[trigger] old(books)@[i], book_id@, source@),
{
    proof {
        use_type_invariant(&*books);
    }
    let ghost rows = books@;
    let ghost target = job_reported(rows, kind, book_id@, source@, next_state@, opt_str(error), pages);
    match books.position(book_id) {
        None => {
            assert(target =~= rows);
            false
        },
        Some(p) => {
            proof {
                assert forall|i: int| 0 <= i < rows.len() && i != p implies !job_matches(kind, #[trigger] rows[i], book_id@, source@) by {
                    lemma_ids_distinct(rows, i, p as int);
                }
            }
            if !row_job_matches(kind, &books.rows[p], book_id, source) {
                assert(target =~= rows);
                return false;
            }
            let mut taken: Vec<BookRow> = Vec::new();
            std::mem::swap(&mut taken, &mut books.rows);
            taken[p].preparation_state = next_state.to_string();
            taken[p].preparation_error = copy_opt(error);
            match pages {
                Some(n) => {
                    taken[p].pages = Some(n);
                },
                None => {},
            }
            assert(taken@.map_values(|r: BookRow| r@) =~= target);
            books.rows = taken;
            true
        },
    }
}

/// Records the outcome of a current text preparation job.
pub fn update_current_text_preparation_job(
    books: &mut BookTable,
    book_id: &str,
    source: &PreparationSource,
    next_state: &str,
    error: Option<&str>,
    pages: Option<i32>,
) -> (changed: bool)
    ensures
        final(books)@ == job_reported(old(books)@, PreparationKind::Text, book_id@, source@, next_state@, opt_str(error), pages),
        changed == exists|i: int| 0 <= i < old(books)@.len() && job_matches(PreparationKind::Text, #[trigger] old(books)@[i], book_id@, source@),
{
    update_current_job(books, PreparationKind::Text, book_id, source, next_state, error, pages)
}

/// Records the outcome of a current conversion job.
pub fn update_current_conversion_job(
    books: &mut BookTable,
    book_id: &str,
    source: &PreparationSource,
    next_state: &str,
    error: Option<&str>,
) -> (changed: bool)
    ensures
        final(books)@ == job_reported(old(books)@, PreparationKind::Conversion, book_id@, source@, next_state@, opt_str(error), None),
        changed == exists|i: int| 0 <= i < old(books)@.len() && job_matches(PreparationKind::Conversion, #[trigger] old(books)@[i], book_id@, source@),
{
    update_current_job(books, PreparationKind::Conversion, book_id, source, next_state, error, None)
}

/// Marks a current text preparation job ready with its page count (the
/// prepared document having been written).
pub fn publish_current_text_preparation_job(
    books: &mut BookTable,
    book_id: &str,
    source: &PreparationSource,
    pages: i32,
) -> (changed: bool)
    ensures
        final(books)@ == job_reported(old(books)@, PreparationKind::Text, book_id@, source@, "ready"@, None, Some(pages)),
        changed == exists|i: int| 0 <= i < old(books)@.len() && job_matches(PreparationKind::Text, #[trigger] old(books)@[i], book_id@, source@),
{
    update_current_job(books, PreparationKind::Text, book_id, source, "ready", None, Some(pages))
}

/// Marks a current conversion job ready (the converted EPUB being in place).
pub fn publish_current_conversion_job(books: &mut BookTable, book_id: &str, source: &PreparationSource) -> (changed: bool)
    ensures
        final(books)@ == job_reported(old(books)@, PreparationKind::Conversion, book_id@, source@, "ready"@, None, None),
        changed == exists|i: int| 0 <= i < old(books)@.len() && job_matches(PreparationKind::Conversion, #[trigger] old(books)@[i], book_id@, source@),
{
    update_current_job(books, PreparationKind::Conversion, book_id, source, "ready", None, None)
}

/// The source of row `r`, as a job snapshot.
pub open spec fn source_of(r: BookRowView) -> SourceView {
    SourceView {
        file_path: r.source_file_path,
        format: r.source_format,
        sha256: r.source_sha256,
        conversion_version: version_or_zero(r.conversion_version),
    }
}

/// Claims the pending job of `book_id` in pipeline `kind`: its state moves
/// from `pending` to `preparing` (error cleared) and the source snapshot is
/// returned; `None`, with nothing changed, when the book has no pending job.
pub fn claim_job(books: &mut BookTable, kind: PreparationKind, book_id: &str) -> (r: Option<PreparationSource>)
    ensures
        final(books)@ == transitioned(old(books)@, kind, book_id@, "pending"@, "preparing"@, None),
        r is Some == exists|i: int| 0 <= i < old(books)@.len()
            && transition_applies(kind, #[trigger] old(books)@[i], book_id@, "pending"@),
        r matches Some(src) ==> exists|i: int| 0 <= i < old(books)@.len()
            && transition_applies(kind, #[trigger] old(books)@[i], book_id@, "pending"@)
            && src@ == source_of(old(books)@[i]),
{
    let ghost rows = books@;
    if !transition_state(books, kind, book_id, "pending", "preparing", None) {
        return None;
    }
    match books.position(book_id) {
        Some(p) => {
            let row = &books.rows[p];
            let version: i32 = match row.conversion_version {
                Some(v) => v,
                None => 0,
            };
            let src = PreparationSource {
                file_path: clone_opt_string(&row.source_file_path),
                format: clone_opt_string(&row.source_format),
                sha256: clone_opt_string(&row.source_sha256),
                conversion_version: version,
            };
            proof {
                use_type_invariant(&*books);
                let i = choose|i: int| 0 <= i < rows.len() && transition_applies(kind, #[trigger] rows[i], book_id@, "pending"@);
                if i != p {
                    lemma_ids_distinct(books@, i, p as int);
                }
                assert(books@[p as int] == with_state(rows[p as int], "preparing"@, None));
            }
            Some(src)
        },
        None => {
            proof {
                let i = choose|i: int| 0 <= i < rows.len() && transition_applies(kind, #[trigger] rows[i], book_id@, "pending"@);
                assert(books@[i].id == book_id@);
            }
            None
        },
    }
}

/// The preparation state and error of book `book_id` when it belongs to
/// pipeline `kind`; `None` when there is no such book in that pipeline.
pub fn pipeline_row_state(books: &BookTable, kind: PreparationKind, book_id: &str) -> (r: Option<(String, Option<String>)>)
    ensures
        r is None ==> forall|i: int| 0 <= i < books@.len() && (#[trigger] books@[i]).id == book_id@ ==> !in_pipeline(kind, books@[i]),
        r matches Some((state, error)) ==> exists|i: int| 0 <= i < books@.len() && (#[trigger] books@[i]).id == book_id@,
        r matches Some((state, error)) ==> forall|i: int| 0 <= i < books@.len() && (#[trigger] books@[i]).id == book_id@
            ==> in_pipeline(kind, books@[i]) && books@[i].preparation_state == state@ && books@[i].preparation_error == opt_view(error),
{
    proof {
        use_type_invariant(books);
    }
    match books.position(book_id) {
        None => None,
        Some(p) => {
            proof {
                assert forall|i: int| 0 <= i < books@.len() && (#[trigger] books@[i]).id == book_id@ implies i == p by {
                    if i != p {
                        lemma_ids_distinct(books@, i, p as int);
                    }
                }
            }
            let row = &books.rows[p];
            if !row_in_pipeline(kind, row) {
                return None;
            }
            Some((row.preparation_state.clone(), clone_opt_string(&row.preparation_error)))
        },
    }
}

/// Row `r` after an interrupted job of pipeline `kind` is put back to
/// `pending` (error cleared).
pub open spec fn recover_row(kind: PreparationKind, r: BookRowView) -> BookRowView {
    if in_pipeline(kind, r) && r.preparation_state == "preparing"@ {
        with_state(r, "pending"@, None)
    } else {
        r
    }
}

/// The rows after every interrupted job of pipeline `kind` is put back to
/// `pending`.
pub open spec fn recovered(rows: Seq<BookRowView>, kind: PreparationKind) -> Seq<BookRowView> {
    rows.map_values(|r: BookRowView| recover_row(kind, r))
}

/// Whether row `r` waits for a job of pipeline `kind`.
pub open spec fn is_pending(kind: PreparationKind, r: BookRowView) -> bool {
    in_pipeline(kind, r) && r.preparation_state == "pending"@
}

/// Identifiers of the rows waiting in pipeline `kind`, in table order.
pub open spec fn pending_ids(rows: Seq<BookRowView>, kind: PreparationKind) -> Seq<Seq<char>> {
    rows.filter(|r: BookRowView| is_pending(kind, r)).map_values(|r: BookRowView| r.id)
}

/// Identifiers in strictly increasing order.
pub open spec fn ids_increasing(ids: Seq<Seq<char>>) -> bool {
    forall|a: int, b: int| 0 <= a < b < ids.len() ==> id_less(#[trigger] ids[a], #[trigger] ids[b])
}

/// Views of a sequence of strings.
pub open spec fn string_views(v: Seq<String>) -> Seq<Seq<char>> {
    v.map_values(|s: String| s@)
}

/// Puts every interrupted job of pipeline `kind` back to `pending`.
fn reset_interrupted_jobs(books: &mut BookTable, kind: PreparationKind)
    ensures
        final(books)@ == recovered(old(books)@, kind),
{
    proof {
        use_type_invariant(&*books);
    }
    let ghost rows = books@;
    let mut taken: Vec<BookRow> = Vec::new();
    std::mem::swap(&mut taken, &mut books.rows);
    assert(taken@.map_values(|r: BookRow| r@) == rows);
    let mut i: usize = 0;
    while i < taken.len()
        invariant
            i <= taken@.len(),
            taken@.len() == rows.len(),
            forall|k: int| 0 <= k < i ==> (#[trigger] taken@[k])@ == recover_row(kind, rows[k]),
            forall|k: int| i <= k < taken@.len() ==> (#[trigger] taken@[k])@ == rows[k],
        decreases taken@.len() - i,
    {
        if row_in_pipeline(kind, &taken[i]) && str_eq(taken[i].preparation_state.as_str(), "preparing") {
            taken[i].preparation_state = "pending".to_string();
            taken[i].preparation_error = None;
        }
        i += 1;
    }
    assert(taken@.map_values(|r: BookRow| r@) =~= recovered(rows, kind));
    books.rows = taken;
}

/// Identifiers of the books waiting in pipeline `kind`, in identifier
/// order, after first putting interrupted jobs back to `pending` when
/// `recover_interrupted` is set.
pub fn pending_book_ids(books: &mut BookTable, kind: PreparationKind, recover_interrupted: bool) -> (ids: Vec<String>)
    ensures
        final(books)@ == if recover_interrupted { recovered(old(books)@, kind) } else { old(books)@ },
        string_views(ids@) == pending_ids(final(books)@, kind),
        ids_increasing(string_views(ids@)),
{
    if recover_interrupted {
        reset_interrupted_jobs(books, kind);
    }
    proof {
        use_type_invariant(&*books);
    }
    let ghost rows = books@;
    let ghost pred = |r: BookRowView| is_pending(kind, r);
    let ghost idf = |r: BookRowView| r.id;
    let mut ids: Vec<String> = Vec::new();
    let mut i: usize = 0;
    assert(rows.take(0).filter(pred) =~= Seq::<BookRowView>::empty()) by {
        reveal(Seq::filter);
    }
    assert(string_views(ids@) =~= Seq::<Seq<char>>::empty());
    while i < books.rows.len()
        invariant
            i <= rows.len(),
            rows == books@,
            books.rows@.len() == rows.len(),
            ids_sorted(rows),
            pred == (|r: BookRowView| is_pending(kind, r)),
            idf == (|r: BookRowView| r.id),
            string_views(ids@) == rows.take(i as int).filter(pred).map_values(idf),
            ids_increasing(string_views(ids@)),
            forall|a: int, k: int| 0 <= a < ids@.len() && i <= k < rows.len()
                ==> id_less(#[trigger] string_views(ids@)[a], #[trigger] rows[k].id),
        decreases rows.len() - i,
    {
        let ghost before = rows.take(i as int).filter(pred);
        proof {
            reveal(Seq::filter);
            assert(rows.take(i + 1).drop_last() =~= rows.take(i as int));
            assert(rows.take(i + 1).last() == rows[i as int]);
            assert(books.rows@[i as int]@ == rows[i as int]);
        }
        let row = &books.rows[i];
        if row_in_pipeline(kind, row) && str_eq(row.preparation_state.as_str(), "pending") {
            let ghost old_ids = string_views(ids@);
            ids.push(row.id.clone());
            proof {
                assert(string_views(ids@) =~= old_ids.push(rows[i as int].id));
                assert(before.push(rows[i as int]).map_values(idf) =~= before.map_values(idf).push(rows[i as int].id));
                assert forall|a: int, k: int| 0 <= a < ids@.len() && i + 1 <= k < rows.len()
                    implies id_less(#[trigger] string_views(ids@)[a], #[trigger] rows[k].id) by {
                    if a < old_ids.len() {
                        lemma_id_less_transitive(old_ids[a], rows[i as int].id, rows[k].id);
                    }
                }
            }
        }
        i += 1;
    }
    assert(rows.take(rows.len() as int) =~= rows);
    ids
}

/// Identifiers of the text books waiting for preparation.
pub fn pending_text_book_ids(books: &mut BookTable, recover_interrupted: bool) -> (ids: Vec<String>)
    ensures
        final(books)@ == if recover_interrupted { recovered(old(books)@, PreparationKind::Text) } else { old(books)@ },
        string_views(ids@) == pending_ids(final(books)@, PreparationKind::Text),
        ids_increasing(string_views(ids@)),
{
    pending_book_ids(books, PreparationKind::Text, recover_interrupted)
}

/// Identifiers of the converted books waiting for conversion.
pub fn pending_conversion_book_ids(books: &mut BookTable, recover_interrupted: bool) -> (ids: Vec<String>)
    ensures
        final(books)@ == if recover_interrupted { recovered(old(books)@, PreparationKind::Conversion) } else { old(books)@ },
        string_views(ids@) == pending_ids(final(books)@, PreparationKind::Conversion),
        ids_increasing(string_views(ids@)),
{
    pending_book_ids(books, PreparationKind::Conversion, recover_interrupted)
}

/// At start-up: puts text preparations interrupted by a previous run back to
/// `pending` and returns every text book to prepare, in identifier order
/// (the caller starts one job per book).
pub fn resume_interrupted_text_book_preparations(books: &mut BookTable) -> (ids: Vec<String>)
    ensures
        final(books)@ == recovered(old(books)@, PreparationKind::Text),
        string_views(ids@) == pending_ids(final(books)@, PreparationKind::Text),
        ids_increasing(string_views(ids@)),
{
    pending_book_ids(books, PreparationKind::Text, true)
}

/// The text books waiting for preparation, in identifier order; jobs in
/// progress are left alone.
pub fn schedule_pending_text_book_preparations(books: &mut BookTable) -> (ids: Vec<String>)
    ensures
        final(books)@ == old(books)@,
        string_views(ids@) == pending_ids(old(books)@, PreparationKind::Text),
        ids_increasing(string_views(ids@)),
{
    pending_book_ids(books, PreparationKind::Text, false)
}

/// At start-up: puts conversions interrupted by a previous run back to
/// `pending` and returns every book to convert, in identifier order.
pub fn resume_interrupted_book_conversions(books: &mut BookTable) -> (ids: Vec<String>)
    ensures
        final(books)@ == recovered(old(books)@, PreparationKind::Conversion),
        string_views(ids@) == pending_ids(final(books)@, PreparationKind::Conversion),
        ids_increasing(string_views(ids@)),
{
    pending_book_ids(books, PreparationKind::Conversion, true)
}

/// The books waiting for conversion, in identifier order; conversions in
/// progress are left alone.
pub fn schedule_pending_book_conversions(books: &mut BookTable) -> (ids: Vec<String>)
    ensures
        final(books)@ == old(books)@,
        string_views(ids@) == pending_ids(old(books)@, PreparationKind::Conversion),
        ids_increasing(string_views(ids@)),
{
    pending_book_ids(books, PreparationKind::Conversion, false)
}

/// A state change is a compare-and-set: once it has been applied, repeating
/// it matches no row and leaves every row as it is.
pub proof fn lemma_transition_applies_once(
    rows: Seq<BookRowView>,
    kind: PreparationKind,
    id: Seq<char>,
    expected: Seq<char>,
    next: Seq<char>,
    error: Option<Seq<char>>,
)
    requires
        expected != next,
    ensures
        ({
            let after = transitioned(rows, kind, id, expected, next, error);
            &&& forall|i: int| 0 <= i < after.len() ==> !transition_applies(kind, #[trigger] after[i], id, expected)
            &&& transitioned(after, kind, id, expected, next, error) == after
        }),
{
    let after = transitioned(rows, kind, id, expected, next, error);
    assert forall|i: int| 0 <= i < after.len() implies !transition_applies(kind, #[trigger] after[i], id, expected) by {
        assert(after[i] == (if transition_applies(kind, rows[i], id, expected) {
            with_state(rows[i], next, error)
        } else {
            rows[i]
        }));
    }
    assert(transitioned(after, kind, id, expected, next, error) =~= after);
}

/// Putting interrupted jobs back to `pending` twice is the same as once.
pub proof fn lemma_recovery_idempotent(rows: Seq<BookRowView>, kind: PreparationKind)
    ensures
        recovered(recovered(rows, kind), kind) == recovered(rows, kind),
{
    assert(recovered(recovered(rows, kind), kind) =~= recovered(rows, kind));
}

/// A job claimed from `pending` is current for the source it was claimed
/// with, until something else changes the row.
pub proof fn lemma_claimed_job_is_current(
    rows: Seq<BookRowView>,
    kind: PreparationKind,
    id: Seq<char>,
    i: int,
)
    requires
        0 <= i < rows.len(),
        transition_applies(kind, rows[i], id, "pending"@),
    ensures
        job_matches(kind, transitioned(rows, kind, id, "pending"@, "preparing"@, None)[i], id, source_of(rows[i])),
{
}

/// A job whose source no longer matches its book's row leaves every row
/// unchanged, whatever it reports.
pub proof fn lemma_stale_job_changes_nothing(
    rows: Seq<BookRowView>,
    kind: PreparationKind,
    id: Seq<char>,
    source: SourceView,
    state: Seq<char>,
    error: Option<Seq<char>>,
    pages: Option<i32>,
)
    requires
        forall|i: int| 0 <= i < rows.len() ==> !job_matches(kind, #[trigger] rows[i], id, source),
    ensures
        job_reported(rows, kind, id, source, state, error, pages) == rows,
{
    assert(job_reported(rows, kind, id, source, state, error, pages) =~= rows);
}

/// A pipeline never changes a book outside it (for the conversion
/// pipeline: a native EPUB, or a book read in another form): no
/// compare-and-set, no job report and no recovery touches its row, and it
/// is never listed as waiting.
pub proof fn lemma_outside_pipeline_untouched(
    rows: Seq<BookRowView>,
    kind: PreparationKind,
    i: int,
    id: Seq<char>,
    expected: Seq<char>,
    next: Seq<char>,
    error: Option<Seq<char>>,
    source: SourceView,
    pages: Option<i32>,
)
    requires
        0 <= i < rows.len(),
        !in_pipeline(kind, rows[i]),
    ensures
        transitioned(rows, kind, id, expected, next, error)[i] == rows[i],
        job_reported(rows, kind, id, source, next, error, pages)[i] == rows[i],
        recovered(rows, kind)[i] == rows[i],
        !is_pending(kind, rows[i]),
{
}

/// A job reports at most once: once its report has moved the book out of
/// `preparing`, reporting again from the same source changes nothing.
pub proof fn lemma_job_reports_once(
    rows: Seq<BookRowView>,
    kind: PreparationKind,
    id: Seq<char>,
    source: SourceView,
    state: Seq<char>,
    error: Option<Seq<char>>,
    pages: Option<i32>,
    state2: Seq<char>,
    error2: Option<Seq<char>>,
    pages2: Option<i32>,
)
    requires
        state != "preparing"@,
    ensures
        ({
            let after = job_reported(rows, kind, id, source, state, error, pages);
            job_reported(after, kind, id, source, state2, error2, pages2) == after
        }),
{
    let after = job_reported(rows, kind, id, source, state, error, pages);
    assert forall|i: int| 0 <= i < after.len() implies !job_matches(kind, #[trigger] after[i], id, source) by {
        if job_matches(kind, rows[i], id, source) {
            assert(after[i].preparation_state == state);
        } else {
            assert(after[i] == rows[i]);
        }
    }
    lemma_stale_job_changes_nothing(after, kind, id, source, state2, error2, pages2);
}

} // verus!
