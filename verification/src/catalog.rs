//! Listing books and looked-up words: the SQL of a filtered, searched and
//! paged list with its bound values, the page and cursor that come back,
//! and a book's cover as a data URI.

use base64::Engine;
use vstd::prelude::*;

use crate::numbers::{decimal, digit_char, digits_value, i64_decimal, int_decimal, parse_i64, parse_i64_spec};
use crate::text::{
    chars_of, extend_chars, extend_str, join_range, join_seqs, other_than, prefix_len, string_from_chars,
    trim_ws, unicode_str_lowercase, views,
};

verus! {

/// A value bound to a `?` placeholder.
#[derive(Debug, Clone, PartialEq, Eq)]
pub enum SqlValue {
    Text(String),
    Integer(i64),
}

/// Spec form of a bound value.
pub enum SqlValueView {
    Text(Seq<char>),
    Integer(int),
}

impl View for SqlValue {
    type V = SqlValueView;

    open spec fn view(&self) -> SqlValueView {
        match self {
            SqlValue::Text(s) => SqlValueView::Text(s@),
            SqlValue::Integer(i) => SqlValueView::Integer(*i as int),
        }
    }
}

/// Views of bound values.
pub open spec fn sql_values(v: Seq<SqlValue>) -> Seq<SqlValueView> {
    v.map_values(|x: SqlValue| x@)
}

/// A statement and the values of its placeholders, in order.
#[derive(Debug)]
pub struct SqlQuery {
    pub sql: String,
    pub params: Vec<SqlValue>,
}

/// ` WHERE ` and the conditions joined with ` AND `; nothing when there
/// are none.
pub open spec fn where_clause(conds: Seq<Seq<char>>) -> Seq<char> {
    if conds.len() == 0 {
        Seq::empty()
    } else {
        " WHERE "@ + join_seqs(conds, " AND "@)
    }
}

/// Computes `where_clause`.
fn where_clause_of(conds: &Vec<Vec<char>>) -> (r: Vec<char>)
    ensures
        r@ == where_clause(views(conds@)),
{
    if conds.len() == 0 {
        return Vec::new();
    }
    let mut r = chars_of(" WHERE ");
    let joined = join_range(conds, 0, conds.len(), " AND ");
    assert(views(conds@).subrange(0, conds@.len() as int) =~= views(conds@));
    extend_chars(&mut r, &joined);
    r
}

/// A list cursor `<timestamp>:<id>`: split at the first `:`, the part
/// before it read as an `i64`; `None` when there is no `:` or the number
/// does not parse.
pub open spec fn cursor_spec(c: Seq<char>) -> Option<(int, Seq<char>)> {
    let k = prefix_len(c, other_than(':'));
    if k >= c.len() {
        None
    } else {
        match parse_i64_spec(c.take(k as int)) {
            Some(ts) => Some((ts, c.skip(k as int + 1))),
            None => None,
        }
    }
}

/// Reads a list cursor `<timestamp>:<id>`.
pub fn parse_list_cursor(cursor: &str) -> (r: Option<(i64, String)>)
    ensures
        match cursor_spec(cursor@) {
            Some((ts, id)) => r matches Some((t, i)) && t as int == ts && i@ == id,
            None => r is None,
        },
{
    let v = chars_of(cursor);
    let mut k: usize = 0;
    while k < v.len() && v[k] != ':'
        invariant
            k <= v.len(),
            forall|j: int| 0 <= j < k ==> v@[j] != ':',
        decreases v.len() - k,
    {
        k += 1;
    }
    proof {
        crate::text::lemma_prefix_len(v@, other_than(':'), k as int);
    }
    if k >= v.len() {
        return None;
    }
    match parse_i64(&v[0..k]) {
        Some(ts) => {
            assert(v@.subrange(0, k as int) =~= v@.take(k as int));
            let id = string_from_chars(&v[k + 1..v.len()]);
            assert(v@.subrange(k + 1, v@.len() as int) =~= v@.skip(k + 1));
            Some((ts, id))
        },
        None => {
            assert(v@.subrange(0, k as int) =~= v@.take(k as int));
            None
        },
    }
}

/// Columns of a listed book, in the order the rows are read.
pub const BOOK_LIST_COLUMNS: &'static str = "books.id, books.title, books.author, books.description, books.cover_path, books.file_path, books.format, books.source_format, books.render_format, books.source_file_path, books.source_sha256, books.conversion_version, books.genre, books.pages, books.status, books.progress, books.current_cfi, books.created_at, books.updated_at, books.cover_data, books.preparation_state, books.preparation_error";

/// Condition of a collection filter.
pub const BOOK_COLLECTION_CONDITION: &'static str = "cb.collection_id = ?";

/// Condition of a reading-status filter.
pub const BOOK_STATUS_CONDITION: &'static str = "books.status = ?";

/// Condition of a genre filter.
pub const BOOK_GENRE_CONDITION: &'static str = "books.genre = ?";

/// Condition of a title-or-author search (two placeholders for the same
/// pattern).
pub const BOOK_SEARCH_CONDITION: &'static str = "(LOWER(books.title) LIKE ? ESCAPE '\\' OR LOWER(books.author) LIKE ? ESCAPE '\\')";

/// Condition of the page after a cursor (newest first, then by id).
pub const BOOK_CURSOR_CONDITION: &'static str = "(books.updated_at < ? OR (books.updated_at = ? AND books.id > ?))";

/// Whether a filter names a reading status.
pub open spec fn is_status_filter(f: Seq<char>) -> bool {
    f == "reading"@ || f == "finished"@ || f == "unread"@
}

/// The books a list reads from: joined with collection membership when a
/// collection is given.
pub open spec fn book_source(collection: bool) -> Seq<char> {
    if collection {
        "books INNER JOIN collection_books cb ON cb.book_id = books.id"@
    } else {
        "books"@
    }
}

/// The condition texts of a book list's filters: collection, status,
/// genre and search.
pub struct FilterTexts {
    pub collection: &'static str,
    pub status: &'static str,
    pub genre: &'static str,
    pub search: &'static str,
}

/// Conditions of a book list's filters with the given texts, in order:
/// collection, then status or genre (`all` filters nothing), then search.
pub open spec fn filter_conditions(
    collection: Option<Seq<char>>,
    filter: Option<Seq<char>>,
    pattern: Option<Seq<char>>,
    texts: FilterTexts,
) -> Seq<Seq<char>> {
    let a: Seq<Seq<char>> = if collection is Some { seq![texts.collection@] } else { Seq::empty() };
    let b: Seq<Seq<char>> = match filter {
        Some(f) => if is_status_filter(f) {
            seq![texts.status@]
        } else if f == "all"@ {
            Seq::empty()
        } else {
            seq![texts.genre@]
        },
        None => Seq::empty(),
    };
    let c: Seq<Seq<char>> = if pattern is Some { seq![texts.search@] } else { Seq::empty() };
    a + b + c
}

/// The condition texts of the paged book list.
pub open spec fn book_list_texts() -> FilterTexts {
    FilterTexts {
        collection: BOOK_COLLECTION_CONDITION,
        status: BOOK_STATUS_CONDITION,
        genre: BOOK_GENRE_CONDITION,
        search: BOOK_SEARCH_CONDITION,
    }
}

/// Conditions of a book list without its cursor, in order: collection,
/// then status or genre (`all` filters nothing), then search.
pub open spec fn book_conditions(collection: Option<Seq<char>>, filter: Option<Seq<char>>, pattern: Option<Seq<char>>) -> Seq<Seq<char>> {
    filter_conditions(collection, filter, pattern, book_list_texts())
}

/// Values of those conditions, in placeholder order.
pub open spec fn book_condition_values(collection: Option<Seq<char>>, filter: Option<Seq<char>>, pattern: Option<Seq<char>>) -> Seq<SqlValueView> {
    let a: Seq<SqlValueView> = match collection { Some(c) => seq![SqlValueView::Text(c)], None => Seq::empty() };
    let b: Seq<SqlValueView> = match filter {
        Some(f) => if f == "all"@ { Seq::empty() } else { seq![SqlValueView::Text(f)] },
        None => Seq::empty(),
    };
    let c: Seq<SqlValueView> = match pattern {
        Some(p) => seq![SqlValueView::Text(p), SqlValueView::Text(p)],
        None => Seq::empty(),
    };
    a + b + c
}

/// The cursor condition, when the cursor reads.
pub open spec fn cursor_conditions(cursor: Option<Seq<char>>, condition: Seq<char>) -> Seq<Seq<char>> {
    match cursor {
        Some(c) => if cursor_spec(c) is Some { seq![condition] } else { Seq::empty() },
        None => Seq::empty(),
    }
}

/// Values of the cursor condition: the timestamp twice, then the id.
pub open spec fn cursor_values(cursor: Option<Seq<char>>) -> Seq<SqlValueView> {
    match cursor {
        Some(c) => match cursor_spec(c) {
            Some((ts, id)) => seq![SqlValueView::Integer(ts), SqlValueView::Integer(ts), SqlValueView::Text(id)],
            None => Seq::empty(),
        },
        None => Seq::empty(),
    }
}

/// Appends one condition.
fn push_condition(conds: &mut Vec<Vec<char>>, c: &str)
    ensures
        views(final(conds)@) == views(old(conds)@).push(c@),
{
    conds.push(chars_of(c));
    assert(views(conds@) =~= views(old(conds)@).push(c@));
}

/// Appends one bound text.
fn push_text(values: &mut Vec<SqlValue>, t: &str)
    ensures
        sql_values(final(values)@) == sql_values(old(values)@).push(SqlValueView::Text(t@)),
{
    values.push(SqlValue::Text(t.to_string()));
    assert(sql_values(values@) =~= sql_values(old(values)@).push(SqlValueView::Text(t@)));
}

/// Appends one bound integer.
fn push_integer(values: &mut Vec<SqlValue>, i: i64)
    ensures
        sql_values(final(values)@) == sql_values(old(values)@).push(SqlValueView::Integer(i as int)),
{
    values.push(SqlValue::Integer(i));
    assert(sql_values(values@) =~= sql_values(old(values)@).push(SqlValueView::Integer(i as int)));
}

/// Appends the cursor condition and its values when the cursor reads.
fn push_cursor(conds: &mut Vec<Vec<char>>, values: &mut Vec<SqlValue>, cursor: Option<&str>, condition: &str)
    ensures
        views(final(conds)@) == views(old(conds)@) + cursor_conditions(crate::chat::opt_str_view(cursor), condition@),
        sql_values(final(values)@) == sql_values(old(values)@) + cursor_values(crate::chat::opt_str_view(cursor)),
{
    match cursor {
        Some(c) => match parse_list_cursor(c) {
            Some((ts, id)) => {
                push_condition(conds, condition);
                push_integer(values, ts);
                push_integer(values, ts);
                push_text(values, id.as_str());
                assert(sql_values(values@) =~= sql_values(old(values)@) + cursor_values(crate::chat::opt_str_view(cursor)));
                assert(views(conds@) =~= views(old(conds)@) + cursor_conditions(crate::chat::opt_str_view(cursor), condition@));
            },
            None => {
                assert(sql_values(values@) =~= sql_values(old(values)@) + cursor_values(crate::chat::opt_str_view(cursor)));
                assert(views(conds@) =~= views(old(conds)@) + cursor_conditions(crate::chat::opt_str_view(cursor), condition@));
            },
        },
        None => {
            assert(sql_values(values@) =~= sql_values(old(values)@) + cursor_values(crate::chat::opt_str_view(cursor)));
            assert(views(conds@) =~= views(old(conds)@) + cursor_conditions(crate::chat::opt_str_view(cursor), condition@));
        },
    }
}

/// Conditions (with the texts `texts`) and values of a book list's filters.
fn book_filters(collection_id: Option<&str>, filter: Option<&str>, search_pattern: Option<&str>, texts: &FilterTexts) -> (r: (Vec<Vec<char>>, Vec<SqlValue>))
    ensures
        views(r.0@) == filter_conditions(crate::chat::opt_str_view(collection_id), crate::chat::opt_str_view(filter), crate::chat::opt_str_view(search_pattern), *texts),
        sql_values(r.1@) == book_condition_values(crate::chat::opt_str_view(collection_id), crate::chat::opt_str_view(filter), crate::chat::opt_str_view(search_pattern)),
{
    let mut conds: Vec<Vec<char>> = Vec::new();
    let mut values: Vec<SqlValue> = Vec::new();
    let ghost c0 = views(conds@);
    let ghost v0 = sql_values(values@);
    assert(c0 =~= Seq::<Seq<char>>::empty());
    assert(v0 =~= Seq::<SqlValueView>::empty());
    if let Some(cid) = collection_id {
        push_condition(&mut conds, texts.collection);
        push_text(&mut values, cid);
    }
    let ghost c1 = views(conds@);
    let ghost v1 = sql_values(values@);
    if let Some(f) = filter {
        proof {
            reveal_strlit("reading");
            reveal_strlit("finished");
            reveal_strlit("unread");
            reveal_strlit("all");
            assert("reading"@.len() == 7 && "finished"@.len() == 8 && "unread"@.len() == 6 && "all"@.len() == 3);
        }
        if crate::text::str_eq(f, "reading") || crate::text::str_eq(f, "finished") || crate::text::str_eq(f, "unread") {
            push_condition(&mut conds, texts.status);
            push_text(&mut values, f);
            assert(f@ != "all"@);
        } else if crate::text::str_eq(f, "all") {
        } else {
            push_condition(&mut conds, texts.genre);
            push_text(&mut values, f);
        }
    }
    let ghost c2 = views(conds@);
    let ghost v2 = sql_values(values@);
    if let Some(p) = search_pattern {
        push_condition(&mut conds, texts.search);
        push_text(&mut values, p);
        push_text(&mut values, p);
    }
    proof {
        let co = crate::chat::opt_str_view(collection_id);
        let fo = crate::chat::opt_str_view(filter);
        let po = crate::chat::opt_str_view(search_pattern);
        assert(c1 =~= (if co is Some { seq![texts.collection@] } else { Seq::<Seq<char>>::empty() }));
        assert(v1 =~= (match co { Some(c) => seq![SqlValueView::Text(c)], None => Seq::<SqlValueView>::empty() }));
        assert(v2 =~= v1 + (match fo {
            Some(f) => if f == "all"@ { Seq::<SqlValueView>::empty() } else { seq![SqlValueView::Text(f)] },
            None => Seq::<SqlValueView>::empty(),
        }));
        assert(views(conds@) =~= filter_conditions(co, fo, po, *texts));
        assert(sql_values(values@) =~= book_condition_values(co, fo, po));
    }
    (conds, values)
}

/// The text of the book list's count statement.
pub open spec fn book_count_sql(collection: Option<Seq<char>>, filter: Option<Seq<char>>, pattern: Option<Seq<char>>) -> Seq<char> {
    "SELECT COUNT(*) FROM "@ + book_source(collection is Some) + where_clause(book_conditions(collection, filter, pattern))
}

/// The text of the book list's page statement.
pub open spec fn book_page_sql(collection: Option<Seq<char>>, filter: Option<Seq<char>>, pattern: Option<Seq<char>>, cursor: Option<Seq<char>>) -> Seq<char> {
    "SELECT "@ + BOOK_LIST_COLUMNS@ + " FROM "@ + book_source(collection is Some)
        + where_clause(book_conditions(collection, filter, pattern) + cursor_conditions(cursor, BOOK_CURSOR_CONDITION@))
        + " ORDER BY books.updated_at DESC, books.id ASC LIMIT ?"@
}

/// The two statements of a book list: the count of all matching books
/// (without the cursor) and the page after the cursor, newest first, one
/// more row than `limit` so that the caller can tell a next page exists.
/// `search_pattern` is the `LIKE` pattern of a non-empty search text, and
/// `None` when there is none.
pub fn book_list_queries(
    filter: Option<&str>,
    search_pattern: Option<&str>,
    collection_id: Option<&str>,
    cursor: Option<&str>,
    limit: usize,
) -> (r: (SqlQuery, SqlQuery))
    requires
        limit < i64::MAX,
    ensures
        ({
            let co = crate::chat::opt_str_view(collection_id);
            let fo = crate::chat::opt_str_view(filter);
            let po = crate::chat::opt_str_view(search_pattern);
            let cu = crate::chat::opt_str_view(cursor);
            &&& r.0.sql@ == book_count_sql(co, fo, po)
            &&& sql_values(r.0.params@) == book_condition_values(co, fo, po)
            &&& r.1.sql@ == book_page_sql(co, fo, po, cu)
            &&& sql_values(r.1.params@) == book_condition_values(co, fo, po) + cursor_values(cu)
                + seq![SqlValueView::Integer(limit + 1)]
        }),
{
    let texts = FilterTexts {
        collection: BOOK_COLLECTION_CONDITION,
        status: BOOK_STATUS_CONDITION,
        genre: BOOK_GENRE_CONDITION,
        search: BOOK_SEARCH_CONDITION,
    };
    let (conds, count_values) = book_filters(collection_id, filter, search_pattern, &texts);
    let source: &str = if collection_id.is_some() {
        "books INNER JOIN collection_books cb ON cb.book_id = books.id"
    } else {
        "books"
    };
    let mut count_sql = chars_of("SELECT COUNT(*) FROM ");
    extend_str(&mut count_sql, source);
    let count_where = where_clause_of(&conds);
    extend_chars(&mut count_sql, &count_where);
    let (mut page_conds, mut page_values) = book_filters(collection_id, filter, search_pattern, &texts);
    push_cursor(&mut page_conds, &mut page_values, cursor, BOOK_CURSOR_CONDITION);
    push_integer(&mut page_values, (limit as i64) + 1);
    let mut page_sql = chars_of("SELECT ");
    extend_str(&mut page_sql, BOOK_LIST_COLUMNS);
    extend_str(&mut page_sql, " FROM ");
    extend_str(&mut page_sql, source);
    let page_where = where_clause_of(&page_conds);
    extend_chars(&mut page_sql, &page_where);
    extend_str(&mut page_sql, " ORDER BY books.updated_at DESC, books.id ASC LIMIT ?");
    proof {
        reveal_strlit("books INNER JOIN collection_books cb ON cb.book_id = books.id");
        reveal_strlit("books");
    }
    (
        SqlQuery { sql: string_from_chars(&count_sql), params: count_values },
        SqlQuery { sql: string_from_chars(&page_sql), params: page_values },
    )
}

/// Columns of a book in the short list, in the order the rows are read
/// (the cover read as whether there is one).
pub const BOOK_LITE_COLUMNS: &'static str = "id, title, author, description, cover_path, file_path, format, source_format, render_format, source_file_path, source_sha256, conversion_version, genre, pages, status, progress, current_cfi, created_at, updated_at, (cover_data IS NOT NULL AND LENGTH(cover_data) > 0) AS has_cover, preparation_state, preparation_error";

/// The condition texts of the short book list.
pub open spec fn book_lite_texts() -> FilterTexts {
    FilterTexts {
        collection: "EXISTS (SELECT 1 FROM collection_books cb WHERE cb.book_id = books.id AND cb.collection_id = ?)",
        status: "status = ?",
        genre: "genre = ?",
        search: "(LOWER(title) LIKE ? ESCAPE '\\' OR LOWER(author) LIKE ? ESCAPE '\\')",
    }
}

/// The text of the short book list's statement.
pub open spec fn book_lite_sql(collection: Option<Seq<char>>, filter: Option<Seq<char>>, pattern: Option<Seq<char>>) -> Seq<char> {
    "SELECT "@ + BOOK_LITE_COLUMNS@ + " FROM books"@
        + where_clause(filter_conditions(collection, filter, pattern, book_lite_texts()))
        + " ORDER BY updated_at DESC LIMIT ?"@
}

/// The statement of the short book list: at most `limit` books matching
/// the filters, most recently updated first, with whether each has a
/// cover in place of the cover. `search_pattern` is the `LIKE` pattern of a
/// non-empty search text, and `None` when there is none.
pub fn book_lite_query(filter: Option<&str>, search_pattern: Option<&str>, collection_id: Option<&str>, limit: usize) -> (r: SqlQuery)
    requires
        limit <= i64::MAX,
    ensures
        ({
            let co = crate::chat::opt_str_view(collection_id);
            let fo = crate::chat::opt_str_view(filter);
            let po = crate::chat::opt_str_view(search_pattern);
            &&& r.sql@ == book_lite_sql(co, fo, po)
            &&& sql_values(r.params@) == book_condition_values(co, fo, po) + seq![SqlValueView::Integer(limit as int)]
        }),
{
    let texts = FilterTexts {
        collection: "EXISTS (SELECT 1 FROM collection_books cb WHERE cb.book_id = books.id AND cb.collection_id = ?)",
        status: "status = ?",
        genre: "genre = ?",
        search: "(LOWER(title) LIKE ? ESCAPE '\\' OR LOWER(author) LIKE ? ESCAPE '\\')",
    };
    let (conds, mut values) = book_filters(collection_id, filter, search_pattern, &texts);
    push_integer(&mut values, limit as i64);
    let mut sql = chars_of("SELECT ");
    extend_str(&mut sql, BOOK_LITE_COLUMNS);
    extend_str(&mut sql, " FROM books");
    let clause = where_clause_of(&conds);
    extend_chars(&mut sql, &clause);
    extend_str(&mut sql, " ORDER BY updated_at DESC LIMIT ?");
    SqlQuery { sql: string_from_chars(&sql), params: values }
}

/// Tables of the lookup history, with each record's book.
pub const LOOKUP_SOURCE: &'static str = "lookup_records l LEFT JOIN books b ON l.book_id = b.id";

/// Columns of a listed lookup record, in the order the rows are read.
pub const LOOKUP_LIST_COLUMNS: &'static str = "l.id, l.book_id, l.lookup_text, l.normalized_text, l.context_sentence, l.chapter, l.cfi, l.definition, l.context_explanation, l.created_at, l.last_looked_up_at, l.lookup_count, b.title";

/// Condition of a one-book filter.
pub const LOOKUP_BOOK_CONDITION: &'static str = "l.book_id = ?";

/// Condition of a search over the word, its definition, its sentence and
/// its book's title (four placeholders for the same pattern).
pub const LOOKUP_SEARCH_CONDITION: &'static str = "(LOWER(l.lookup_text) LIKE ? OR LOWER(l.definition) LIKE ? OR LOWER(COALESCE(l.context_sentence, '')) LIKE ? OR LOWER(COALESCE(b.title, '')) LIKE ?)";

/// Condition of the page after a cursor (most recent first, then by id).
pub const LOOKUP_CURSOR_CONDITION: &'static str = "(l.last_looked_up_at < ? OR (l.last_looked_up_at = ? AND l.id > ?))";

/// The search text of a lookup list: trimmed, empty when absent.
pub open spec fn lookup_search_text(search: Option<Seq<char>>) -> Seq<char> {
    match search {
        Some(s) => trim_ws(s),
        None => Seq::empty(),
    }
}

/// The `LIKE` pattern of a search text: lower-cased, between `%` signs.
pub open spec fn lookup_pattern(text: Seq<char>) -> Seq<char> {
    "%"@ + unicode_str_lowercase(text) + "%"@
}

/// The search condition, when there is a search text.
pub open spec fn lookup_search_conditions(search: Option<Seq<char>>) -> Seq<Seq<char>> {
    if lookup_search_text(search).len() > 0 { seq![LOOKUP_SEARCH_CONDITION@] } else { Seq::empty() }
}

/// Its values: the pattern four times.
pub open spec fn lookup_search_values(search: Option<Seq<char>>) -> Seq<SqlValueView> {
    let p = lookup_pattern(lookup_search_text(search));
    if lookup_search_text(search).len() > 0 {
        seq![SqlValueView::Text(p), SqlValueView::Text(p), SqlValueView::Text(p), SqlValueView::Text(p)]
    } else {
        Seq::empty()
    }
}

/// The book condition, for a non-empty book id.
pub open spec fn lookup_book_conditions(book_id: Option<Seq<char>>) -> Seq<Seq<char>> {
    match book_id {
        Some(b) => if b.len() > 0 { seq![LOOKUP_BOOK_CONDITION@] } else { Seq::empty() },
        None => Seq::empty(),
    }
}

/// Its value.
pub open spec fn lookup_book_values(book_id: Option<Seq<char>>) -> Seq<SqlValueView> {
    match book_id {
        Some(b) => if b.len() > 0 { seq![SqlValueView::Text(b)] } else { Seq::empty() },
        None => Seq::empty(),
    }
}

/// Appends the search condition and its values, when there is a search
/// text.
fn push_lookup_search(conds: &mut Vec<Vec<char>>, values: &mut Vec<SqlValue>, search: Option<&str>)
    ensures
        views(final(conds)@) == views(old(conds)@) + lookup_search_conditions(crate::chat::opt_str_view(search)),
        sql_values(final(values)@) == sql_values(old(values)@) + lookup_search_values(crate::chat::opt_str_view(search)),
{
    let text = match search {
        Some(s) => crate::text::trim(s),
        None => String::new(),
    };
    if !text.as_str().is_empty() {
        let lowered = crate::text::to_lowercase(text.as_str());
        let mut pattern = chars_of("%");
        extend_str(&mut pattern, lowered.as_str());
        extend_str(&mut pattern, "%");
        let pattern = string_from_chars(&pattern);
        push_condition(conds, LOOKUP_SEARCH_CONDITION);
        push_text(values, pattern.as_str());
        push_text(values, pattern.as_str());
        push_text(values, pattern.as_str());
        push_text(values, pattern.as_str());
    }
    assert(views(conds@) =~= views(old(conds)@) + lookup_search_conditions(crate::chat::opt_str_view(search)));
    assert(sql_values(values@) =~= sql_values(old(values)@) + lookup_search_values(crate::chat::opt_str_view(search)));
}

/// Conditions and values of the search alone.
fn lookup_search_filter(search: Option<&str>) -> (r: (Vec<Vec<char>>, Vec<SqlValue>))
    ensures
        views(r.0@) == lookup_search_conditions(crate::chat::opt_str_view(search)),
        sql_values(r.1@) == lookup_search_values(crate::chat::opt_str_view(search)),
{
    let mut conds: Vec<Vec<char>> = Vec::new();
    let mut values: Vec<SqlValue> = Vec::new();
    assert(views(conds@) =~= Seq::<Seq<char>>::empty());
    assert(sql_values(values@) =~= Seq::<SqlValueView>::empty());
    push_lookup_search(&mut conds, &mut values, search);
    assert(views(conds@) =~= lookup_search_conditions(crate::chat::opt_str_view(search)));
    assert(sql_values(values@) =~= lookup_search_values(crate::chat::opt_str_view(search)));
    (conds, values)
}

/// Conditions and values of the book filter and the search.
fn lookup_filters(search: Option<&str>, book_id: Option<&str>) -> (r: (Vec<Vec<char>>, Vec<SqlValue>))
    ensures
        views(r.0@) == lookup_book_conditions(crate::chat::opt_str_view(book_id))
            + lookup_search_conditions(crate::chat::opt_str_view(search)),
        sql_values(r.1@) == lookup_book_values(crate::chat::opt_str_view(book_id))
            + lookup_search_values(crate::chat::opt_str_view(search)),
{
    let mut conds: Vec<Vec<char>> = Vec::new();
    let mut values: Vec<SqlValue> = Vec::new();
    if let Some(b) = book_id {
        if !b.is_empty() {
            push_condition(&mut conds, LOOKUP_BOOK_CONDITION);
            push_text(&mut values, b);
        }
    }
    assert(views(conds@) =~= lookup_book_conditions(crate::chat::opt_str_view(book_id)));
    assert(sql_values(values@) =~= lookup_book_values(crate::chat::opt_str_view(book_id)));
    push_lookup_search(&mut conds, &mut values, search);
    (conds, values)
}

/// The text of the lookup list's count statement.
pub open spec fn lookup_count_sql(search: Option<Seq<char>>, book_id: Option<Seq<char>>) -> Seq<char> {
    "SELECT COUNT(*) FROM "@ + LOOKUP_SOURCE@
        + where_clause(lookup_book_conditions(book_id) + lookup_search_conditions(search))
}

/// The text of the statement that counts records per book (search only).
pub open spec fn lookup_facet_sql(search: Option<Seq<char>>) -> Seq<char> {
    "SELECT l.book_id, b.title, COUNT(*) FROM "@ + LOOKUP_SOURCE@ + where_clause(lookup_search_conditions(search))
        + " GROUP BY l.book_id, b.title ORDER BY LOWER(COALESCE(b.title, '')), l.book_id"@
}

/// The text of the lookup list's page statement.
pub open spec fn lookup_page_sql(search: Option<Seq<char>>, book_id: Option<Seq<char>>, cursor: Option<Seq<char>>) -> Seq<char> {
    "SELECT "@ + LOOKUP_LIST_COLUMNS@ + " FROM "@ + LOOKUP_SOURCE@
        + where_clause(lookup_book_conditions(book_id) + lookup_search_conditions(search)
            + cursor_conditions(cursor, LOOKUP_CURSOR_CONDITION@))
        + " ORDER BY l.last_looked_up_at DESC, l.id ASC LIMIT ?"@
}

/// The three statements of the lookup history list: the count of matching
/// records, the per-book counts under the search alone, and the page after
/// the cursor (most recent first, one more row than `page_size`).
pub fn lookup_list_queries(
    search: Option<&str>,
    book_id: Option<&str>,
    cursor: Option<&str>,
    page_size: usize,
) -> (r: (SqlQuery, SqlQuery, SqlQuery))
    requires
        page_size < i64::MAX,
    ensures
        ({
            let so = crate::chat::opt_str_view(search);
            let bo = crate::chat::opt_str_view(book_id);
            let cu = crate::chat::opt_str_view(cursor);
            &&& r.0.sql@ == lookup_count_sql(so, bo)
            &&& sql_values(r.0.params@) == lookup_book_values(bo) + lookup_search_values(so)
            &&& r.1.sql@ == lookup_facet_sql(so)
            &&& sql_values(r.1.params@) == lookup_search_values(so)
            &&& r.2.sql@ == lookup_page_sql(so, bo, cu)
            &&& sql_values(r.2.params@) == lookup_book_values(bo) + lookup_search_values(so) + cursor_values(cu)
                + seq![SqlValueView::Integer(page_size + 1)]
        }),
{
    let (conds, total_values) = lookup_filters(search, book_id);
    let mut total_sql = chars_of("SELECT COUNT(*) FROM ");
    extend_str(&mut total_sql, LOOKUP_SOURCE);
    let total_where = where_clause_of(&conds);
    extend_chars(&mut total_sql, &total_where);

    let (facet_conds, facet_values) = lookup_search_filter(search);
    let mut facet_sql = chars_of("SELECT l.book_id, b.title, COUNT(*) FROM ");
    extend_str(&mut facet_sql, LOOKUP_SOURCE);
    let facet_where = where_clause_of(&facet_conds);
    extend_chars(&mut facet_sql, &facet_where);
    extend_str(&mut facet_sql, " GROUP BY l.book_id, b.title ORDER BY LOWER(COALESCE(b.title, '')), l.book_id");

    let (mut page_conds, mut page_values) = lookup_filters(search, book_id);
    push_cursor(&mut page_conds, &mut page_values, cursor, LOOKUP_CURSOR_CONDITION);
    push_integer(&mut page_values, (page_size as i64) + 1);
    let mut page_sql = chars_of("SELECT ");
    extend_str(&mut page_sql, LOOKUP_LIST_COLUMNS);
    extend_str(&mut page_sql, " FROM ");
    extend_str(&mut page_sql, LOOKUP_SOURCE);
    let page_where = where_clause_of(&page_conds);
    extend_chars(&mut page_sql, &page_where);
    extend_str(&mut page_sql, " ORDER BY l.last_looked_up_at DESC, l.id ASC LIMIT ?");
    (
        SqlQuery { sql: string_from_chars(&total_sql), params: total_values },
        SqlQuery { sql: string_from_chars(&facet_sql), params: facet_values },
        SqlQuery { sql: string_from_chars(&page_sql), params: page_values },
    )
}

/// A book as the reader lists it.
#[derive(Debug)]
pub struct Book {
    pub id: String,
    pub title: String,
    pub author: String,
    pub description: Option<String>,
    pub cover_path: Option<String>,
    pub file_path: String,
    pub format: String,
    pub source_format: Option<String>,
    pub render_format: Option<String>,
    pub source_file_path: Option<String>,
    pub source_sha256: Option<String>,
    pub conversion_version: i32,
    pub preparation_state: String,
    pub preparation_error: Option<String>,
    pub genre: Option<String>,
    pub pages: Option<i32>,
    pub status: String,
    pub progress: i32,
    pub current_cfi: Option<String>,
    pub created_at: i64,
    pub updated_at: i64,
    /// Whether the book's file is on this device (not a cloud placeholder).
    pub available: bool,
    /// The cover image as a data URI.
    pub cover_data: Option<String>,
}

/// Whether a book's file can be read here, and its storage state.
#[derive(Debug)]
pub struct BookAvailability {
    pub status: String,
    pub available: bool,
}

/// A page of the book list, the cursor of the next page, and the number
/// of matching books.
#[derive(Debug)]
pub struct BookPage {
    pub books: Vec<Book>,
    pub next_cursor: Option<String>,
    pub total: usize,
}

/// Numbers of books in the library, being read, and finished.
#[derive(Debug, Clone, Copy, PartialEq, Eq, Structural)]
pub struct BookCounts {
    pub all: usize,
    pub reading: usize,
    pub finished: usize,
}

/// Cursor of the page after a book: `<updated at>:<id>`.
pub open spec fn book_cursor(b: Book) -> Seq<char> {
    int_decimal(b.updated_at as int) + ":"@ + b.id@
}

/// A page of the book list from the rows fetched (one more than `limit`
/// when a next page exists): the first `limit` rows, and the cursor after
/// the last of them when rows were left over.
pub fn book_page(books: Vec<Book>, limit: usize, total: usize) -> (r: BookPage)
    requires
        books@.len() > limit ==> limit >= 1,
    ensures
        books@.len() > limit ==> r.books@ == books@.take(limit as int)
            && (r.next_cursor matches Some(c) && c@ == book_cursor(books@[limit - 1])),
        books@.len() <= limit ==> r.books@ == books@ && r.next_cursor is None,
        r.total == total,
{
    let mut books = books;
    if books.len() > limit {
        books.truncate(limit);
        let last = &books[limit - 1];
        let mut cursor = i64_decimal(last.updated_at);
        extend_str(&mut cursor, ":");
        extend_str(&mut cursor, last.id.as_str());
        BookPage { books, next_cursor: Some(string_from_chars(&cursor)), total }
    } else {
        BookPage { books, next_cursor: None, total }
    }
}

/// Whether `b` starts with the bytes `p`.
pub open spec fn starts_with_bytes(b: Seq<u8>, p: Seq<u8>) -> bool {
    p.len() <= b.len() && b.take(p.len() as int) == p
}

/// The image type of a cover by its signature: PNG, JPEG, GIF or WebP,
/// PNG when none matches.
pub open spec fn cover_mime_spec(b: Seq<u8>) -> Seq<char> {
    if starts_with_bytes(b, seq![0x89u8, 0x50, 0x4E, 0x47]) {
        "image/png"@
    } else if starts_with_bytes(b, seq![0xFFu8, 0xD8, 0xFF]) {
        "image/jpeg"@
    } else if starts_with_bytes(b, seq![0x47u8, 0x49, 0x46, 0x38]) {
        "image/gif"@
    } else if b.len() > 12 && starts_with_bytes(b, seq![0x52u8, 0x49, 0x46, 0x46])
        && b.subrange(8, 12) == seq![0x57u8, 0x45, 0x42, 0x50] {
        "image/webp"@
    } else {
        "image/png"@
    }
}

/// Whether `b` starts with the bytes of `p`.
fn bytes_start_with(b: &[u8], p: &[u8]) -> (r: bool)
    ensures
        r == starts_with_bytes(b@, p@),
{
    if p.len() > b.len() {
        return false;
    }
    let mut i: usize = 0;
    while i < p.len()
        invariant
            i <= p.len() <= b.len(),
            forall|j: int| 0 <= j < i ==> b@[j] == p@[j],
        decreases p.len() - i,
    {
        if b[i] != p[i] {
            return false;
        }
        i += 1;
    }
    assert(b@.take(p.len() as int) =~= p@);
    true
}

/// Whether bytes 8 to 11 spell `WEBP`.
fn has_webp_tag(bytes: &[u8]) -> (r: bool)
    requires
        bytes.len() > 12,
    ensures
        r == (bytes@.subrange(8, 12) == seq![0x57u8, 0x45, 0x42, 0x50]),
{
    let webp: [u8; 4] = [0x57, 0x45, 0x42, 0x50];
    assert(webp@ == seq![0x57u8, 0x45, 0x42, 0x50]);
    let window = &bytes[8..12];
    assert(window@ =~= bytes@.subrange(8, 12));
    let same = bytes_start_with(window, &webp);
    assert(window@.take(4) =~= window@);
    same
}

/// The image type of a cover by its signature.
pub fn cover_mime(bytes: &[u8]) -> (r: &'static str)
    ensures
        r@ == cover_mime_spec(bytes@),
{
    let png: [u8; 4] = [0x89, 0x50, 0x4E, 0x47];
    let jpeg: [u8; 3] = [0xFF, 0xD8, 0xFF];
    let gif: [u8; 4] = [0x47, 0x49, 0x46, 0x38];
    let riff: [u8; 4] = [0x52, 0x49, 0x46, 0x46];
    assert(png@ == seq![0x89u8, 0x50, 0x4E, 0x47]);
    assert(jpeg@ == seq![0xFFu8, 0xD8, 0xFF]);
    assert(gif@ == seq![0x47u8, 0x49, 0x46, 0x38]);
    assert(riff@ == seq![0x52u8, 0x49, 0x46, 0x46]);
    proof {
        reveal_strlit("image/png");
        reveal_strlit("image/jpeg");
        reveal_strlit("image/gif");
        reveal_strlit("image/webp");
    }
    if bytes_start_with(bytes, &png) {
        "image/png"
    } else if bytes_start_with(bytes, &jpeg) {
        "image/jpeg"
    } else if bytes_start_with(bytes, &gif) {
        "image/gif"
    } else if bytes.len() > 12 && bytes_start_with(bytes, &riff) && has_webp_tag(bytes) {
        "image/webp"
    } else {
        "image/png"
    }
}

/// Character of a 6-bit value in the standard Base64 alphabet.
pub open spec fn base64_digit(v: int) -> char {
    if v < 26 {
        ('A' as int + v) as char
    } else if v < 52 {
        ('a' as int + v - 26) as char
    } else if v < 62 {
        ('0' as int + v - 52) as char
    } else if v == 62 {
        '+'
    } else {
        '/'
    }
}

/// Standard Base64 (RFC 4648 alphabet, `=` padding) of a byte sequence:
/// each group of three bytes becomes four characters; a last group of one
/// or two bytes is padded.
pub open spec fn base64_spec(b: Seq<u8>) -> Seq<char>
    decreases b.len(),
{
    if b.len() == 0 {
        Seq::empty()
    } else if b.len() == 1 {
        let n = b[0] * 65536;
        seq![base64_digit(n / 262144), base64_digit((n / 4096) % 64), '=', '=']
    } else if b.len() == 2 {
        let n = b[0] * 65536 + b[1] * 256;
        seq![base64_digit(n / 262144), base64_digit((n / 4096) % 64), base64_digit((n / 64) % 64), '=']
    } else {
        let n = b[0] * 65536 + b[1] * 256 + b[2];
        seq![base64_digit(n / 262144), base64_digit((n / 4096) % 64), base64_digit((n / 64) % 64), base64_digit(n % 64)]
            + base64_spec(b.skip(3))
    }
}

/// `base64::engine::general_purpose::STANDARD.encode`: standard Base64 with
/// padding.
#[verifier::external_body]
fn base64_encode(bytes: &[u8]) -> (r: String)
    ensures
        r@ == base64_spec(bytes@),
{
    base64::engine::general_purpose::STANDARD.encode(bytes)
}

/// A cover image as a data URI: its image type and its Base64 text.
pub fn cover_blob_to_data_uri(bytes: &[u8]) -> (r: String)
    ensures
        r@ == "data:"@ + cover_mime_spec(bytes@) + ";base64,"@ + base64_spec(bytes@),
{
    let mime = cover_mime(bytes);
    let encoded = base64_encode(bytes);
    let mut out = chars_of("data:");
    extend_str(&mut out, mime);
    extend_str(&mut out, ";base64,");
    extend_str(&mut out, encoded.as_str());
    string_from_chars(&out)
}

/// The decimal digits of `n` are ASCII digits spelling `n`.
pub proof fn lemma_decimal_digits(n: nat)
    ensures
        decimal(n).len() >= 1,
        crate::headings::all_digits(decimal(n)),
        digits_value(decimal(n)) == n,
    decreases n,
{
    if n >= 10 {
        lemma_decimal_digits(n / 10);
        let d = decimal(n);
        assert(d == decimal(n / 10) + seq![digit_char((n % 10) as int)]);
        assert(d.drop_last() =~= decimal(n / 10));
        assert forall|i: int| 0 <= i < d.len() implies crate::headings::is_digit(#[trigger] d[i]) by {
            if i < d.len() - 1 {
                assert(d[i] == decimal(n / 10)[i]);
            }
        }
        let k = (n % 10) as int;
        assert(crate::numbers::digit_value(digit_char(k)) == k);
        assert(d.last() == digit_char(k));
        assert(n == (n / 10) * 10 + n % 10) by (nonlinear_arith);
        assert(digits_value(d) == digits_value(d.drop_last()) * 10 + crate::numbers::digit_value(d.last()));
        assert(digits_value(d.drop_last()) == n / 10);
    } else {
        let d = decimal(n);
        assert(d =~= seq![digit_char(n as int)]);
        assert(d.drop_last() =~= Seq::<char>::empty());
        assert(digits_value(d.drop_last()) == 0);
        assert(crate::numbers::digit_value(digit_char(n as int)) == n);
        assert(digits_value(d) == digits_value(d.drop_last()) * 10 + crate::numbers::digit_value(d.last()));
    }
}

/// `str::parse::<i64>` reads back the decimal form of any `i64`.
pub proof fn lemma_parse_int_decimal(x: i64)
    ensures
        parse_i64_spec(int_decimal(x as int)) == Some(x as int),
{
    if x < 0 {
        let m = (-(x as int)) as nat;
        lemma_decimal_digits(m);
        let s = int_decimal(x as int);
        assert(s == seq!['-'] + decimal(m));
        assert(s.drop_first() =~= decimal(m));
    } else {
        lemma_decimal_digits(x as nat);
        let s = int_decimal(x as int);
        assert(crate::headings::is_digit(s[0]));
    }
}

/// A list cursor made from a row's timestamp and id (`<timestamp>:<id>`)
/// reads back as that timestamp and id, whatever the id holds: the next
/// page always starts after the row the cursor was made from.
pub proof fn lemma_cursor_round_trip(timestamp: i64, id: Seq<char>)
    ensures
        cursor_spec(int_decimal(timestamp as int) + ":"@ + id) == Some((timestamp as int, id)),
{
    reveal_strlit(":");
    let d = int_decimal(timestamp as int);
    let c = d + ":"@ + id;
    lemma_parse_int_decimal(timestamp);
    if timestamp < 0 {
        lemma_decimal_digits((-(timestamp as int)) as nat);
    } else {
        lemma_decimal_digits(timestamp as nat);
    }
    assert forall|j: int| 0 <= j < d.len() implies #[trigger] d[j] != ':' by {
        if timestamp < 0 {
            let m = decimal((-(timestamp as int)) as nat);
            if j > 0 {
                assert(d[j] == m[j - 1]);
                assert(crate::headings::is_digit(m[j - 1]));
            }
        } else {
            assert(crate::headings::is_digit(d[j]));
        }
    }
    assert(crate::text::is_prefix_run(c, other_than(':'), d.len() as int)) by {
        assert forall|j: int| 0 <= j < d.len() implies (other_than(':'))(#[trigger] c[j]) by {
            assert(c[j] == d[j]);
        }
        assert(c[d.len() as int] == ':');
    }
    crate::text::lemma_prefix_len(c, other_than(':'), d.len() as int);
    assert(c.take(d.len() as int) =~= d);
    assert(c.skip(d.len() as int + 1) =~= id);
}

/// The cursor of a book page reads back as its last book's position.
pub proof fn lemma_book_cursor_round_trip(b: Book)
    ensures
        cursor_spec(book_cursor(b)) == Some((b.updated_at as int, b.id@)),
{
    lemma_cursor_round_trip(b.updated_at, b.id@);
}

/// The cursor of a lookup history page reads back as its last record's
/// position.
pub proof fn lemma_lookup_cursor_round_trip(r: crate::records::LookupRecord)
    ensures
        cursor_spec(crate::records::lookup_cursor(r)) == Some((r.last_looked_up_at as int, r.id@)),
{
    lemma_cursor_round_trip(r.last_looked_up_at, r.id@);
}

} // verus!
