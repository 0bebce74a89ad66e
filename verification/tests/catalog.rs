use quill::chat::IndexStatus;
use quill::records::{index_update_result, index_update_steps, note_search_pattern, prune_cutoff, release_marker_fonts, retention_days};
use quill::catalog::{
    book_lite_query, book_list_queries, book_page, cover_blob_to_data_uri, lookup_list_queries, parse_list_cursor,
    Book, SqlValue, BOOK_LITE_COLUMNS, BOOK_LIST_COLUMNS, BOOK_SEARCH_CONDITION, LOOKUP_LIST_COLUMNS,
    LOOKUP_SEARCH_CONDITION,
};

fn text(value: &str) -> SqlValue {
    SqlValue::Text(value.to_string())
}

#[test]
fn unfiltered_book_list_reads_everything_newest_first() {
    let (count, page) = book_list_queries(None, None, None, None, 20);
    assert_eq!(count.sql, "SELECT COUNT(*) FROM books");
    assert!(count.params.is_empty());
    assert_eq!(
        page.sql,
        format!("SELECT {BOOK_LIST_COLUMNS} FROM books ORDER BY books.updated_at DESC, books.id ASC LIMIT ?")
    );
    assert_eq!(page.params, vec![SqlValue::Integer(21)]);
}

#[test]
fn book_list_combines_collection_status_search_and_cursor() {
    let (count, page) =
        book_list_queries(Some("reading"), Some("%dune%"), Some("c1"), Some("1700:b9"), 10);
    let source = "books INNER JOIN collection_books cb ON cb.book_id = books.id";
    let filters = format!("cb.collection_id = ? AND books.status = ? AND {BOOK_SEARCH_CONDITION}");
    assert_eq!(count.sql, format!("SELECT COUNT(*) FROM {source} WHERE {filters}"));
    assert_eq!(
        count.params,
        vec![text("c1"), text("reading"), text("%dune%"), text("%dune%")]
    );
    assert_eq!(
        page.sql,
        format!(
            "SELECT {BOOK_LIST_COLUMNS} FROM {source} WHERE {filters} AND (books.updated_at < ? OR (books.updated_at = ? AND books.id > ?)) ORDER BY books.updated_at DESC, books.id ASC LIMIT ?"
        )
    );
    assert_eq!(
        page.params,
        vec![
            text("c1"),
            text("reading"),
            text("%dune%"),
            text("%dune%"),
            SqlValue::Integer(1700),
            SqlValue::Integer(1700),
            text("b9"),
            SqlValue::Integer(11),
        ]
    );
}

#[test]
fn book_list_filters_by_genre_and_ignores_all_and_bad_cursors() {
    let (count, page) = book_list_queries(Some("fantasy"), None, None, Some("soon:x"), 5);
    assert_eq!(count.sql, "SELECT COUNT(*) FROM books WHERE books.genre = ?");
    assert_eq!(count.params, vec![text("fantasy")]);
    assert!(!page.sql.contains("updated_at <"));
    assert_eq!(page.params, vec![text("fantasy"), SqlValue::Integer(6)]);

    let (count, page) = book_list_queries(Some("all"), None, None, Some("12"), 5);
    assert_eq!(count.sql, "SELECT COUNT(*) FROM books");
    assert_eq!(page.params, vec![SqlValue::Integer(6)]);
}

#[test]
fn list_cursors_split_at_the_first_colon() {
    assert_eq!(parse_list_cursor("1700:a:b"), Some((1700, "a:b".to_string())));
    assert_eq!(parse_list_cursor("-5:id"), Some((-5, "id".to_string())));
    assert_eq!(parse_list_cursor("+7:"), Some((7, String::new())));
    assert_eq!(parse_list_cursor("12"), None);
    assert_eq!(parse_list_cursor("1.5:x"), None);
    assert_eq!(parse_list_cursor(":x"), None);
    assert_eq!(parse_list_cursor("99999999999999999999:x"), None);
}

fn book(id: &str, updated_at: i64) -> Book {
    Book {
        id: id.to_string(),
        title: "Title".to_string(),
        author: "Author".to_string(),
        description: None,
        cover_path: None,
        file_path: format!("books/{id}.epub"),
        format: "epub".to_string(),
        source_format: None,
        render_format: None,
        source_file_path: None,
        source_sha256: None,
        conversion_version: 0,
        preparation_state: "ready".to_string(),
        preparation_error: None,
        genre: None,
        pages: None,
        status: "unread".to_string(),
        progress: 0,
        current_cfi: None,
        created_at: updated_at,
        updated_at,
        available: true,
        cover_data: None,
    }
}

#[test]
fn book_pages_keep_the_limit_and_point_past_the_last_row() {
    let page = book_page(vec![book("a", 30), book("b", 20), book("c", 10)], 2, 7);
    assert_eq!(page.books.iter().map(|b| b.id.as_str()).collect::<Vec<_>>(), ["a", "b"]);
    assert_eq!(page.next_cursor.as_deref(), Some("20:b"));
    assert_eq!(page.total, 7);

    let last = book_page(vec![book("a", -3)], 2, 1);
    assert_eq!(last.books.len(), 1);
    assert_eq!(last.next_cursor, None);
}

#[test]
fn covers_become_data_uris_by_signature() {
    assert_eq!(cover_blob_to_data_uri(b"\x89PNG\r\n"), "data:image/png;base64,iVBORw0K");
    assert_eq!(cover_blob_to_data_uri(b"\xff\xd8\xff"), "data:image/jpeg;base64,/9j/");
    assert_eq!(cover_blob_to_data_uri(b"GIF8"), "data:image/gif;base64,R0lGOA==");
    assert_eq!(
        cover_blob_to_data_uri(b"RIFF\x00\x00\x00\x00WEBPx"),
        "data:image/webp;base64,UklGRgAAAABXRUJQeA=="
    );
    assert_eq!(cover_blob_to_data_uri(b"hello"), "data:image/png;base64,aGVsbG8=");
    assert_eq!(cover_blob_to_data_uri(b""), "data:image/png;base64,");
}

#[test]
fn lookup_list_searches_lowercased_and_pages_after_the_cursor() {
    let (total, facets, page) =
        lookup_list_queries(Some("  HeLLo "), Some("b1"), Some("1000:r2"), 50);
    let source = "lookup_records l LEFT JOIN books b ON l.book_id = b.id";
    let pattern = text("%hello%");
    assert_eq!(
        total.sql,
        format!("SELECT COUNT(*) FROM {source} WHERE l.book_id = ? AND {LOOKUP_SEARCH_CONDITION}")
    );
    assert_eq!(
        total.params,
        vec![text("b1"), pattern.clone(), pattern.clone(), pattern.clone(), pattern.clone()]
    );
    assert_eq!(
        facets.sql,
        format!("SELECT l.book_id, b.title, COUNT(*) FROM {source} WHERE {LOOKUP_SEARCH_CONDITION} GROUP BY l.book_id, b.title ORDER BY LOWER(COALESCE(b.title, '')), l.book_id")
    );
    assert_eq!(facets.params.len(), 4);
    assert_eq!(
        page.sql,
        format!("SELECT {LOOKUP_LIST_COLUMNS} FROM {source} WHERE l.book_id = ? AND {LOOKUP_SEARCH_CONDITION} AND (l.last_looked_up_at < ? OR (l.last_looked_up_at = ? AND l.id > ?)) ORDER BY l.last_looked_up_at DESC, l.id ASC LIMIT ?")
    );
    assert_eq!(page.params.len(), 9);
    assert_eq!(page.params[5], SqlValue::Integer(1000));
    assert_eq!(page.params[7], text("r2"));
    assert_eq!(page.params[8], SqlValue::Integer(51));
}

#[test]
fn lookup_list_without_search_or_book_has_no_conditions() {
    let (total, facets, page) = lookup_list_queries(Some("   "), Some(""), None, 1);
    assert_eq!(
        total.sql,
        "SELECT COUNT(*) FROM lookup_records l LEFT JOIN books b ON l.book_id = b.id"
    );
    assert!(total.params.is_empty());
    assert!(!facets.sql.contains("WHERE"));
    assert_eq!(page.params, vec![SqlValue::Integer(2)]);
}

#[test]
fn page_cursors_read_back_as_the_last_row() {
    for (updated_at, id) in [(20, "b"), (-7, "x:y"), (i64::MIN, ""), (i64::MAX, "id")] {
        let page = book_page(vec![book(id, updated_at), book("next", 0)], 1, 2);
        let cursor = page.next_cursor.unwrap();
        assert_eq!(parse_list_cursor(&cursor), Some((updated_at, id.to_string())));
    }
}

#[test]
fn lookup_retention_is_a_positive_day_count() {
    assert_eq!(retention_days(Some("30")), Some(30));
    assert_eq!(retention_days(Some("0")), None);
    assert_eq!(retention_days(Some("-4")), None);
    assert_eq!(retention_days(Some("soon")), None);
    assert_eq!(retention_days(None), None);
    assert_eq!(prune_cutoff(1_000_000_000_000, 2), 1_000_000_000_000 - 172_800_000);
    assert_eq!(prune_cutoff(5, i64::MAX), 5 - i64::MAX);
}

#[test]
fn note_search_patterns_are_trimmed_and_lowercased() {
    assert_eq!(note_search_pattern(Some("  Whale ")), Some("%whale%".to_string()));
    assert_eq!(note_search_pattern(Some("   ")), None);
    assert_eq!(note_search_pattern(None), None);
}

#[test]
fn short_book_list_filters_in_order_and_limits() {
    let query = book_lite_query(Some("sci-fi"), Some("%dune%"), Some("c1"), 5);
    assert_eq!(
        query.sql,
        format!(
            "SELECT {BOOK_LITE_COLUMNS} FROM books WHERE EXISTS (SELECT 1 FROM collection_books cb WHERE cb.book_id = books.id AND cb.collection_id = ?) AND genre = ? AND (LOWER(title) LIKE ? ESCAPE '\\' OR LOWER(author) LIKE ? ESCAPE '\\') ORDER BY updated_at DESC LIMIT ?"
        )
    );
    assert_eq!(
        query.params,
        vec![text("c1"), text("sci-fi"), text("%dune%"), text("%dune%"), SqlValue::Integer(5)]
    );
    let all = book_lite_query(Some("all"), None, None, 3);
    assert_eq!(all.sql, format!("SELECT {BOOK_LITE_COLUMNS} FROM books ORDER BY updated_at DESC LIMIT ?"));
    assert_eq!(all.params, vec![SqlValue::Integer(3)]);
    let reading = book_lite_query(Some("reading"), None, None, 3);
    assert!(reading.sql.contains(" WHERE status = ? ORDER BY"));
}

#[test]
fn index_update_fills_embeddings_and_summaries_only_when_ready() {
    assert_eq!(index_update_steps(IndexStatus::Ready, true, false, true, false), (true, false));
    assert_eq!(index_update_steps(IndexStatus::Ready, false, false, false, false), (false, true));
    assert_eq!(index_update_steps(IndexStatus::Ready, true, true, true, true), (false, true));
    assert_eq!(index_update_steps(IndexStatus::Building, true, false, false, true), (false, false));
    assert_eq!(index_update_steps(IndexStatus::Failed, true, false, false, true), (false, false));
}

#[test]
fn index_update_reports_reindexing_when_the_stamp_changes() {
    let before = Some((Some("abc".to_string()), 2, 100));
    let same = index_update_result(&before, &before.clone(), false, true);
    assert!(!same.reindexed);
    assert!(same.summaries_updated && !same.embeddings_updated);
    let later = Some((Some("abc".to_string()), 2, 200));
    assert!(index_update_result(&before, &later, true, false).reindexed);
    assert!(index_update_result(&None, &before, false, false).reindexed);
    assert!(!index_update_result(&None, &None, false, false).reindexed);
}

#[test]
fn deleted_custom_font_falls_back_to_inherit_in_markers() {
    let id = format!("custom-{}", "a".repeat(64));
    let mut manual = id.clone();
    let mut automatic = "serif".to_string();
    assert!(release_marker_fonts(&mut manual, &mut automatic, &id));
    assert_eq!(manual, "inherit");
    assert_eq!(automatic, "serif");
    assert!(!release_marker_fonts(&mut manual, &mut automatic, &id));
}
