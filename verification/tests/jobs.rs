use quill::jobs::tool_error_excerpt;
use quill::document::{TextBookDocument, TextBookTocEntry};
use quill::error::AppError;
use quill::jobs::{
    conversion_report, document_pages, open_prepared_book, preparation_report,
    prepared_document_usable, report_job, source_report, JobReport, SourceAvailability,
    SourceLookup,
};
use quill::preparation::{BookRow, BookTable, PreparationKind, PreparationSource};

fn text_row(id: &str, state: &str, error: Option<&str>) -> BookRow {
    BookRow {
        id: id.to_string(),
        render_format: Some("text".to_string()),
        source_format: Some("txt".to_string()),
        source_file_path: Some(format!("sources/{id}.txt")),
        source_sha256: Some("hash".to_string()),
        conversion_version: Some(3),
        preparation_state: state.to_string(),
        preparation_error: error.map(str::to_string),
        pages: None,
    }
}

fn text_source(id: &str, sha: &str) -> PreparationSource {
    PreparationSource {
        file_path: Some(format!("sources/{id}.txt")),
        format: Some("txt".to_string()),
        sha256: Some(sha.to_string()),
        conversion_version: 3,
    }
}

#[test]
fn unreadable_sources_stop_the_job_with_a_report() {
    assert_eq!(
        source_report(PreparationKind::Text, SourceLookup::NoPath),
        Some(JobReport::Failed("TEXT_SOURCE_MISSING".to_string()))
    );
    assert_eq!(
        source_report(PreparationKind::Conversion, SourceLookup::NoPath),
        Some(JobReport::Failed("SOURCE_MISSING".to_string()))
    );
    assert_eq!(
        source_report(PreparationKind::Text, SourceLookup::Unresolvable("PATH_OUTSIDE".to_string())),
        Some(JobReport::Failed("PATH_OUTSIDE".to_string()))
    );
    assert_eq!(
        source_report(PreparationKind::Text, SourceLookup::Found(SourceAvailability::CloudPlaceholder)),
        Some(JobReport::Pending)
    );
    assert_eq!(
        source_report(PreparationKind::Conversion, SourceLookup::Found(SourceAvailability::Missing)),
        Some(JobReport::Failed("SOURCE_UNAVAILABLE".to_string()))
    );
    assert_eq!(
        source_report(PreparationKind::Text, SourceLookup::Found(SourceAvailability::Missing)),
        Some(JobReport::Failed("TEXT_SOURCE_UNAVAILABLE".to_string()))
    );
    assert_eq!(
        source_report(PreparationKind::Text, SourceLookup::Found(SourceAvailability::Available)),
        None
    );
}

fn entry(title: &str, depth: u8) -> TextBookTocEntry {
    TextBookTocEntry { title: title.to_string(), depth, source_offset: 0 }
}

fn document(toc: Vec<TextBookTocEntry>) -> TextBookDocument {
    TextBookDocument {
        version: 3,
        source_sha256: Some("hash".to_string()),
        coordinate_space: "normalized_utf16".to_string(),
        chunks: Vec::new(),
        toc,
        legacy_locations: Vec::new(),
    }
}

#[test]
fn page_counts_are_toc_leaves_and_at_least_one() {
    assert_eq!(document_pages(&[]).unwrap(), 1);
    let toc = vec![entry("Part", 0), entry("1", 1), entry("2", 1), entry("Epilogue", 0)];
    assert_eq!(document_pages(&toc).unwrap(), 3);
    assert_eq!(preparation_report(Ok(document(toc))), JobReport::Ready(Some(3)));
    assert_eq!(
        preparation_report(Err(AppError::Other("EMPTY_BOOK".to_string()))),
        JobReport::Failed("EMPTY_BOOK".to_string())
    );
}

#[test]
fn conversion_results_become_reports() {
    assert_eq!(conversion_report(Ok(true)), JobReport::Ready(None));
    assert_eq!(
        conversion_report(Ok(false)),
        JobReport::Failed("CONVERSION_EMPTY_OUTPUT".to_string())
    );
    assert_eq!(
        conversion_report(Err(AppError::Other("CONVERSION_UNSUPPORTED:mobi".to_string()))),
        JobReport::Failed("CONVERSION_UNSUPPORTED:mobi".to_string())
    );
}

#[test]
fn reports_land_only_on_the_current_job() {
    let mut books = BookTable::new();
    assert!(books.insert(text_row("t1", "preparing", Some("old"))));

    assert_eq!(
        report_job(&mut books, PreparationKind::Text, "t1", &text_source("t1", "other"), JobReport::Ready(Some(4))),
        None
    );
    assert_eq!(books.get("t1").unwrap().preparation_state, "preparing");

    assert_eq!(
        report_job(&mut books, PreparationKind::Text, "t1", &text_source("t1", "hash"), JobReport::Ready(Some(4))),
        Some("ready")
    );
    let row = books.get("t1").unwrap();
    assert_eq!(row.preparation_state, "ready");
    assert_eq!(row.preparation_error, None);
    assert_eq!(row.pages, Some(4));

    assert!(books.insert(text_row("t2", "preparing", None)));
    assert_eq!(
        report_job(&mut books, PreparationKind::Text, "t2", &text_source("t2", "hash"), JobReport::Failed("BROKEN".to_string())),
        Some("failed")
    );
    assert_eq!(books.get("t2").unwrap().preparation_error.as_deref(), Some("BROKEN"));
    assert_eq!(
        report_job(&mut books, PreparationKind::Conversion, "t2", &text_source("t2", "hash"), JobReport::Pending),
        None
    );
}

#[test]
fn opening_a_prepared_book_follows_its_state() {
    let mut books = BookTable::new();
    assert!(books.insert(text_row("ready", "ready", None)));
    assert!(books.insert(text_row("pending", "pending", None)));
    assert!(books.insert(text_row("preparing", "preparing", None)));
    assert!(books.insert(text_row("failed", "failed", Some("EMPTY_BOOK"))));
    assert!(books.insert(text_row("broken", "failed", None)));

    let served = open_prepared_book(&mut books, PreparationKind::Text, "ready", true).unwrap();
    assert!(served.result.is_ok());
    assert!(!served.schedule);

    let stale = open_prepared_book(&mut books, PreparationKind::Text, "ready", false).unwrap();
    assert_eq!(stale.result.unwrap_err().to_string(), "TEXT_PREPARATION_PENDING");
    assert!(stale.schedule);
    assert_eq!(books.get("ready").unwrap().preparation_state, "pending");

    let pending = open_prepared_book(&mut books, PreparationKind::Text, "pending", true).unwrap();
    assert_eq!(pending.result.unwrap_err().to_string(), "TEXT_PREPARATION_PENDING");
    assert!(pending.schedule);

    let preparing = open_prepared_book(&mut books, PreparationKind::Text, "preparing", true).unwrap();
    assert!(preparing.result.is_err());
    assert!(!preparing.schedule);

    let failed = open_prepared_book(&mut books, PreparationKind::Text, "failed", true).unwrap();
    assert_eq!(failed.result.unwrap_err().to_string(), "TEXT_PREPARATION_FAILED:EMPTY_BOOK");
    let broken = open_prepared_book(&mut books, PreparationKind::Text, "broken", true).unwrap();
    assert_eq!(broken.result.unwrap_err().to_string(), "TEXT_PREPARATION_FAILED:UNKNOWN");

    assert!(open_prepared_book(&mut books, PreparationKind::Conversion, "failed", true).is_none());
    assert!(open_prepared_book(&mut books, PreparationKind::Text, "missing", true).is_none());
}

#[test]
fn converted_books_report_conversion_codes() {
    let mut books = BookTable::new();
    assert!(books.insert(BookRow {
        id: "m1".to_string(),
        render_format: Some("epub".to_string()),
        source_format: Some("mobi".to_string()),
        source_file_path: Some("books/m1.mobi".to_string()),
        source_sha256: None,
        conversion_version: Some(1),
        preparation_state: "failed".to_string(),
        preparation_error: Some("CONVERSION_UNSUPPORTED:mobi".to_string()),
        pages: None,
    }));
    let opened = open_prepared_book(&mut books, PreparationKind::Conversion, "m1", false).unwrap();
    assert_eq!(
        opened.result.unwrap_err().to_string(),
        "CONVERSION_FAILED:CONVERSION_UNSUPPORTED:mobi"
    );
}

#[test]
fn prepared_documents_must_match_version_and_source() {
    let doc = document(Vec::new());
    assert!(prepared_document_usable(&doc, Some("hash")));
    assert!(prepared_document_usable(&doc, None));
    assert!(!prepared_document_usable(&doc, Some("other")));
    let mut old = document(Vec::new());
    old.version = 2;
    assert!(!prepared_document_usable(&old, None));
}

#[test]
fn tool_errors_quote_the_last_meaningful_line() {
    assert_eq!(tool_error_excerpt("ok\n", "Traceback\n  boom  \r\n\n  \n"), "boom");
    assert_eq!(tool_error_excerpt("first\nlast line\n", "   \n"), "last line");
    assert_eq!(tool_error_excerpt("", ""), "no tool output");
    assert_eq!(tool_error_excerpt(&"é".repeat(400), ""), "é".repeat(300));
}
