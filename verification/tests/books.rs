use quill::import::is_importable_extension;
use quill::import::{
    detect_container_format, detect_header_format, HeaderVerdict, ImportFormat, ZipListing,
};
use quill::naming::{book_filename, slugify};
use quill::preparation::{
    is_conversion_book, pending_conversion_book_ids, pending_text_book_ids,
    publish_current_conversion_job, publish_current_text_preparation_job,
    transition_conversion_state, transition_text_preparation_state, BookRow, BookTable,
    PreparationSource,
};
use quill::source::{decode_txt, prepare_text_document};
use sha2::Digest;

const TEXT_DOCUMENT_VERSION: i32 = 3;

#[test]
fn is_conversion_book_discriminates_native_epub() {
    assert!(is_conversion_book(Some("epub"), Some("mobi")));
    assert!(is_conversion_book(Some("epub"), Some("azw3")));
    // Native EPUB and text/pdf are not conversion books.
    assert!(!is_conversion_book(Some("epub"), Some("epub")));
    assert!(!is_conversion_book(Some("epub"), None));
    assert!(!is_conversion_book(Some("text"), Some("txt")));
    assert!(!is_conversion_book(Some("pdf"), Some("pdf")));
}

#[test]
fn tests_slugify_does_not_panic_on_cjk_title_at_byte_boundary() {
    let title = "百年孤独(根据马尔克斯指定版本翻译,未做任何增删)";
    let slug = slugify(title);
    assert!(!slug.is_empty());
    assert!(slug.chars().count() > 0);
    let _ = book_filename(title, "abcdef0123456789", "epub");
}

#[test]
fn books_slugify_does_not_panic_on_cjk_title_at_byte_boundary() {
    let title = "百年孤独(根据马尔克斯指定版本翻译,未做任何增删)";
    let slug = slugify(title);
    assert!(!slug.is_empty());
    assert!(slug.chars().count() > 0);
    let _ = book_filename(title, "abcdef0123456789", "epub");
}

#[test]
fn tests_slugify_truncates_long_ascii_at_word_boundary() {
    let title = "the quick brown fox jumps over the lazy dog and then keeps on running";
    let slug = slugify(title);
    assert!(slug.len() <= 60);
    assert!(slug.starts_with("the-quick-brown-fox"));
    assert!(!slug.ends_with('-'));
}

#[test]
fn books_slugify_truncates_long_ascii_at_word_boundary() {
    let title = "the quick brown fox jumps over the lazy dog and then keeps on running";
    let slug = slugify(title);
    assert!(slug.len() <= 60);
    assert!(slug.starts_with("the-quick-brown-fox"));
    assert!(!slug.ends_with('-'));
}

fn insert_text_preparation_book(books: &mut BookTable, id: &str, state: &str, source_sha256: &str) {
    let inserted = books.insert(BookRow {
        id: id.to_string(),
        render_format: Some("text".to_string()),
        source_format: Some("txt".to_string()),
        source_file_path: Some(format!("sources/{id}.txt")),
        source_sha256: Some(source_sha256.to_string()),
        conversion_version: Some(TEXT_DOCUMENT_VERSION),
        preparation_state: state.to_string(),
        preparation_error: Some("existing error".to_string()),
        pages: None,
    });
    assert!(inserted);
}

fn state_of(books: &BookTable, id: &str) -> (String, Option<String>) {
    let row = books.get(id).unwrap();
    (row.preparation_state.clone(), row.preparation_error.clone())
}

#[test]
fn tests_repeated_pending_scan_does_not_reset_an_active_preparation() {
    let mut books = BookTable::new();
    insert_text_preparation_book(&mut books, "active", "preparing", "active-hash");
    insert_text_preparation_book(&mut books, "queued", "pending", "queued-hash");

    assert_eq!(pending_text_book_ids(&mut books, false), ["queued"]);
    assert_eq!(
        state_of(&books, "active"),
        ("preparing".to_string(), Some("existing error".to_string()))
    );

    assert_eq!(pending_text_book_ids(&mut books, true), ["active", "queued"]);
    assert_eq!(state_of(&books, "active"), ("pending".to_string(), None));
}

#[test]
fn books_repeated_pending_scan_does_not_reset_an_active_preparation() {
    let mut books = BookTable::new();
    insert_text_preparation_book(&mut books, "active", "preparing", "active-hash");
    insert_text_preparation_book(&mut books, "queued", "pending", "queued-hash");

    assert_eq!(pending_text_book_ids(&mut books, false), ["queued"]);
    assert_eq!(
        state_of(&books, "active"),
        ("preparing".to_string(), Some("existing error".to_string()))
    );

    assert_eq!(pending_text_book_ids(&mut books, true), ["active", "queued"]);
    assert_eq!(state_of(&books, "active"), ("pending".to_string(), None));
}

#[test]
fn tests_text_preparation_state_transitions_are_compare_and_set() {
    let mut books = BookTable::new();
    insert_text_preparation_book(&mut books, "retry", "failed", "hash");

    assert!(transition_text_preparation_state(&mut books, "retry", "failed", "pending", None));
    assert!(!transition_text_preparation_state(&mut books, "retry", "failed", "pending", None));
    assert!(!transition_text_preparation_state(&mut books, "retry", "ready", "pending", None));

    // The row is set to `ready` directly, as a finished preparation would.
    assert!(transition_text_preparation_state(&mut books, "retry", "pending", "ready", None));
    assert!(transition_text_preparation_state(&mut books, "retry", "ready", "pending", None));
    assert!(!transition_text_preparation_state(&mut books, "retry", "ready", "pending", None));
}

#[test]
fn books_text_preparation_state_transitions_are_compare_and_set() {
    let mut books = BookTable::new();
    insert_text_preparation_book(&mut books, "retry", "failed", "hash");

    assert!(transition_text_preparation_state(&mut books, "retry", "failed", "pending", None));
    assert!(!transition_text_preparation_state(&mut books, "retry", "failed", "pending", None));
    assert!(!transition_text_preparation_state(&mut books, "retry", "ready", "pending", None));

    // The row is set to `ready` directly, as a finished preparation would.
    assert!(transition_text_preparation_state(&mut books, "retry", "pending", "ready", None));
    assert!(transition_text_preparation_state(&mut books, "retry", "ready", "pending", None));
    assert!(!transition_text_preparation_state(&mut books, "retry", "ready", "pending", None));
}

#[test]
fn tests_detect_import_format_accepts_utf16_txt_bom() {
    let bytes = [0xff, 0xfe, b'H', 0, b'i', 0];
    assert_eq!(
        detect_header_format(true, bytes.len() as u64, Some("txt"), &bytes),
        HeaderVerdict::Format(ImportFormat::Txt)
    );
    assert_eq!(decode_txt(&bytes).unwrap(), "Hi");
}

fn document_text(document: &quill::document::TextBookDocument) -> String {
    document
        .chunks
        .iter()
        .flat_map(|chunk| &chunk.blocks)
        .map(|block| block.text.as_str())
        .collect::<Vec<_>>()
        .join(" ")
}

#[test]
fn tests_text_preparation_normalizes_markdown_and_html() {
    let markdown = "# Chapter One\n\nHello **reader**.";
    let html = "<h1>Chapter Two</h1><p>Hello <em>reader</em>.</p>";

    let markdown_document = prepare_text_document(markdown.as_bytes(), "markdown", None).unwrap();
    let html_document = prepare_text_document(html.as_bytes(), "html", None).unwrap();

    assert_eq!(markdown_document.version, TEXT_DOCUMENT_VERSION);
    assert!(document_text(&markdown_document).contains("Hello reader"));
    assert!(document_text(&html_document).contains("Hello reader"));
}

#[test]
fn tests_text_preparation_hashes_the_source_bytes() {
    let bytes = "Chapter One\n\nHello reader.".as_bytes();
    let actual_hash = format!("{:x}", sha2::Sha256::digest(bytes));

    let document = prepare_text_document(bytes, "txt", Some(actual_hash.as_str())).unwrap();
    assert_eq!(document.source_sha256.as_deref(), Some(actual_hash.as_str()));

    let error = prepare_text_document(bytes, "txt", Some("0".repeat(64).as_str()))
        .err()
        .unwrap();
    assert!(error.to_string().contains("TEXT_SOURCE_HASH_MISMATCH"));
}

#[test]
fn tests_text_preparation_does_not_reflow_markdown_soft_breaks() {
    let markdown = (0..12)
        .map(|index| format!("soft wrapped markdown line {index} without terminal punctuation"))
        .collect::<Vec<_>>()
        .join("\n");

    let document = prepare_text_document(markdown.as_bytes(), "markdown", None).unwrap();
    assert_eq!(
        document.chunks.iter().map(|chunk| chunk.blocks.len()).sum::<usize>(),
        12
    );
}

fn text_preparation_source(id: &str, source_sha256: &str) -> PreparationSource {
    PreparationSource {
        file_path: Some(format!("sources/{id}.txt")),
        format: Some("txt".to_string()),
        sha256: Some(source_sha256.to_string()),
        conversion_version: TEXT_DOCUMENT_VERSION,
    }
}

#[test]
fn tests_preparation_publish_requires_current_source_and_surviving_book() {
    let mut books = BookTable::new();

    insert_text_preparation_book(&mut books, "current", "preparing", "hash");
    assert!(publish_current_text_preparation_job(
        &mut books,
        "current",
        &text_preparation_source("current", "hash"),
        1,
    ));
    let row = books.get("current").unwrap();
    assert_eq!((row.preparation_state.as_str(), row.pages), ("ready", Some(1)));

    insert_text_preparation_book(&mut books, "changed", "preparing", "new-hash");
    assert!(!publish_current_text_preparation_job(
        &mut books,
        "changed",
        &text_preparation_source("changed", "old-hash"),
        1,
    ));
    assert_eq!(state_of(&books, "changed").0, "preparing");

    insert_text_preparation_book(&mut books, "deleted", "preparing", "hash");
    assert!(books.remove("deleted"));
    assert!(!publish_current_text_preparation_job(
        &mut books,
        "deleted",
        &text_preparation_source("deleted", "hash"),
        1,
    ));
    assert!(books.get("deleted").is_none());
}

#[test]
fn books_preparation_publish_requires_current_source_and_surviving_book() {
    let mut books = BookTable::new();

    insert_text_preparation_book(&mut books, "current", "preparing", "hash");
    assert!(publish_current_text_preparation_job(
        &mut books,
        "current",
        &text_preparation_source("current", "hash"),
        1,
    ));
    let row = books.get("current").unwrap();
    assert_eq!((row.preparation_state.as_str(), row.pages), ("ready", Some(1)));

    insert_text_preparation_book(&mut books, "changed", "preparing", "new-hash");
    assert!(!publish_current_text_preparation_job(
        &mut books,
        "changed",
        &text_preparation_source("changed", "old-hash"),
        1,
    ));
    assert_eq!(state_of(&books, "changed").0, "preparing");

    insert_text_preparation_book(&mut books, "deleted", "preparing", "hash");
    assert!(books.remove("deleted"));
    assert!(!publish_current_text_preparation_job(
        &mut books,
        "deleted",
        &text_preparation_source("deleted", "hash"),
        1,
    ));
    assert!(books.get("deleted").is_none());
}

const CONVERSION_VERSION: i32 = 1;

fn insert_conversion_book(books: &mut BookTable, id: &str, state: &str, sha: &str) {
    assert!(books.insert(BookRow {
        id: id.to_string(),
        render_format: Some("epub".to_string()),
        source_format: Some("mobi".to_string()),
        source_file_path: Some(format!("books/{id}.azw3")),
        source_sha256: Some(sha.to_string()),
        conversion_version: Some(CONVERSION_VERSION),
        preparation_state: state.to_string(),
        preparation_error: Some("existing error".to_string()),
        pages: None,
    }));
}

fn conversion_source(id: &str, sha: &str) -> PreparationSource {
    PreparationSource {
        file_path: Some(format!("books/{id}.azw3")),
        format: Some("mobi".to_string()),
        sha256: Some(sha.to_string()),
        conversion_version: CONVERSION_VERSION,
    }
}

#[test]
fn transition_state_is_guarded_and_scoped() {
    let mut books = BookTable::new();
    insert_conversion_book(&mut books, "c1", "failed", "hash1");
    // failed → pending succeeds once, then the guard blocks a repeat.
    assert!(transition_conversion_state(&mut books, "c1", "failed", "pending", None));
    assert!(!transition_conversion_state(&mut books, "c1", "failed", "pending", None));
    assert!(!transition_conversion_state(&mut books, "c1", "ready", "pending", None));
}

#[test]
fn native_epub_never_matches_conversion_predicate() {
    let mut books = BookTable::new();
    assert!(books.insert(BookRow {
        id: "native".to_string(),
        render_format: Some("epub".to_string()),
        source_format: Some("epub".to_string()),
        source_file_path: None,
        source_sha256: None,
        conversion_version: None,
        preparation_state: "failed".to_string(),
        preparation_error: None,
        pages: None,
    }));
    // A native EPUB in 'failed' must not be reachable by the conversion
    // state machine.
    assert!(!transition_conversion_state(&mut books, "native", "failed", "pending", None));
    assert!(pending_conversion_book_ids(&mut books, true).is_empty());
}

#[test]
fn publish_flips_ready_and_guards_stale_source() {
    let mut books = BookTable::new();
    insert_conversion_book(&mut books, "c2", "preparing", "hash2");
    let source = conversion_source("c2", "hash2");
    // A stale snapshot (different hash) must not publish.
    let stale = conversion_source("c2", "OTHER");
    assert!(!publish_current_conversion_job(&mut books, "c2", &stale));
    // The matching snapshot flips preparing → ready and clears the error.
    assert!(publish_current_conversion_job(&mut books, "c2", &source));
    let (state, error) = state_of(&books, "c2");
    assert_eq!(state, "ready");
    assert_eq!(error, None);
}

#[test]
fn pending_scan_recovers_interrupted_only_with_flag() {
    let mut books = BookTable::new();
    insert_conversion_book(&mut books, "active", "preparing", "h-a");
    insert_conversion_book(&mut books, "queued", "pending", "h-q");
    // Without recovery: only the already-pending job is returned; the
    // in-flight 'preparing' one is left alone.
    assert_eq!(pending_conversion_book_ids(&mut books, false), ["queued"]);
    assert_eq!(state_of(&books, "active").0, "preparing");
    // With recovery: the interrupted 'preparing' job is reset to pending.
    let mut ids = pending_conversion_book_ids(&mut books, true);
    ids.sort();
    assert_eq!(ids, ["active", "queued"]);
}

#[test]
fn header_detection_orders_signatures_before_extensions() {
    let pdf = b"%PDF-1.7 rest";
    assert_eq!(
        detect_header_format(true, 100, Some("txt"), pdf),
        HeaderVerdict::Format(ImportFormat::Pdf)
    );
    assert_eq!(detect_header_format(true, 100, Some("epub"), b"PK\x03\x04..."), HeaderVerdict::Container);
    assert_eq!(detect_header_format(false, 100, Some("txt"), b"hello"), HeaderVerdict::Unsupported);
    assert_eq!(
        detect_header_format(true, 26_214_401, Some("TXT"), b"hello"),
        HeaderVerdict::Unsupported
    );
    assert_eq!(
        detect_header_format(true, 26_214_401, Some("pdf"), b"%PDF-"),
        HeaderVerdict::Format(ImportFormat::Pdf)
    );
    assert_eq!(
        detect_header_format(true, 5, Some("Md"), b"# hi"),
        HeaderVerdict::Format(ImportFormat::Markdown)
    );
    assert_eq!(
        detect_header_format(true, 5, Some("htm"), b"<p>hi</p>"),
        HeaderVerdict::Format(ImportFormat::Html)
    );
    assert_eq!(detect_header_format(true, 5, Some("txt"), b"a\0b"), HeaderVerdict::Unsupported);
    assert_eq!(detect_header_format(true, 5, None, b"plain"), HeaderVerdict::Unsupported);

    let mut mobi = vec![0u8; 80];
    mobi[60..68].copy_from_slice(b"BOOKMOBI");
    assert_eq!(
        detect_header_format(true, 80, Some("AZW3"), &mobi),
        HeaderVerdict::Format(ImportFormat::Mobi)
    );
    assert_eq!(detect_header_format(true, 80, Some("txt"), &mobi), HeaderVerdict::Unsupported);

    let fb2 = b"<?xml version=\"1.0\"?><FictionBook xmlns=\"x\">";
    assert_eq!(
        detect_header_format(true, 50, Some("fb2"), fb2),
        HeaderVerdict::Format(ImportFormat::Fb2)
    );
    assert_eq!(
        detect_header_format(true, 2, Some("fb2"), &[0xff, 0xff]),
        HeaderVerdict::Unsupported
    );
}

#[test]
fn container_detection_reads_mimetype_and_entries() {
    let epub = ZipListing {
        mimetype: Some(" application/epub+zip\n".to_string()),
        has_container_xml: true,
        entry_names: vec!["mimetype".to_string()],
    };
    assert_eq!(detect_container_format(Some("zip"), Some(epub)).unwrap(), ImportFormat::Epub);

    let no_container = ZipListing {
        mimetype: Some("application/epub+zip".to_string()),
        has_container_xml: false,
        entry_names: vec![],
    };
    assert_eq!(
        detect_container_format(Some("epub"), Some(no_container)).unwrap_err().to_string(),
        "INVALID_CONTAINER"
    );

    let fbz = ZipListing {
        mimetype: None,
        has_container_xml: false,
        entry_names: vec!["book/STORY.FB2".to_string()],
    };
    assert_eq!(detect_container_format(Some("FBZ"), Some(fbz)).unwrap(), ImportFormat::Fbz);

    let cbz = ZipListing {
        mimetype: None,
        has_container_xml: false,
        entry_names: vec!["01.txt".to_string(), "02.WebP".to_string()],
    };
    assert_eq!(detect_container_format(Some("cbz"), Some(cbz)).unwrap(), ImportFormat::Cbz);

    let cbz_without_images = ZipListing {
        mimetype: None,
        has_container_xml: false,
        entry_names: vec!["notes.txt".to_string()],
    };
    assert!(detect_container_format(Some("cbz"), Some(cbz_without_images)).is_err());
    assert_eq!(
        detect_container_format(Some("epub"), None).unwrap_err().to_string(),
        "INVALID_CONTAINER"
    );
}

#[test]
fn import_formats_name_their_sources() {
    assert_eq!(ImportFormat::Markdown.source_name(), "markdown");
    assert_eq!(ImportFormat::Cbz.source_name(), "cbz");
    assert_eq!(ImportFormat::Mobi.native_extension(Some("AZW3")), Some("azw3".to_string()));
    assert_eq!(ImportFormat::Fb2.native_extension(Some("xml")), Some("fb2".to_string()));
    assert_eq!(ImportFormat::Epub.native_extension(Some("epub")), None);
}

#[test]
fn markdown_flattens_text_code_and_block_ends() {
    assert_eq!(
        quill::source::markdown_to_text("# T\n\nA *b* `c`\n\n- x\n- y"),
        "T\nA b c\nx\ny\n"
    );
    assert_eq!(quill::source::markdown_to_text("one\ntwo"), "one\ntwo\n");
}

#[test]
fn html_keeps_text_nodes_one_per_line() {
    assert_eq!(
        quill::source::html_to_text("<p>One <b>two</b></p><script>x()</script>"),
        "One \ntwo"
    );
}

#[test]
fn slugs_always_fit_sixty_bytes() {
    for title in [
        "百年孤独百年孤独百年孤独百年孤独百年孤独百年孤独百年孤独",
        "a-very-long-hyphenated-title-that-keeps-going-and-going-without-any-spaces-at-all",
        "Ω",
        "",
    ] {
        assert!(slugify(title).len() <= 60, "{title}");
    }
}

#[test]
fn a_published_job_does_not_publish_twice() {
    let mut books = BookTable::new();
    insert_text_preparation_book(&mut books, "once", "preparing", "hash");
    let source = text_preparation_source("once", "hash");
    assert!(publish_current_text_preparation_job(&mut books, "once", &source, 2));
    assert!(!publish_current_text_preparation_job(&mut books, "once", &source, 5));
    assert_eq!(books.get("once").unwrap().pages, Some(2));
}

#[test]
fn only_book_extensions_are_importable() {
    for extension in ["epub", "PDF", "Md", "azw3", "cbz", "HTM"] {
        assert!(is_importable_extension(Some(extension)), "{extension}");
    }
    for extension in ["exe", "zip", "", "doc"] {
        assert!(!is_importable_extension(Some(extension)), "{extension}");
    }
    assert!(!is_importable_extension(None));
}
