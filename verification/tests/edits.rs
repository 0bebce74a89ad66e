use quill::catalog::Book;
use quill::edits::{edit_book, finish_book, set_progress, BookEvent};

fn reading_book() -> Book {
    Book {
        id: "b1".to_string(),
        title: "Old".to_string(),
        author: "Someone".to_string(),
        description: None,
        cover_path: None,
        file_path: "books/b1.epub".to_string(),
        format: "epub".to_string(),
        source_format: None,
        render_format: None,
        source_file_path: None,
        source_sha256: None,
        conversion_version: 0,
        preparation_state: "ready".to_string(),
        preparation_error: None,
        genre: None,
        pages: Some(300),
        status: "reading".to_string(),
        progress: 42,
        current_cfi: Some("epubcfi(/6/4)".to_string()),
        created_at: 1,
        updated_at: 2,
        available: true,
        cover_data: None,
    }
}

/// Applies events as another device would.
fn replay(book: &mut Book, events: &[BookEvent]) {
    for event in events {
        match event {
            BookEvent::MetadataSet { field, value, .. } => match field.as_str() {
                "title" => book.title = value.clone(),
                "author" => book.author = value.clone(),
                "genre" => book.genre = Some(value.clone()),
                _ => {}
            },
            BookEvent::StatusSet { status, .. } => book.status = status.clone(),
            BookEvent::ProgressSet { progress, cfi, .. } => {
                book.progress = *progress;
                book.current_cfi = cfi.clone();
            }
        }
    }
}

fn synced(book: &Book) -> (String, String, Option<String>, String, i32, Option<String>) {
    (
        book.title.clone(),
        book.author.clone(),
        book.genre.clone(),
        book.status.clone(),
        book.progress,
        book.current_cfi.clone(),
    )
}

#[test]
fn metadata_edit_publishes_one_event_per_field_in_order() {
    let mut book = reading_book();
    let mut peer = reading_book();
    let events = edit_book(&mut book, Some("New"), Some("Writer"), None, Some("finished"), 9);
    assert_eq!(book.title, "New");
    assert_eq!(book.author, "Writer");
    assert_eq!(book.status, "finished");
    assert_eq!(book.updated_at, 9);
    assert_eq!(events.len(), 3);
    assert!(matches!(&events[0], BookEvent::MetadataSet { field, value, book } if field == "title" && value == "New" && book == "b1"));
    assert!(matches!(&events[1], BookEvent::MetadataSet { field, .. } if field == "author"));
    assert!(matches!(&events[2], BookEvent::StatusSet { status, .. } if status == "finished"));
    replay(&mut peer, &events);
    assert_eq!(synced(&peer), synced(&book));
}

#[test]
fn empty_edit_changes_nothing() {
    let mut book = reading_book();
    let events = edit_book(&mut book, None, None, None, None, 9);
    assert!(events.is_empty());
    assert_eq!(book.updated_at, 2);
    assert_eq!(synced(&book), synced(&reading_book()));
}

#[test]
fn finishing_keeps_the_position_for_every_device() {
    let mut book = reading_book();
    let mut peer = reading_book();
    let events = finish_book(&mut book, 5);
    assert_eq!(book.status, "finished");
    assert_eq!(book.progress, 100);
    assert_eq!(book.current_cfi.as_deref(), Some("epubcfi(/6/4)"));
    assert!(matches!(&events[1], BookEvent::ProgressSet { progress: 100, cfi: Some(c), .. } if c == "epubcfi(/6/4)"));
    replay(&mut peer, &events);
    assert_eq!(synced(&peer), synced(&book));
}

#[test]
fn throttled_progress_is_recorded_but_not_published() {
    let mut book = reading_book();
    let events = set_progress(&mut book, 50, Some("epubcfi(/6/8)".to_string()), false, 7);
    assert!(events.is_empty());
    assert_eq!(book.progress, 50);
    assert_eq!(book.current_cfi.as_deref(), Some("epubcfi(/6/8)"));
    let mut peer = reading_book();
    let published = set_progress(&mut reading_book(), 50, Some("epubcfi(/6/8)".to_string()), true, 7);
    replay(&mut peer, &published);
    assert_eq!(synced(&peer), synced(&book));
}
