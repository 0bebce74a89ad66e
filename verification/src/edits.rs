//! Edits of a book's synced fields (metadata, reading status, progress)
//! and the events each edit publishes, so that other devices, replaying
//! the events, reach the same fields.

use vstd::prelude::*;

use crate::catalog::Book;
use crate::preparation::opt_view;

verus! {

/// An event that sets synced fields of a book on every device.
#[derive(Debug)]
pub enum BookEvent {
    /// Sets one metadata field (`title`, `author` or `genre`).
    MetadataSet { book: String, field: String, value: String },
    /// Sets the reading status.
    StatusSet { book: String, status: String },
    /// Sets the reading progress and position.
    ProgressSet { book: String, progress: i32, cfi: Option<String> },
}

/// The fields of a book that devices keep in step.
pub struct SyncedFields {
    pub title: Seq<char>,
    pub author: Seq<char>,
    pub genre: Option<Seq<char>>,
    pub status: Seq<char>,
    pub progress: int,
    pub cfi: Option<Seq<char>>,
}

/// The synced fields of a book.
pub open spec fn synced(b: Book) -> SyncedFields {
    SyncedFields {
        title: b.title@,
        author: b.author@,
        genre: opt_view(b.genre),
        status: b.status@,
        progress: b.progress as int,
        cfi: opt_view(b.current_cfi),
    }
}

/// An event as its fields.
pub enum EventView {
    MetadataSet { book: Seq<char>, field: Seq<char>, value: Seq<char> },
    StatusSet { book: Seq<char>, status: Seq<char> },
    ProgressSet { book: Seq<char>, progress: int, cfi: Option<Seq<char>> },
}

impl View for BookEvent {
    type V = EventView;

    open spec fn view(&self) -> EventView {
        match self {
            BookEvent::MetadataSet { book, field, value } => EventView::MetadataSet { book: book@, field: field@, value: value@ },
            BookEvent::StatusSet { book, status } => EventView::StatusSet { book: book@, status: status@ },
            BookEvent::ProgressSet { book, progress, cfi } => EventView::ProgressSet {
                book: book@,
                progress: *progress as int,
                cfi: opt_view(*cfi),
            },
        }
    }
}

/// Views of a list of events.
pub open spec fn event_views(es: Seq<BookEvent>) -> Seq<EventView> {
    es.map_values(|e: BookEvent| e@)
}

/// What a device does with an event for the book: sets the fields it
/// names (an unknown metadata field changes nothing).
pub open spec fn apply_event(f: SyncedFields, e: EventView) -> SyncedFields {
    match e {
        EventView::MetadataSet { field, value, .. } => if field == "title"@ {
            SyncedFields { title: value, ..f }
        } else if field == "author"@ {
            SyncedFields { author: value, ..f }
        } else if field == "genre"@ {
            SyncedFields { genre: Some(value), ..f }
        } else {
            f
        },
        EventView::StatusSet { status, .. } => SyncedFields { status, ..f },
        EventView::ProgressSet { progress, cfi, .. } => SyncedFields { progress, cfi, ..f },
    }
}

/// The fields after replaying events in order.
pub open spec fn replay(f: SyncedFields, es: Seq<EventView>) -> SyncedFields
    decreases es.len(),
{
    if es.len() == 0 {
        f
    } else {
        apply_event(replay(f, es.drop_last()), es.last())
    }
}

/// Whether every event is for the book `id`.
pub open spec fn all_for(es: Seq<EventView>, id: Seq<char>) -> bool {
    forall|i: int| 0 <= i < es.len() ==> match #[trigger] es[i] {
        EventView::MetadataSet { book, .. } => book == id,
        EventView::StatusSet { book, .. } => book == id,
        EventView::ProgressSet { book, .. } => book == id,
    }
}

/// Fields other than the synced ones that an edit keeps.
pub open spec fn same_unsynced(a: Book, b: Book) -> bool {
    &&& a.id == b.id
    &&& a.description == b.description
    &&& a.cover_path == b.cover_path
    &&& a.file_path == b.file_path
    &&& a.format == b.format
    &&& a.source_format == b.source_format
    &&& a.render_format == b.render_format
    &&& a.source_file_path == b.source_file_path
    &&& a.source_sha256 == b.source_sha256
    &&& a.conversion_version == b.conversion_version
    &&& a.preparation_state == b.preparation_state
    &&& a.preparation_error == b.preparation_error
    &&& a.pages == b.pages
    &&& a.created_at == b.created_at
    &&& a.available == b.available
    &&& a.cover_data == b.cover_data
}

/// The fields after an edit of the given metadata and status.
pub open spec fn edited(
    f: SyncedFields,
    title: Option<Seq<char>>,
    author: Option<Seq<char>>,
    genre: Option<Seq<char>>,
    status: Option<Seq<char>>,
) -> SyncedFields {
    SyncedFields {
        title: match title { Some(t) => t, None => f.title },
        author: match author { Some(a) => a, None => f.author },
        genre: match genre { Some(g) => Some(g), None => f.genre },
        status: match status { Some(s) => s, None => f.status },
        ..f
    }
}

/// The events of such an edit: one per given field, in the order title,
/// author, genre, status.
pub open spec fn edit_events(
    id: Seq<char>,
    title: Option<Seq<char>>,
    author: Option<Seq<char>>,
    genre: Option<Seq<char>>,
    status: Option<Seq<char>>,
) -> Seq<EventView> {
    let a: Seq<EventView> = match title {
        Some(t) => seq![EventView::MetadataSet { book: id, field: "title"@, value: t }],
        None => Seq::empty(),
    };
    let b: Seq<EventView> = match author {
        Some(x) => seq![EventView::MetadataSet { book: id, field: "author"@, value: x }],
        None => Seq::empty(),
    };
    let c: Seq<EventView> = match genre {
        Some(g) => seq![EventView::MetadataSet { book: id, field: "genre"@, value: g }],
        None => Seq::empty(),
    };
    let d: Seq<EventView> = match status {
        Some(s) => seq![EventView::StatusSet { book: id, status: s }],
        None => Seq::empty(),
    };
    a + b + c + d
}

/// The fields of a finished book: status `finished`, progress 100.
pub open spec fn finished_fields(f: SyncedFields) -> SyncedFields {
    SyncedFields { status: "finished"@, progress: 100, ..f }
}

/// The events of marking a book finished: the status, then the progress
/// with the position `cfi`.
pub open spec fn finish_events(id: Seq<char>, cfi: Option<Seq<char>>) -> Seq<EventView> {
    seq![
        EventView::StatusSet { book: id, status: "finished"@ },
        EventView::ProgressSet { book: id, progress: 100, cfi },
    ]
}

/// The fields with a new progress and position.
pub open spec fn progressed(f: SyncedFields, progress: int, cfi: Option<Seq<char>>) -> SyncedFields {
    SyncedFields { progress, cfi, ..f }
}

/// The event that publishes progress, when it is published.
pub open spec fn progress_events(id: Seq<char>, progress: int, cfi: Option<Seq<char>>, publish: bool) -> Seq<EventView> {
    if publish {
        seq![EventView::ProgressSet { book: id, progress, cfi }]
    } else {
        Seq::empty()
    }
}

/// Replaying events one at a time after others.
pub proof fn lemma_replay_push(f: SyncedFields, es: Seq<EventView>, e: EventView)
    ensures
        replay(f, es.push(e)) == apply_event(replay(f, es), e),
{
    assert(es.push(e).drop_last() =~= es);
}

/// Sets the given metadata fields and the reading status of a book at time
/// `now`, and gives the events that publish the change.
pub fn edit_book(
    book: &mut Book,
    title: Option<&str>,
    author: Option<&str>,
    genre: Option<&str>,
    status: Option<&str>,
    now: i64,
) -> (events: Vec<BookEvent>)
    ensures
        synced(*final(book)) == edited(
            synced(*old(book)),
            crate::chat::opt_str_view(title),
            crate::chat::opt_str_view(author),
            crate::chat::opt_str_view(genre),
            crate::chat::opt_str_view(status),
        ),
        same_unsynced(*old(book), *final(book)),
        final(book).updated_at == if title is None && author is None && genre is None && status is None {
            old(book).updated_at
        } else {
            now
        },
        event_views(events@) == edit_events(
            old(book).id@,
            crate::chat::opt_str_view(title),
            crate::chat::opt_str_view(author),
            crate::chat::opt_str_view(genre),
            crate::chat::opt_str_view(status),
        ),
{
    let mut events: Vec<BookEvent> = Vec::new();
    let ghost id = book.id@;
    if let Some(t) = title {
        book.title = t.to_string();
        book.updated_at = now;
        events.push(BookEvent::MetadataSet { book: book.id.clone(), field: "title".to_string(), value: t.to_string() });
    }
    let ghost ea = event_views(events@);
    if let Some(a) = author {
        book.author = a.to_string();
        book.updated_at = now;
        events.push(BookEvent::MetadataSet { book: book.id.clone(), field: "author".to_string(), value: a.to_string() });
    }
    let ghost eb = event_views(events@);
    if let Some(g) = genre {
        book.genre = Some(g.to_string());
        book.updated_at = now;
        events.push(BookEvent::MetadataSet { book: book.id.clone(), field: "genre".to_string(), value: g.to_string() });
    }
    let ghost ec = event_views(events@);
    if let Some(s) = status {
        book.status = s.to_string();
        book.updated_at = now;
        events.push(BookEvent::StatusSet { book: book.id.clone(), status: s.to_string() });
    }
    proof {
        let t = crate::chat::opt_str_view(title);
        let a = crate::chat::opt_str_view(author);
        let g = crate::chat::opt_str_view(genre);
        let s = crate::chat::opt_str_view(status);
        assert(ea =~= (match t {
            Some(x) => seq![EventView::MetadataSet { book: id, field: "title"@, value: x }],
            None => Seq::<EventView>::empty(),
        }));
        assert(event_views(events@) =~= edit_events(id, t, a, g, s));
    }
    events
}

/// Marks a book finished at time `now`: status `finished`, progress 100,
/// the position kept; the events publish the status, then the progress
/// with the kept position.
pub fn finish_book(book: &mut Book, now: i64) -> (events: Vec<BookEvent>)
    ensures
        synced(*final(book)) == finished_fields(synced(*old(book))),
        same_unsynced(*old(book), *final(book)),
        final(book).updated_at == now,
        event_views(events@) == finish_events(old(book).id@, opt_view(old(book).current_cfi)),
{
    let cfi = book.current_cfi.clone();
    book.status = "finished".to_string();
    book.progress = 100;
    book.updated_at = now;
    let events = vec![
        BookEvent::StatusSet { book: book.id.clone(), status: "finished".to_string() },
        BookEvent::ProgressSet { book: book.id.clone(), progress: 100, cfi },
    ];
    assert(event_views(events@) =~= finish_events(old(book).id@, opt_view(old(book).current_cfi)));
    events
}

/// Records reading progress and position at time `now`; the event that
/// publishes it is given only when `publish` (the caller's throttle of
/// page turns allows it).
pub fn set_progress(book: &mut Book, progress: i32, cfi: Option<String>, publish: bool, now: i64) -> (events: Vec<BookEvent>)
    ensures
        synced(*final(book)) == progressed(synced(*old(book)), progress as int, opt_view(cfi)),
        same_unsynced(*old(book), *final(book)),
        final(book).updated_at == now,
        event_views(events@) == progress_events(old(book).id@, progress as int, opt_view(cfi), publish),
{
    book.progress = progress;
    book.current_cfi = cfi.clone();
    book.updated_at = now;
    let mut events: Vec<BookEvent> = Vec::new();
    if publish {
        events.push(BookEvent::ProgressSet { book: book.id.clone(), progress, cfi });
    }
    assert(event_views(events@) =~= progress_events(old(book).id@, progress as int, opt_view(cfi), publish));
    events
}

/// An edit of a book's metadata and status publishes events that, replayed
/// on the book's fields before the edit, give its fields after the edit.
pub proof fn lemma_edit_replays(
    f: SyncedFields,
    id: Seq<char>,
    title: Option<Seq<char>>,
    author: Option<Seq<char>>,
    genre: Option<Seq<char>>,
    status: Option<Seq<char>>,
)
    ensures
        replay(f, edit_events(id, title, author, genre, status)) == edited(f, title, author, genre, status),
        all_for(edit_events(id, title, author, genre, status), id),
{
    reveal_strlit("title");
    reveal_strlit("author");
    reveal_strlit("genre");
    assert("title"@.len() == 5 && "author"@.len() == 6 && "genre"@.len() == 5);
    assert("genre"@[0] != "title"@[0]);
    assert("author"@ != "title"@ && "genre"@ != "title"@ && "genre"@ != "author"@);
    let a: Seq<EventView> = match title {
        Some(t) => seq![EventView::MetadataSet { book: id, field: "title"@, value: t }],
        None => Seq::empty(),
    };
    let b: Seq<EventView> = match author {
        Some(x) => seq![EventView::MetadataSet { book: id, field: "author"@, value: x }],
        None => Seq::empty(),
    };
    let c: Seq<EventView> = match genre {
        Some(g) => seq![EventView::MetadataSet { book: id, field: "genre"@, value: g }],
        None => Seq::empty(),
    };
    let d: Seq<EventView> = match status {
        Some(s) => seq![EventView::StatusSet { book: id, status: s }],
        None => Seq::empty(),
    };
    assert(replay(f, Seq::<EventView>::empty()) == f);
    let fa = edited(f, title, None, None, None);
    let fb = edited(f, title, author, None, None);
    let fc = edited(f, title, author, genre, None);
    if title is Some {
        lemma_replay_push(f, Seq::<EventView>::empty(), a[0]);
        assert(Seq::<EventView>::empty().push(a[0]) =~= a);
    } else {
        assert(a =~= Seq::<EventView>::empty());
    }
    assert(replay(f, a) == fa);
    if author is Some {
        lemma_replay_push(f, a, b[0]);
        assert(a.push(b[0]) =~= a + b);
    } else {
        assert(a + b =~= a);
    }
    assert(replay(f, a + b) == fb);
    if genre is Some {
        lemma_replay_push(f, a + b, c[0]);
        assert((a + b).push(c[0]) =~= a + b + c);
    } else {
        assert(a + b + c =~= a + b);
    }
    assert(replay(f, a + b + c) == fc);
    if status is Some {
        lemma_replay_push(f, a + b + c, d[0]);
        assert((a + b + c).push(d[0]) =~= a + b + c + d);
    } else {
        assert(a + b + c + d =~= a + b + c);
    }
    assert(edit_events(id, title, author, genre, status) =~= a + b + c + d);
}

/// Marking a book finished publishes events that, replayed on its fields
/// before, give its fields after: the position goes with the progress, so
/// no device loses it.
pub proof fn lemma_finish_replays(f: SyncedFields, id: Seq<char>)
    ensures
        replay(f, finish_events(id, f.cfi)) == finished_fields(f),
{
    let e1 = EventView::StatusSet { book: id, status: "finished"@ };
    let e2 = EventView::ProgressSet { book: id, progress: 100, cfi: f.cfi };
    lemma_replay_push(f, Seq::<EventView>::empty(), e1);
    assert(Seq::<EventView>::empty().push(e1) =~= seq![e1]);
    lemma_replay_push(f, seq![e1], e2);
    assert(seq![e1].push(e2) =~= finish_events(id, f.cfi));
}

/// Progress that is published replays to the progress recorded.
pub proof fn lemma_progress_replays(f: SyncedFields, id: Seq<char>, progress: int, cfi: Option<Seq<char>>)
    ensures
        replay(f, progress_events(id, progress, cfi, true)) == progressed(f, progress, cfi),
{
    let e = EventView::ProgressSet { book: id, progress, cfi };
    lemma_replay_push(f, Seq::<EventView>::empty(), e);
    assert(Seq::<EventView>::empty().push(e) =~= progress_events(id, progress, cfi, true));
}

} // verus!
