//! From the bytes of a text book's source file to its reading document:
//! integrity check, character decoding, HTML flattening, and the checks
//! before parsing.

use pulldown_cmark::{Event, Options, Parser, TagEnd};
use sha2::Digest;
use vstd::prelude::*;

use crate::document::{document_parts_spec, text_document_parts, TextBookDocument, TEXT_DOCUMENT_VERSION};
use crate::error::AppError;
use crate::text::{chars_of, extend_str, join_range, string_from_chars, trim_range, trim_ws, utf16_len_spec, views};

verus! {

/// Largest text source accepted, in bytes.
pub const MAX_TEXT_IMPORT_BYTES: u64 = 26_214_400;

/// Lower-case hexadecimal SHA-256 digest of a byte sequence.
pub uninterp spec fn sha256_hex_digest(bytes: Seq<u8>) -> Seq<char>;

/// The SHA-256 digest of `bytes` in lower-case hexadecimal, as `sha2`
/// computes it; a function of the bytes alone.
#[verifier::external_body]
pub(crate) fn sha256_hex(bytes: &[u8]) -> (r: String)
    ensures
        r@ == sha256_hex_digest(bytes@),
{
    format!("{:x}", sha2::Sha256::digest(bytes))
}

/// Unicode encodings that a byte-order mark identifies.
#[derive(Debug, Clone, Copy, PartialEq, Eq, Structural)]
pub enum BomEncoding {
    Utf8,
    Utf16Le,
    Utf16Be,
}

/// The encoding named by a byte-order mark at the start of `b`, with the
/// mark's length.
pub open spec fn bom_spec(b: Seq<u8>) -> Option<(BomEncoding, usize)> {
    if b.len() >= 3 && b[0] == 0xEF && b[1] == 0xBB && b[2] == 0xBF {
        Some((BomEncoding::Utf8, 3))
    } else if b.len() >= 2 && b[0] == 0xFF && b[1] == 0xFE {
        Some((BomEncoding::Utf16Le, 2))
    } else if b.len() >= 2 && b[0] == 0xFE && b[1] == 0xFF {
        Some((BomEncoding::Utf16Be, 2))
    } else {
        None
    }
}

/// Byte-order-mark sniffing (what `encoding_rs::Encoding::for_bom` does).
pub fn sniff_bom(b: &[u8]) -> (r: Option<(BomEncoding, usize)>)
    ensures
        r == bom_spec(b@),
{
    if b.len() >= 3 && b[0] == 0xEF && b[1] == 0xBB && b[2] == 0xBF {
        Some((BomEncoding::Utf8, 3))
    } else if b.len() >= 2 && b[0] == 0xFF && b[1] == 0xFE {
        Some((BomEncoding::Utf16Le, 2))
    } else if b.len() >= 2 && b[0] == 0xFE && b[1] == 0xFF {
        Some((BomEncoding::Utf16Be, 2))
    } else {
        None
    }
}

/// The byte-order marks, as the Unicode standard (and
/// `encoding_rs::Encoding::for_bom`) defines them: `EF BB BF` is UTF-8,
/// `FF FE` is UTF-16 little-endian, `FE FF` is UTF-16 big-endian; the mark
/// is the first 3 or 2 bytes, and bytes starting otherwise have none.
pub proof fn lemma_byte_order_marks(b: Seq<u8>)
    ensures
        b.len() >= 3 && b[0] == 0xEFu8 && b[1] == 0xBBu8 && b[2] == 0xBFu8 ==> bom_spec(b) == Some((BomEncoding::Utf8, 3usize)),
        b.len() >= 2 && b[0] == 0xFFu8 && b[1] == 0xFEu8 ==> bom_spec(b) == Some((BomEncoding::Utf16Le, 2usize)),
        b.len() >= 2 && b[0] == 0xFEu8 && b[1] == 0xFFu8 ==> bom_spec(b) == Some((BomEncoding::Utf16Be, 2usize)),
        bom_spec(b) matches Some((e, n)) ==> match e {
            BomEncoding::Utf8 => n == 3 && b.len() >= 3 && b[0] == 0xEFu8 && b[1] == 0xBBu8 && b[2] == 0xBFu8,
            BomEncoding::Utf16Le => n == 2 && b.len() >= 2 && b[0] == 0xFFu8 && b[1] == 0xFEu8,
            BomEncoding::Utf16Be => n == 2 && b.len() >= 2 && b[0] == 0xFEu8 && b[1] == 0xFFu8,
        },
{
}

/// A text source that starts with a byte-order mark is decoded with the
/// encoding that mark names, from the byte after the mark: a UTF-16
/// big-endian file (`FE FF`) is read as UTF-16 big-endian.
pub proof fn lemma_marked_sources_decode_by_their_mark(b: Seq<u8>)
    requires
        b.len() <= MAX_TEXT_IMPORT_BYTES,
    ensures
        b.len() >= 2 && b[0] == 0xFEu8 && b[1] == 0xFFu8 ==> decode_txt_spec(b) == if encoding_decoded(BomEncoding::Utf16Be, b.skip(2)).1 {
            Err::<Seq<char>, Seq<char>>("ENCODING_UNCERTAIN"@)
        } else {
            Ok(encoding_decoded(BomEncoding::Utf16Be, b.skip(2)).0)
        },
        b.len() >= 2 && b[0] == 0xFFu8 && b[1] == 0xFEu8 ==> decode_txt_spec(b) == if encoding_decoded(BomEncoding::Utf16Le, b.skip(2)).1 {
            Err::<Seq<char>, Seq<char>>("ENCODING_UNCERTAIN"@)
        } else {
            Ok(encoding_decoded(BomEncoding::Utf16Le, b.skip(2)).0)
        },
{
}

/// What `encoding_rs`'s `Encoding::decode` gives for the encoding and the
/// bytes: the text (malformed sequences replaced) and whether any were.
pub uninterp spec fn encoding_decoded(encoding: BomEncoding, bytes: Seq<u8>) -> (Seq<char>, bool);

/// `Encoding::decode` of `encoding_rs` with one of the Unicode encodings.
/// The result is a function of the encoding and the bytes.
#[verifier::external_body]
fn decode_unicode(encoding: BomEncoding, bytes: &[u8]) -> (r: (String, bool))
    requires
        bytes.len() <= MAX_TEXT_IMPORT_BYTES,
    ensures
        (r.0@, r.1) == encoding_decoded(encoding, bytes@),
{
    let encoding = match encoding {
        BomEncoding::Utf8 => encoding_rs::UTF_8,
        BomEncoding::Utf16Le => encoding_rs::UTF_16LE,
        BomEncoding::Utf16Be => encoding_rs::UTF_16BE,
    };
    let (text, _, had_errors) = encoding.decode(bytes);
    (text.into_owned(), had_errors)
}

/// What decoding gives with the encoding that `chardetng` guesses for the
/// whole input: the text and whether malformed sequences were replaced.
pub uninterp spec fn detected_decoded(bytes: Seq<u8>) -> (Seq<char>, bool);

/// Guesses the encoding of `bytes` with `chardetng` (the whole input fed at
/// once, UTF-8 allowed) and decodes with it. The result is a function of
/// the bytes.
#[verifier::external_body]
fn decode_detected(bytes: &[u8]) -> (r: (String, bool))
    requires
        bytes.len() <= MAX_TEXT_IMPORT_BYTES,
    ensures
        (r.0@, r.1) == detected_decoded(bytes@),
{
    let mut detector = chardetng::EncodingDetector::new();
    detector.feed(bytes, true);
    let (text, _, had_errors) = detector.guess(None, true).decode(bytes);
    (text.into_owned(), had_errors)
}

/// The text of a source file: refused when too large; decoded with the
/// encoding of its byte-order mark, else the guessed one; refused when
/// malformed sequences had to be replaced.
pub open spec fn decode_txt_spec(b: Seq<u8>) -> Result<Seq<char>, Seq<char>> {
    if b.len() > MAX_TEXT_IMPORT_BYTES {
        Err("TEXT_FILE_TOO_LARGE"@)
    } else {
        let d = match bom_spec(b) {
            Some((e, n)) => encoding_decoded(e, b.skip(n as int)),
            None => detected_decoded(b),
        };
        if d.1 {
            Err("ENCODING_UNCERTAIN"@)
        } else {
            Ok(d.0)
        }
    }
}

/// Decodes the bytes of a plain-text source.
pub fn decode_txt(bytes: &[u8]) -> (r: Result<String, AppError>)
    ensures
        match r {
            Ok(s) => decode_txt_spec(bytes@) == Ok::<Seq<char>, Seq<char>>(s@),
            Err(e) => e is Other && decode_txt_spec(bytes@) == Err::<Seq<char>, Seq<char>>(e.message_view()),
        },
{
    if bytes.len() as u64 > MAX_TEXT_IMPORT_BYTES {
        return Err(crate::error::other("TEXT_FILE_TOO_LARGE"));
    }
    let (text, had_errors) = match sniff_bom(bytes) {
        Some((encoding, len)) => {
            let rest = &bytes[len..bytes.len()];
            assert(rest@ =~= bytes@.skip(len as int));
            decode_unicode(encoding, rest)
        },
        None => decode_detected(bytes),
    };
    if had_errors {
        return Err(crate::error::other("ENCODING_UNCERTAIN"));
    }
    Ok(text)
}

/// What `ammonia::clean` makes of an HTML fragment (the sanitised HTML).
pub uninterp spec fn sanitized_html(html: Seq<char>) -> Seq<char>;

/// `ammonia::clean`: sanitises HTML with the default policy; a function of
/// its input.
#[verifier::external_body]
fn sanitize_html(html: &str) -> (r: String)
    ensures
        r@ == sanitized_html(html@),
{
    ammonia::clean(html)
}

/// The text nodes of an HTML fragment in document order, as `scraper`
/// parses it.
pub uninterp spec fn fragment_text_nodes(html: Seq<char>) -> Seq<Seq<char>>;

/// Parses an HTML fragment with `scraper` and lists the text nodes under
/// its root element; a function of its input.
#[verifier::external_body]
fn html_text_nodes(html: &str) -> (r: Vec<Vec<char>>)
    ensures
        views(r@) == fragment_text_nodes(html@),
{
    let fragment = scraper::Html::parse_fragment(html);
    let nodes: Vec<Vec<char>> = fragment.root_element().text().map(|t| t.chars().collect()).collect();
    nodes
}

/// The text of an HTML source: the text nodes of its sanitised form, one per
/// line.
pub open spec fn html_to_text_spec(html: Seq<char>) -> Seq<char> {
    crate::text::join_seqs(fragment_text_nodes(sanitized_html(html)), "\n"@)
}

/// Flattens an HTML source to text.
pub fn html_to_text(html: &str) -> (r: String)
    ensures
        r@ == html_to_text_spec(html@),
{
    let cleaned = sanitize_html(html);
    let nodes = html_text_nodes(cleaned.as_str());
    let joined = join_range(&nodes, 0, nodes.len(), "\n");
    assert(views(nodes@).subrange(0, nodes.len() as int) =~= views(nodes@));
    string_from_chars(&joined)
}

/// Markdown extensions the flattening parses with: tables (bit 1),
/// strikethrough (bit 3) and task lists (bit 4) of `pulldown_cmark::Options`.
pub const MARKDOWN_OPTIONS: u32 = 26;

/// The Markdown parse events that flattening reads; every other event is
/// `Other`.
#[derive(Debug)]
pub enum MarkdownEvent {
    Text(String),
    Code(String),
    SoftBreak,
    HardBreak,
    EndParagraph,
    EndHeading,
    EndBlockQuote,
    EndCodeBlock,
    EndItem,
    EndTableRow,
    Other,
}

/// Spec form of a Markdown event.
pub enum MarkdownEventView {
    Text(Seq<char>),
    Code(Seq<char>),
    SoftBreak,
    HardBreak,
    EndParagraph,
    EndHeading,
    EndBlockQuote,
    EndCodeBlock,
    EndItem,
    EndTableRow,
    Other,
}

impl View for MarkdownEvent {
    type V = MarkdownEventView;

    open spec fn view(&self) -> MarkdownEventView {
        match self {
            MarkdownEvent::Text(v) => MarkdownEventView::Text(v@),
            MarkdownEvent::Code(v) => MarkdownEventView::Code(v@),
            MarkdownEvent::SoftBreak => MarkdownEventView::SoftBreak,
            MarkdownEvent::HardBreak => MarkdownEventView::HardBreak,
            MarkdownEvent::EndParagraph => MarkdownEventView::EndParagraph,
            MarkdownEvent::EndHeading => MarkdownEventView::EndHeading,
            MarkdownEvent::EndBlockQuote => MarkdownEventView::EndBlockQuote,
            MarkdownEvent::EndCodeBlock => MarkdownEventView::EndCodeBlock,
            MarkdownEvent::EndItem => MarkdownEventView::EndItem,
            MarkdownEvent::EndTableRow => MarkdownEventView::EndTableRow,
            MarkdownEvent::Other => MarkdownEventView::Other,
        }
    }
}

/// Views of a sequence of Markdown events.
pub open spec fn event_views(events: Seq<MarkdownEvent>) -> Seq<MarkdownEventView> {
    events.map_values(|e: MarkdownEvent| e@)
}

/// The events `pulldown_cmark`'s parser yields for a Markdown text with the
/// given option bits, each taken to its `MarkdownEvent`.
pub uninterp spec fn markdown_parsed(markdown: Seq<char>, options: u32) -> Seq<MarkdownEventView>;

/// Runs `pulldown_cmark::Parser::new_ext` over `markdown` with the given
/// option bits and takes each event to a `MarkdownEvent`; a function of its
/// arguments.
#[verifier::external_body]
fn markdown_events(markdown: &str, options: u32) -> (r: Vec<MarkdownEvent>)
    ensures
        event_views(r@) == markdown_parsed(markdown@, options),
{
    let parser = Parser::new_ext(markdown, Options::from_bits_truncate(options));
    parser.map(|event| match event {
        Event::Text(value) => MarkdownEvent::Text(value.to_string()),
        Event::Code(value) => MarkdownEvent::Code(value.to_string()),
        Event::SoftBreak => MarkdownEvent::SoftBreak,
        Event::HardBreak => MarkdownEvent::HardBreak,
        Event::End(TagEnd::Paragraph) => MarkdownEvent::EndParagraph,
        Event::End(TagEnd::Heading(_)) => MarkdownEvent::EndHeading,
        Event::End(TagEnd::BlockQuote(_)) => MarkdownEvent::EndBlockQuote,
        Event::End(TagEnd::CodeBlock) => MarkdownEvent::EndCodeBlock,
        Event::End(TagEnd::Item) => MarkdownEvent::EndItem,
        Event::End(TagEnd::TableRow) => MarkdownEvent::EndTableRow,
        _ => MarkdownEvent::Other,
    }).collect()
}

/// What one event contributes to the flattened text: its text for text and
/// inline code, a line break for breaks and the end of a block.
pub open spec fn markdown_piece(e: MarkdownEventView) -> Seq<char> {
    match e {
        MarkdownEventView::Text(v) => v,
        MarkdownEventView::Code(v) => v,
        MarkdownEventView::Other => Seq::empty(),
        _ => seq!['\n'],
    }
}

/// The flattened text of a run of Markdown events.
pub open spec fn markdown_text(events: Seq<MarkdownEventView>) -> Seq<char>
    decreases events.len(),
{
    if events.len() == 0 {
        Seq::empty()
    } else {
        markdown_text(events.drop_last()) + markdown_piece(events.last())
    }
}

/// Flattens parsed Markdown events to text.
pub fn flatten_markdown_events(events: &[MarkdownEvent]) -> (r: String)
    ensures
        r@ == markdown_text(event_views(events@)),
{
    let ghost evs = event_views(events@);
    let mut out: Vec<char> = Vec::new();
    let mut i: usize = 0;
    while i < events.len()
        invariant
            i <= events.len(),
            evs == event_views(events@),
            out@ == markdown_text(evs.take(i as int)),
        decreases events.len() - i,
    {
        proof {
            assert(evs.take(i + 1).drop_last() =~= evs.take(i as int));
        }
        match &events[i] {
            MarkdownEvent::Text(value) => extend_str(&mut out, value.as_str()),
            MarkdownEvent::Code(value) => extend_str(&mut out, value.as_str()),
            MarkdownEvent::Other => {},
            _ => out.push('\n'),
        }
        proof {
            assert(out@ =~= markdown_text(evs.take(i + 1)));
        }
        i += 1;
    }
    assert(evs.take(events.len() as int) =~= evs);
    string_from_chars(&out)
}

/// The text of a Markdown source: the text of its parse events, with line
/// breaks at breaks and block ends.
pub open spec fn markdown_to_text_spec(markdown: Seq<char>) -> Seq<char> {
    markdown_text(markdown_parsed(markdown, MARKDOWN_OPTIONS))
}

/// Flattens a Markdown source to text.
pub fn markdown_to_text(markdown: &str) -> (r: String)
    ensures
        r@ == markdown_to_text_spec(markdown@),
{
    let events = markdown_events(markdown, MARKDOWN_OPTIONS);
    flatten_markdown_events(&events)
}

/// A source's digest and its decoded text, or the reason it is refused:
/// `TEXT_SOURCE_HASH_MISMATCH` when its digest differs from the expected
/// one, else what decoding reports.
pub open spec fn decoded_source_spec(b: Seq<u8>, expected: Option<Seq<char>>) -> Result<(Seq<char>, Seq<char>), Seq<char>> {
    let actual = sha256_hex_digest(b);
    if expected matches Some(e) && e != actual {
        Err("TEXT_SOURCE_HASH_MISMATCH"@)
    } else {
        match decode_txt_spec(b) {
            Ok(t) => Ok((actual, t)),
            Err(e) => Err(e),
        }
    }
}

/// Checks a text source against its expected digest and decodes it; gives
/// the actual digest and the text.
pub fn decode_text_source(source_bytes: &[u8], expected_source_sha256: Option<&str>) -> (r: Result<(String, String), AppError>)
    ensures
        match r {
            Ok((sha, text)) => decoded_source_spec(source_bytes@, crate::chat::opt_str_view(expected_source_sha256))
                == Ok::<(Seq<char>, Seq<char>), Seq<char>>((sha@, text@)),
            Err(e) => e is Other && decoded_source_spec(source_bytes@, crate::chat::opt_str_view(expected_source_sha256))
                == Err::<(Seq<char>, Seq<char>), Seq<char>>(e.message_view()),
        },
{
    let actual = sha256_hex(source_bytes);
    match expected_source_sha256 {
        Some(expected) => {
            if !crate::text::str_eq(expected, actual.as_str()) {
                return Err(crate::error::other("TEXT_SOURCE_HASH_MISMATCH"));
            }
        },
        None => {},
    }
    match decode_txt(source_bytes) {
        Ok(text) => Ok((actual, text)),
        Err(e) => Err(e),
    }
}

/// Number of UTF-16 code units of `v`, when below `u64::MAX`.
fn utf16_len_below_max(v: &[char]) -> (r: bool)
    ensures
        r == (utf16_len_spec(v@) < u64::MAX),
{
    let ghost w = crate::text::utf16_weight();
    let mut total: u64 = 0;
    let mut i: usize = 0;
    while i < v.len()
        invariant
            i <= v.len(),
            w == crate::text::utf16_weight(),
            total == crate::text::weighted_len(v@.take(i as int), w),
            total < u64::MAX,
        decreases v.len() - i,
    {
        proof {
            crate::text::lemma_weighted_len_take_next(v@, i as int, w);
        }
        let c = crate::text::char_utf16_width(v[i]);
        if c >= u64::MAX - total {
            proof {
                crate::text::lemma_weighted_len_add(v@.take(i + 1), v@.skip(i + 1), w);
                assert(v@.take(i + 1) + v@.skip(i + 1) =~= v@);
            }
            return false;
        }
        total = total + c;
        i += 1;
    }
    assert(v@.take(v.len() as int) =~= v@);
    true
}

/// Whether `r` is the reading document of `text` (a decoded source, already
/// flattened for Markdown and HTML) with digest `sha`, or the reason there
/// is none: `EMPTY_BOOK` for a blank text, `TEXT_BOOK_TOO_LARGE` for one
/// whose UTF-16 length does not fit the document's offsets. Hard wraps are
/// reflowed for `txt` sources.
pub open spec fn document_outcome(text: Seq<char>, source_format: Seq<char>, sha: Seq<char>, r: Result<TextBookDocument, AppError>) -> bool {
    match r {
        Ok(d) => {
            let spec = document_parts_spec(text, source_format == "txt"@);
            &&& trim_ws(text).len() > 0
            &&& utf16_len_spec(text) < u64::MAX
            &&& d.version == TEXT_DOCUMENT_VERSION
            &&& d.source_sha256 matches Some(s) && s@ == sha
            &&& d.coordinate_space@ == "normalized_utf16"@
            &&& crate::document::chunk_views(d.chunks@) == spec.0
            &&& crate::document::toc_views(d.toc@) == spec.1
            &&& crate::document::offsets_view(d.legacy_locations@) == spec.2
        },
        Err(e) => e is Other && (if trim_ws(text).len() == 0 {
            e.message_view() == "EMPTY_BOOK"@
        } else {
            utf16_len_spec(text) >= u64::MAX && e.message_view() == "TEXT_BOOK_TOO_LARGE"@
        }),
    }
}

/// Builds the reading document of a decoded text.
pub fn text_document_from_text(text: &str, source_format: &str, source_sha256: String) -> (r: Result<TextBookDocument, AppError>)
    ensures
        document_outcome(text@, source_format@, source_sha256@, r),
{
    let v = chars_of(text);
    let (a, b) = trim_range(&v);
    if a == b {
        return Err(crate::error::other("EMPTY_BOOK"));
    }
    if !utf16_len_below_max(&v) {
        return Err(crate::error::other("TEXT_BOOK_TOO_LARGE"));
    }
    let (chunks, toc, legacy_locations) = text_document_parts(text, crate::text::str_eq(source_format, "txt"));
    Ok(TextBookDocument {
        version: TEXT_DOCUMENT_VERSION,
        source_sha256: Some(source_sha256),
        coordinate_space: "normalized_utf16".to_string(),
        chunks,
        toc,
        legacy_locations,
    })
}

/// The text of a decoded source in the given format: Markdown and HTML
/// are flattened, anything else is taken as it is.
pub open spec fn source_text_spec(decoded: Seq<char>, source_format: Seq<char>) -> Seq<char> {
    if source_format == "markdown"@ {
        markdown_to_text_spec(decoded)
    } else if source_format == "html"@ {
        html_to_text_spec(decoded)
    } else {
        decoded
    }
}

/// Prepares the reading document of a text source from its bytes: checks
/// the expected digest, decodes, flattens Markdown and HTML, and parses.
pub fn prepare_text_document(source_bytes: &[u8], source_format: &str, expected_source_sha256: Option<&str>) -> (r: Result<TextBookDocument, AppError>)
    ensures
        match decoded_source_spec(source_bytes@, crate::chat::opt_str_view(expected_source_sha256)) {
            Err(m) => r matches Err(e) && e is Other && e.message_view() == m,
            Ok((sha, text)) => document_outcome(source_text_spec(text, source_format@), source_format@, sha, r),
        },
{
    let (sha, decoded) = match decode_text_source(source_bytes, expected_source_sha256) {
        Ok(pair) => pair,
        Err(e) => return Err(e),
    };
    let text = if crate::text::str_eq(source_format, "markdown") {
        markdown_to_text(decoded.as_str())
    } else if crate::text::str_eq(source_format, "html") {
        html_to_text(decoded.as_str())
    } else {
        decoded
    };
    text_document_from_text(text.as_str(), source_format, sha)
}

} // verus!
