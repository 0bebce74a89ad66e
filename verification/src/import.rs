//! Recognising the format of a file offered for import, from its size, its
//! extension and its first bytes, and, for a ZIP container, from the names
//! it lists.

use vstd::prelude::*;
use vstd::utf8::{decode_utf8, valid_utf8};

use crate::error::AppError;
use crate::source::{bom_spec, sniff_bom, MAX_TEXT_IMPORT_BYTES};
use crate::text::{ascii_lower_seq, chars_of, contains_chars, contains_seq, ends_with, ends_with_chars, lower_chars};

verus! {

/// The formats a book can be imported from.
#[derive(Debug, Clone, Copy, PartialEq, Eq, Structural)]
pub enum ImportFormat {
    Epub,
    Pdf,
    Txt,
    Markdown,
    Html,
    Mobi,
    Fb2,
    Fbz,
    Cbz,
}

/// The name under which a format is recorded as a book's source format.
pub open spec fn source_name_spec(f: ImportFormat) -> Seq<char> {
    match f {
        ImportFormat::Epub => "epub"@,
        ImportFormat::Pdf => "pdf"@,
        ImportFormat::Txt => "txt"@,
        ImportFormat::Markdown => "markdown"@,
        ImportFormat::Html => "html"@,
        ImportFormat::Mobi => "mobi"@,
        ImportFormat::Fb2 => "fb2"@,
        ImportFormat::Fbz => "fbz"@,
        ImportFormat::Cbz => "cbz"@,
    }
}

impl ImportFormat {
    /// The name under which the format is recorded as a source format.
    pub fn source_name(self) -> (r: &'static str)
        ensures
            r@ == source_name_spec(self),
    {
        proof {
            reveal_strlit("epub");
            reveal_strlit("pdf");
            reveal_strlit("txt");
            reveal_strlit("markdown");
            reveal_strlit("html");
            reveal_strlit("mobi");
            reveal_strlit("fb2");
            reveal_strlit("fbz");
            reveal_strlit("cbz");
        }
        match self {
            ImportFormat::Epub => "epub",
            ImportFormat::Pdf => "pdf",
            ImportFormat::Txt => "txt",
            ImportFormat::Markdown => "markdown",
            ImportFormat::Html => "html",
            ImportFormat::Mobi => "mobi",
            ImportFormat::Fb2 => "fb2",
            ImportFormat::Fbz => "fbz",
            ImportFormat::Cbz => "cbz",
        }
    }

    /// The extension under which the original file of a converted format is
    /// kept: the file's own extension in lower case for Mobipocket, the
    /// format's name for the others; `None` for formats read natively.
    pub fn native_extension(self, extension: Option<&str>) -> (r: Option<String>)
        ensures
            r matches Some(s) ==> s@ == native_extension_spec(self, opt_ext(extension)).unwrap(),
            r is Some == native_extension_spec(self, opt_ext(extension)) is Some,
    {
        proof {
            reveal_strlit("fb2");
            reveal_strlit("fbz");
            reveal_strlit("cbz");
        }
        match self {
            ImportFormat::Mobi => match extension {
                Some(e) => {
                    let lowered = lower_chars(&chars_of(e));
                    Some(crate::text::string_from_chars(&lowered))
                },
                None => None,
            },
            ImportFormat::Fb2 => Some("fb2".to_string()),
            ImportFormat::Fbz => Some("fbz".to_string()),
            ImportFormat::Cbz => Some("cbz".to_string()),
            _ => None,
        }
    }
}

/// View of an optional extension.
pub open spec fn opt_ext(e: Option<&str>) -> Option<Seq<char>> {
    match e {
        Some(s) => Some(s@),
        None => None,
    }
}

/// The kept extension of a converted format's original file.
pub open spec fn native_extension_spec(f: ImportFormat, extension: Option<Seq<char>>) -> Option<Seq<char>> {
    match f {
        ImportFormat::Mobi => match extension {
            Some(e) => Some(ascii_lower_seq(e)),
            None => None,
        },
        ImportFormat::Fb2 => Some("fb2"@),
        ImportFormat::Fbz => Some("fbz"@),
        ImportFormat::Cbz => Some("cbz"@),
        _ => None,
    }
}

/// `str::eq_ignore_ascii_case`.
pub open spec fn eq_ascii_ci(a: Seq<char>, b: Seq<char>) -> bool {
    ascii_lower_seq(a) == ascii_lower_seq(b)
}

/// Whether a character slice equals `lit` ignoring ASCII case.
fn eq_ignore_ascii_case(a: &[char], lit: &str) -> (r: bool)
    ensures
        r == eq_ascii_ci(a@, lit@),
{
    let la = lower_chars(a);
    let lb = lower_chars(&chars_of(lit));
    crate::text::chars_eq(&la, &lb)
}

/// The text format an extension names (case aside), if any.
pub open spec fn text_format_of(ext: Seq<char>) -> Option<ImportFormat> {
    if eq_ascii_ci(ext, "txt"@) {
        Some(ImportFormat::Txt)
    } else if eq_ascii_ci(ext, "md"@) || eq_ascii_ci(ext, "markdown"@) {
        Some(ImportFormat::Markdown)
    } else if eq_ascii_ci(ext, "html"@) || eq_ascii_ci(ext, "htm"@) {
        Some(ImportFormat::Html)
    } else {
        None
    }
}

/// Computes `text_format_of`.
fn text_format_for(ext: &[char]) -> (r: Option<ImportFormat>)
    ensures
        r == text_format_of(ext@),
{
    if eq_ignore_ascii_case(ext, "txt") {
        Some(ImportFormat::Txt)
    } else if eq_ignore_ascii_case(ext, "md") || eq_ignore_ascii_case(ext, "markdown") {
        Some(ImportFormat::Markdown)
    } else if eq_ignore_ascii_case(ext, "html") || eq_ignore_ascii_case(ext, "htm") {
        Some(ImportFormat::Html)
    } else {
        None
    }
}

/// What the first bytes of a file decide.
#[derive(Debug, Clone, Copy, PartialEq, Eq, Structural)]
pub enum HeaderVerdict {
    /// The format is known.
    Format(ImportFormat),
    /// The file is a ZIP container, to be told apart by its entries.
    Container,
    /// The file cannot be imported (`UNSUPPORTED_FORMAT`).
    Unsupported,
}

/// Whether `h` starts with the bytes `p`.
pub open spec fn bytes_start_with(h: Seq<u8>, p: Seq<u8>) -> bool {
    p.len() <= h.len() && h.take(p.len() as int) == p
}

/// Whether bytes 60 to 67 of `h` spell `BOOKMOBI`.
pub open spec fn has_mobi_magic(h: Seq<u8>) -> bool {
    h.len() >= 68 && h.subrange(60, 68) == seq![0x42u8, 0x4F, 0x4F, 0x4B, 0x4D, 0x4F, 0x42, 0x49]
}

/// Whether `h` is UTF-8 whose ASCII-lower-cased text contains
/// `<fictionbook`.
pub open spec fn has_fictionbook_root(h: Seq<u8>) -> bool {
    valid_utf8(h) && contains_seq(ascii_lower_seq(decode_utf8(h)), "<fictionbook"@)
}

/// The format that a file's size, extension and first bytes decide, in this
/// order: a missing file, or an oversized one with a text extension, is
/// refused; `%PDF-` is PDF; a ZIP signature is a container; a Mobipocket
/// extension with the `BOOKMOBI` magic is Mobipocket; an `fb2` extension
/// with a `<FictionBook` root is FB2; a text extension with a byte-order
/// mark, or without NUL bytes in the header, is that text format; anything
/// else is refused.
pub open spec fn header_verdict_spec(is_file: bool, len: u64, ext: Seq<char>, header: Seq<u8>) -> HeaderVerdict {
    if !is_file || (len > MAX_TEXT_IMPORT_BYTES && text_format_of(ext) is Some) {
        HeaderVerdict::Unsupported
    } else if bytes_start_with(header, seq![0x25u8, 0x50, 0x44, 0x46, 0x2D]) {
        HeaderVerdict::Format(ImportFormat::Pdf)
    } else if bytes_start_with(header, seq![0x50u8, 0x4B, 0x03, 0x04]) {
        HeaderVerdict::Container
    } else if (eq_ascii_ci(ext, "mobi"@) || eq_ascii_ci(ext, "azw"@) || eq_ascii_ci(ext, "azw3"@)) && has_mobi_magic(header) {
        HeaderVerdict::Format(ImportFormat::Mobi)
    } else if eq_ascii_ci(ext, "fb2"@) && has_fictionbook_root(header) {
        HeaderVerdict::Format(ImportFormat::Fb2)
    } else if text_format_of(ext) is Some && (bom_spec(header) is Some || !header.contains(0u8)) {
        HeaderVerdict::Format(text_format_of(ext).unwrap())
    } else {
        HeaderVerdict::Unsupported
    }
}

/// `std::str::from_utf8`: the text of `bytes` when they are well-formed
/// UTF-8, else `None`.
#[verifier::external_body]
fn utf8_text(bytes: &[u8]) -> (r: Option<String>)
    ensures
        r is Some == valid_utf8(bytes@),
        r matches Some(s) ==> s@ == decode_utf8(bytes@),
{
    std::str::from_utf8(bytes).ok().map(|text| text.to_string())
}

/// Whether `h` starts with the bytes of `p`.
fn bytes_prefix(h: &[u8], p: &[u8]) -> (r: bool)
    ensures
        r == bytes_start_with(h@, p@),
{
    if p.len() > h.len() {
        return false;
    }
    let mut i: usize = 0;
    while i < p.len()
        invariant
            i <= p.len() <= h.len(),
            forall|j: int| 0 <= j < i ==> h@[j] == p@[j],
        decreases p.len() - i,
    {
        if h[i] != p[i] {
            return false;
        }
        i += 1;
    }
    assert(h@.take(p.len() as int) =~= p@);
    true
}

/// Whether the byte 0 occurs in `h`.
fn has_nul(h: &[u8]) -> (r: bool)
    ensures
        r == h@.contains(0u8),
{
    let mut i: usize = 0;
    while i < h.len()
        invariant
            i <= h.len(),
            forall|j: int| 0 <= j < i ==> h@[j] != 0u8,
        decreases h.len() - i,
    {
        if h[i] == 0 {
            return true;
        }
        i += 1;
    }
    false
}

/// Decides what a file's size, extension and first bytes tell of its
/// format. `extension` is the file name's extension, `None` when it has
/// none or it is not valid Unicode; `header` is what a first read of the
/// file gave.
pub fn detect_header_format(is_file: bool, len: u64, extension: Option<&str>, header: &[u8]) -> (r: HeaderVerdict)
    ensures
        r == header_verdict_spec(is_file, len, ext_or_empty(extension), header@),
{
    let ext: Vec<char> = match extension {
        Some(e) => chars_of(e),
        None => Vec::new(),
    };
    assert(ext@ == ext_or_empty(extension));
    let text_format = text_format_for(&ext);
    if !is_file || (len > MAX_TEXT_IMPORT_BYTES && text_format.is_some()) {
        return HeaderVerdict::Unsupported;
    }
    let pdf: [u8; 5] = [0x25, 0x50, 0x44, 0x46, 0x2D];
    assert(pdf@ == seq![0x25u8, 0x50, 0x44, 0x46, 0x2D]);
    if bytes_prefix(header, &pdf) {
        return HeaderVerdict::Format(ImportFormat::Pdf);
    }
    let zip: [u8; 4] = [0x50, 0x4B, 0x03, 0x04];
    assert(zip@ == seq![0x50u8, 0x4B, 0x03, 0x04]);
    if bytes_prefix(header, &zip) {
        return HeaderVerdict::Container;
    }
    if eq_ignore_ascii_case(&ext, "mobi") || eq_ignore_ascii_case(&ext, "azw") || eq_ignore_ascii_case(&ext, "azw3") {
        if header.len() >= 68 {
            let magic: [u8; 8] = [0x42, 0x4F, 0x4F, 0x4B, 0x4D, 0x4F, 0x42, 0x49];
            assert(magic@ == seq![0x42u8, 0x4F, 0x4F, 0x4B, 0x4D, 0x4F, 0x42, 0x49]);
            let window = &header[60..68];
            assert(window@ =~= header@.subrange(60, 68));
            if bytes_prefix(window, &magic) {
                assert(window@.take(8) =~= window@);
                return HeaderVerdict::Format(ImportFormat::Mobi);
            }
            proof {
                assert(window@.take(8) =~= window@);
            }
        }
    }
    if eq_ignore_ascii_case(&ext, "fb2") {
        if let Some(text) = utf8_text(header) {
            let lowered = lower_chars(&chars_of(text.as_str()));
            let root = chars_of("<fictionbook");
            if contains_chars(&lowered, &root) {
                return HeaderVerdict::Format(ImportFormat::Fb2);
            }
        }
    }
    match text_format {
        Some(f) => {
            if sniff_bom(header).is_some() || !has_nul(header) {
                HeaderVerdict::Format(f)
            } else {
                HeaderVerdict::Unsupported
            }
        },
        None => HeaderVerdict::Unsupported,
    }
}

/// An extension, or the empty text for none.
pub open spec fn ext_or_empty(e: Option<&str>) -> Seq<char> {
    match e {
        Some(s) => s@,
        None => Seq::empty(),
    }
}

/// What a ZIP container lists: the text of its `mimetype` entry when it
/// has one, whether it has `META-INF/container.xml`, and its entry names.
#[derive(Debug)]
pub struct ZipListing {
    pub mimetype: Option<String>,
    pub has_container_xml: bool,
    pub entry_names: Vec<String>,
}

/// Whether some name, lower-cased in ASCII, ends with one of `suffixes`.
pub open spec fn some_entry_ends_with(names: Seq<Seq<char>>, suffixes: Seq<Seq<char>>) -> bool {
    exists|i: int, j: int| 0 <= i < names.len() && 0 <= j < suffixes.len()
        && ends_with(ascii_lower_seq(#[trigger] names[i]), #[trigger] suffixes[j])
}

/// The image suffixes that make a ZIP a comic book archive.
pub open spec fn image_suffixes() -> Seq<Seq<char>> {
    seq![".jpg"@, ".jpeg"@, ".png"@, ".gif"@, ".webp"@]
}

/// The format of a ZIP container, given the file's extension and the
/// container's listing (`None` when it cannot be read as ZIP): EPUB when
/// the trimmed `mimetype` is `application/epub+zip` and the container
/// document is there; FBZ for an `fbz` file holding an `.fb2` entry; CBZ
/// for a `cbz` file holding an image; `INVALID_CONTAINER` otherwise.
pub open spec fn container_format_spec(ext: Seq<char>, listing: Option<(Option<Seq<char>>, bool, Seq<Seq<char>>)>) -> Result<ImportFormat, Seq<char>> {
    match listing {
        None => Err("INVALID_CONTAINER"@),
        Some((mimetype, has_container, names)) => {
            if (mimetype matches Some(m) && crate::text::trim_ws(m) == "application/epub+zip"@) && has_container {
                Ok(ImportFormat::Epub)
            } else if eq_ascii_ci(ext, "fbz"@) && some_entry_ends_with(names, seq![".fb2"@]) {
                Ok(ImportFormat::Fbz)
            } else if eq_ascii_ci(ext, "cbz"@) && some_entry_ends_with(names, image_suffixes()) {
                Ok(ImportFormat::Cbz)
            } else {
                Err("INVALID_CONTAINER"@)
            }
        },
    }
}

/// Spec form of a listing.
pub open spec fn listing_view(l: Option<ZipListing>) -> Option<(Option<Seq<char>>, bool, Seq<Seq<char>>)> {
    match l {
        Some(z) => Some((crate::preparation::opt_view(z.mimetype), z.has_container_xml, crate::preparation::string_views(z.entry_names@))),
        None => None,
    }
}

/// Whether some entry name, lower-cased in ASCII, ends with one of the
/// given suffixes.
fn any_entry_ends_with(names: &Vec<String>, suffixes: &Vec<Vec<char>>) -> (r: bool)
    ensures
        r == some_entry_ends_with(crate::preparation::string_views(names@), crate::text::views(suffixes@)),
{
    let ghost ns = crate::preparation::string_views(names@);
    let ghost ss = crate::text::views(suffixes@);
    let mut i: usize = 0;
    while i < names.len()
        invariant
            i <= names.len(),
            ns == crate::preparation::string_views(names@),
            ss == crate::text::views(suffixes@),
            forall|a: int, b: int| 0 <= a < i && 0 <= b < ss.len() ==> !ends_with(ascii_lower_seq(#[trigger] ns[a]), #[trigger] ss[b]),
        decreases names.len() - i,
    {
        let lowered = lower_chars(&chars_of(names[i].as_str()));
        let mut j: usize = 0;
        while j < suffixes.len()
            invariant
                i < names.len(),
                j <= suffixes.len(),
                ns == crate::preparation::string_views(names@),
                ss == crate::text::views(suffixes@),
                lowered@ == ascii_lower_seq(ns[i as int]),
                forall|b: int| 0 <= b < j ==> !ends_with(ascii_lower_seq(ns[i as int]), #[trigger] ss[b]),
            decreases suffixes.len() - j,
        {
            if ends_with_chars(&lowered, &suffixes[j]) {
                assert(ends_with(ascii_lower_seq(ns[i as int]), ss[j as int]));
                return true;
            }
            j += 1;
        }
        i += 1;
    }
    false
}

/// Decides the format of a ZIP container from the file's extension and its
/// listing (`None` when the file cannot be read as ZIP).
pub fn detect_container_format(extension: Option<&str>, listing: Option<ZipListing>) -> (r: Result<ImportFormat, AppError>)
    ensures
        match container_format_spec(ext_or_empty(extension), listing_view(listing)) {
            Ok(f) => r == Ok::<ImportFormat, AppError>(f),
            Err(m) => r matches Err(e) && e is Other && e.message_view() == m,
        },
{
    let z = match listing {
        Some(z) => z,
        None => return Err(crate::error::other("INVALID_CONTAINER")),
    };
    let ext: Vec<char> = match extension {
        Some(e) => chars_of(e),
        None => Vec::new(),
    };
    let epub_mimetype = match &z.mimetype {
        Some(m) => crate::text::str_eq(crate::text::trim(m.as_str()).as_str(), "application/epub+zip"),
        None => false,
    };
    if epub_mimetype && z.has_container_xml {
        return Ok(ImportFormat::Epub);
    }
    if eq_ignore_ascii_case(&ext, "fbz") {
        let suffixes: Vec<Vec<char>> = vec![chars_of(".fb2")];
        assert(crate::text::views(suffixes@) =~= seq![".fb2"@]);
        if any_entry_ends_with(&z.entry_names, &suffixes) {
            return Ok(ImportFormat::Fbz);
        }
    }
    if eq_ignore_ascii_case(&ext, "cbz") {
        let suffixes: Vec<Vec<char>> = vec![chars_of(".jpg"), chars_of(".jpeg"), chars_of(".png"), chars_of(".gif"), chars_of(".webp")];
        assert(crate::text::views(suffixes@) =~= image_suffixes());
        if any_entry_ends_with(&z.entry_names, &suffixes) {
            return Ok(ImportFormat::Cbz);
        }
    }
    Err(crate::error::other("INVALID_CONTAINER"))
}

/// The extensions of files offered for import.
pub open spec fn importable_extensions() -> Seq<Seq<char>> {
    seq!["epub"@, "pdf"@, "txt"@, "md"@, "markdown"@, "html"@, "htm"@, "mobi"@, "azw"@, "azw3"@, "fb2"@, "fbz"@, "cbz"@]
}

/// The text formats named by their extensions.
pub open spec fn text_extension_formats() -> Seq<(Seq<char>, ImportFormat)> {
    seq![
        ("txt"@, ImportFormat::Txt),
        ("md"@, ImportFormat::Markdown),
        ("markdown"@, ImportFormat::Markdown),
        ("html"@, ImportFormat::Html),
        ("htm"@, ImportFormat::Html),
    ]
}

/// Every text extension (`txt`, `md`, `markdown`, `html`, `htm`, in any
/// ASCII case) is offered for import and names its text format; a regular
/// file of at most the text size limit with such an extension, whose first
/// bytes are neither a PDF nor a ZIP signature and hold no NUL byte, is
/// imported in that format.
pub proof fn lemma_text_extensions_import_as_text(ext: Seq<char>, i: int, len: u64, header: Seq<u8>)
    requires
        0 <= i < 5,
        ascii_lower_seq(ext) == text_extension_formats()[i].0,
    ensures
        importable_extension_spec(Some(ext)),
        text_format_of(ext) == Some(text_extension_formats()[i].1),
        len <= MAX_TEXT_IMPORT_BYTES && !header.contains(0u8)
            && !bytes_start_with(header, seq![0x25u8, 0x50, 0x44, 0x46, 0x2D])
            && !bytes_start_with(header, seq![0x50u8, 0x4B, 0x03, 0x04])
            ==> header_verdict_spec(true, len, ext, header) == HeaderVerdict::Format(text_extension_formats()[i].1),
{
    reveal_strlit("txt");
    assert(ascii_lower_seq("txt"@) =~= "txt"@);
    reveal_strlit("md");
    assert(ascii_lower_seq("md"@) =~= "md"@);
    reveal_strlit("markdown");
    assert(ascii_lower_seq("markdown"@) =~= "markdown"@);
    reveal_strlit("html");
    assert(ascii_lower_seq("html"@) =~= "html"@);
    reveal_strlit("htm");
    assert(ascii_lower_seq("htm"@) =~= "htm"@);
    reveal_strlit("mobi");
    assert(ascii_lower_seq("mobi"@) =~= "mobi"@);
    reveal_strlit("azw");
    assert(ascii_lower_seq("azw"@) =~= "azw"@);
    reveal_strlit("azw3");
    assert(ascii_lower_seq("azw3"@) =~= "azw3"@);
    reveal_strlit("fb2");
    assert(ascii_lower_seq("fb2"@) =~= "fb2"@);
    if i == 0 {
        assert(ascii_lower_seq(ext) == "txt"@);
        assert("txt"@[0] != "htm"@[0]);
        assert("txt"@[0] != "azw"@[0]);
        assert("txt"@[0] != "fb2"@[0]);
        assert(importable_extensions()[2] == "txt"@);
    } else if i == 1 {
        assert(ascii_lower_seq(ext) == "md"@);
        assert(importable_extensions()[3] == "md"@);
    } else if i == 2 {
        assert(ascii_lower_seq(ext) == "markdown"@);
        assert(importable_extensions()[4] == "markdown"@);
    } else if i == 3 {
        assert(ascii_lower_seq(ext) == "html"@);
        assert("html"@[0] != "mobi"@[0]);
        assert("html"@[0] != "azw3"@[0]);
        assert(importable_extensions()[5] == "html"@);
    } else if i == 4 {
        assert(ascii_lower_seq(ext) == "htm"@);
        assert("htm"@[0] != "txt"@[0]);
        assert("htm"@[0] != "azw"@[0]);
        assert("htm"@[0] != "fb2"@[0]);
        assert(importable_extensions()[6] == "htm"@);
    }
}

/// Whether a file name's extension (case aside) is one the importer takes.
pub open spec fn importable_extension_spec(extension: Option<Seq<char>>) -> bool {
    match extension {
        Some(e) => exists|i: int| 0 <= i < importable_extensions().len() && eq_ascii_ci(e, #[trigger] importable_extensions()[i]),
        None => false,
    }
}

/// Whether a file with this extension is offered for import.
pub fn is_importable_extension(extension: Option<&str>) -> (r: bool)
    ensures
        r == importable_extension_spec(opt_ext(extension)),
{
    let e = match extension {
        Some(e) => chars_of(e),
        None => return false,
    };
    let allowed: Vec<&str> = vec!["epub", "pdf", "txt", "md", "markdown", "html", "htm", "mobi", "azw", "azw3", "fb2", "fbz", "cbz"];
    assert(crate::learning::str_views(allowed@) =~= importable_extensions());
    let mut i: usize = 0;
    while i < allowed.len()
        invariant
            i <= allowed@.len(),
            crate::learning::str_views(allowed@) == importable_extensions(),
            e@ == opt_ext(extension)->0,
            extension is Some,
            forall|k: int| 0 <= k < i ==> !eq_ascii_ci(e@, #[trigger] importable_extensions()[k]),
        decreases allowed.len() - i,
    {
        assert(importable_extensions()[i as int] == allowed@[i as int]@);
        if eq_ignore_ascii_case(&e, allowed[i]) {
            return true;
        }
        i += 1;
    }
    false
}

} // verus!
