//! Checking the files a reader brings in besides books: custom fonts
//! (TrueType, OpenType, WOFF, WOFF2) and custom cover images.

use vstd::prelude::*;

use crate::chat::take_at_most;
use crate::error::AppError;
use crate::text::{chars_of, string_from_chars, trim_ws};

verus! {

/// Largest font file accepted, in bytes.
pub const MAX_FONT_BYTES: u64 = 67_108_864;

/// Largest custom cover accepted, in bytes.
pub const MAX_CUSTOM_COVER_BYTES: u64 = 10_485_760;

/// Longest family name kept, in characters.
pub const FONT_FAMILY_MAX_CHARS: usize = 200;

/// View of optional bytes.
pub open spec fn opt_bytes(o: Option<Vec<u8>>) -> Option<Seq<u8>> {
    match o {
        Some(v) => Some(v@),
        None => None,
    }
}

/// What `wuff::decompress_woff1` gives for the bytes: the font inside, or
/// nothing when they are not a valid WOFF file.
pub uninterp spec fn woff1_decompressed(bytes: Seq<u8>) -> Option<Seq<u8>>;

/// What `wuff::decompress_woff2` gives for the bytes: the font inside, or
/// nothing when they are not a valid WOFF2 file.
pub uninterp spec fn woff2_decompressed(bytes: Seq<u8>) -> Option<Seq<u8>>;

/// Whether `ttf_parser::Face::parse` accepts the bytes as a font (face 0).
pub uninterp spec fn font_face_parses(bytes: Seq<u8>) -> bool;

/// The name records `ttf_parser` lists for face 0 of a font, each as its
/// name id and its text when Unicode-encoded; nothing when the font does
/// not parse.
pub uninterp spec fn font_name_records(bytes: Seq<u8>) -> Option<Seq<(u16, Option<Seq<char>>)>>;

/// `wuff::decompress_woff1`, its error dropped; a function of the bytes.
#[verifier::external_body]
fn woff1_decompress(bytes: &[u8]) -> (r: Option<Vec<u8>>)
    ensures
        opt_bytes(r) == woff1_decompressed(bytes@),
{
    wuff::decompress_woff1(bytes).ok()
}

/// `wuff::decompress_woff2`, its error dropped; a function of the bytes.
#[verifier::external_body]
fn woff2_decompress(bytes: &[u8]) -> (r: Option<Vec<u8>>)
    ensures
        opt_bytes(r) == woff2_decompressed(bytes@),
{
    wuff::decompress_woff2(bytes).ok()
}

/// Whether `ttf_parser::Face::parse(bytes, 0)` succeeds.
#[verifier::external_body]
fn face_parses(bytes: &[u8]) -> (r: bool)
    ensures
        r == font_face_parses(bytes@),
{
    ttf_parser::Face::parse(bytes, 0).is_ok()
}

/// Views of name records.
pub open spec fn record_views(o: Option<Vec<(u16, Option<String>)>>) -> Option<Seq<(u16, Option<Seq<char>>)>> {
    match o {
        Some(v) => Some(v@.map_values(|x: (u16, Option<String>)| (x.0, crate::preparation::opt_view(x.1)))),
        None => None,
    }
}

/// The name records of face 0 of a font (`ttf_parser`'s `Face::names`),
/// each with its id and `Name::to_string`; `None` when the font does not
/// parse.
#[verifier::external_body]
fn font_names(bytes: &[u8]) -> (r: Option<Vec<(u16, Option<String>)>>)
    ensures
        record_views(r) == font_name_records(bytes@),
{
    ttf_parser::Face::parse(bytes, 0).ok().map(|face| face.names().into_iter().map(|name| (name.name_id, name.to_string())).collect())
}

/// The font data of an imported file: TrueType and OpenType as they are,
/// WOFF and WOFF2 unpacked; refused when unpacking fails or the result is
/// not a font, or for another format.
pub open spec fn decoded_font_spec(bytes: Seq<u8>, format: Seq<char>) -> Result<Seq<u8>, Seq<char>> {
    let decoded = if format == "ttf"@ || format == "otf"@ {
        Some(bytes)
    } else if format == "woff"@ {
        woff1_decompressed(bytes)
    } else if format == "woff2"@ {
        woff2_decompressed(bytes)
    } else {
        None
    };
    if !(format == "ttf"@ || format == "otf"@ || format == "woff"@ || format == "woff2"@) {
        Err("CUSTOM_FONT_FORMAT_UNSUPPORTED"@)
    } else {
        match decoded {
            None => Err("CUSTOM_FONT_FILE_INVALID"@),
            Some(d) => if font_face_parses(d) { Ok(d) } else { Err("CUSTOM_FONT_FILE_INVALID"@) },
        }
    }
}

/// Copies a byte slice.
fn copy_bytes(bytes: &[u8]) -> (r: Vec<u8>)
    ensures
        r@ == bytes@,
{
    let mut r: Vec<u8> = Vec::new();
    let mut i: usize = 0;
    while i < bytes.len()
        invariant
            i <= bytes.len(),
            r@ == bytes@.take(i as int),
        decreases bytes.len() - i,
    {
        r.push(bytes[i]);
        assert(bytes@.take(i + 1) =~= bytes@.take(i as int).push(bytes@[i as int]));
        i += 1;
    }
    assert(bytes@.take(bytes.len() as int) =~= bytes@);
    r
}

/// Unpacks and checks an imported font in format `format` (its lower-case
/// extension).
pub fn decode_font(bytes: &[u8], format: &str) -> (r: Result<Vec<u8>, AppError>)
    ensures
        match r {
            Ok(d) => decoded_font_spec(bytes@, format@) == Ok::<Seq<u8>, Seq<char>>(d@),
            Err(e) => e is Other && decoded_font_spec(bytes@, format@) == Err::<Seq<u8>, Seq<char>>(e.message_view()),
        },
{
    let decoded = if crate::text::str_eq(format, "ttf") || crate::text::str_eq(format, "otf") {
        copy_bytes(bytes)
    } else if crate::text::str_eq(format, "woff") {
        match woff1_decompress(bytes) {
            Some(d) => d,
            None => return Err(crate::error::other("CUSTOM_FONT_FILE_INVALID")),
        }
    } else if crate::text::str_eq(format, "woff2") {
        match woff2_decompress(bytes) {
            Some(d) => d,
            None => return Err(crate::error::other("CUSTOM_FONT_FILE_INVALID")),
        }
    } else {
        return Err(crate::error::other("CUSTOM_FONT_FORMAT_UNSUPPORTED"));
    };
    if !face_parses(&decoded) {
        return Err(crate::error::other("CUSTOM_FONT_FILE_INVALID"));
    }
    Ok(decoded)
}

/// Checks an imported font file before it is read: its format from its
/// extension, then its size (not empty, at most 64 MiB, a regular file).
pub fn validate_font_source(extension: Option<&str>, is_file: bool, len: u64) -> (r: Result<(String, u64), AppError>)
    ensures
        match r {
            Ok((format, size)) => (extension matches Some(e) && crate::records::font_extension_spec(e@)
                && format@ == crate::text::ascii_lower_seq(e@))
                && is_file && 0 < len <= MAX_FONT_BYTES && size == len,
            Err(err) => err is Other && if (extension matches Some(e) && crate::records::font_extension_spec(e@)) {
                !(is_file && 0 < len <= MAX_FONT_BYTES) && err.message_view() == "CUSTOM_FONT_FILE_INVALID"@
            } else {
                err.message_view() == "CUSTOM_FONT_FORMAT_UNSUPPORTED"@
            },
        },
{
    let format = match crate::records::font_format(extension) {
        Ok(f) => f,
        Err(e) => return Err(e),
    };
    if !is_file || len == 0 || len > MAX_FONT_BYTES {
        return Err(crate::error::other("CUSTOM_FONT_FILE_INVALID"));
    }
    Ok((format, len))
}

/// The first name record with id `id` whose text is present and not blank.
pub open spec fn first_named(records: Seq<(u16, Option<Seq<char>>)>, id: u16) -> Option<Seq<char>>
    decreases records.len(),
{
    if records.len() == 0 {
        None
    } else if records[0].0 == id && (records[0].1 matches Some(t) && trim_ws(t).len() > 0) {
        records[0].1
    } else {
        first_named(records.drop_first(), id)
    }
}

/// Name id of the typographic family name.
pub const TYPOGRAPHIC_FAMILY_NAME_ID: u16 = 16;

/// Name id of the family name.
pub const FAMILY_NAME_ID: u16 = 1;

/// The family name shown for an imported font: its typographic family name,
/// else its family name, else the fallback; trimmed and cut to 200
/// characters.
pub open spec fn family_name_spec(bytes: Seq<u8>, fallback: Seq<char>) -> Seq<char> {
    let chosen = match font_name_records(bytes) {
        Some(rs) => match first_named(rs, TYPOGRAPHIC_FAMILY_NAME_ID) {
            Some(n) => Some(n),
            None => first_named(rs, FAMILY_NAME_ID),
        },
        None => None,
    };
    let name = match chosen {
        Some(n) => n,
        None => fallback,
    };
    take_at_most(trim_ws(name), FONT_FAMILY_MAX_CHARS as int)
}

/// Finds the first present, non-blank name record with id `id`.
fn find_named(records: &Vec<(u16, Option<String>)>, id: u16) -> (r: Option<String>)
    ensures
        crate::preparation::opt_view(r) == first_named(
            records@.map_values(|x: (u16, Option<String>)| (x.0, crate::preparation::opt_view(x.1))),
            id,
        ),
{
    let ghost all = records@.map_values(|x: (u16, Option<String>)| (x.0, crate::preparation::opt_view(x.1)));
    let mut i: usize = 0;
    assert(all.skip(0) =~= all);
    while i < records.len()
        invariant
            i <= records@.len(),
            all == records@.map_values(|x: (u16, Option<String>)| (x.0, crate::preparation::opt_view(x.1))),
            first_named(all.skip(i as int), id) == first_named(all, id),
        decreases records.len() - i,
    {
        let ghost rest = all.skip(i as int);
        assert(rest.drop_first() =~= all.skip(i + 1));
        assert(rest[0] == all[i as int]);
        let (record_id, text) = &records[i];
        if *record_id == id {
            if let Some(t) = text {
                let v = chars_of(t.as_str());
                let (a, b) = crate::text::trim_range(&v);
                if a < b {
                    return Some(t.clone());
                }
            }
        }
        i += 1;
    }
    assert(all.skip(records@.len() as int) =~= Seq::<(u16, Option<Seq<char>>)>::empty());
    None
}

/// The family name of an imported font, or the fallback (its file name).
pub fn family_name_from_font(bytes: &[u8], fallback: &str) -> (r: String)
    ensures
        r@ == family_name_spec(bytes@, fallback@),
{
    let chosen = match font_names(bytes) {
        Some(records) => match find_named(&records, TYPOGRAPHIC_FAMILY_NAME_ID) {
            Some(n) => Some(n),
            None => find_named(&records, FAMILY_NAME_ID),
        },
        None => None,
    };
    let name = match chosen {
        Some(n) => n,
        None => fallback.to_string(),
    };
    let trimmed = chars_of(crate::text::trim(name.as_str()).as_str());
    let n = if trimmed.len() <= FONT_FAMILY_MAX_CHARS { trimmed.len() } else { FONT_FAMILY_MAX_CHARS };
    assert(trimmed@.subrange(0, n as int) =~= take_at_most(trimmed@, FONT_FAMILY_MAX_CHARS as int));
    string_from_chars(&trimmed[0..n])
}

/// Whether `image::load_from_memory` decodes the bytes as an image.
pub uninterp spec fn image_decodes_spec(bytes: Seq<u8>) -> bool;

/// `image::load_from_memory(bytes).is_ok()`; a function of the bytes.
#[verifier::external_body]
fn image_decodes(bytes: &[u8]) -> (r: bool)
    ensures
        r == image_decodes_spec(bytes@),
{
    image::load_from_memory(bytes).is_ok()
}

/// Whether `b` starts with the bytes `p`.
pub open spec fn has_prefix(b: Seq<u8>, p: Seq<u8>) -> bool {
    p.len() <= b.len() && b.take(p.len() as int) == p
}

/// A cover image signature the reader accepts: PNG, JPEG or WebP.
pub open spec fn cover_signature_ok(b: Seq<u8>) -> bool {
    ||| has_prefix(b, seq![0x89u8, 0x50, 0x4E, 0x47, 0x0D, 0x0A, 0x1A, 0x0A])
    ||| has_prefix(b, seq![0xFFu8, 0xD8, 0xFF])
    ||| (b.len() >= 12 && has_prefix(b, seq![0x52u8, 0x49, 0x46, 0x46]) && b.subrange(8, 12) == seq![0x57u8, 0x45, 0x42, 0x50])
}

/// Whether `b` starts with the bytes of `p`.
fn starts_with_bytes(b: &[u8], p: &[u8]) -> (r: bool)
    ensures
        r == has_prefix(b@, p@),
{
    if p.len() > b.len() {
        return false;
    }
    let mut i: usize = 0;
    while i < p.len()
        invariant
            i <= p.len() <= b.len(),
            forall|j: int| 0 <= j < i ==> b@[j] == p@[j],
        decreases p.len() - i,
    {
        if b[i] != p[i] {
            return false;
        }
        i += 1;
    }
    assert(b@.take(p.len() as int) =~= p@);
    true
}

/// Checks a custom cover: its file size (not empty, at most 10 MiB, a
/// regular file, `BOOK_COVER_SIZE_INVALID`), then its bytes (a PNG, JPEG or
/// WebP signature that decodes as an image, `BOOK_COVER_FORMAT_INVALID`).
pub fn validate_cover(is_file: bool, len: u64, bytes: &[u8]) -> (r: Result<(), AppError>)
    ensures
        r is Ok == (is_file && 0 < len <= MAX_CUSTOM_COVER_BYTES && cover_signature_ok(bytes@) && image_decodes_spec(bytes@)),
        r matches Err(e) ==> e is Other && if !(is_file && 0 < len <= MAX_CUSTOM_COVER_BYTES) {
            e.message_view() == "BOOK_COVER_SIZE_INVALID"@
        } else {
            e.message_view() == "BOOK_COVER_FORMAT_INVALID"@
        },
{
    if !is_file || len == 0 || len > MAX_CUSTOM_COVER_BYTES {
        return Err(crate::error::other("BOOK_COVER_SIZE_INVALID"));
    }
    let png: [u8; 8] = [0x89, 0x50, 0x4E, 0x47, 0x0D, 0x0A, 0x1A, 0x0A];
    let jpeg: [u8; 3] = [0xFF, 0xD8, 0xFF];
    let riff: [u8; 4] = [0x52, 0x49, 0x46, 0x46];
    let webp: [u8; 4] = [0x57, 0x45, 0x42, 0x50];
    assert(png@ == seq![0x89u8, 0x50, 0x4E, 0x47, 0x0D, 0x0A, 0x1A, 0x0A]);
    assert(jpeg@ == seq![0xFFu8, 0xD8, 0xFF]);
    assert(riff@ == seq![0x52u8, 0x49, 0x46, 0x46]);
    assert(webp@ == seq![0x57u8, 0x45, 0x42, 0x50]);
    let mut supported = starts_with_bytes(bytes, &png) || starts_with_bytes(bytes, &jpeg);
    if !supported && bytes.len() >= 12 && starts_with_bytes(bytes, &riff) {
        let window = &bytes[8..12];
        assert(window@ =~= bytes@.subrange(8, 12));
        supported = starts_with_bytes(window, &webp);
        assert(window@.take(4) =~= window@);
    }
    if !supported {
        return Err(crate::error::other("BOOK_COVER_FORMAT_INVALID"));
    }
    if !image_decodes(bytes) {
        return Err(crate::error::other("BOOK_COVER_FORMAT_INVALID"));
    }
    Ok(())
}

} // verus!
