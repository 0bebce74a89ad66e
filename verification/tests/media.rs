use quill::media::{decode_font, family_name_from_font, validate_cover, validate_font_source};

const TINY_PNG: [u8; 67] = [
    0x89, 0x50, 0x4e, 0x47, 0x0d, 0x0a, 0x1a, 0x0a, 0x00, 0x00, 0x00, 0x0d, 0x49, 0x48, 0x44,
    0x52, 0x00, 0x00, 0x00, 0x01, 0x00, 0x00, 0x00, 0x01, 0x08, 0x00, 0x00, 0x00, 0x00, 0x3a,
    0x7e, 0x9b, 0x55, 0x00, 0x00, 0x00, 0x0a, 0x49, 0x44, 0x41, 0x54, 0x78, 0x9c, 0x63, 0x60,
    0x00, 0x00, 0x00, 0x02, 0x00, 0x01, 0x48, 0xaf, 0xa4, 0x71, 0x00, 0x00, 0x00, 0x00, 0x49,
    0x45, 0x4e, 0x44, 0xae, 0x42, 0x60, 0x82,
];

#[test]
fn covers_are_checked_by_size_signature_and_decoding() {
    assert!(validate_cover(true, TINY_PNG.len() as u64, &TINY_PNG).is_ok());
    assert_eq!(
        validate_cover(true, 0, &TINY_PNG).unwrap_err().to_string(),
        "BOOK_COVER_SIZE_INVALID"
    );
    assert_eq!(
        validate_cover(false, 67, &TINY_PNG).unwrap_err().to_string(),
        "BOOK_COVER_SIZE_INVALID"
    );
    assert_eq!(
        validate_cover(true, 10_485_761, &TINY_PNG).unwrap_err().to_string(),
        "BOOK_COVER_SIZE_INVALID"
    );
    assert_eq!(
        validate_cover(true, 4, b"GIF8").unwrap_err().to_string(),
        "BOOK_COVER_FORMAT_INVALID"
    );
    let mut broken = TINY_PNG.to_vec();
    broken.truncate(20);
    assert_eq!(
        validate_cover(true, 20, &broken).unwrap_err().to_string(),
        "BOOK_COVER_FORMAT_INVALID"
    );
}

#[test]
fn custom_cover_rejects_non_image_bytes() {
    let bytes = b"not an image";
    assert_eq!(
        validate_cover(true, bytes.len() as u64, bytes).unwrap_err().to_string(),
        "BOOK_COVER_FORMAT_INVALID"
    );
}

#[test]
fn fonts_must_be_known_formats_of_a_sane_size() {
    assert_eq!(validate_font_source(Some("TTF"), true, 10).unwrap(), ("ttf".to_string(), 10));
    assert_eq!(
        validate_font_source(Some("eot"), true, 10).unwrap_err().to_string(),
        "CUSTOM_FONT_FORMAT_UNSUPPORTED"
    );
    assert_eq!(
        validate_font_source(None, true, 10).unwrap_err().to_string(),
        "CUSTOM_FONT_FORMAT_UNSUPPORTED"
    );
    assert_eq!(
        validate_font_source(Some("woff2"), true, 0).unwrap_err().to_string(),
        "CUSTOM_FONT_FILE_INVALID"
    );
    assert_eq!(
        validate_font_source(Some("otf"), true, 67_108_865).unwrap_err().to_string(),
        "CUSTOM_FONT_FILE_INVALID"
    );
}

#[test]
fn broken_fonts_are_refused_and_named_by_their_file() {
    for format in ["ttf", "otf", "woff", "woff2"] {
        assert_eq!(
            decode_font(b"not a font", format).unwrap_err().to_string(),
            "CUSTOM_FONT_FILE_INVALID"
        );
    }
    assert_eq!(
        decode_font(b"not a font", "eot").unwrap_err().to_string(),
        "CUSTOM_FONT_FORMAT_UNSUPPORTED"
    );
    assert_eq!(family_name_from_font(b"junk", "  My Font  "), "My Font");
    let long = "x".repeat(250);
    assert_eq!(family_name_from_font(b"", &long).chars().count(), 200);
}

#[test]
fn rejects_non_font_extension() {
    let bytes = b"not a font";
    assert_eq!(
        validate_font_source(Some("exe"), true, bytes.len() as u64).unwrap_err().to_string(),
        "CUSTOM_FONT_FORMAT_UNSUPPORTED"
    );
}

#[test]
fn rejects_renamed_non_font_file() {
    let bytes = b"this is not an sfnt font";
    let (format, _) = validate_font_source(Some("ttf"), true, bytes.len() as u64).unwrap();
    assert_eq!(decode_font(bytes, &format).unwrap_err().to_string(), "CUSTOM_FONT_FILE_INVALID");
}

#[test]
fn rejects_truncated_woff_headers() {
    let mut bytes = vec![0_u8; 44];
    let length = bytes.len() as u32;
    bytes[0..4].copy_from_slice(b"wOFF");
    bytes[8..12].copy_from_slice(&length.to_be_bytes());
    bytes[12..14].copy_from_slice(&1_u16.to_be_bytes());
    bytes[16..20].copy_from_slice(&28_u32.to_be_bytes());
    assert_eq!(decode_font(&bytes, "woff").unwrap_err().to_string(), "CUSTOM_FONT_FILE_INVALID");
}

/// A minimal TrueType font: `head`, `hhea`, `maxp` and a `name` table with
/// the given (name id, text) records, Windows Unicode BMP encoded.
fn tiny_font(names: &[(u16, &str)]) -> Vec<u8> {
    let mut head = vec![0u8; 54];
    head[0..4].copy_from_slice(&0x0001_0000u32.to_be_bytes());
    head[18..20].copy_from_slice(&1000u16.to_be_bytes());
    let hhea = vec![0u8; 36];
    let mut maxp = Vec::new();
    maxp.extend_from_slice(&0x0000_5000u32.to_be_bytes());
    maxp.extend_from_slice(&1u16.to_be_bytes());
    let mut storage = Vec::new();
    let mut records = Vec::new();
    for (id, text) in names {
        let encoded: Vec<u8> = text.encode_utf16().flat_map(|unit| unit.to_be_bytes()).collect();
        for value in [3u16, 1, 0x0409, *id, encoded.len() as u16, storage.len() as u16] {
            records.extend_from_slice(&value.to_be_bytes());
        }
        storage.extend_from_slice(&encoded);
    }
    let mut name = Vec::new();
    name.extend_from_slice(&0u16.to_be_bytes());
    name.extend_from_slice(&(names.len() as u16).to_be_bytes());
    name.extend_from_slice(&((6 + records.len()) as u16).to_be_bytes());
    name.extend_from_slice(&records);
    name.extend_from_slice(&storage);
    let tables: [(&[u8; 4], &Vec<u8>); 4] = [(b"head", &head), (b"hhea", &hhea), (b"maxp", &maxp), (b"name", &name)];
    let mut font = Vec::new();
    font.extend_from_slice(&0x0001_0000u32.to_be_bytes());
    font.extend_from_slice(&4u16.to_be_bytes());
    font.extend_from_slice(&[0u8; 6]);
    let mut offset = 12 + 16 * tables.len();
    for (tag, data) in &tables {
        font.extend_from_slice(*tag);
        font.extend_from_slice(&0u32.to_be_bytes());
        font.extend_from_slice(&(offset as u32).to_be_bytes());
        font.extend_from_slice(&(data.len() as u32).to_be_bytes());
        offset += data.len();
    }
    for (_, data) in &tables {
        font.extend_from_slice(data);
    }
    font
}

#[test]
fn a_parsed_font_is_named_by_its_family_record() {
    let font = tiny_font(&[(16, "   "), (1, "  Quill Serif ")]);
    assert_eq!(decode_font(&font, "ttf").unwrap(), font);
    assert_eq!(family_name_from_font(&font, "fallback"), "Quill Serif");
    let typographic = tiny_font(&[(1, "Quill"), (16, "Quill Text")]);
    assert_eq!(family_name_from_font(&typographic, "fallback"), "Quill Text");
    let unnamed = tiny_font(&[(2, "Regular")]);
    assert_eq!(family_name_from_font(&unnamed, "fallback"), "fallback");
}
