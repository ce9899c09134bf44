use ttf_parser::name::{is_unicode_encoding, name_id, PlatformId};
use ttf_parser::{Error, Font};

/// One name record: platform, encoding, name ID and the UTF-16BE or raw text.
struct Rec {
    platform: u16,
    encoding: u16,
    name_id: u16,
    text: Vec<u8>,
}

fn utf16be(s: &str) -> Vec<u8> {
    let mut out = Vec::new();
    for u in s.encode_utf16() {
        out.push((u >> 8) as u8);
        out.push((u & 0xFF) as u8);
    }
    out
}

fn rec(platform: u16, encoding: u16, name_id: u16, s: &str) -> Rec {
    let text = if platform == 1 { s.as_bytes().to_vec() } else { utf16be(s) };
    Rec { platform, encoding, name_id, text }
}

fn push_u16(out: &mut Vec<u8>, v: u16) {
    out.push((v >> 8) as u8);
    out.push((v & 0xFF) as u8);
}

/// A naming table with the given records; format 1 gets `lang_tags` tag records.
fn table(format: u16, lang_tags: Option<u16>, recs: &[Rec]) -> Vec<u8> {
    let mut out = Vec::new();
    push_u16(&mut out, format);
    push_u16(&mut out, recs.len() as u16);
    push_u16(&mut out, 0);
    if let Some(n) = lang_tags {
        push_u16(&mut out, n);
        for _ in 0..n {
            out.extend_from_slice(&[0, 4, 0, 0]);
        }
    }
    let mut offset = 0u16;
    for r in recs {
        push_u16(&mut out, r.platform);
        push_u16(&mut out, r.encoding);
        push_u16(&mut out, 0x0409);
        push_u16(&mut out, r.name_id);
        push_u16(&mut out, r.text.len() as u16);
        push_u16(&mut out, offset);
        offset += r.text.len() as u16;
    }
    for r in recs {
        out.extend_from_slice(&r.text);
    }
    out
}

#[test]
fn platform_id_from_raw_values() {
    assert_eq!(PlatformId::from_u16(0), Some(PlatformId::Unicode));
    assert_eq!(PlatformId::from_u16(1), Some(PlatformId::Macintosh));
    assert_eq!(PlatformId::from_u16(2), Some(PlatformId::Iso));
    assert_eq!(PlatformId::from_u16(3), Some(PlatformId::Windows));
    assert_eq!(PlatformId::from_u16(4), Some(PlatformId::Custom));
    assert_eq!(PlatformId::from_u16(5), None);
    assert_eq!(PlatformId::from_u16(0xFFFF), None);
}

#[test]
fn unicode_encoding_policy() {
    assert!(is_unicode_encoding(PlatformId::Unicode, 7));
    assert!(is_unicode_encoding(PlatformId::Windows, 1));
    assert!(!is_unicode_encoding(PlatformId::Windows, 10));
    assert!(!is_unicode_encoding(PlatformId::Macintosh, 1));
    assert!(!is_unicode_encoding(PlatformId::Iso, 1));
    assert!(!is_unicode_encoding(PlatformId::Custom, 1));
}

#[test]
fn names_format0_exposes_record_fields() {
    let data = table(0, None, &[rec(3, 1, name_id::FAMILY, "Foo"), rec(1, 0, 6, "Mac")]);
    let font = Font::from_name_table(Some(&data));
    let mut names = font.names();
    assert_eq!(names.len(), 2);
    let first = names.next().unwrap();
    assert_eq!(first.platform_id(), Some(PlatformId::Windows));
    assert_eq!(first.encoding_id(), 1);
    assert_eq!(first.language_id(), 0x0409);
    assert_eq!(first.name_id(), 1);
    assert_eq!(first.name(), &utf16be("Foo")[..]);
    assert!(first.is_unicode());
    assert_eq!(first.name_utf8(), Some("Foo".to_string()));
    let second = names.next().unwrap();
    assert_eq!(second.platform_id(), Some(PlatformId::Macintosh));
    assert_eq!(second.name(), b"Mac");
    assert!(!second.is_unicode());
    assert_eq!(second.name_utf8(), None);
    assert!(names.next().is_none());
    assert!(names.next().is_none());
    assert_eq!(names.nth(1).unwrap().name_id(), 6);
    assert!(names.nth(2).is_none());
}

#[test]
fn names_format1_skips_language_tags() {
    let data = table(1, Some(3), &[rec(0, 3, name_id::FULL_NAME, "Full")]);
    let font = Font::from_name_table(Some(&data));
    let mut names = font.names();
    assert_eq!(names.len(), 1);
    let n = names.next().unwrap();
    assert_eq!(n.name_id(), 4);
    assert_eq!(n.name_utf8(), Some("Full".to_string()));
}

#[test]
fn names_format0_does_not_skip_language_tags() {
    // The same bytes read as format 0 put the records right after the header.
    let mut data = table(1, Some(0), &[rec(0, 3, 4, "A")]);
    data[1] = 0;
    let font = Font::from_name_table(Some(&data));
    let mut names = font.names();
    assert_eq!(names.len(), 1);
    let n = names.next().unwrap();
    // The language-tag count (0) and the record's first bytes are read as the record.
    assert_eq!(n.platform_id(), Some(PlatformId::Unicode));
    assert_eq!(n.encoding_id(), 0);
}

#[test]
fn names_unknown_format_is_empty() {
    let data = table(2, None, &[rec(3, 1, 1, "Foo")]);
    let font = Font::from_name_table(Some(&data));
    assert_eq!(font.names().len(), 0);
    assert!(font.names().next().is_none());
    assert!(matches!(font._names(), Err(Error::MalformedRecordRegion)));
    assert_eq!(font.family_name(), None);
}

#[test]
fn names_missing_table_is_empty() {
    let font = Font::from_name_table(None);
    assert_eq!(font.names().len(), 0);
    assert!(matches!(font._names(), Err(Error::TableMissing)));
    assert_eq!(font.post_script_name(), None);
}

#[test]
fn names_truncated_header_is_empty() {
    let data = [0u8, 0, 0, 1];
    let font = Font::from_name_table(Some(&data));
    assert!(matches!(font._names(), Err(Error::ReadOutOfBounds)));
    assert_eq!(font.names().len(), 0);
}

#[test]
fn names_truncated_records_are_empty() {
    let mut data = table(0, None, &[rec(3, 1, 1, "Foo")]);
    data[3] = 5; // claims five records
    let font = Font::from_name_table(Some(&data));
    assert!(matches!(font._names(), Err(Error::ReadOutOfBounds)));
    assert_eq!(font.names().len(), 0);
}

#[test]
fn lang_tag_count_overflow_is_rejected() {
    let mut data = vec![0u8, 1, 0, 0, 0, 0, 0x40, 0x00];
    data.extend(std::iter::repeat(0u8).take(0x10000));
    let font = Font::from_name_table(Some(&data));
    assert!(matches!(font._names(), Err(Error::ArithmeticOverflow)));
    assert_eq!(font.names().len(), 0);
    let mut data = vec![0u8, 1, 0, 0, 0, 0, 0xFF, 0xFF];
    data.extend(std::iter::repeat(0u8).take(0x40000));
    let font = Font::from_name_table(Some(&data));
    assert!(matches!(font._names(), Err(Error::ArithmeticOverflow)));
}

#[test]
fn lang_tag_count_just_below_overflow_is_read() {
    let data = table(1, Some(0x3FFF), &[rec(3, 1, 6, "PS")]);
    let font = Font::from_name_table(Some(&data));
    assert_eq!(font.names().len(), 1);
    assert_eq!(font.post_script_name(), Some("PS".to_string()));
}

#[test]
fn name_out_of_storage_is_empty() {
    let mut data = table(0, None, &[rec(3, 1, 1, "Foo")]);
    // Length 6 at offset 1 ends past the six bytes of storage.
    data[6 + 11] = 1;
    let font = Font::from_name_table(Some(&data));
    let n = font.names().next().unwrap();
    assert_eq!(n.name(), &[] as &[u8]);
    assert_eq!(n.name_utf8(), Some(String::new()));
}

#[test]
fn name_at_end_of_storage_is_empty() {
    let mut data = table(0, None, &[rec(3, 1, 1, "Foo")]);
    // Offset 6 with length 6: zero bytes remain at that offset.
    data[6 + 11] = 6;
    let font = Font::from_name_table(Some(&data));
    let n = font.names().next().unwrap();
    assert_eq!(n.name(), &[] as &[u8]);
    // Offset 6 with length 0 is a valid empty range.
    data[6 + 9] = 0;
    let font = Font::from_name_table(Some(&data));
    assert_eq!(font.names().next().unwrap().name(), &[] as &[u8]);
}

#[test]
fn family_name_typographic_after_family() {
    let data = table(
        0,
        None,
        &[rec(3, 1, name_id::FAMILY, "Foo"), rec(3, 1, name_id::TYPOGRAPHIC_FAMILY, "Bar")],
    );
    let font = Font::from_name_table(Some(&data));
    assert_eq!(font.family_name(), Some("Bar".to_string()));
}

#[test]
fn family_name_typographic_before_family() {
    let data = table(
        0,
        None,
        &[rec(3, 1, name_id::TYPOGRAPHIC_FAMILY, "Bar"), rec(3, 1, name_id::FAMILY, "Foo")],
    );
    let font = Font::from_name_table(Some(&data));
    assert_eq!(font.family_name(), Some("Bar".to_string()));
}

#[test]
fn family_name_first_typographic_wins() {
    let data = table(
        0,
        None,
        &[
            rec(0, 3, name_id::TYPOGRAPHIC_FAMILY, "One"),
            rec(3, 1, name_id::TYPOGRAPHIC_FAMILY, "Two"),
        ],
    );
    let font = Font::from_name_table(Some(&data));
    assert_eq!(font.family_name(), Some("One".to_string()));
}

#[test]
fn family_name_last_family_wins_without_typographic() {
    let data = table(
        0,
        None,
        &[rec(3, 1, name_id::FAMILY, "First"), rec(0, 4, name_id::FAMILY, "Last")],
    );
    let font = Font::from_name_table(Some(&data));
    assert_eq!(font.family_name(), Some("Last".to_string()));
}

#[test]
fn macintosh_record_is_never_selected() {
    let data = table(
        0,
        None,
        &[rec(1, 0, name_id::FAMILY, "MacFam"), rec(1, 0, name_id::POST_SCRIPT_NAME, "MacPS")],
    );
    let font = Font::from_name_table(Some(&data));
    assert_eq!(font.family_name(), None);
    assert_eq!(font.post_script_name(), None);
    assert_eq!(font.names().len(), 2);
}

#[test]
fn windows_non_bmp_encoding_is_not_selected() {
    let data = table(0, None, &[rec(3, 10, name_id::FAMILY, "Sym"), rec(3, 1, 1, "Ok")]);
    let font = Font::from_name_table(Some(&data));
    assert_eq!(font.family_name(), Some("Ok".to_string()));
}

#[test]
fn post_script_name_first_unicode_match() {
    let data = table(
        0,
        None,
        &[
            rec(1, 0, name_id::POST_SCRIPT_NAME, "Mac"),
            rec(3, 1, name_id::FAMILY, "Fam"),
            rec(3, 1, name_id::POST_SCRIPT_NAME, "First-PS"),
            rec(0, 3, name_id::POST_SCRIPT_NAME, "Second-PS"),
        ],
    );
    let font = Font::from_name_table(Some(&data));
    assert_eq!(font.post_script_name(), Some("First-PS".to_string()));
}

#[test]
fn invalid_utf16_decodes_to_none() {
    let mut r = rec(3, 1, name_id::FAMILY, "");
    r.text = vec![0xD8, 0x00, 0x00, 0x41]; // unpaired high surrogate
    let data = table(0, None, &[r]);
    let font = Font::from_name_table(Some(&data));
    let n = font.names().next().unwrap();
    assert_eq!(n.name_from_utf16_be(), None);
    assert_eq!(font.family_name(), None);
}

#[test]
fn utf16_surrogate_pair_decodes() {
    let data = table(0, None, &[rec(0, 4, name_id::POST_SCRIPT_NAME, "a\u{1F600}z")]);
    let font = Font::from_name_table(Some(&data));
    assert_eq!(font.post_script_name(), Some("a\u{1F600}z".to_string()));
}

#[test]
fn odd_trailing_byte_is_ignored() {
    let mut r = rec(3, 1, name_id::FAMILY, "");
    r.text = vec![0x00, 0x48, 0x00, 0x69, 0x00];
    let data = table(0, None, &[r]);
    let font = Font::from_name_table(Some(&data));
    assert_eq!(font.family_name(), Some("Hi".to_string()));
}
