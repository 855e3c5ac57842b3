use std::borrow::Cow;

use ree::terminfo::{
    checked_add, is_padding_body, is_terminal_family, is_valid_term_name, is_vt_compatible,
    padded_even, read_i16, read_u16, reset_strings, strip_padding, validate, Entry, Error,
    MAGIC_EXTENDED, MAGIC_STANDARD, MAX_ENTRY_SIZE,
};

fn test_entry(string_offset: i16, table: &[u8]) -> Vec<u8> {
    let mut data = vec![0; 14 + table.len()];
    data[0..2].copy_from_slice(&MAGIC_STANDARD.to_le_bytes());
    data[8..10].copy_from_slice(&1_u16.to_le_bytes());
    let table_length = u16::try_from(table.len()).unwrap_or(u16::MAX);
    data[10..12].copy_from_slice(&table_length.to_le_bytes());
    data[12..14].copy_from_slice(&string_offset.to_le_bytes());
    data[14..].copy_from_slice(table);
    data
}

#[test]
fn terminal_names_cannot_traverse_paths() {
    assert!(is_valid_term_name(b"xterm-256color"));
    assert!(is_valid_term_name(b"screen.xterm-256color"));
    assert!(!is_valid_term_name(b""));
    assert!(!is_valid_term_name(b".."));
    assert!(!is_valid_term_name(b"../xterm"));
    assert!(!is_valid_term_name(b"xterm/name"));
    assert!(!is_valid_term_name(b"xterm name"));
}

#[test]
fn terminal_names_are_bounded_in_length() {
    assert!(!is_valid_term_name(b"."));
    assert!(is_valid_term_name(b"..."));
    assert!(is_valid_term_name(&[b'a'; 255]));
    assert!(!is_valid_term_name(&[b'a'; 256]));
    assert!(is_valid_term_name(b"a_b+c.d-e"));
    assert!(!is_valid_term_name(b"xterm\0"));
}

#[test]
fn parser_accepts_standard_and_extended_headers() {
    let mut standard = [0_u8; 12];
    standard[0..2].copy_from_slice(&MAGIC_STANDARD.to_le_bytes());
    assert!(Entry::parse(&standard).is_ok());

    let mut extended = [0_u8; 12];
    extended[0..2].copy_from_slice(&MAGIC_EXTENDED.to_le_bytes());
    assert!(Entry::parse(&extended).is_ok());
}

#[test]
fn parser_rejects_small_entries_and_unknown_magic() {
    assert!(matches!(Entry::parse(&[0_u8; 11]), Err(Error::TooSmall)));
    assert!(matches!(Entry::parse(b"bad"), Err(Error::TooSmall)));
    assert!(matches!(Entry::parse(&[0_u8; 12]), Err(Error::BadMagic)));
    assert!(matches!(validate(&[0_u8; 12]), Err(Error::BadMagic)));
}

#[test]
fn parser_rejects_a_truncated_declared_string_table() {
    let mut data = [0_u8; 12];
    data[0..2].copy_from_slice(&MAGIC_STANDARD.to_le_bytes());
    data[10..12].copy_from_slice(&1_u16.to_le_bytes());
    assert!(matches!(Entry::parse(&data), Err(Error::Truncated)));
}

#[test]
fn parser_aligns_the_combined_name_and_boolean_sections() -> Result<(), Error> {
    let mut data = vec![0_u8; 19];
    data[0..2].copy_from_slice(&MAGIC_STANDARD.to_le_bytes());
    data[2..4].copy_from_slice(&1_u16.to_le_bytes());
    data[4..6].copy_from_slice(&1_u16.to_le_bytes());
    data[8..10].copy_from_slice(&1_u16.to_le_bytes());
    data[10..12].copy_from_slice(&3_u16.to_le_bytes());
    data[16..].copy_from_slice(b"ok\0");

    let entry = Entry::parse(&data)?;

    assert_eq!(entry.string_raw(0)?, Some(b"ok".as_slice()));
    Ok(())
}

#[test]
fn extended_parser_uses_four_byte_numbers() -> Result<(), Error> {
    let mut data = vec![0_u8; 21];
    data[0..2].copy_from_slice(&MAGIC_EXTENDED.to_le_bytes());
    data[6..8].copy_from_slice(&1_u16.to_le_bytes());
    data[8..10].copy_from_slice(&1_u16.to_le_bytes());
    data[10..12].copy_from_slice(&3_u16.to_le_bytes());
    data[18..].copy_from_slice(b"ok\0");

    let entry = Entry::parse(&data)?;

    assert_eq!(entry.string_raw(0)?, Some(b"ok".as_slice()));
    Ok(())
}

#[test]
fn capability_rejects_an_offset_outside_the_string_table() -> Result<(), Error> {
    let data = test_entry(2, b"x\0");
    let entry = Entry::parse(&data)?;
    assert!(matches!(entry.string_raw(0), Err(Error::BadStringOffset)));
    Ok(())
}

#[test]
fn capability_requires_a_terminator_inside_the_string_table() -> Result<(), Error> {
    let data = test_entry(0, b"xy");
    let entry = Entry::parse(&data)?;
    assert!(matches!(
        entry.string_raw(0),
        Err(Error::UnterminatedString)
    ));
    Ok(())
}

#[test]
fn capability_returns_a_bounded_string() -> Result<(), Error> {
    let data = test_entry(0, b"ok\0");
    let entry = Entry::parse(&data)?;
    assert_eq!(entry.string_raw(0)?, Some(b"ok".as_slice()));
    Ok(())
}

#[test]
fn absent_capabilities_read_as_none() -> Result<(), Error> {
    let data = test_entry(-1, b"ok\0");
    let entry = Entry::parse(&data)?;
    assert_eq!(entry.string_raw(0)?, None);
    assert_eq!(entry.string_raw(1)?, None);
    assert!(entry.string(0)?.is_none());
    Ok(())
}

#[test]
fn capability_strings_lose_their_padding() -> Result<(), Error> {
    let data = test_entry(0, b"a$<5>b\0");
    let entry = Entry::parse(&data)?;
    assert_eq!(entry.string(0)?.as_deref(), Some(b"ab".as_slice()));
    Ok(())
}

#[test]
fn reset_strings_of_a_header_only_entry_are_absent() {
    let mut data = [0_u8; 12];
    data[0..2].copy_from_slice(&MAGIC_STANDARD.to_le_bytes());
    let strings = reset_strings(&data).unwrap();
    assert!(strings.rs1.is_none() && strings.rs2.is_none() && strings.rs3.is_none());
    assert!(strings.is1.is_none() && strings.is2.is_none() && strings.is3.is_none());
    assert!(strings.clear_margins.is_none());
    assert!(matches!(reset_strings(b"bad"), Err(Error::TooSmall)));
}

#[test]
fn little_endian_fields_read_exactly() {
    assert_eq!(read_u16(&[0x1a, 0x01], 0), Some(0o432));
    assert_eq!(read_u16(&[0x00, 0x1a, 0x01], 1), Some(0x011a));
    assert_eq!(read_u16(&[0x1a], 0), None);
    assert_eq!(read_i16(&[0xff, 0xff], 0), Some(-1));
    assert_eq!(read_i16(&[0xfe, 0x7f], 0), Some(0x7ffe));
    assert_eq!(read_i16(&[0x00, 0x80], 0), Some(i16::MIN));
    assert_eq!(read_i16(&[0x00], 0), None);
}

#[test]
fn offsets_round_and_add_exactly() {
    assert_eq!(padded_even(13), Ok(14));
    assert_eq!(padded_even(14), Ok(14));
    assert_eq!(checked_add(12, 30), Ok(42));
    assert_eq!(checked_add(usize::MAX, 1), Err(Error::Truncated));
}

#[test]
fn strips_terminfo_padding_markers() {
    assert_eq!(strip_padding(b"a$<10>b$<1.5*/>c").as_ref(), b"abc");
    assert_eq!(strip_padding(b"a$<2/*>b").as_ref(), b"ab");
    assert_eq!(
        strip_padding(b"a$<unterminated").as_ref(),
        b"a$<unterminated"
    );
    for invalid in [
        b"$<>".as_slice(),
        b"$<abc>",
        b"$<.5>",
        b"$<1.>",
        b"$<1.25>",
        b"$<1**>",
        b"$<1//>",
        b"$<1x>",
    ] {
        assert_eq!(strip_padding(invalid).as_ref(), invalid);
    }
    assert_eq!(strip_padding(b"$<outer$<2>>").as_ref(), b"$<outer$<2>>");
    assert!(matches!(strip_padding(b"plain"), Cow::Borrowed(_)));
}

#[test]
fn padding_bodies_follow_the_delay_grammar() {
    for valid in [b"5".as_slice(), b"10", b"1.5", b"2*", b"2/", b"2*/", b"2/*", b"1.5*/"] {
        assert!(is_padding_body(valid), "{valid:?}");
    }
    for invalid in [b"".as_slice(), b"*", b".5", b"1.", b"1.25", b"1**", b"1//", b"1x", b"1*/*"] {
        assert!(!is_padding_body(invalid), "{invalid:?}");
    }
}

#[test]
fn text_with_a_dollar_comes_back_owned() {
    assert!(matches!(strip_padding(b"$5"), Cow::Owned(_)));
    assert_eq!(strip_padding(b"$5").as_ref(), b"$5");
    assert_eq!(strip_padding(b"").as_ref(), b"");
}

#[test]
fn recognizes_known_vt_terminals() {
    for term in [
        b"xterm-256color".as_slice(),
        b"xterm-ghostty",
        b"ghostty",
        b"screen.xterm-256color",
        b"st-256color",
        b"vt100",
        b"foot+base",
    ] {
        assert!(is_vt_compatible(term), "{term:?}");
    }

    for term in [
        b"dumb".as_slice(),
        b"stupid",
        b"status",
        b"vtable",
        b"linuxbrew",
        b"xterm/unsafe",
    ] {
        assert!(!is_vt_compatible(term), "{term:?}");
    }
}

#[test]
fn terminal_families_need_a_separator() {
    assert!(is_terminal_family(b"tmux", b"tmux"));
    assert!(is_terminal_family(b"tmux-256color", b"tmux"));
    assert!(!is_terminal_family(b"tmuxx", b"tmux"));
    assert!(!is_terminal_family(b"tmu", b"tmux"));
}

#[test]
fn arbitrary_entries_do_not_panic() {
    let mut state: u64 = 0x2545_f491_4f6c_dd1d;
    let mut next = || {
        state ^= state << 13;
        state ^= state >> 7;
        state ^= state << 17;
        state
    };
    for case in 0..256 {
        let len = (next() as usize) % (if case % 4 == 0 { MAX_ENTRY_SIZE + 1 } else { 512 });
        let mut data: Vec<u8> = (0..len).map(|_| next() as u8).collect();
        if case % 2 == 0 && data.len() >= 2 {
            data[0..2].copy_from_slice(&MAGIC_STANDARD.to_le_bytes());
        }
        if let Ok(entry) = Entry::parse(&data) {
            let _strings = [
                entry.string(48),
                entry.string(49),
                entry.string(50),
                entry.string(122),
                entry.string(123),
                entry.string(124),
                entry.string(270),
            ];
        }
    }
}
