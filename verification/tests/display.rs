use std::borrow::Cow;

use ree::display::{
    advance_write, begin_display_reset, classify_write, finish_display_reset, map_terminfo_error, pick_capability,
    reset_sequence, vt_cleanup_sequence, vt_fallback_sequence, WriteEvent,
};
use ree::terminfo::{self, reset_strings, ResetStrings, MAGIC_STANDARD};
use ree::error::OsError;
use ree::Error;

fn os(code: i32) -> OsError {
    OsError::new(code).unwrap()
}

fn contains(haystack: &[u8], needle: &[u8]) -> bool {
    haystack.windows(needle.len()).any(|window| window == needle)
}

fn strings<'a>(
    rs1: Option<&'a [u8]>,
    rs2: Option<&'a [u8]>,
    rs3: Option<&'a [u8]>,
    is1: Option<&'a [u8]>,
    is2: Option<&'a [u8]>,
    is3: Option<&'a [u8]>,
    clear_margins: Option<&'a [u8]>,
) -> ResetStrings<'a> {
    ResetStrings {
        rs1: rs1.map(Cow::Borrowed),
        rs2: rs2.map(Cow::Borrowed),
        rs3: rs3.map(Cow::Borrowed),
        is1: is1.map(Cow::Borrowed),
        is2: is2.map(Cow::Borrowed),
        is3: is3.map(Cow::Borrowed),
        clear_margins: clear_margins.map(Cow::Borrowed),
    }
}

#[test]
fn cleanup_starts_by_leaving_terminal_strings_and_synchronized_output() {
    assert!(vt_cleanup_sequence().starts_with(b"\x1b]\x1b\\\x1b[?2026l"));
}

#[test]
fn cleanup_covers_modern_input_and_report_modes() {
    for sequence in [
        b"?9;1000;1002;1003;1004;1005;1006;1015;1016;2004;2031;2033;2048;5522l".as_slice(),
        b"\x1b[<8u",
        b"\x1b[=0u",
        b"\x1b[>4;0m",
    ] {
        assert!(contains(vt_cleanup_sequence(), sequence));
    }
}

#[test]
fn fallback_leaves_terminal_strings_before_ris() {
    assert!(vt_fallback_sequence().starts_with(b"\x1b]\x1b\\\x1bc"));
}

#[test]
fn unreadable_terminfo_has_a_precise_public_error() {
    assert!(matches!(
        map_terminfo_error(terminfo::Error::Unreadable),
        Error::TerminfoUnreadable
    ));
}

#[test]
fn the_whole_fixed_sequences_are_exact() {
    assert_eq!(
        vt_cleanup_sequence(),
        b"\x1b]\x1b\\\x1b[?2026l\x1b[?9;1000;1002;1003;1004;1005;1006;1015;1016;2004;2031;2033;2048;5522l\x1b[<8u\x1b[=0u\x1b[>4;0m"
    );
    assert_eq!(
        vt_fallback_sequence(),
        b"\x1b]\x1b\\\x1bc\x1b[!p\x1b[?3;4l\x1b[4l\x1b>\x1b(B\x1b[?7h\x1b[0m\x1b[?25h"
    );
}

#[test]
fn every_terminfo_error_maps_to_its_reset_error() {
    assert!(matches!(map_terminfo_error(terminfo::Error::InvalidTermName), Error::InvalidTermName));
    assert!(matches!(map_terminfo_error(terminfo::Error::NotFound), Error::TerminfoNotFound));
    for error in [
        terminfo::Error::TooSmall,
        terminfo::Error::BadMagic,
        terminfo::Error::Truncated,
        terminfo::Error::BadStringOffset,
        terminfo::Error::UnterminatedString,
        terminfo::Error::TooLarge,
    ] {
        assert!(matches!(map_terminfo_error(error), Error::InvalidTerminfo));
    }
}

#[test]
fn reset_strings_go_out_in_capability_order() {
    let s = strings(
        Some(b"R1"),
        None,
        Some(b"R3"),
        Some(b"I1"),
        Some(b"I2"),
        Some(b"I3"),
        Some(b"CM"),
    );
    let writes = reset_sequence(&s, true);
    assert_eq!(writes, vec![b"R1".to_vec(), b"I2".to_vec(), b"CM".to_vec(), b"R3".to_vec()]);
}

#[test]
fn reset_prefers_reset_strings_over_init_strings() {
    let reset: Option<Cow<[u8]>> = Some(Cow::Borrowed(b"reset"));
    let init: Option<Cow<[u8]>> = Some(Cow::Borrowed(b"init"));
    let none: Option<Cow<[u8]>> = None;
    assert_eq!(pick_capability(&reset, &init), Some(b"reset".to_vec()));
    assert_eq!(pick_capability(&none, &init), Some(b"init".to_vec()));
    assert_eq!(pick_capability(&none, &none), None);
}

#[test]
fn empty_entry_falls_back_only_for_vt_terminals() {
    let s = strings(None, None, None, None, None, None, None);
    assert_eq!(reset_sequence(&s, true), vec![vt_fallback_sequence().to_vec()]);
    assert!(reset_sequence(&s, false).is_empty());
}

#[test]
fn an_empty_present_string_counts_as_sent() {
    let s = strings(Some(b""), None, None, None, None, None, None);
    assert_eq!(reset_sequence(&s, true), vec![Vec::<u8>::new()]);
}

#[test]
fn display_reset_starts_with_cleanup_for_vt_terminals() {
    assert!(matches!(begin_display_reset(None), Err(Error::TermNotSet)));
    let (vt, writes) = begin_display_reset(Some(b"xterm-ghostty")).unwrap();
    assert!(vt);
    assert_eq!(writes, vec![vt_cleanup_sequence().to_vec()]);
    let (vt, writes) = begin_display_reset(Some(b"dumb")).unwrap();
    assert!(!vt);
    assert!(writes.is_empty());
}

fn entry_with_rs1(rs1: &[u8]) -> Vec<u8> {
    // One string capability slot per index up to rs1 (index 122).
    let count: u16 = 123;
    let mut table = rs1.to_vec();
    table.push(0);
    let mut data = Vec::new();
    data.extend_from_slice(&MAGIC_STANDARD.to_le_bytes());
    data.extend_from_slice(&0_u16.to_le_bytes());
    data.extend_from_slice(&0_u16.to_le_bytes());
    data.extend_from_slice(&0_u16.to_le_bytes());
    data.extend_from_slice(&count.to_le_bytes());
    data.extend_from_slice(&(table.len() as u16).to_le_bytes());
    for index in 0..count {
        let offset: i16 = if index == 122 { 0 } else { -1 };
        data.extend_from_slice(&offset.to_le_bytes());
    }
    data.extend_from_slice(&table);
    data
}

#[test]
fn display_reset_finishes_with_the_entry_or_the_fallback() {
    let data = entry_with_rs1(b"\x1bc$<5>");
    let strings = reset_strings(&data).unwrap();
    assert_eq!(strings.rs1.as_deref(), Some(b"\x1bc".as_slice()));
    let writes = finish_display_reset(false, Ok(data.clone())).unwrap();
    assert_eq!(writes, vec![b"\x1bc".to_vec()]);

    let writes = finish_display_reset(true, Err(terminfo::Error::NotFound)).unwrap();
    assert_eq!(writes, vec![vt_fallback_sequence().to_vec()]);
    assert!(matches!(
        finish_display_reset(false, Err(terminfo::Error::NotFound)),
        Err(Error::TerminfoNotFound)
    ));
    assert!(matches!(
        finish_display_reset(true, Err(terminfo::Error::TooLarge)),
        Err(Error::InvalidTerminfo)
    ));
    assert!(matches!(
        finish_display_reset(true, Ok(b"bad".to_vec())),
        Err(Error::InvalidTerminfo)
    ));
}

#[test]
fn writes_advance_until_done_and_refuse_no_progress() {
    assert!(matches!(advance_write(10, WriteEvent::Wrote(4)), Ok(6)));
    assert!(matches!(advance_write(6, WriteEvent::Wrote(6)), Ok(0)));
    assert!(matches!(advance_write(6, WriteEvent::Interrupted), Ok(6)));
    assert!(matches!(
        advance_write(6, WriteEvent::Wrote(0)),
        Err(Error::TerminalWriteMadeNoProgress)
    ));
    assert!(matches!(
        advance_write(6, WriteEvent::Failed(os(5))),
        Err(Error::TerminalWrite(e)) if e == os(5)
    ));
}

#[test]
fn interrupted_writes_are_told_apart_from_failures() {
    assert!(matches!(classify_write(Ok(3)), WriteEvent::Wrote(3)));
    let interrupted = rustix::io::Errno::INTR.raw_os_error();
    assert_eq!(interrupted, ree::error::EINTR);
    assert!(matches!(classify_write(Err(os(interrupted))), WriteEvent::Interrupted));
    let failed = os(rustix::io::Errno::IO.raw_os_error());
    assert!(matches!(classify_write(Err(failed)), WriteEvent::Failed(error) if error == failed));
}

#[test]
fn silent_exit_is_required_only_for_job_control_errors() {
    assert!(Error::NotForegroundProcess.requires_silent_exit());
    assert!(Error::GetForegroundProcess(os(25)).requires_silent_exit());
    assert!(!Error::NoTerminal.requires_silent_exit());
    assert!(!Error::TerminalWrite(os(5)).requires_silent_exit());
    assert!(!Error::TermNotSet.requires_silent_exit());
}

#[test]
fn errors_carry_their_messages() {
    assert_eq!(Error::NoTerminal.message(), "no terminal found");
    assert_eq!(
        Error::NotForegroundProcess.message(),
        "the process is not in the terminal's foreground process group"
    );
    assert_eq!(Error::TermNotSet.message(), "TERM is not set");
    assert_eq!(Error::InvalidTermName.message(), "TERM is not a valid terminal name");
    assert_eq!(Error::TerminfoNotFound.message(), "no terminfo entry was found for TERM");
    assert_eq!(Error::TerminfoUnreadable.message(), "the terminfo entry for TERM could not be read");
    assert_eq!(Error::InvalidTerminfo.message(), "the terminfo entry for TERM is invalid");
    assert_eq!(Error::TerminalWriteMadeNoProgress.message(), "a terminal write made no progress");
    let io = rustix::io::Errno::IO;
    assert_eq!(
        Error::TerminalWrite(os(io.raw_os_error())).message(),
        format!("failed to write terminal reset data: {io}")
    );
    assert_eq!(
        Error::GetTerminalState(os(io.raw_os_error())).message(),
        format!("failed to read terminal state: {io}")
    );
}

#[test]
fn os_errors_are_numbers_from_1_to_4095() {
    assert!(OsError::new(0).is_none());
    assert!(OsError::new(-4).is_none());
    assert!(OsError::new(4096).is_none());
    assert_eq!(OsError::new(1).map(|e| e.code()), Some(1));
    assert_eq!(OsError::new(4095).map(|e| e.code()), Some(4095));
}
