use rustix::fs::OFlags;
use rustix::termios::{ControlModes, InputModes, LocalModes, OutputModes};

use ree::error::{OsError, EINTR};
use ree::tty::{
    find_start, find_step, is_writable_access, retry_decision, FindAction, FindEvent, Stream,
    repair_control_character_value, repair_control_modes, repair_input_modes, repair_local_modes,
    repair_output_modes, repair_terminal_mode, disabled_character, repair_darwin_control_characters,
    ControlCharacters, TerminalMode,
};

#[test]
fn repairs_input_modes() {
    let removed = (InputModes::IGNBRK
        | InputModes::PARMRK
        | InputModes::INPCK
        | InputModes::ISTRIP
        | InputModes::INLCR
        | InputModes::IGNCR
        | InputModes::IXOFF
        | InputModes::IXANY)
        .bits() as u64;
    let required = (InputModes::BRKINT
        | InputModes::IGNPAR
        | InputModes::ICRNL
        | InputModes::IXON
        | InputModes::IMAXBEL)
        .bits() as u64;
    let mut modes = removed;

    repair_input_modes(&mut modes);

    assert!(modes & removed == 0);
    assert!(modes & required == required);
}

#[test]
fn repairs_output_modes() {
    let removed = (OutputModes::OCRNL | OutputModes::ONOCR | OutputModes::ONLRET).bits() as u64;
    let required = (OutputModes::OPOST | OutputModes::ONLCR).bits() as u64;
    let mut modes = OutputModes::all().bits() as u64;

    repair_output_modes(&mut modes);

    assert!(modes & removed == 0);
    assert!(modes & required == required);
}

#[test]
fn repairs_control_modes() {
    let removed = (ControlModes::PARENB | ControlModes::PARODD | ControlModes::CSTOPB | ControlModes::CLOCAL)
        .bits() as u64;
    let required = (ControlModes::CS8 | ControlModes::CREAD).bits() as u64;
    let mut modes = ControlModes::all().bits() as u64;

    repair_control_modes(&mut modes);

    assert!(modes & removed == 0);
    assert!(modes & required == required);
    assert_eq!(
        modes & ControlModes::CSIZE.bits() as u64,
        ControlModes::CS8.bits() as u64
    );
}

#[test]
fn repairs_local_modes() {
    let removed = (LocalModes::ECHONL
        | LocalModes::NOFLSH
        | LocalModes::TOSTOP
        | LocalModes::ECHOPRT
        | LocalModes::FLUSHO
        | LocalModes::PENDIN
        | LocalModes::EXTPROC)
        .bits() as u64;
    let required = (LocalModes::ISIG
        | LocalModes::ICANON
        | LocalModes::IEXTEN
        | LocalModes::ECHO
        | LocalModes::ECHOE
        | LocalModes::ECHOK
        | LocalModes::ECHOKE
        | LocalModes::ECHOCTL)
        .bits() as u64;
    let mut modes = removed;

    repair_local_modes(&mut modes);

    assert!(modes & removed == 0);
    assert!(modes & required == required);
}

#[test]
fn repairs_only_disabled_control_characters() {
    let mut zero = 0;
    repair_control_character_value(&mut zero, 0o4, libc::_POSIX_VDISABLE);
    assert_eq!(zero, 0o4);

    let mut disabled = libc::_POSIX_VDISABLE;
    repair_control_character_value(&mut disabled, 0o3, libc::_POSIX_VDISABLE);
    assert_eq!(disabled, 0o3);

    let mut customized = 0o10;
    repair_control_character_value(&mut customized, 0o177, libc::_POSIX_VDISABLE);
    assert_eq!(customized, 0o10);
}

fn raw_mode() -> TerminalMode {
    TerminalMode {
        input_modes: 0,
        output_modes: 0,
        control_modes: 0,
        local_modes: 0,
        control_characters: ControlCharacters {
            eof: 0,
            erase: 0o10,
            werase: 0,
            kill: 0,
            reprint: 0,
            intr: 0,
            quit: 0,
            susp: 0,
            start: 0,
            stop: 0,
            lnext: 0,
            discard: 0,
            dsusp: None,
            status: None,
            disabled: 0,
        },
    }
}

#[test]
fn repairs_a_raw_terminal_and_keeps_custom_keys() {
    let mut mode = raw_mode();
    repair_terminal_mode(&mut mode);

    assert_eq!(mode.control_characters.eof, 0o4);
    assert_eq!(mode.control_characters.erase, 0o10);
    assert_eq!(mode.control_characters.intr, 0o3);
    assert_eq!(mode.control_characters.quit, 0o34);
    assert_eq!(mode.control_characters.susp, 0o32);
    assert_eq!(mode.control_characters.start, 0o21);
    assert_eq!(mode.control_characters.stop, 0o23);
    assert_eq!(mode.control_characters.lnext, 0o26);
    assert_eq!(mode.control_characters.discard, 0o17);
    assert_eq!(mode.control_characters.werase, 0o27);
    assert_eq!(mode.control_characters.kill, 0o25);
    assert_eq!(mode.control_characters.reprint, 0o22);
    let local = (LocalModes::ICANON | LocalModes::ECHO | LocalModes::ISIG).bits() as u64;
    assert_eq!(mode.local_modes & local, local);
    let output = (OutputModes::OPOST | OutputModes::ONLCR).bits() as u64;
    assert_eq!(mode.output_modes & output, output);
}

#[test]
fn repairing_twice_changes_nothing_more() {
    let mut once = raw_mode();
    once.input_modes = u32::MAX as u64;
    once.output_modes = u32::MAX as u64;
    repair_terminal_mode(&mut once);
    let mut twice = once;
    repair_terminal_mode(&mut twice);
    assert_eq!(once, twice);
}

#[test]
fn unrelated_flags_are_kept() {
    let mut modes = InputModes::IUTF8.bits() as u64;
    repair_input_modes(&mut modes);
    assert!(modes & InputModes::IUTF8.bits() as u64 != 0);
}

#[test]
fn the_search_tries_stderr_stdout_stdin_then_dev_tty() {
    let mut action = find_start();
    assert_eq!(action, FindAction::CheckTerminal(Stream::StandardError));
    action = find_step(action, FindEvent::Succeeded(false));
    assert_eq!(action, FindAction::CheckTerminal(Stream::StandardOutput));
    action = find_step(action, FindEvent::Succeeded(true));
    assert_eq!(action, FindAction::ReadStatusFlags(Stream::StandardOutput));
    action = find_step(action, FindEvent::StatusFlags(Some(OFlags::RDONLY.bits())));
    assert_eq!(action, FindAction::CheckTerminal(Stream::StandardInput));
    action = find_step(action, FindEvent::Succeeded(true));
    assert_eq!(action, FindAction::ResolveInputTerminal);
    action = find_step(action, FindEvent::Succeeded(false));
    assert_eq!(action, FindAction::OpenControllingTerminal);
    assert_eq!(find_step(action, FindEvent::Succeeded(false)), FindAction::NotFound);
    assert_eq!(find_step(action, FindEvent::Succeeded(true)), FindAction::Found);
}

#[test]
fn a_writable_terminal_stream_is_duplicated() {
    let action = find_step(
        FindAction::ReadStatusFlags(Stream::StandardError),
        FindEvent::StatusFlags(Some((OFlags::RDWR | OFlags::APPEND).bits())),
    );
    assert_eq!(action, FindAction::Duplicate(Stream::StandardError));
    assert_eq!(find_step(action, FindEvent::Succeeded(true)), FindAction::Found);
    assert_eq!(
        find_step(action, FindEvent::Succeeded(false)),
        FindAction::CheckTerminal(Stream::StandardOutput)
    );
    assert_eq!(
        find_step(FindAction::ReadStatusFlags(Stream::StandardError), FindEvent::StatusFlags(None)),
        FindAction::CheckTerminal(Stream::StandardOutput)
    );
    assert_eq!(
        find_step(FindAction::ResolveInputTerminal, FindEvent::Succeeded(true)),
        FindAction::OpenInputTerminal
    );
    assert_eq!(
        find_step(FindAction::OpenInputTerminal, FindEvent::Succeeded(true)),
        FindAction::Found
    );
}

#[test]
fn access_modes_other_than_read_only_are_writable() {
    assert!(!is_writable_access(OFlags::RDONLY.bits()));
    assert!(!is_writable_access((OFlags::RDONLY | OFlags::NONBLOCK).bits()));
    assert!(is_writable_access(OFlags::WRONLY.bits()));
    assert!(is_writable_access((OFlags::RDWR | OFlags::APPEND).bits()));
}

#[test]
fn only_interrupted_calls_are_retried() {
    let interrupted = OsError::new(EINTR).unwrap();
    let failed = OsError::new(5).unwrap();
    assert_eq!(retry_decision::<u8>(Err(interrupted)), None);
    assert_eq!(retry_decision::<u8>(Err(failed)), Some(Err(failed)));
    assert_eq!(retry_decision(Ok(7_u8)), Some(Ok(7)));
}

#[test]
fn the_platform_disabled_value_comes_from_the_c_library() {
    assert_eq!(disabled_character(), libc::_POSIX_VDISABLE);
}

#[test]
fn disabled_characters_are_repaired_for_the_platform_value() {
    let mut mode = raw_mode();
    mode.control_characters.disabled = 0xff;
    mode.control_characters.eof = 0xff;
    mode.control_characters.intr = 0x7f;
    repair_terminal_mode(&mut mode);
    assert_eq!(mode.control_characters.eof, 0o4);
    assert_eq!(mode.control_characters.intr, 0x7f);
    assert_eq!(mode.control_characters.erase, 0o10);
}

#[test]
fn darwin_characters_are_repaired_where_present() {
    let mut chars = raw_mode().control_characters;
    chars.disabled = 0xff;
    chars.dsusp = Some(0xff);
    chars.status = Some(0o1);
    repair_darwin_control_characters(&mut chars);
    assert_eq!(chars.dsusp, Some(0o31));
    assert_eq!(chars.status, Some(0o1));
    let mut absent = raw_mode().control_characters;
    repair_darwin_control_characters(&mut absent);
    assert_eq!(absent.dsusp, None);
    assert_eq!(absent.status, None);
    assert_eq!(absent, raw_mode().control_characters);
}
