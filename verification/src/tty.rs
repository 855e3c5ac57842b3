//! The terminal: where it is looked for, how a system call on it is retried,
//! and the repair of its driver state.
//!
//! [`TerminalMode`] holds, as plain values, what the repair reads and writes
//! of the driver state: the four flag words and the control characters.

use vstd::prelude::*;

use crate::error::{OsError, EINTR};
use crate::platform::{
    posix_vdisable, open_flag, open_flag_named, control_mode_flag, control_mode_named, input_mode_flag, input_mode_named, local_mode_flag,
    local_mode_named, output_mode_flag, output_mode_named,
};

verus! {

// ---------------------------------------------------------------------------
// Finding the terminal
// ---------------------------------------------------------------------------

/// A standard stream that may be the terminal.
#[derive(Clone, Copy, Debug, PartialEq, Eq, Structural)]
pub enum Stream {
    /// Standard error.
    StandardError,
    /// Standard output.
    StandardOutput,
    /// Standard input.
    StandardInput,
}

/// The next call of the terminal search.
#[derive(Clone, Copy, Debug, PartialEq, Eq, Structural)]
pub enum FindAction {
    /// Check whether the stream is a terminal (`isatty`).
    CheckTerminal(Stream),
    /// Read the stream's file status flags (`fcntl` with `F_GETFL`).
    ReadStatusFlags(Stream),
    /// Duplicate the stream's descriptor (`dup`).
    Duplicate(Stream),
    /// Get the path of the terminal on standard input (`ttyname`).
    ResolveInputTerminal,
    /// Open that path for reading and writing.
    OpenInputTerminal,
    /// Open `/dev/tty` for reading and writing.
    OpenControllingTerminal,
    /// The descriptor that the last call gave is the terminal.
    Found,
    /// No terminal was found.
    NotFound,
}

/// What the last call of the terminal search gave.
#[derive(Clone, Copy, Debug, PartialEq, Eq, Structural)]
pub enum FindEvent {
    /// Whether the call succeeded (for `isatty`: whether the stream is a
    /// terminal).
    Succeeded(bool),
    /// The file status flags that were read, `None` when the call failed.
    StatusFlags(Option<u32>),
}

/// The bits of a file status flag, none where the platform lacks it.
pub open spec fn open_flag_bits(flag: Option<u32>) -> u32 {
    match flag {
        Some(bits) => bits,
        None => 0,
    }
}

/// File status flags whose access mode is not read-only.
pub open spec fn spec_is_writable_access(flags: u32) -> bool {
    flags & open_flag_bits(open_flag_named("ACCMODE"@)) != open_flag_bits(open_flag_named("RDONLY"@))
}

/// Checks whether file status flags allow writing: the access mode is not
/// read-only.
pub fn is_writable_access(flags: u32) -> (r: bool)
    ensures
        r == spec_is_writable_access(flags),
{
    let access_mode = match open_flag("ACCMODE") {
        Some(bits) => bits,
        None => 0,
    };
    let read_only = match open_flag("RDONLY") {
        Some(bits) => bits,
        None => 0,
    };
    flags & access_mode != read_only
}

/// Where the search goes when a stream cannot be used: standard output
/// after standard error, standard input after standard output, then
/// `/dev/tty`.
pub open spec fn after_stream(stream: Stream) -> FindAction {
    match stream {
        Stream::StandardError => FindAction::CheckTerminal(Stream::StandardOutput),
        Stream::StandardOutput => FindAction::CheckTerminal(Stream::StandardInput),
        Stream::StandardInput => FindAction::OpenControllingTerminal,
    }
}

/// The call of the terminal search that follows `asked` after it gave
/// `event`. Standard error and output are taken when they are terminals
/// open for writing and can be duplicated; standard input when it is a
/// terminal whose path can be opened; then `/dev/tty`. An event of another
/// kind than the call asked for counts as a failed call.
pub open spec fn spec_find_step(asked: FindAction, event: FindEvent) -> FindAction {
    let succeeded = event == FindEvent::Succeeded(true);
    match asked {
        FindAction::CheckTerminal(stream) => if succeeded {
            match stream {
                Stream::StandardInput => FindAction::ResolveInputTerminal,
                _ => FindAction::ReadStatusFlags(stream),
            }
        } else {
            after_stream(stream)
        },
        FindAction::ReadStatusFlags(stream) => match event {
            FindEvent::StatusFlags(Some(flags)) => if spec_is_writable_access(flags) {
                FindAction::Duplicate(stream)
            } else {
                after_stream(stream)
            },
            _ => after_stream(stream),
        },
        FindAction::Duplicate(stream) => if succeeded {
            FindAction::Found
        } else {
            after_stream(stream)
        },
        FindAction::ResolveInputTerminal => if succeeded {
            FindAction::OpenInputTerminal
        } else {
            FindAction::OpenControllingTerminal
        },
        FindAction::OpenInputTerminal => if succeeded {
            FindAction::Found
        } else {
            FindAction::OpenControllingTerminal
        },
        FindAction::OpenControllingTerminal => if succeeded {
            FindAction::Found
        } else {
            FindAction::NotFound
        },
        FindAction::Found => FindAction::Found,
        FindAction::NotFound => FindAction::NotFound,
    }
}

/// The first call of the terminal search.
pub fn find_start() -> (a: FindAction)
    ensures
        a == FindAction::CheckTerminal(Stream::StandardError),
{
    FindAction::CheckTerminal(Stream::StandardError)
}

fn next_stream(stream: Stream) -> (a: FindAction)
    ensures
        a == after_stream(stream),
{
    match stream {
        Stream::StandardError => FindAction::CheckTerminal(Stream::StandardOutput),
        Stream::StandardOutput => FindAction::CheckTerminal(Stream::StandardInput),
        Stream::StandardInput => FindAction::OpenControllingTerminal,
    }
}

/// Decides the next call of the terminal search.
pub fn find_step(asked: FindAction, event: FindEvent) -> (a: FindAction)
    ensures
        a == spec_find_step(asked, event),
{
    let succeeded = match event {
        FindEvent::Succeeded(ok) => ok,
        FindEvent::StatusFlags(_) => false,
    };
    match asked {
        FindAction::CheckTerminal(stream) => {
            if succeeded {
                match stream {
                    Stream::StandardInput => FindAction::ResolveInputTerminal,
                    _ => FindAction::ReadStatusFlags(stream),
                }
            } else {
                next_stream(stream)
            }
        },
        FindAction::ReadStatusFlags(stream) => match event {
            FindEvent::StatusFlags(Some(flags)) => {
                if is_writable_access(flags) {
                    FindAction::Duplicate(stream)
                } else {
                    next_stream(stream)
                }
            },
            _ => next_stream(stream),
        },
        FindAction::Duplicate(stream) => {
            if succeeded {
                FindAction::Found
            } else {
                next_stream(stream)
            }
        },
        FindAction::ResolveInputTerminal => {
            if succeeded {
                FindAction::OpenInputTerminal
            } else {
                FindAction::OpenControllingTerminal
            }
        },
        FindAction::OpenInputTerminal => {
            if succeeded {
                FindAction::Found
            } else {
                FindAction::OpenControllingTerminal
            }
        },
        FindAction::OpenControllingTerminal => {
            if succeeded {
                FindAction::Found
            } else {
                FindAction::NotFound
            }
        },
        FindAction::Found => FindAction::Found,
        FindAction::NotFound => FindAction::NotFound,
    }
}

/// How far the search has come: standard error, standard output, standard
/// input, `/dev/tty`, done.
pub open spec fn find_stage(action: FindAction) -> int {
    match action {
        FindAction::CheckTerminal(s) | FindAction::ReadStatusFlags(s) | FindAction::Duplicate(s) => match s {
            Stream::StandardError => 0,
            Stream::StandardOutput => 1,
            Stream::StandardInput => 2,
        },
        FindAction::ResolveInputTerminal | FindAction::OpenInputTerminal => 2,
        FindAction::OpenControllingTerminal => 3,
        FindAction::Found | FindAction::NotFound => 4,
    }
}

/// The search only moves forward through standard error, standard output,
/// standard input and `/dev/tty`; it finds a terminal only through a call
/// that succeeded; and it uses a standard stream only when that stream is a
/// terminal open for writing.
pub proof fn lemma_find_order(asked: FindAction, event: FindEvent)
    ensures
        find_stage(spec_find_step(asked, event)) >= find_stage(asked),
        spec_find_step(asked, event) == FindAction::Found && asked != FindAction::Found ==> event
            == FindEvent::Succeeded(true),
        spec_find_step(asked, event) matches FindAction::Duplicate(stream) ==> asked
            == FindAction::ReadStatusFlags(stream) && (event matches FindEvent::StatusFlags(Some(flags))
            && spec_is_writable_access(flags)),
        spec_find_step(asked, event) matches FindAction::ReadStatusFlags(stream) ==> asked
            == FindAction::CheckTerminal(stream) && event == FindEvent::Succeeded(true),
{
}

/// A stream that is not a terminal, or cannot be used, passes the search on
/// to the next place: standard error to standard output, standard output to
/// standard input, standard input to `/dev/tty`; when `/dev/tty` cannot be
/// opened nothing is found.
pub proof fn lemma_find_fallbacks(flags: u32)
    ensures
        spec_find_step(FindAction::CheckTerminal(Stream::StandardError), FindEvent::Succeeded(false))
            == FindAction::CheckTerminal(Stream::StandardOutput),
        spec_find_step(FindAction::CheckTerminal(Stream::StandardOutput), FindEvent::Succeeded(false))
            == FindAction::CheckTerminal(Stream::StandardInput),
        spec_find_step(FindAction::CheckTerminal(Stream::StandardInput), FindEvent::Succeeded(false))
            == FindAction::OpenControllingTerminal,
        spec_find_step(FindAction::CheckTerminal(Stream::StandardError), FindEvent::Succeeded(true))
            == FindAction::ReadStatusFlags(Stream::StandardError),
        spec_find_step(FindAction::CheckTerminal(Stream::StandardInput), FindEvent::Succeeded(true))
            == FindAction::ResolveInputTerminal,
        !spec_is_writable_access(flags) ==> spec_find_step(
            FindAction::ReadStatusFlags(Stream::StandardError),
            FindEvent::StatusFlags(Some(flags)),
        ) == FindAction::CheckTerminal(Stream::StandardOutput),
        spec_find_step(FindAction::ResolveInputTerminal, FindEvent::Succeeded(false))
            == FindAction::OpenControllingTerminal,
        spec_find_step(FindAction::OpenInputTerminal, FindEvent::Succeeded(false))
            == FindAction::OpenControllingTerminal,
        spec_find_step(FindAction::OpenControllingTerminal, FindEvent::Succeeded(false)) == FindAction::NotFound,
        spec_find_step(FindAction::OpenControllingTerminal, FindEvent::Succeeded(true)) == FindAction::Found,
{
}

// ---------------------------------------------------------------------------
// Interrupted calls
// ---------------------------------------------------------------------------

/// What to do with the result of a system call: `None` to make the call
/// again when a signal interrupted it (`EINTR`), otherwise the result itself.
pub fn retry_decision<T>(result: Result<T, OsError>) -> (r: Option<Result<T, OsError>>)
    ensures
        (result matches Err(error) && error@ == EINTR) ==> r is None,
        !(result matches Err(error) && error@ == EINTR) ==> r == Some(result),
{
    match result {
        Err(error) => {
            if error.code() == EINTR {
                None
            } else {
                Some(Err(error))
            }
        },
        Ok(value) => Some(Ok(value)),
    }
}

// ---------------------------------------------------------------------------
// Driver state
// ---------------------------------------------------------------------------

/// The value that turns a control character off on this platform
/// (`_POSIX_VDISABLE`: 0 on Linux, 0xff on macOS).
pub fn disabled_character() -> (disabled: u8)
    ensures
        disabled == 0 || disabled == 0xff,
{
    posix_vdisable()
}

/// The control characters that the repair restores, and the value that
/// turns a control character off.
#[derive(Clone, Copy, Debug, PartialEq, Eq, Structural)]
pub struct ControlCharacters {
    /// `VEOF`
    pub eof: u8,
    /// `VERASE`
    pub erase: u8,
    /// `VWERASE`
    pub werase: u8,
    /// `VKILL`
    pub kill: u8,
    /// `VREPRINT`
    pub reprint: u8,
    /// `VINTR`
    pub intr: u8,
    /// `VQUIT`
    pub quit: u8,
    /// `VSUSP`
    pub susp: u8,
    /// `VSTART`
    pub start: u8,
    /// `VSTOP`
    pub stop: u8,
    /// `VLNEXT`
    pub lnext: u8,
    /// `VDISCARD`
    pub discard: u8,
    /// `VDSUSP`, where the platform has it (macOS).
    pub dsusp: Option<u8>,
    /// `VSTATUS`, where the platform has it (macOS).
    pub status: Option<u8>,
    /// The value that turns a control character off, as
    /// [`disabled_character`] gives it.
    pub disabled: u8,
}

/// The terminal driver state that the repair reads and writes.
#[derive(Clone, Copy, Debug, PartialEq, Eq, Structural)]
pub struct TerminalMode {
    /// `c_iflag`
    pub input_modes: u64,
    /// `c_oflag`
    pub output_modes: u64,
    /// `c_cflag`
    pub control_modes: u64,
    /// `c_lflag`
    pub local_modes: u64,
    /// The control characters of `c_cc` that the repair restores.
    pub control_characters: ControlCharacters,
}

// ---------------------------------------------------------------------------
// Flags
// ---------------------------------------------------------------------------

/// The bits of a flag, none where the platform lacks it.
pub open spec fn flag_bits(flag: Option<u64>) -> u64 {
    match flag {
        Some(bits) => bits,
        None => 0,
    }
}

/// Input flags that the repair clears.
pub open spec fn input_cleared() -> u64 {
    flag_bits(input_mode_named("IGNBRK"@)) | flag_bits(input_mode_named("PARMRK"@)) | flag_bits(
        input_mode_named("INPCK"@),
    ) | flag_bits(input_mode_named("ISTRIP"@)) | flag_bits(input_mode_named("INLCR"@)) | flag_bits(
        input_mode_named("IGNCR"@),
    ) | flag_bits(input_mode_named("IXOFF"@)) | flag_bits(input_mode_named("IXANY"@))
}

/// Input flags that the repair sets: break and parity handling, CR to NL,
/// output flow control and the bell on a full input queue.
pub open spec fn input_required() -> u64 {
    flag_bits(input_mode_named("BRKINT"@)) | flag_bits(input_mode_named("IGNPAR"@)) | flag_bits(
        input_mode_named("ICRNL"@),
    ) | flag_bits(input_mode_named("IXON"@)) | flag_bits(input_mode_named("IMAXBEL"@))
}

/// Output flags that the repair clears: odd newline translations.
pub open spec fn output_cleared() -> u64 {
    flag_bits(output_mode_named("OCRNL"@)) | flag_bits(output_mode_named("ONOCR"@)) | flag_bits(
        output_mode_named("ONLRET"@),
    )
}

/// Output flags that ask the driver for fill characters or delays.
pub open spec fn output_delays() -> u64 {
    flag_bits(output_mode_named("OFILL"@)) | flag_bits(output_mode_named("OFDEL"@)) | flag_bits(
        output_mode_named("NLDLY"@),
    ) | flag_bits(output_mode_named("CRDLY"@)) | flag_bits(output_mode_named("TABDLY"@)) | flag_bits(
        output_mode_named("BSDLY"@),
    ) | flag_bits(output_mode_named("VTDLY"@)) | flag_bits(output_mode_named("FFDLY"@))
}

/// Output flags that the repair sets: output processing and NL to CR-NL.
pub open spec fn output_required() -> u64 {
    flag_bits(output_mode_named("OPOST"@)) | flag_bits(output_mode_named("ONLCR"@))
}

/// Control flags that the repair clears: the character size, parity, two
/// stop bits and modem-line independence.
pub open spec fn control_cleared() -> u64 {
    flag_bits(control_mode_named("CSIZE"@)) | flag_bits(control_mode_named("PARENB"@)) | flag_bits(
        control_mode_named("PARODD"@),
    ) | flag_bits(control_mode_named("CSTOPB"@)) | flag_bits(control_mode_named("CLOCAL"@))
}

/// Control flags that the repair sets: 8-bit characters and the receiver.
pub open spec fn control_required() -> u64 {
    flag_bits(control_mode_named("CS8"@)) | flag_bits(control_mode_named("CREAD"@))
}

/// Local flags that the repair clears.
pub open spec fn local_cleared() -> u64 {
    flag_bits(local_mode_named("ECHONL"@)) | flag_bits(local_mode_named("NOFLSH"@)) | flag_bits(
        local_mode_named("TOSTOP"@),
    ) | flag_bits(local_mode_named("ECHOPRT"@)) | flag_bits(local_mode_named("FLUSHO"@)) | flag_bits(
        local_mode_named("PENDIN"@),
    ) | flag_bits(local_mode_named("EXTPROC"@))
}

/// Local flags that the repair sets: signals, canonical input, extended
/// input processing and the usual echo behaviour.
pub open spec fn local_required() -> u64 {
    flag_bits(local_mode_named("ISIG"@)) | flag_bits(local_mode_named("ICANON"@)) | flag_bits(
        local_mode_named("IEXTEN"@),
    ) | flag_bits(local_mode_named("ECHO"@)) | flag_bits(local_mode_named("ECHOE"@)) | flag_bits(
        local_mode_named("ECHOK"@),
    ) | flag_bits(local_mode_named("ECHOKE"@)) | flag_bits(local_mode_named("ECHOCTL"@))
}

/// `modes` with the bits of `cleared` removed, then those of `required` set.
pub open spec fn with_flags(modes: u64, cleared: u64, required: u64) -> u64 {
    (modes & !cleared) | required
}

fn input_flag(name: &str) -> (bits: u64)
    ensures
        bits == flag_bits(input_mode_named(name@)),
{
    match input_mode_flag(name) {
        Some(bits) => bits,
        None => 0,
    }
}

fn output_flag(name: &str) -> (bits: u64)
    ensures
        bits == flag_bits(output_mode_named(name@)),
{
    match output_mode_flag(name) {
        Some(bits) => bits,
        None => 0,
    }
}

fn control_flag(name: &str) -> (bits: u64)
    ensures
        bits == flag_bits(control_mode_named(name@)),
{
    match control_mode_flag(name) {
        Some(bits) => bits,
        None => 0,
    }
}

fn local_flag(name: &str) -> (bits: u64)
    ensures
        bits == flag_bits(local_mode_named(name@)),
{
    match local_mode_flag(name) {
        Some(bits) => bits,
        None => 0,
    }
}

/// Restores the input flags: clears input stripping, NL/CR mangling and
/// input flow control, sets break, parity, CR to NL and output flow control.
pub fn repair_input_modes(modes: &mut u64)
    ensures
        *final(modes) == with_flags(*old(modes), input_cleared(), input_required()),
{
    let cleared = input_flag("IGNBRK") | input_flag("PARMRK") | input_flag("INPCK") | input_flag("ISTRIP")
        | input_flag("INLCR") | input_flag("IGNCR") | input_flag("IXOFF") | input_flag("IXANY");
    let required = input_flag("BRKINT") | input_flag("IGNPAR") | input_flag("ICRNL") | input_flag("IXON")
        | input_flag("IMAXBEL");
    *modes = (*modes & !cleared) | required;
}

/// Removes the output fill and delay flags.
pub fn remove_output_delay_modes(modes: &mut u64)
    ensures
        *final(modes) == *old(modes) & !output_delays(),
{
    let delays = output_flag("OFILL") | output_flag("OFDEL") | output_flag("NLDLY") | output_flag("CRDLY")
        | output_flag("TABDLY") | output_flag("BSDLY") | output_flag("VTDLY") | output_flag("FFDLY");
    *modes = *modes & !delays;
}

/// Restores the output flags: output processing with NL to CR-NL, and no
/// other newline translation, fill or delay.
pub fn repair_output_modes(modes: &mut u64)
    ensures
        *final(modes) == with_flags(*old(modes) & !output_cleared(), output_delays(), output_required()),
{
    let cleared = output_flag("OCRNL") | output_flag("ONOCR") | output_flag("ONLRET");
    *modes = *modes & !cleared;
    remove_output_delay_modes(modes);
    let required = output_flag("OPOST") | output_flag("ONLCR");
    *modes = *modes | required;
}

/// Restores the control flags: 8-bit characters without parity, one stop
/// bit, the receiver on, modem lines honoured.
pub fn repair_control_modes(modes: &mut u64)
    ensures
        *final(modes) == with_flags(*old(modes), control_cleared(), control_required()),
{
    let cleared = control_flag("CSIZE") | control_flag("PARENB") | control_flag("PARODD") | control_flag(
        "CSTOPB",
    ) | control_flag("CLOCAL");
    let required = control_flag("CS8") | control_flag("CREAD");
    *modes = (*modes & !cleared) | required;
}

/// Restores the local flags: signals, canonical input and echo on, output
/// flushing and background-output stops off.
pub fn repair_local_modes(modes: &mut u64)
    ensures
        *final(modes) == with_flags(*old(modes), local_cleared(), local_required()),
{
    let cleared = local_flag("ECHONL") | local_flag("NOFLSH") | local_flag("TOSTOP") | local_flag("ECHOPRT")
        | local_flag("FLUSHO") | local_flag("PENDIN") | local_flag("EXTPROC");
    let required = local_flag("ISIG") | local_flag("ICANON") | local_flag("IEXTEN") | local_flag("ECHO")
        | local_flag("ECHOE") | local_flag("ECHOK") | local_flag("ECHOKE") | local_flag("ECHOCTL");
    *modes = (*modes & !cleared) | required;
}

// ---------------------------------------------------------------------------
// Control characters
// ---------------------------------------------------------------------------

/// A control character after repair: a disabled one (0, or the value that
/// turns characters off) takes `default`, any other value (a customization)
/// stays.
pub open spec fn repaired_character(current: u8, default: u8, disabled: u8) -> u8 {
    if current == 0 || current == disabled {
        default
    } else {
        current
    }
}

/// Restores a disabled control character to `default`, where `disabled` is
/// the value that turns a control character off.
pub fn repair_control_character_value(current: &mut u8, default: u8, disabled: u8)
    ensures
        *final(current) == repaired_character(*old(current), default, disabled),
{
    if *current == 0 || *current == disabled {
        *current = default;
    }
}

/// An optional control character after repair.
pub open spec fn repaired_optional(current: Option<u8>, default: u8, disabled: u8) -> Option<u8> {
    match current {
        Some(c) => Some(repaired_character(c, default, disabled)),
        None => None,
    }
}

/// The control characters after repair, each disabled one restored to its
/// usual key: `^D`, `DEL`, `^W`, `^U`, `^R`, `^C`, `^\`, `^Z`, `^Q`, `^S`,
/// `^V`, `^O`, and where the platform has them `^Y` and `^T`.
pub open spec fn repaired_characters(c: ControlCharacters) -> ControlCharacters {
    let off = c.disabled;
    ControlCharacters {
        eof: repaired_character(c.eof, 0o4, off),
        erase: repaired_character(c.erase, 0o177, off),
        werase: repaired_character(c.werase, 0o27, off),
        kill: repaired_character(c.kill, 0o25, off),
        reprint: repaired_character(c.reprint, 0o22, off),
        intr: repaired_character(c.intr, 0o3, off),
        quit: repaired_character(c.quit, 0o34, off),
        susp: repaired_character(c.susp, 0o32, off),
        start: repaired_character(c.start, 0o21, off),
        stop: repaired_character(c.stop, 0o23, off),
        lnext: repaired_character(c.lnext, 0o26, off),
        discard: repaired_character(c.discard, 0o17, off),
        dsusp: repaired_optional(c.dsusp, 0o31, off),
        status: repaired_optional(c.status, 0o24, off),
        disabled: off,
    }
}

/// Restores `VDSUSP` and `VSTATUS` where the platform has them.
pub fn repair_darwin_control_characters(chars: &mut ControlCharacters)
    ensures
        final(chars).dsusp == repaired_optional(old(chars).dsusp, 0o31, old(chars).disabled),
        final(chars).status == repaired_optional(old(chars).status, 0o24, old(chars).disabled),
        final(chars).disabled == old(chars).disabled,
        final(chars).eof == old(chars).eof && final(chars).erase == old(chars).erase
            && final(chars).werase == old(chars).werase && final(chars).kill == old(chars).kill
            && final(chars).reprint == old(chars).reprint && final(chars).intr == old(chars).intr
            && final(chars).quit == old(chars).quit && final(chars).susp == old(chars).susp
            && final(chars).start == old(chars).start && final(chars).stop == old(chars).stop
            && final(chars).lnext == old(chars).lnext && final(chars).discard == old(chars).discard,
{
    let off = chars.disabled;
    if let Some(c) = chars.dsusp {
        let mut value = c;
        repair_control_character_value(&mut value, 0o31, off);
        chars.dsusp = Some(value);
    }
    if let Some(c) = chars.status {
        let mut value = c;
        repair_control_character_value(&mut value, 0o24, off);
        chars.status = Some(value);
    }
}

/// The terminal driver state after repair.
pub open spec fn repaired_mode(mode: TerminalMode) -> TerminalMode {
    TerminalMode {
        input_modes: with_flags(mode.input_modes, input_cleared(), input_required()),
        output_modes: with_flags(mode.output_modes & !output_cleared(), output_delays(), output_required()),
        control_modes: with_flags(mode.control_modes, control_cleared(), control_required()),
        local_modes: with_flags(mode.local_modes, local_cleared(), local_required()),
        control_characters: repaired_characters(mode.control_characters),
    }
}

/// Repairs the terminal driver state: the four flag words and every disabled
/// control character.
pub fn repair_terminal_mode(mode: &mut TerminalMode)
    ensures
        *final(mode) == repaired_mode(*old(mode)),
{
    repair_input_modes(&mut mode.input_modes);
    repair_output_modes(&mut mode.output_modes);
    repair_control_modes(&mut mode.control_modes);
    repair_local_modes(&mut mode.local_modes);

    let off = mode.control_characters.disabled;
    repair_control_character_value(&mut mode.control_characters.eof, 0o4, off);
    repair_control_character_value(&mut mode.control_characters.erase, 0o177, off);
    repair_control_character_value(&mut mode.control_characters.werase, 0o27, off);
    repair_control_character_value(&mut mode.control_characters.kill, 0o25, off);
    repair_control_character_value(&mut mode.control_characters.reprint, 0o22, off);
    repair_control_character_value(&mut mode.control_characters.intr, 0o3, off);
    repair_control_character_value(&mut mode.control_characters.quit, 0o34, off);
    repair_control_character_value(&mut mode.control_characters.susp, 0o32, off);
    repair_control_character_value(&mut mode.control_characters.start, 0o21, off);
    repair_control_character_value(&mut mode.control_characters.stop, 0o23, off);
    repair_control_character_value(&mut mode.control_characters.lnext, 0o26, off);
    repair_control_character_value(&mut mode.control_characters.discard, 0o17, off);
    repair_darwin_control_characters(&mut mode.control_characters);
}

// ---------------------------------------------------------------------------
// Laws
// ---------------------------------------------------------------------------

/// What setting flags does to a flag word: every required bit is on, every
/// cleared bit that is not also required is off, and every other bit keeps
/// its value.
pub proof fn lemma_with_flags(modes: u64, cleared: u64, required: u64)
    ensures
        with_flags(modes, cleared, required) & required == required,
        with_flags(modes, cleared, required) & (cleared & !required) == 0,
        with_flags(modes, cleared, required) & !(cleared | required) == modes & !(cleared | required),
{
    assert((((modes & !cleared) | required) & required == required) && ((((modes & !cleared) | required)
        & (cleared & !required)) == 0) && ((((modes & !cleared) | required) & !(cleared | required))
        == modes & !(cleared | required))) by (bit_vector);
}

proof fn lemma_with_flags_twice(modes: u64, cleared: u64, required: u64)
    ensures
        with_flags(with_flags(modes, cleared, required), cleared, required) == with_flags(
            modes,
            cleared,
            required,
        ),
{
    assert((((((modes & !cleared) | required) & !cleared) | required) == ((modes & !cleared)
        | required))) by (bit_vector);
}

proof fn lemma_output_twice(modes: u64, cleared: u64, delays: u64, required: u64)
    ensures
        with_flags(with_flags(modes & !cleared, delays, required) & !cleared, delays, required)
            == with_flags(modes & !cleared, delays, required),
{
    assert((((((((modes & !cleared) & !delays) | required) & !cleared) & !delays) | required) == (((
    modes & !cleared) & !delays) | required))) by (bit_vector);
}

/// What the repair does to each control character: a disabled one (0, or
/// the platform's value that turns characters off) becomes its usual key
/// (`VEOF` `^D`, `VERASE` DEL, `VWERASE` `^W`, `VKILL` `^U`, `VREPRINT` `^R`,
/// `VINTR` `^C`, `VQUIT` `^\`, `VSUSP` `^Z`, `VSTART` `^Q`, `VSTOP` `^S`,
/// `VLNEXT` `^V`, `VDISCARD` `^O`, and where present `VDSUSP` `^Y` and
/// `VSTATUS` `^T`); any other value stays. Afterwards none of the twelve is
/// disabled.
pub proof fn lemma_repair_restores_every_disabled_character(mode: TerminalMode)
    requires
        mode.control_characters.disabled == 0 || mode.control_characters.disabled == 0xff,
    ensures
        ({
            let before = mode.control_characters;
            let after = repaired_mode(mode).control_characters;
            let off = before.disabled;
            &&& after.disabled == off
            &&& (before.eof == 0 || before.eof == off) ==> after.eof == 0o4
            &&& !(before.eof == 0 || before.eof == off) ==> after.eof == before.eof
            &&& after.eof != 0 && after.eof != off
            &&& (before.erase == 0 || before.erase == off) ==> after.erase == 0o177
            &&& !(before.erase == 0 || before.erase == off) ==> after.erase == before.erase
            &&& after.erase != 0 && after.erase != off
            &&& (before.werase == 0 || before.werase == off) ==> after.werase == 0o27
            &&& !(before.werase == 0 || before.werase == off) ==> after.werase == before.werase
            &&& after.werase != 0 && after.werase != off
            &&& (before.kill == 0 || before.kill == off) ==> after.kill == 0o25
            &&& !(before.kill == 0 || before.kill == off) ==> after.kill == before.kill
            &&& after.kill != 0 && after.kill != off
            &&& (before.reprint == 0 || before.reprint == off) ==> after.reprint == 0o22
            &&& !(before.reprint == 0 || before.reprint == off) ==> after.reprint == before.reprint
            &&& after.reprint != 0 && after.reprint != off
            &&& (before.intr == 0 || before.intr == off) ==> after.intr == 0o3
            &&& !(before.intr == 0 || before.intr == off) ==> after.intr == before.intr
            &&& after.intr != 0 && after.intr != off
            &&& (before.quit == 0 || before.quit == off) ==> after.quit == 0o34
            &&& !(before.quit == 0 || before.quit == off) ==> after.quit == before.quit
            &&& after.quit != 0 && after.quit != off
            &&& (before.susp == 0 || before.susp == off) ==> after.susp == 0o32
            &&& !(before.susp == 0 || before.susp == off) ==> after.susp == before.susp
            &&& after.susp != 0 && after.susp != off
            &&& (before.start == 0 || before.start == off) ==> after.start == 0o21
            &&& !(before.start == 0 || before.start == off) ==> after.start == before.start
            &&& after.start != 0 && after.start != off
            &&& (before.stop == 0 || before.stop == off) ==> after.stop == 0o23
            &&& !(before.stop == 0 || before.stop == off) ==> after.stop == before.stop
            &&& after.stop != 0 && after.stop != off
            &&& (before.lnext == 0 || before.lnext == off) ==> after.lnext == 0o26
            &&& !(before.lnext == 0 || before.lnext == off) ==> after.lnext == before.lnext
            &&& after.lnext != 0 && after.lnext != off
            &&& (before.discard == 0 || before.discard == off) ==> after.discard == 0o17
            &&& !(before.discard == 0 || before.discard == off) ==> after.discard == before.discard
            &&& after.discard != 0 && after.discard != off
            &&& before.dsusp is None ==> after.dsusp is None
            &&& before.dsusp matches Some(c) ==> (after.dsusp == Some(if c == 0 || c == off { 0o31u8 } else { c }))
            &&& before.status is None ==> after.status is None
            &&& before.status matches Some(c) ==> (after.status == Some(if c == 0 || c == off { 0o24u8 } else { c }))
        }),
{
}

/// Repairing a repaired terminal changes nothing, where the value that turns
/// characters off is the platform's (0 or 0xff).
pub proof fn lemma_repair_is_idempotent(mode: TerminalMode)
    requires
        mode.control_characters.disabled == 0 || mode.control_characters.disabled == 0xff,
    ensures
        repaired_mode(repaired_mode(mode)) == repaired_mode(mode),
{
    lemma_with_flags_twice(mode.input_modes, input_cleared(), input_required());
    lemma_output_twice(mode.output_modes, output_cleared(), output_delays(), output_required());
    lemma_with_flags_twice(mode.control_modes, control_cleared(), control_required());
    lemma_with_flags_twice(mode.local_modes, local_cleared(), local_required());
}

/// The repair changes a control character only when it is disabled, and then
/// to a character that is not disabled.
pub proof fn lemma_repair_keeps_customizations(current: u8, default: u8, disabled: u8)
    requires
        default != 0,
        default != disabled,
    ensures
        current != 0 && current != disabled ==> repaired_character(current, default, disabled) == current,
        repaired_character(current, default, disabled) != 0,
        repaired_character(current, default, disabled) != disabled,
{
}

} // verus!
