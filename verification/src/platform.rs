//! What the library takes from the operating system interface (`rustix`):
//! the values of the terminal mode and file status flags, and the text that
//! describes a system-call error.

use rustix::fs::OFlags;
use rustix::io::Errno;
use rustix::termios::{ControlModes, InputModes, LocalModes, OutputModes};

use vstd::prelude::*;

verus! {

/// Calls `<Errno as Display>::fmt` (through `format!`) on
/// `Errno::from_raw_os_error(code)`: the system's description of an OS
/// error number. `from_raw_os_error` asserts a number in `1..=4095`, so
/// others are left out. Nothing is stated of the text, which comes from the
/// C library.
#[verifier::external_body]
pub(crate) fn os_error_text(code: i32) -> String
    requires
        1 <= code <= 4095,
{
    format!("{}", Errno::from_raw_os_error(code))
}

/// Reads `libc::_POSIX_VDISABLE`: the value of a control character that is
/// turned off. The C library gives 0 on Linux and 0xff on macOS and the
/// BSDs; claimed: it is one of those two.
#[verifier::external_body]
pub(crate) fn posix_vdisable() -> (disabled: u8)
    ensures
        disabled == 0 || disabled == 0xff,
{
    libc::_POSIX_VDISABLE
}

/// The bits of the file status flag with the given name, as
/// `OFlags::from_name` gives them on the platform built for.
pub uninterp spec fn open_flag_named(name: Seq<char>) -> Option<u32>;

/// Calls `OFlags::from_name`: the file status flag named `name` (such as
/// `"ACCMODE"`); `None` where the platform has no such flag. Claimed: the
/// result depends on `name` alone.
#[verifier::external_body]
pub(crate) fn open_flag(name: &str) -> (bits: Option<u32>)
    ensures
        bits == open_flag_named(name@),
{
    match OFlags::from_name(name) {
        Some(flag) => Some(flag.bits()),
        None => None,
    }
}

/// The bits of the input mode flag with the given name, as
/// `InputModes::from_name` gives them on the platform built for.
pub uninterp spec fn input_mode_named(name: Seq<char>) -> Option<u64>;

/// The bits of the output mode flag with the given name, as
/// `OutputModes::from_name` gives them on the platform built for.
pub uninterp spec fn output_mode_named(name: Seq<char>) -> Option<u64>;

/// The bits of the control mode flag with the given name, as
/// `ControlModes::from_name` gives them on the platform built for.
pub uninterp spec fn control_mode_named(name: Seq<char>) -> Option<u64>;

/// The bits of the local mode flag with the given name, as
/// `LocalModes::from_name` gives them on the platform built for.
pub uninterp spec fn local_mode_named(name: Seq<char>) -> Option<u64>;

/// Calls `InputModes::from_name`: the input mode flag named `name` (such as
/// `"ICRNL"`), widened to 64 bits; `None` where the platform has no such
/// flag. Claimed: the result depends on `name` alone.
#[verifier::external_body]
pub(crate) fn input_mode_flag(name: &str) -> (bits: Option<u64>)
    ensures
        bits == input_mode_named(name@),
{
    match InputModes::from_name(name) {
        Some(flag) => Some(flag.bits() as u64),
        None => None,
    }
}

/// Calls `OutputModes::from_name`: the output mode flag named `name`, widened
/// to 64 bits; `None` where the platform has no such flag. Claimed: the
/// result depends on `name` alone.
#[verifier::external_body]
pub(crate) fn output_mode_flag(name: &str) -> (bits: Option<u64>)
    ensures
        bits == output_mode_named(name@),
{
    match OutputModes::from_name(name) {
        Some(flag) => Some(flag.bits() as u64),
        None => None,
    }
}

/// Calls `ControlModes::from_name`: the control mode flag named `name`,
/// widened to 64 bits; `None` where the platform has no such flag. Claimed:
/// the result depends on `name` alone.
#[verifier::external_body]
pub(crate) fn control_mode_flag(name: &str) -> (bits: Option<u64>)
    ensures
        bits == control_mode_named(name@),
{
    match ControlModes::from_name(name) {
        Some(flag) => Some(flag.bits() as u64),
        None => None,
    }
}

/// Calls `LocalModes::from_name`: the local mode flag named `name`, widened
/// to 64 bits; `None` where the platform has no such flag. Claimed: the
/// result depends on `name` alone.
#[verifier::external_body]
pub(crate) fn local_mode_flag(name: &str) -> (bits: Option<u64>)
    ensures
        bits == local_mode_named(name@),
{
    match LocalModes::from_name(name) {
        Some(flag) => Some(flag.bits() as u64),
        None => None,
    }
}

} // verus!
