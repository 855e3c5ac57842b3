//! A fast terminal reset.
//!
//! The library repairs the kernel TTY state and resets the attached terminal
//! emulator without linking to ncurses. Every decision that the reset makes is
//! a verified function here; the program around it performs the system calls.
//!
//! - [`terminfo`]: compiled terminfo entries, padding markers, terminal names.
//! - [`terminfo_db`]: where entries are looked for and which one is taken.
//! - [`tty`]: the repair of the terminal driver state.
//! - [`display`]: what is written to the terminal emulator, and in which order.
//! - [`reset`]: the order of the whole reset, as a state machine.
//! - [`error`]: the errors that stop a reset.
//! - [`platform`]: what is taken from the operating system interface.

pub mod display;
pub mod error;
pub mod platform;
pub mod reset;
pub mod terminfo;
pub mod terminfo_db;
pub mod tty;

pub use error::Error;
