# ree

`ree` restores a terminal after a program leaves the terminal driver or the
terminal emulator in an unusable state.

The crate is a Verus library with a small program around it.

- `src/` holds the decisions of the reset, verified: the compiled terminfo
  parser and its padding-marker removal, terminal-name checks, the terminfo
  search order, path comparison and the choice of an entry, the search for
  the terminal and the retry of interrupted calls, the repair of the driver
  state, the byte strings written to the terminal emulator and what each
  write outcome means, the error messages, and the order of the whole reset
  as a state machine. `src/platform.rs` holds the trusted items: the flag
  values that `rustix` gives by name, the value that turns a control
  character off, and the system's description of an OS error.
- `app/` is the program: command-line handling, and the loops that make the
  system calls, file reads and terminal writes that the library's functions
  ask for.
- `tests/` runs the library on concrete inputs, including entries written to
  temporary directories.

Platform values come from `rustix` and `libc` for the platform built for:
the mode flags by name, and the value that turns a control character off.
The control characters that only macOS has (`VDSUSP`, `VSTATUS`) are part
of the model where the platform has them.
