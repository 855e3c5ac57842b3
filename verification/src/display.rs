//! What is written to the terminal emulator, and in which order.
//!
//! The writes themselves are the caller's: the functions here say which byte
//! strings go out, and what each outcome of a write means.

use std::borrow::Cow;

use vstd::prelude::*;
use vstd::string::StringSliceAdditionalSpecFns;

use crate::error::{Error, OsError, EINTR};
use crate::terminfo::{self, capability_view, is_vt_compatible, reset_strings, spec_is_vt_compatible, spec_reset_strings, ResetStrings, ResetStringsView};

verus! {

// ---------------------------------------------------------------------------
// Fixed sequences
// ---------------------------------------------------------------------------

/// The cleanup written first to a VT-compatible terminal: a string
/// terminator that ends a stray OSC, DCS, APC or PM string, then synchronized
/// output off, every mouse tracking and encoding mode, focus reporting,
/// bracketed paste, in-band size and state reports and Kitty paste events
/// off, then the Kitty keyboard stack cleared, the Kitty keyboard flags reset
/// and xterm `modifyOtherKeys` off.
pub open spec fn vt_cleanup_bytes() -> Seq<u8> {
    "\x1b]\x1b\\\
     \x1b[?2026l\
     \x1b[?9;1000;1002;1003;1004;1005;1006;1015;1016;2004;2031;2033;2048;5522l\
     \x1b[<8u\
     \x1b[=0u\
     \x1b[>4;0m".spec_bytes()
}

/// The fixed reset for a VT-compatible terminal without a terminfo entry: a
/// string terminator, then RIS (full reset), DECSTR (soft reset), 80 columns
/// and jump scrolling, insert mode off, the normal keypad, ASCII in G0,
/// autowrap on, the default rendition and a visible cursor.
pub open spec fn vt_fallback_bytes() -> Seq<u8> {
    "\x1b]\x1b\\\
     \x1bc\
     \x1b[!p\
     \x1b[?3;4l\
     \x1b[4l\
     \x1b>\
     \x1b(B\
     \x1b[?7h\
     \x1b[0m\
     \x1b[?25h".spec_bytes()
}

/// The cleanup sequence for VT-compatible terminals.
pub fn vt_cleanup_sequence() -> (r: &'static [u8])
    ensures
        r@ == vt_cleanup_bytes(),
{
    "\x1b]\x1b\\\
     \x1b[?2026l\
     \x1b[?9;1000;1002;1003;1004;1005;1006;1015;1016;2004;2031;2033;2048;5522l\
     \x1b[<8u\
     \x1b[=0u\
     \x1b[>4;0m".as_bytes()
}

/// The fixed reset sequence for VT-compatible terminals.
pub fn vt_fallback_sequence() -> (r: &'static [u8])
    ensures
        r@ == vt_fallback_bytes(),
{
    "\x1b]\x1b\\\
     \x1bc\
     \x1b[!p\
     \x1b[?3;4l\
     \x1b[4l\
     \x1b>\
     \x1b(B\
     \x1b[?7h\
     \x1b[0m\
     \x1b[?25h".as_bytes()
}

// ---------------------------------------------------------------------------
// Terminfo reset strings
// ---------------------------------------------------------------------------

/// The reset string if there is one, else the initialization string.
pub open spec fn preferred(reset: Option<Seq<u8>>, init: Option<Seq<u8>>) -> Option<Seq<u8>> {
    match reset {
        Some(bytes) => Some(bytes),
        None => init,
    }
}

/// The write for an optional string: one, or none.
pub open spec fn write_of(bytes: Option<Seq<u8>>) -> Seq<Seq<u8>> {
    match bytes {
        Some(b) => seq![b],
        None => Seq::empty(),
    }
}

/// The writes that reset a terminal from its terminfo strings: `rs1` (or
/// `is1`), `rs2` (or `is2`), `clear_margins`, then `rs3` (or `is3`); the
/// fixed VT reset when none of them exists and the terminal is VT-compatible.
pub open spec fn spec_reset_sequence(strings: ResetStringsView, vt_compatible: bool) -> Seq<Seq<u8>> {
    let writes = write_of(preferred(strings.rs1, strings.is1)) + write_of(preferred(strings.rs2, strings.is2))
        + write_of(strings.clear_margins) + write_of(preferred(strings.rs3, strings.is3));
    if writes.len() == 0 && vt_compatible {
        seq![vt_fallback_bytes()]
    } else {
        writes
    }
}

/// The reset writes, stated position by position: one write for each of the
/// pairs `rs1`/`is1`, `rs2`/`is2`, `rs3`/`is3` that has a string, and one for
/// `clear_margins` when present, in that order (`clear_margins` before the
/// third pair). A pair's write is its reset string when present, its
/// initialization string only otherwise. With no write at all, a
/// VT-compatible terminal gets the fixed VT reset and another gets nothing.
pub proof fn lemma_reset_writes_in_capability_order(s: ResetStringsView, vt_compatible: bool)
    ensures
        ({
            let w = spec_reset_sequence(s, vt_compatible);
            let first = s.rs1 is Some || s.is1 is Some;
            let second = s.rs2 is Some || s.is2 is Some;
            let margins = s.clear_margins is Some;
            let third = s.rs3 is Some || s.is3 is Some;
            let at_second = if first { 1int } else { 0int };
            let at_margins = at_second + if second { 1int } else { 0int };
            let at_third = at_margins + if margins { 1int } else { 0int };
            let count = at_third + if third { 1int } else { 0int };
            &&& count > 0 ==> w.len() == count
            &&& count == 0 && vt_compatible ==> w == seq![vt_fallback_bytes()]
            &&& count == 0 && !vt_compatible ==> w.len() == 0
            &&& s.rs1 is Some ==> w[0] == s.rs1->Some_0
            &&& s.rs1 is None && s.is1 is Some ==> w[0] == s.is1->Some_0
            &&& s.rs2 is Some ==> w[at_second] == s.rs2->Some_0
            &&& s.rs2 is None && s.is2 is Some ==> w[at_second] == s.is2->Some_0
            &&& margins ==> w[at_margins] == s.clear_margins->Some_0
            &&& s.rs3 is Some ==> w[at_third] == s.rs3->Some_0
            &&& s.rs3 is None && s.is3 is Some ==> w[at_third] == s.is3->Some_0
        }),
{
    let w1 = write_of(preferred(s.rs1, s.is1));
    let w2 = write_of(preferred(s.rs2, s.is2));
    let w3 = write_of(s.clear_margins);
    let w4 = write_of(preferred(s.rs3, s.is3));
    let all = w1 + w2 + w3 + w4;
    assert(all.len() == w1.len() + w2.len() + w3.len() + w4.len());
    if w1.len() > 0 {
        assert(all[0] == w1[0]);
    }
    if w2.len() > 0 {
        assert(all[w1.len() as int] == w2[0]);
    }
    if w3.len() > 0 {
        assert(all[(w1.len() + w2.len()) as int] == w3[0]);
    }
    if w4.len() > 0 {
        assert(all[(w1.len() + w2.len() + w3.len()) as int] == w4[0]);
    }
}

/// The byte strings held in a list of vectors.
pub open spec fn writes_view(writes: Seq<Vec<u8>>) -> Seq<Seq<u8>> {
    writes.map_values(|w: Vec<u8>| w@)
}

fn cow_to_vec(bytes: &Cow<'_, [u8]>) -> (r: Vec<u8>)
    ensures
        r@ == bytes@,
{
    match bytes {
        Cow::Borrowed(b) => vstd::slice::slice_to_vec(b),
        Cow::Owned(v) => vstd::slice::slice_to_vec(v.as_slice()),
    }
}

/// Chooses the reset string, or else the initialization string.
pub fn pick_capability(reset: &Option<Cow<'_, [u8]>>, init: &Option<Cow<'_, [u8]>>) -> (r: Option<Vec<u8>>)
    ensures
        match (r, preferred(capability_view(*reset), capability_view(*init))) {
            (Some(got), Some(want)) => got@ == want,
            (None, None) => true,
            _ => false,
        },
{
    match reset {
        Some(bytes) => Some(cow_to_vec(bytes)),
        None => match init {
            Some(bytes) => Some(cow_to_vec(bytes)),
            None => None,
        },
    }
}

/// The writes, in order, that reset a terminal from its terminfo strings.
pub fn reset_sequence(strings: &ResetStrings<'_>, vt_compatible: bool) -> (r: Vec<Vec<u8>>)
    ensures
        writes_view(r@) == spec_reset_sequence(strings@, vt_compatible),
{
    let ghost view = strings@;
    let mut writes: Vec<Vec<u8>> = Vec::new();
    let mut sent = false;
    let first = pick_capability(&strings.rs1, &strings.is1);
    let second = pick_capability(&strings.rs2, &strings.is2);
    let margins = pick_capability(&strings.clear_margins, &None);
    let third = pick_capability(&strings.rs3, &strings.is3);
    let ghost w1 = write_of(preferred(view.rs1, view.is1));
    let ghost w2 = write_of(preferred(view.rs2, view.is2));
    let ghost w3 = write_of(view.clear_margins);
    let ghost w4 = write_of(preferred(view.rs3, view.is3));
    if let Some(bytes) = first {
        writes.push(bytes);
        sent = true;
    }
    assert(writes_view(writes@) =~= w1);
    let ghost after1 = writes_view(writes@);
    if let Some(bytes) = second {
        writes.push(bytes);
        sent = true;
    }
    assert(writes_view(writes@) =~= after1 + w2);
    let ghost after2 = writes_view(writes@);
    if let Some(bytes) = margins {
        writes.push(bytes);
        sent = true;
    }
    assert(writes_view(writes@) =~= after2 + w3);
    let ghost after3 = writes_view(writes@);
    if let Some(bytes) = third {
        writes.push(bytes);
        sent = true;
    }
    assert(writes_view(writes@) =~= after3 + w4);
    assert(writes_view(writes@) == w1 + w2 + w3 + w4);
    assert(sent == (writes@.len() > 0));
    if !sent && vt_compatible {
        writes.push(vstd::slice::slice_to_vec(vt_fallback_sequence()));
        assert(writes_view(writes@) =~= seq![vt_fallback_bytes()]);
    }
    writes
}

// ---------------------------------------------------------------------------
// Errors
// ---------------------------------------------------------------------------

/// The reset error that a terminfo error stands for.
pub open spec fn spec_map_terminfo_error(error: terminfo::Error) -> Error {
    match error {
        terminfo::Error::InvalidTermName => Error::InvalidTermName,
        terminfo::Error::NotFound => Error::TerminfoNotFound,
        terminfo::Error::Unreadable => Error::TerminfoUnreadable,
        _ => Error::InvalidTerminfo,
    }
}

/// Maps a terminfo error to the reset error that reports it.
pub fn map_terminfo_error(error: terminfo::Error) -> (r: Error)
    ensures
        r == spec_map_terminfo_error(error),
{
    match error {
        terminfo::Error::InvalidTermName => Error::InvalidTermName,
        terminfo::Error::NotFound => Error::TerminfoNotFound,
        terminfo::Error::Unreadable => Error::TerminfoUnreadable,
        terminfo::Error::TooSmall
        | terminfo::Error::BadMagic
        | terminfo::Error::Truncated
        | terminfo::Error::BadStringOffset
        | terminfo::Error::UnterminatedString
        | terminfo::Error::TooLarge => Error::InvalidTerminfo,
    }
}

// ---------------------------------------------------------------------------
// The display reset
// ---------------------------------------------------------------------------

/// How the display reset starts for the value of `TERM`: whether the
/// terminal is VT-compatible, and the writes that go out before its terminfo
/// entry is loaded.
pub fn begin_display_reset(term: Option<&[u8]>) -> (r: Result<(bool, Vec<Vec<u8>>), Error>)
    ensures
        term is None ==> r == Err::<(bool, Vec<Vec<u8>>), Error>(Error::TermNotSet),
        term matches Some(t) ==> (r matches Ok((vt, writes)) && vt == spec_is_vt_compatible(t@)
            && writes_view(writes@) == (if vt {
            seq![vt_cleanup_bytes()]
        } else {
            Seq::<Seq<u8>>::empty()
        })),
{
    let term = match term {
        Some(t) => t,
        None => return Err(Error::TermNotSet),
    };
    let vt_compatible = is_vt_compatible(term);
    let mut writes: Vec<Vec<u8>> = Vec::new();
    if vt_compatible {
        writes.push(vstd::slice::slice_to_vec(vt_cleanup_sequence()));
    }
    assert(writes_view(writes@) =~= (if vt_compatible {
        seq![vt_cleanup_bytes()]
    } else {
        Seq::<Seq<u8>>::empty()
    }));
    Ok((vt_compatible, writes))
}

/// The bytes of a loaded entry, or why none was loaded.
pub open spec fn loaded_view(loaded: Result<Vec<u8>, terminfo::Error>) -> Result<Seq<u8>, terminfo::Error> {
    match loaded {
        Ok(data) => Ok(data@),
        Err(e) => Err(e),
    }
}

/// The writes that finish the display reset, given what loading the terminfo
/// entry gave: the entry's reset strings; the fixed VT reset when a
/// VT-compatible terminal has no entry; otherwise the error.
pub open spec fn spec_finish_display_reset(
    vt_compatible: bool,
    loaded: Result<Seq<u8>, terminfo::Error>,
) -> Result<Seq<Seq<u8>>, Error> {
    match loaded {
        Ok(data) => match spec_reset_strings(data) {
            Ok(strings) => Ok(spec_reset_sequence(strings, vt_compatible)),
            Err(e) => Err(spec_map_terminfo_error(e)),
        },
        Err(terminfo::Error::NotFound) => if vt_compatible {
            Ok(seq![vt_fallback_bytes()])
        } else {
            Err(Error::TerminfoNotFound)
        },
        Err(e) => Err(spec_map_terminfo_error(e)),
    }
}

/// The writes, in order, that finish the display reset.
pub fn finish_display_reset(vt_compatible: bool, loaded: Result<Vec<u8>, terminfo::Error>) -> (r: Result<
    Vec<Vec<u8>>,
    Error,
>)
    ensures
        match (r, spec_finish_display_reset(vt_compatible, loaded_view(loaded))) {
            (Ok(got), Ok(want)) => writes_view(got@) == want,
            (Err(e), Err(f)) => e == f,
            _ => false,
        },
{
    match loaded {
        Ok(data) => match reset_strings(data.as_slice()) {
            Ok(strings) => Ok(reset_sequence(&strings, vt_compatible)),
            Err(error) => Err(map_terminfo_error(error)),
        },
        Err(terminfo::Error::NotFound) => {
            if vt_compatible {
                let writes = vec![vstd::slice::slice_to_vec(vt_fallback_sequence())];
                assert(writes_view(writes@) =~= seq![vt_fallback_bytes()]);
                Ok(writes)
            } else {
                Err(Error::TerminfoNotFound)
            }
        },
        Err(error) => Err(map_terminfo_error(error)),
    }
}

// ---------------------------------------------------------------------------
// Writing
// ---------------------------------------------------------------------------

/// The outcome of one `write` to the terminal.
#[derive(Clone, Copy, Debug)]
pub enum WriteEvent {
    /// The call wrote this many bytes.
    Wrote(usize),
    /// A signal interrupted the call before it wrote anything.
    Interrupted,
    /// The call failed with this OS error.
    Failed(OsError),
}

/// Tells the outcome of a `write` call apart: the bytes it wrote, or the OS
/// error it failed with, `EINTR` meaning an interrupted call.
pub fn classify_write(result: Result<usize, OsError>) -> (event: WriteEvent)
    ensures
        result matches Ok(n) ==> event == WriteEvent::Wrote(n),
        result matches Err(error) ==> (event == WriteEvent::Interrupted <==> error@ == EINTR),
        result matches Err(error) ==> (error@ != EINTR ==> event == WriteEvent::Failed(error)),
{
    match result {
        Ok(n) => WriteEvent::Wrote(n),
        Err(error) => {
            if error.code() == EINTR {
                WriteEvent::Interrupted
            } else {
                WriteEvent::Failed(error)
            }
        },
    }
}

/// How many bytes remain to be written after a write of some of the
/// `remaining` bytes: a write of zero bytes is an error, as is a failed call;
/// an interrupted call is tried again.
pub fn advance_write(remaining: usize, event: WriteEvent) -> (r: Result<usize, Error>)
    requires
        event matches WriteEvent::Wrote(n) ==> n <= remaining,
    ensures
        event == WriteEvent::Wrote(0) ==> r == Err::<usize, Error>(Error::TerminalWriteMadeNoProgress),
        event matches WriteEvent::Wrote(n) ==> (n > 0 ==> r == Ok::<usize, Error>((remaining - n) as usize)),
        event == WriteEvent::Interrupted ==> r == Ok::<usize, Error>(remaining),
        event matches WriteEvent::Failed(e) ==> r == Err::<usize, Error>(Error::TerminalWrite(e)),
{
    match event {
        WriteEvent::Wrote(0) => Err(Error::TerminalWriteMadeNoProgress),
        WriteEvent::Wrote(n) => Ok(remaining - n),
        WriteEvent::Interrupted => Ok(remaining),
        WriteEvent::Failed(error) => Err(Error::TerminalWrite(error)),
    }
}

} // verus!
