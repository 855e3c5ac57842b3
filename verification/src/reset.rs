//! The order of the terminal reset, as a state machine.
//!
//! The caller performs each [`ResetAction`] (a system call or the display
//! reset) and hands back what it gave as a [`ResetEvent`]; [`reset_step`]
//! decides what comes next.

use vstd::prelude::*;

use crate::error::{Error, OsError};
use crate::tty::{repair_terminal_mode, repaired_mode, TerminalMode};

verus! {

/// What the caller does next.
#[derive(Clone, Copy, Debug)]
pub enum ResetAction {
    /// Find a terminal on standard error, output, input or `/dev/tty`.
    FindTerminal,
    /// Read the terminal's foreground process group and the process's own.
    ReadForeground,
    /// Resume terminal output that was stopped.
    ResumeOutput,
    /// Read the terminal driver state.
    ReadMode,
    /// Apply this driver state, discarding unread input.
    ApplyMode(TerminalMode),
    /// Reset the terminal emulator.
    ResetDisplay,
    /// Stop with this result.
    Finish(Result<(), Error>),
}

/// What performing the last action gave.
#[derive(Clone, Copy, Debug)]
pub enum ResetEvent {
    /// Whether a terminal was found.
    TerminalFound(bool),
    /// The terminal's foreground process group, or the OS error that reading
    /// it gave, and the process's own process group.
    ForegroundRead { foreground: Result<i32, OsError>, own_group: i32 },
    /// Whether output was resumed.
    OutputResumed(Result<(), OsError>),
    /// The driver state that was read.
    ModeRead(Result<TerminalMode, OsError>),
    /// Whether the driver state was applied.
    ModeApplied(Result<(), OsError>),
    /// How the display reset ended.
    DisplayReset(Result<(), Error>),
}

/// The first action of a reset.
pub fn reset_start() -> (a: ResetAction)
    ensures
        a == ResetAction::FindTerminal,
{
    ResetAction::FindTerminal
}

/// The action that follows an event.
pub open spec fn spec_reset_step(event: ResetEvent) -> ResetAction {
    match event {
        ResetEvent::TerminalFound(found) => if found {
            ResetAction::ReadForeground
        } else {
            ResetAction::Finish(Err(Error::NoTerminal))
        },
        ResetEvent::ForegroundRead { foreground, own_group } => match foreground {
            Err(e) => ResetAction::Finish(Err(Error::GetForegroundProcess(e))),
            Ok(group) => if group == own_group {
                ResetAction::ResumeOutput
            } else {
                ResetAction::Finish(Err(Error::NotForegroundProcess))
            },
        },
        ResetEvent::OutputResumed(result) => match result {
            Err(e) => ResetAction::Finish(Err(Error::ResumeOutput(e))),
            Ok(()) => ResetAction::ReadMode,
        },
        ResetEvent::ModeRead(result) => match result {
            Err(e) => ResetAction::Finish(Err(Error::GetTerminalState(e))),
            Ok(mode) => ResetAction::ApplyMode(repaired_mode(mode)),
        },
        ResetEvent::ModeApplied(result) => match result {
            Err(e) => ResetAction::Finish(Err(Error::SetTerminalState(e))),
            Ok(()) => ResetAction::ResetDisplay,
        },
        ResetEvent::DisplayReset(result) => ResetAction::Finish(result),
    }
}

/// Decides what the reset does after an event: stop on a missing terminal, a
/// background process group or a failed call; otherwise go on to the next
/// step, repairing the driver state that was read.
pub fn reset_step(event: ResetEvent) -> (a: ResetAction)
    ensures
        a == spec_reset_step(event),
{
    match event {
        ResetEvent::TerminalFound(found) => {
            if found {
                ResetAction::ReadForeground
            } else {
                ResetAction::Finish(Err(Error::NoTerminal))
            }
        },
        ResetEvent::ForegroundRead { foreground, own_group } => match foreground {
            Err(e) => ResetAction::Finish(Err(Error::GetForegroundProcess(e))),
            Ok(group) => {
                if group == own_group {
                    ResetAction::ResumeOutput
                } else {
                    ResetAction::Finish(Err(Error::NotForegroundProcess))
                }
            },
        },
        ResetEvent::OutputResumed(result) => match result {
            Err(e) => ResetAction::Finish(Err(Error::ResumeOutput(e))),
            Ok(()) => ResetAction::ReadMode,
        },
        ResetEvent::ModeRead(result) => match result {
            Err(e) => ResetAction::Finish(Err(Error::GetTerminalState(e))),
            Ok(mode) => {
                let mut mode = mode;
                repair_terminal_mode(&mut mode);
                ResetAction::ApplyMode(mode)
            },
        },
        ResetEvent::ModeApplied(result) => match result {
            Err(e) => ResetAction::Finish(Err(Error::SetTerminalState(e))),
            Ok(()) => ResetAction::ResetDisplay,
        },
        ResetEvent::DisplayReset(result) => ResetAction::Finish(result),
    }
}

// ---------------------------------------------------------------------------
// Runs
// ---------------------------------------------------------------------------

/// An action that changes the terminal.
pub open spec fn changes_terminal(action: ResetAction) -> bool {
    action is ResumeOutput || action is ApplyMode || action is ResetDisplay
}

/// An event that answers an action: the outcome of performing it.
pub open spec fn answers(action: ResetAction, event: ResetEvent) -> bool {
    match action {
        ResetAction::FindTerminal => event is TerminalFound,
        ResetAction::ReadForeground => event is ForegroundRead,
        ResetAction::ResumeOutput => event is OutputResumed,
        ResetAction::ReadMode => event is ModeRead,
        ResetAction::ApplyMode(_) => event is ModeApplied,
        ResetAction::ResetDisplay => event is DisplayReset,
        ResetAction::Finish(_) => false,
    }
}

/// The actions of a run in which the caller hands back `events` in order.
pub open spec fn run_actions(events: Seq<ResetEvent>) -> Seq<ResetAction> {
    seq![ResetAction::FindTerminal] + events.map_values(|e: ResetEvent| spec_reset_step(e))
}

/// A run in which each event is the outcome of the action before it.
pub open spec fn is_run(events: Seq<ResetEvent>) -> bool {
    forall|i: int| 0 <= i < events.len() ==> answers(#[trigger] run_actions(events)[i], events[i])
}

/// The foreground check passed: the terminal's foreground process group is
/// the process's own.
pub open spec fn is_foreground(event: ResetEvent) -> bool {
    event matches ResetEvent::ForegroundRead { foreground: Ok(group), own_group } && group == own_group
}

/// A reset changes the terminal only after it has found that the process is
/// in the terminal's foreground process group.
pub proof fn lemma_foreground_before_change(events: Seq<ResetEvent>, k: int)
    requires
        is_run(events),
        0 <= k <= events.len(),
        changes_terminal(run_actions(events)[k]),
    ensures
        exists|j: int| 0 <= j < k && is_foreground(#[trigger] events[j]),
{
    let actions = run_actions(events);
    assert(k > 0);
    assert(actions[k] == spec_reset_step(events[k - 1]));
    if actions[k] is ResumeOutput {
        assert(is_foreground(events[k - 1]));
    } else {
        assert(k >= 2);
        assert(answers(actions[k - 1], events[k - 1]));
        assert(actions[k - 1] == spec_reset_step(events[k - 2]));
        if actions[k] is ApplyMode {
            assert(answers(actions[k - 2], events[k - 2]));
            assert(actions[k - 2] == spec_reset_step(events[k - 3]));
            assert(is_foreground(events[k - 3]));
        } else {
            assert(answers(actions[k - 2], events[k - 2]));
            assert(actions[k - 2] == spec_reset_step(events[k - 3]));
            assert(answers(actions[k - 3], events[k - 3]));
            assert(actions[k - 3] == spec_reset_step(events[k - 4]));
            assert(is_foreground(events[k - 4]));
        }
    }
}

/// The steps of a reset: each successful call leads to the next one, in the
/// order find the terminal, check the foreground group, resume output, read
/// the driver state, apply it repaired, reset the display, finish; each
/// failed call stops the reset with the error that names it.
pub proof fn lemma_reset_order(group: i32, mode: TerminalMode, error: OsError, display: Result<(), Error>)
    ensures
        spec_reset_step(ResetEvent::TerminalFound(true)) == ResetAction::ReadForeground,
        spec_reset_step(ResetEvent::TerminalFound(false)) == ResetAction::Finish(Err(Error::NoTerminal)),
        spec_reset_step(ResetEvent::ForegroundRead { foreground: Ok(group), own_group: group })
            == ResetAction::ResumeOutput,
        spec_reset_step(ResetEvent::OutputResumed(Ok(()))) == ResetAction::ReadMode,
        spec_reset_step(ResetEvent::OutputResumed(Err(error))) == ResetAction::Finish(
            Err(Error::ResumeOutput(error)),
        ),
        spec_reset_step(ResetEvent::ModeRead(Ok(mode))) == ResetAction::ApplyMode(repaired_mode(mode)),
        spec_reset_step(ResetEvent::ModeRead(Err(error))) == ResetAction::Finish(
            Err(Error::GetTerminalState(error)),
        ),
        spec_reset_step(ResetEvent::ModeApplied(Ok(()))) == ResetAction::ResetDisplay,
        spec_reset_step(ResetEvent::ModeApplied(Err(error))) == ResetAction::Finish(
            Err(Error::SetTerminalState(error)),
        ),
        spec_reset_step(ResetEvent::DisplayReset(display)) == ResetAction::Finish(display),
{
}

/// A reset from a background process group, or one that cannot read the
/// foreground group, stops with an error that asks for a silent exit.
pub proof fn lemma_background_exits_silently(foreground: Result<i32, OsError>, own_group: i32)
    requires
        !(foreground matches Ok(group) && group == own_group),
    ensures
        spec_reset_step(ResetEvent::ForegroundRead { foreground, own_group }) matches ResetAction::Finish(
            Err(e),
        ) && e.spec_requires_silent_exit(),
{
}

} // verus!
