use ree::reset::{reset_start, reset_step, ResetAction, ResetEvent};
use ree::tty::{repair_terminal_mode, ControlCharacters, TerminalMode};
use ree::error::OsError;
use ree::Error;

fn os(code: i32) -> OsError {
    OsError::new(code).unwrap()
}

fn mode() -> TerminalMode {
    TerminalMode {
        input_modes: 0,
        output_modes: 0,
        control_modes: 0,
        local_modes: 0,
        control_characters: ControlCharacters {
            eof: 0,
            erase: 0,
            werase: 0,
            kill: 0,
            reprint: 0,
            intr: 0,
            quit: 0,
            susp: 0,
            start: 0,
            stop: 0,
            lnext: 0,
            discard: 0,
            dsusp: None,
            status: None,
            disabled: 0,
        },
    }
}

#[test]
fn a_successful_reset_runs_every_step_in_order() {
    assert!(matches!(reset_start(), ResetAction::FindTerminal));
    assert!(matches!(reset_step(ResetEvent::TerminalFound(true)), ResetAction::ReadForeground));
    assert!(matches!(
        reset_step(ResetEvent::ForegroundRead { foreground: Ok(42), own_group: 42 }),
        ResetAction::ResumeOutput
    ));
    assert!(matches!(reset_step(ResetEvent::OutputResumed(Ok(()))), ResetAction::ReadMode));
    let mut repaired = mode();
    repair_terminal_mode(&mut repaired);
    match reset_step(ResetEvent::ModeRead(Ok(mode()))) {
        ResetAction::ApplyMode(applied) => assert_eq!(applied, repaired),
        other => panic!("unexpected action {other:?}"),
    }
    assert!(matches!(reset_step(ResetEvent::ModeApplied(Ok(()))), ResetAction::ResetDisplay));
    assert!(matches!(reset_step(ResetEvent::DisplayReset(Ok(()))), ResetAction::Finish(Ok(()))));
}

#[test]
fn a_background_job_stops_silently() {
    match reset_step(ResetEvent::ForegroundRead { foreground: Ok(7), own_group: 42 }) {
        ResetAction::Finish(Err(error)) => {
            assert!(matches!(error, Error::NotForegroundProcess));
            assert!(error.requires_silent_exit());
        }
        other => panic!("unexpected action {other:?}"),
    }
    match reset_step(ResetEvent::ForegroundRead { foreground: Err(os(25)), own_group: 42 }) {
        ResetAction::Finish(Err(error)) => {
            assert!(matches!(error, Error::GetForegroundProcess(_)));
            assert!(error.requires_silent_exit());
        }
        other => panic!("unexpected action {other:?}"),
    }
}

#[test]
fn failed_steps_stop_with_their_error() {
    assert!(matches!(
        reset_step(ResetEvent::TerminalFound(false)),
        ResetAction::Finish(Err(Error::NoTerminal))
    ));
    assert!(matches!(
        reset_step(ResetEvent::OutputResumed(Err(os(5)))),
        ResetAction::Finish(Err(Error::ResumeOutput(_)))
    ));
    assert!(matches!(
        reset_step(ResetEvent::ModeRead(Err(os(5)))),
        ResetAction::Finish(Err(Error::GetTerminalState(_)))
    ));
    assert!(matches!(
        reset_step(ResetEvent::ModeApplied(Err(os(5)))),
        ResetAction::Finish(Err(Error::SetTerminalState(_)))
    ));
    assert!(matches!(
        reset_step(ResetEvent::DisplayReset(Err(Error::TermNotSet))),
        ResetAction::Finish(Err(Error::TermNotSet))
    ));
}
