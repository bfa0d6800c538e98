use vstd::prelude::*;

use crate::state_machine::RecordingState;

verus! {

/// The stable status keyword of a recording state.
pub fn recording_status_key(state: RecordingState) -> (r: &'static str)
    ensures
        state == RecordingState::Idle ==> r@ == "idle"@,
        state == RecordingState::Recording ==> r@ == "recording"@,
        state == RecordingState::Paused ==> r@ == "paused"@,
        state == RecordingState::Stopped ==> r@ == "stopped"@,
        state == RecordingState::Error ==> r@ == "error"@,
{
    match state {
        RecordingState::Idle => "idle",
        RecordingState::Recording => "recording",
        RecordingState::Paused => "paused",
        RecordingState::Stopped => "stopped",
        RecordingState::Error => "error",
    }
}

/// What the background supervisor does on one poll of a live
/// session.
#[derive(Debug, Clone, Copy, PartialEq, Eq, Structural)]
pub enum TickAction {
    /// The session is gone from the registry: the loop ends.
    StopPolling,
    /// The process exited on its own: tear the session down and
    /// emit a terminal error status.
    TearDown,
    /// Emit a periodic status event and keep polling.
    EmitStatus,
    /// Emit a status event and end the loop (the session reached a
    /// terminal state).
    EmitStatusAndStop,
}

/// Decide one supervisor tick from the session's registry presence,
/// its state, and whether the encoder process was found to have
/// exited on its own. A crashed process forces teardown regardless
/// of the session state.
pub fn status_tick(session_state: Option<RecordingState>, process_exited: bool) -> (r: TickAction)
    ensures
        session_state is None ==> r == TickAction::StopPolling,
        (session_state is Some && process_exited) ==> r == TickAction::TearDown,
        (session_state matches Some(s) && !process_exited && (s == RecordingState::Stopped || s
            == RecordingState::Error)) ==> r == TickAction::EmitStatusAndStop,
        (session_state matches Some(s) && !process_exited && s != RecordingState::Stopped && s
            != RecordingState::Error) ==> r == TickAction::EmitStatus,
{
    match session_state {
        None => TickAction::StopPolling,
        Some(state) => {
            if process_exited {
                TickAction::TearDown
            } else if state == RecordingState::Stopped || state == RecordingState::Error {
                TickAction::EmitStatusAndStop
            } else {
                TickAction::EmitStatus
            }
        },
    }
}

/// The capture-source label shown in status events.
pub fn capture_source_label(mode: crate::models::CaptureMode) -> (r: &'static str)
    ensures
        mode == crate::models::CaptureMode::Fullscreen ==> r@ == "fullscreen"@,
        mode == crate::models::CaptureMode::Window ==> r@ == "window"@,
{
    match mode {
        crate::models::CaptureMode::Fullscreen => "fullscreen",
        crate::models::CaptureMode::Window => "window",
    }
}

} // verus!
