use vstd::prelude::*;

use crate::errors::AppError;

verus! {

/// Lifecycle of one capture session.
#[derive(Debug, Clone, Copy, PartialEq, Eq, Structural)]
pub enum RecordingState {
    Idle,
    Recording,
    Paused,
    Stopped,
    Error,
}

/// Lifecycle of one export (transcode) task.
#[derive(Debug, Clone, Copy, PartialEq, Eq, Structural)]
pub enum ExportState {
    Queued,
    Running,
    Fallback,
    Success,
    Failed,
}

/// Guarded state machine for a capture session:
/// `Idle -> Recording -> {Paused <-> Recording} -> Stopped`.
#[derive(Debug, Clone)]
pub struct RecordingMachine {
    pub state: RecordingState,
}

impl RecordingMachine {
    pub fn new() -> (r: Self)
        ensures
            r.state == RecordingState::Idle,
    {
        Self { state: RecordingState::Idle }
    }

    pub fn state(&self) -> (r: RecordingState)
        ensures
            r == self.state,
    {
        self.state
    }

    /// Start is allowed only from `Idle`; any other state is rejected
    /// and left unchanged.
    pub fn start(&mut self) -> (r: Result<(), AppError>)
        ensures
            old(self).state == RecordingState::Idle ==> r is Ok && final(self).state
                == RecordingState::Recording,
            old(self).state != RecordingState::Idle ==> (r matches Err(e) && e.code@
                == "INVALID_RECORDING_STATE"@) && final(self).state == old(self).state,
    {
        if self.state != RecordingState::Idle {
            return Err(
                AppError::new(
                    "INVALID_RECORDING_STATE",
                    "only idle state can start recording",
                    Some("wait for current session to stop first".to_owned()),
                ),
            );
        }
        self.state = RecordingState::Recording;
        Ok(())
    }

    /// Pause is allowed only from `Recording`.
    pub fn pause(&mut self) -> (r: Result<(), AppError>)
        ensures
            old(self).state == RecordingState::Recording ==> r is Ok && final(self).state
                == RecordingState::Paused,
            old(self).state != RecordingState::Recording ==> (r matches Err(e) && e.code@
                == "INVALID_RECORDING_STATE"@) && final(self).state == old(self).state,
    {
        if self.state != RecordingState::Recording {
            return Err(
                AppError::new(
                    "INVALID_RECORDING_STATE",
                    "only recording state can be paused",
                    Some("check whether recording has started".to_owned()),
                ),
            );
        }
        self.state = RecordingState::Paused;
        Ok(())
    }

    /// Resume is allowed only from `Paused`.
    pub fn resume(&mut self) -> (r: Result<(), AppError>)
        ensures
            old(self).state == RecordingState::Paused ==> r is Ok && final(self).state
                == RecordingState::Recording,
            old(self).state != RecordingState::Paused ==> (r matches Err(e) && e.code@
                == "INVALID_RECORDING_STATE"@) && final(self).state == old(self).state,
    {
        if self.state != RecordingState::Paused {
            return Err(
                AppError::new(
                    "INVALID_RECORDING_STATE",
                    "only paused state can resume",
                    Some("pause recording before resume".to_owned()),
                ),
            );
        }
        self.state = RecordingState::Recording;
        Ok(())
    }

    /// Stop is allowed from `Recording` or `Paused`.
    pub fn stop(&mut self) -> (r: Result<(), AppError>)
        ensures
            (old(self).state == RecordingState::Recording || old(self).state
                == RecordingState::Paused) ==> r is Ok && final(self).state
                == RecordingState::Stopped,
            (old(self).state != RecordingState::Recording && old(self).state
                != RecordingState::Paused) ==> (r matches Err(e) && e.code@
                == "INVALID_RECORDING_STATE"@) && final(self).state == old(self).state,
    {
        if self.state != RecordingState::Recording && self.state != RecordingState::Paused {
            return Err(
                AppError::new(
                    "INVALID_RECORDING_STATE",
                    "only recording or paused state can stop",
                    Some("start recording before stop".to_owned()),
                ),
            );
        }
        self.state = RecordingState::Stopped;
        Ok(())
    }
}

impl Default for RecordingMachine {
    fn default() -> (r: Self)
        ensures
            r.state == RecordingState::Idle,
    {
        Self::new()
    }
}

/// Guarded state machine for an export task:
/// `Queued -> Running -> {Fallback} -> Success`, with `Failed`
/// reachable from every state but `Success`.
#[derive(Debug, Clone)]
pub struct ExportMachine {
    pub state: ExportState,
}

impl ExportMachine {
    pub fn new() -> (r: Self)
        ensures
            r.state == ExportState::Queued,
    {
        Self { state: ExportState::Queued }
    }

    pub fn state(&self) -> (r: ExportState)
        ensures
            r == self.state,
    {
        self.state
    }

    /// A task starts running only from `Queued`.
    pub fn start(&mut self) -> (r: Result<(), AppError>)
        ensures
            old(self).state == ExportState::Queued ==> r is Ok && final(self).state
                == ExportState::Running,
            old(self).state != ExportState::Queued ==> (r matches Err(e) && e.code@
                == "INVALID_EXPORT_STATE"@) && final(self).state == old(self).state,
    {
        if self.state != ExportState::Queued {
            return Err(AppError::new("INVALID_EXPORT_STATE", "only queued task can start", None));
        }
        self.state = ExportState::Running;
        Ok(())
    }

    /// Switching to the software encoder is allowed only while `Running`.
    pub fn fallback(&mut self) -> (r: Result<(), AppError>)
        ensures
            old(self).state == ExportState::Running ==> r is Ok && final(self).state
                == ExportState::Fallback,
            old(self).state != ExportState::Running ==> (r matches Err(e) && e.code@
                == "INVALID_EXPORT_STATE"@) && final(self).state == old(self).state,
    {
        if self.state != ExportState::Running {
            return Err(
                AppError::new("INVALID_EXPORT_STATE", "fallback only allowed while running", None),
            );
        }
        self.state = ExportState::Fallback;
        Ok(())
    }

    /// Success is reachable from `Running` or `Fallback`.
    pub fn success(&mut self) -> (r: Result<(), AppError>)
        ensures
            (old(self).state == ExportState::Running || old(self).state == ExportState::Fallback)
                ==> r is Ok && final(self).state == ExportState::Success,
            (old(self).state != ExportState::Running && old(self).state != ExportState::Fallback)
                ==> (r matches Err(e) && e.code@ == "INVALID_EXPORT_STATE"@) && final(self).state
                == old(self).state,
    {
        if self.state != ExportState::Running && self.state != ExportState::Fallback {
            return Err(
                AppError::new(
                    "INVALID_EXPORT_STATE",
                    "success only allowed from running or fallback",
                    None,
                ),
            );
        }
        self.state = ExportState::Success;
        Ok(())
    }

    /// An already-successful task can never be failed; every other state
    /// may transition to `Failed`.
    pub fn fail(&mut self) -> (r: Result<(), AppError>)
        ensures
            old(self).state == ExportState::Success ==> (r matches Err(e) && e.code@
                == "INVALID_EXPORT_STATE"@) && final(self).state == old(self).state,
            old(self).state != ExportState::Success ==> r is Ok && final(self).state
                == ExportState::Failed,
    {
        if self.state == ExportState::Success {
            return Err(
                AppError::new("INVALID_EXPORT_STATE", "cannot fail a successful task", None),
            );
        }
        self.state = ExportState::Failed;
        Ok(())
    }
}

impl Default for ExportMachine {
    fn default() -> (r: Self)
        ensures
            r.state == ExportState::Queued,
    {
        Self::new()
    }
}

} // verus!
