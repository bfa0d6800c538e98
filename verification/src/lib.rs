//! Verified core of a screen recorder that drives an external
//! encoder process: the recording and export state machines and
//! their registries, the camera-motion smoothing engine, the crop
//! expression synthesizer, the diagnostic-log metrics and the
//! release quality check. The executable shell around it (processes,
//! files, events) lives outside this crate's verified surface.

use vstd::prelude::*;

pub mod capabilities;
pub mod clock;
pub mod cropexpr;
pub mod devices;
mod errors;
pub mod export_flow;
pub mod ident;
pub mod metrics;
mod models;
pub mod motion;
pub mod probe;
pub mod project;
mod quality;
pub mod recording_cmd;
pub mod registry;
mod state_machine;
pub mod store;
pub mod supervise;
pub mod text;
pub mod textfmt;
pub mod track;

pub use errors::{duplicate_opt_error, AppError};
pub use models::{
    AspectRatio, AudioCodec, CameraIntensity, CameraMotionPatch, CameraMotionProfile, CaptureMode,
    ExportFormat, ExportProfile, ExportProgressEvent, Hotkeys, HotkeySettings, Platform,
    ProjectArtifacts, ProjectManifest, ProjectStatus, QualityMetrics, RecordingDevice,
    RecordingProfile, RecordingStatusEvent, RecoverableProject, Resolution, TimelineConfig,
    TimelinePatch, VideoCodec,
};
pub use quality::{validate_mvp_quality, QualityGateResult};
pub use state_machine::{ExportMachine, ExportState, RecordingMachine, RecordingState};

verus! {

} // verus!
