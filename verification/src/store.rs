use vstd::prelude::*;
use vstd::string::StringExecFns;

use crate::clock::now_ms;
use crate::models::{
    CameraIntensity, CaptureMode, ProjectManifest, ProjectStatus, RecordingProfile,
    RecoverableProject, Resolution,
};

verus! {

/// The manifest schema version this build reads and writes.
pub const CURRENT_SCHEMA_VERSION: u8 = 1;

/// Directory of one project under the project root.
pub fn project_dir(project_root: &str, project_id: &str) -> (r: String)
    ensures
        r@ == project_root@ + "/"@ + project_id@,
{
    String::from_str(project_root).concat("/").concat(project_id)
}

/// Path of a project's manifest file.
pub fn manifest_path(project_root: &str, project_id: &str) -> (r: String)
    ensures
        r@ == project_root@ + "/"@ + project_id@ + "/project.json"@,
{
    project_dir(project_root, project_id).concat("/project.json")
}

/// Path of a project's raw recording asset.
pub fn raw_recording_path(project_root: &str, project_id: &str) -> (r: String)
    ensures
        r@ == project_root@ + "/"@ + project_id@ + "/assets/recording_raw.mp4"@,
{
    project_dir(project_root, project_id).concat("/assets/recording_raw.mp4")
}

/// Path of a project's persisted cursor track.
pub fn cursor_track_path(project_root: &str, project_id: &str) -> (r: String)
    ensures
        r@ == project_root@ + "/"@ + project_id@ + "/assets/cursor_track.json"@,
{
    project_dir(project_root, project_id).concat("/assets/cursor_track.json")
}

/// Path of a project's rendered export output.
pub fn export_output_path(project_root: &str, project_id: &str) -> (r: String)
    ensures
        r@ == project_root@ + "/"@ + project_id@ + "/renders/output.mp4"@,
{
    project_dir(project_root, project_id).concat("/renders/output.mp4")
}

/// Path of the diagnostic log of one export task.
pub fn export_log_path(project_root: &str, project_id: &str, task_id: &str) -> (r: String)
    ensures
        r@ == project_root@ + "/"@ + project_id@ + "/renders/export-"@ + task_id@ + ".log"@,
{
    project_dir(project_root, project_id).concat("/renders/export-").concat(task_id).concat(".log")
}

/// A fresh manifest for a newly recorded project: current schema,
/// default profiles, ready to edit, stamped with the current time.
pub fn create_project_manifest(recording: RecordingProfile) -> (r: ProjectManifest)
    ensures
        r.schema_version == CURRENT_SCHEMA_VERSION,
        r.app_version@ == "0.1.0"@,
        r.title is None,
        r.created_at_ms == r.updated_at_ms,
        r.recording == recording,
        r.camera_motion.enabled && r.camera_motion.intensity == CameraIntensity::Medium
            && r.camera_motion.smoothing == 680 && r.camera_motion.max_zoom == 1350
            && r.camera_motion.idle_threshold_ms == 500,
        r.export.bitrate_mbps == 8 && r.export.fps == 30 && r.export.resolution
            == Resolution::R1080p,
        r.timeline.trim_start_ms == 0 && r.timeline.trim_end_ms == 0
            && r.timeline.cursor_highlight_enabled,
        r.artifacts.raw_recording_path is None && r.artifacts.cursor_track_path is None
            && r.artifacts.last_export_path is None && r.artifacts.export_log_path is None,
        r.quality.av_offset_ms == 0 && r.quality.avg_drop_rate == 0 && r.quality.peak_drop_rate
            == 0,
        r.status == ProjectStatus::ReadyToEdit,
        r.last_error is None,
{
    let now = now_ms();
    ProjectManifest {
        schema_version: CURRENT_SCHEMA_VERSION,
        app_version: "0.1.0".to_owned(),
        title: None,
        created_at_ms: now,
        updated_at_ms: now,
        recording,
        camera_motion: Default::default(),
        export: Default::default(),
        timeline: Default::default(),
        artifacts: Default::default(),
        quality: Default::default(),
        status: ProjectStatus::ReadyToEdit,
        last_error: None,
    }
}

/// How a stored manifest's schema version is handled: newer than
/// this build is rejected, the current version is read as is, and an
/// older one is migrated forward.
#[derive(Debug, Clone, Copy, PartialEq, Eq, Structural)]
pub enum SchemaDecision {
    Reject,
    Current,
    Migrate,
}

pub fn schema_decision(found_version: u64) -> (r: SchemaDecision)
    ensures
        found_version > CURRENT_SCHEMA_VERSION as u64 ==> r == SchemaDecision::Reject,
        found_version == CURRENT_SCHEMA_VERSION as u64 ==> r == SchemaDecision::Current,
        found_version < CURRENT_SCHEMA_VERSION as u64 ==> r == SchemaDecision::Migrate,
{
    if found_version > CURRENT_SCHEMA_VERSION as u64 {
        SchemaDecision::Reject
    } else if found_version == CURRENT_SCHEMA_VERSION as u64 {
        SchemaDecision::Current
    } else {
        SchemaDecision::Migrate
    }
}

/// A project directory is recoverable exactly when its recovery
/// marker, manifest and raw recording are all present.
pub fn recoverable_entry(
    project_id: &str,
    dir_path: &str,
    has_marker: bool,
    has_manifest: bool,
    has_raw_recording: bool,
) -> (r: Option<RecoverableProject>)
    ensures
        r is Some <==> (has_marker && has_manifest && has_raw_recording),
        r matches Some(p) ==> p.project_id@ == project_id@ && p.path@ == dir_path@,
{
    if has_marker && has_manifest && has_raw_recording {
        Some(
            RecoverableProject {
                project_id: project_id.to_owned(),
                reason: "an unfinished project was found and can be recovered".to_owned(),
                path: dir_path.to_owned(),
            },
        )
    } else {
        None
    }
}

/// The minimum size, in bytes, below which a produced recording file
/// is treated as invalid on stop.
pub const MIN_RECORDING_BYTES: u64 = 1024;

/// Whether a produced media file passes the byte-size floor; a
/// missing file (`None`) never does.
pub fn recording_output_ok(raw_len: Option<u64>) -> (r: bool)
    ensures
        r <==> (raw_len matches Some(n) && n > MIN_RECORDING_BYTES),
{
    match raw_len {
        Some(n) => n > MIN_RECORDING_BYTES,
        None => false,
    }
}

} // verus!
