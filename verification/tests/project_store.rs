use focuslens::store::{
    create_project_manifest, cursor_track_path, export_log_path, export_output_path,
    manifest_path, project_dir, raw_recording_path, recording_output_ok, schema_decision,
    recoverable_entry, SchemaDecision,
};
use focuslens::{CaptureMode, ProjectStatus, RecordingProfile, TimelinePatch};

#[test]
fn project_paths_are_laid_out_under_the_root() {
    assert_eq!(project_dir("/data/projects", "p1"), "/data/projects/p1");
    assert_eq!(manifest_path("/data/projects", "p1"), "/data/projects/p1/project.json");
    assert_eq!(
        raw_recording_path("/data/projects", "p1"),
        "/data/projects/p1/assets/recording_raw.mp4"
    );
    assert_eq!(
        cursor_track_path("/data/projects", "p1"),
        "/data/projects/p1/assets/cursor_track.json"
    );
    assert_eq!(export_output_path("/data/projects", "p1"), "/data/projects/p1/renders/output.mp4");
    assert_eq!(
        export_log_path("/data/projects", "p1", "t9"),
        "/data/projects/p1/renders/export-t9.log"
    );
}

#[test]
fn fresh_manifest_is_ready_to_edit() {
    let m = create_project_manifest(RecordingProfile::default());
    assert_eq!(m.schema_version, 1);
    assert_eq!(m.app_version, "0.1.0");
    assert_eq!(m.status, ProjectStatus::ReadyToEdit);
    assert!(m.title.is_none());
    assert!(m.last_error.is_none());
    assert_eq!(m.camera_motion.smoothing, 680);
    assert_eq!(m.camera_motion.max_zoom, 1350);
    assert_eq!(m.created_at_ms, m.updated_at_ms);
}

#[test]
fn schema_versions_are_triaged() {
    assert_eq!(schema_decision(0), SchemaDecision::Migrate);
    assert_eq!(schema_decision(1), SchemaDecision::Current);
    assert_eq!(schema_decision(99), SchemaDecision::Reject);
}

#[test]
fn recovery_requires_all_artifacts() {
    assert!(recoverable_entry("p1", "/x/p1", true, true, true).is_some());
    assert!(recoverable_entry("p1", "/x/p1", true, true, false).is_none());
    assert!(recoverable_entry("p1", "/x/p1", false, true, true).is_none());
    let p = recoverable_entry("p1", "/x/p1", true, true, true).unwrap();
    assert_eq!(p.project_id, "p1");
    assert_eq!(p.path, "/x/p1");
}

#[test]
fn recording_output_floor_is_enforced() {
    assert!(!recording_output_ok(None));
    assert!(!recording_output_ok(Some(1024)));
    assert!(recording_output_ok(Some(1025)));
}

#[test]
fn timeline_patch_applies_and_validates() {
    let mut m = create_project_manifest(RecordingProfile::default());
    let patch = TimelinePatch {
        trim_start_ms: Some(2_000),
        trim_end_ms: Some(1_000),
        aspect_ratio: None,
        cursor_highlight_enabled: Some(false),
    };
    focuslens::project::apply_timeline_patch(&mut m, patch);
    assert_eq!(m.timeline.trim_start_ms, 2_000);
    assert_eq!(m.timeline.trim_end_ms, 1_000);
    assert!(!m.timeline.cursor_highlight_enabled);
    let err = focuslens::project::validate_timeline(&m).unwrap_err();
    assert_eq!(err.code, "INVALID_TIMELINE");
    let fix = TimelinePatch {
        trim_start_ms: None,
        trim_end_ms: Some(9_000),
        aspect_ratio: None,
        cursor_highlight_enabled: None,
    };
    focuslens::project::apply_timeline_patch(&mut m, fix);
    assert!(focuslens::project::validate_timeline(&m).is_ok());
}

#[test]
fn camera_motion_patch_clamps_fields() {
    let mut m = create_project_manifest(RecordingProfile::default());
    let patch = focuslens::CameraMotionPatch {
        enabled: Some(false),
        intensity: Some(focuslens::CameraIntensity::High),
        smoothing: Some(5_000),
        max_zoom: Some(10_000),
        idle_threshold_ms: Some(50),
    };
    focuslens::project::apply_camera_motion_patch(&mut m, patch);
    assert!(!m.camera_motion.enabled);
    assert_eq!(m.camera_motion.smoothing, 1_000);
    assert_eq!(m.camera_motion.max_zoom, 2_000);
    assert_eq!(m.camera_motion.idle_threshold_ms, 120);
}

#[test]
fn titles_are_trimmed_or_cleared() {
    let mut m = create_project_manifest(RecordingProfile::default());
    focuslens::project::apply_title(&mut m, "  My Demo  ");
    assert_eq!(m.title.as_deref(), Some("My Demo"));
    focuslens::project::apply_title(&mut m, "   ");
    assert!(m.title.is_none());
}

#[test]
fn export_success_records_metrics() {
    let mut m = create_project_manifest(RecordingProfile::default());
    let probe = focuslens::probe::ProbeSummary {
        container_duration_ms: 30_000,
        video_duration_ms: Some(30_100),
        audio_duration_ms: Some(30_000),
    };
    focuslens::project::apply_export_success(
        &mut m,
        "/x/out.mp4",
        "/x/export.log",
        Some(&probe),
        "frame=100 fps=30 drop=1",
    );
    assert_eq!(m.status, ProjectStatus::ExportSucceeded);
    assert_eq!(m.quality.av_offset_ms, 100);
    assert_eq!(m.quality.avg_drop_rate, 100);
    assert_eq!(m.quality.peak_drop_rate, 100);
    assert_eq!(m.timeline.trim_end_ms, 30_000);
    assert_eq!(m.artifacts.last_export_path.as_deref(), Some("/x/out.mp4"));

    let gate = focuslens::project::quality_gate_status(&m, true, true);
    assert!(gate.passed);
    let gate = focuslens::project::quality_gate_status(&m, false, true);
    assert!(!gate.passed);
    assert_eq!(gate.reasons.len(), 1);
}

#[test]
fn export_failure_records_error() {
    let mut m = create_project_manifest(RecordingProfile::default());
    focuslens::project::apply_export_failed(
        &mut m,
        focuslens::AppError::new("NO_SPACE", "disk full", None),
    );
    assert_eq!(m.status, ProjectStatus::ExportFailed);
    assert_eq!(m.last_error.unwrap().code, "NO_SPACE");
}

#[test]
fn project_list_item_summarizes_manifest() {
    let mut m = create_project_manifest(RecordingProfile::default());
    m.timeline.trim_start_ms = 500;
    m.timeline.trim_end_ms = 10_500;
    m.artifacts.last_export_path = Some("/x/out.mp4".to_string());
    let row = focuslens::project::project_list_item("p1", &m);
    assert_eq!(row.project_id, "p1");
    assert_eq!(row.duration_ms, 10_000);
    assert!(row.has_export);
    assert_eq!(row.export_path.as_deref(), Some("/x/out.mp4"));
}

#[test]
fn project_list_is_sorted_most_recent_first() {
    let mut rows = Vec::new();
    for (id, updated) in [("a", 10), ("b", 30), ("c", 20)] {
        let mut m = create_project_manifest(RecordingProfile::default());
        m.updated_at_ms = updated;
        rows.push(focuslens::project::project_list_item(id, &m));
    }
    let sorted = focuslens::project::sort_projects_by_recency(rows);
    let ids: Vec<&str> = sorted.iter().map(|r| r.project_id.as_str()).collect();
    assert_eq!(ids, vec!["b", "c", "a"]);
}

#[test]
fn build_recording_command_includes_fps_and_output() {
    let profile = RecordingProfile::default();
    let (args, degrade) = focuslens::recording_cmd::build_recording_command(
        focuslens::Platform::Other,
        &profile,
        false,
        "recording.mp4",
    );
    let joined = args.join(" ");
    assert!(joined.contains("30"));
    assert!(joined.contains("recording.mp4"));
    assert!(degrade.is_some());
}

#[test]
fn recording_command_degrades_missing_window_target() {
    let mut profile = RecordingProfile::default();
    profile.capture_mode = CaptureMode::Window;
    profile.window_target = Some("  ".to_string());
    let capability = focuslens::capabilities::platform_capability(focuslens::Platform::Windows, true);
    let (prepared, degrade) = focuslens::recording_cmd::prepare_recording_profile(profile, &capability);
    assert_eq!(prepared.capture_mode, CaptureMode::Fullscreen);
    assert!(degrade.is_some());
}

#[test]
fn export_args_carry_trim_and_codec() {
    let mut m = create_project_manifest(RecordingProfile::default());
    m.timeline.trim_start_ms = 1_500;
    m.timeline.trim_end_ms = 20_000;
    let args = focuslens::recording_cmd::export_args(
        &m,
        30,
        8,
        "/x/in.mp4",
        "/x/out.mp4",
        "libx264",
        "crop=...",
        1920,
        1080,
    );
    let joined = args.join(" ");
    assert!(joined.contains("-ss 1.500"));
    assert!(joined.contains("-to 20.000"));
    assert!(joined.contains("-c:v libx264"));
    assert!(joined.contains("-b:v 8M"));
    assert!(joined.contains("-aspect 1920:1080"));
    assert_eq!(args.last().unwrap(), "/x/out.mp4");
}
