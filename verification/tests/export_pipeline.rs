use focuslens::capabilities::{hardware_encoder_availability, platform_capability};
use focuslens::export_flow::{
    classify_export_error, export_state_key, planned_progress, resolve_attempts, EncodeAttempt,
};
use focuslens::registry::{ExportRegistry, SessionRegistry};
use focuslens::{ExportState, Platform, RecordingProfile};

#[test]
fn classify_permission_error() {
    let err = classify_export_error("Permission denied");
    assert_eq!(err.code, "NO_PERMISSION");
}

#[test]
fn classify_space_error() {
    let err = classify_export_error("No space left on device");
    assert_eq!(err.code, "NO_SPACE");
}

#[test]
fn classify_encoder_and_generic_errors() {
    assert_eq!(classify_export_error("Unknown encoder 'h264_nvenc'").code, "ENCODER_FAIL");
    assert_eq!(classify_export_error("Error while opening encoder").code, "ENCODER_FAIL");
    assert_eq!(classify_export_error("something else went wrong").code, "IO_FAIL");
    // permission wins over later categories
    assert_eq!(
        classify_export_error("Permission denied and no space left on device").code,
        "NO_PERMISSION"
    );
}

#[test]
fn camera_zoom_should_respect_user_cap() {
    let mut manifest =
        focuslens::store::create_project_manifest(RecordingProfile::default());
    manifest.camera_motion.enabled = true;
    manifest.camera_motion.intensity = focuslens::CameraIntensity::High;
    manifest.camera_motion.smoothing = 0;
    manifest.camera_motion.max_zoom = 1_100;
    let zoom = focuslens::cropexpr::camera_zoom(&manifest);
    assert!(zoom <= 1_100);
}

#[test]
fn camera_zoom_should_use_high_cap_when_responsive() {
    let mut manifest =
        focuslens::store::create_project_manifest(RecordingProfile::default());
    manifest.camera_motion.enabled = true;
    manifest.camera_motion.intensity = focuslens::CameraIntensity::High;
    manifest.camera_motion.smoothing = 0;
    manifest.camera_motion.max_zoom = 1_500;
    let zoom = focuslens::cropexpr::camera_zoom(&manifest);
    assert!(zoom > 1_350);
}

#[test]
fn empty_cursor_track_falls_back_to_centered_crop() {
    let mut manifest =
        focuslens::store::create_project_manifest(RecordingProfile::default());
    manifest.camera_motion.enabled = true;
    let filter = focuslens::cropexpr::build_crop_filter(&manifest, 1920, 1080, 2560, 1440, &Vec::new());
    assert!(filter.contains("x='(iw-ow)/2'"));
    assert!(filter.contains("y='(ih-oh)/2'"));
    // zoom one: the crop divides by 1.000000
    assert!(filter.contains("/1.000000/2)*2"));
    assert!(!filter.contains("if(lt(t,"));
}

#[test]
fn cursor_track_produces_dynamic_crop() {
    let mut manifest =
        focuslens::store::create_project_manifest(RecordingProfile::default());
    manifest.camera_motion.enabled = true;
    let track = vec![
        focuslens::motion::CursorSample { t_ms: 0, x: 100_000, y: 100_000 },
        focuslens::motion::CursorSample { t_ms: 500, x: 2_000_000, y: 900_000 },
        focuslens::motion::CursorSample { t_ms: 1_000, x: 2_000_000, y: 900_000 },
    ];
    let filter = focuslens::cropexpr::build_crop_filter(&manifest, 1920, 1080, 2560, 1440, &track);
    assert!(filter.contains("x='max(0,min(iw-ow,iw*("));
    assert!(filter.contains("if(lt(t,"));
}

#[test]
fn piecewise_expression_of_trivial_tracks() {
    assert_eq!(focuslens::cropexpr::piecewise_expr(&Vec::new()), "0.5");
    assert_eq!(focuslens::cropexpr::piecewise_expr(&vec![(0u64, 500i64)]), "0.500000");
    let two = focuslens::cropexpr::piecewise_expr(&vec![(1000u64, 250i64), (2000u64, 750i64)]);
    assert_eq!(
        two,
        "if(lt(t,1.000),0.250000,if(lt(t,2.000),(0.250000+((t-1.000)/1.000)*0.500000),0.750000))"
    );
}

#[test]
fn resolve_attempts_concatenates_fallback_logs() {
    let first = EncodeAttempt { success: false, stderr: "hw failed".to_string() };
    let second = EncodeAttempt { success: true, stderr: "sw ok".to_string() };
    let r = resolve_attempts("h264_nvenc", first, Some(second), "out.mp4");
    assert!(r.success);
    assert_eq!(r.used_codec, "libx264");
    assert_eq!(r.stderr, "hw failed\n---- fallback ----\nsw ok");
    assert_eq!(r.output_path, "out.mp4");

    let direct = resolve_attempts(
        "h264_nvenc",
        EncodeAttempt { success: true, stderr: "fine".to_string() },
        None,
        "out.mp4",
    );
    assert!(direct.success);
    assert_eq!(direct.used_codec, "h264_nvenc");
    assert_eq!(direct.stderr, "fine");
}

#[test]
fn planned_progress_is_monotone_and_marks_fallback() {
    let hw = hardware_encoder_availability(Platform::Windows, Some("encoders: h264_nvenc"));
    assert!(hw.available);
    let events = planned_progress("task-1", hw);
    assert_eq!(events.len(), 5);
    for w in events.windows(2) {
        assert!(w[0].progress <= w[1].progress);
    }
    assert_eq!(events[0].status, "queued");
    assert_eq!(events.last().unwrap().progress, 100);

    let none = hardware_encoder_availability(Platform::Windows, None);
    assert!(!none.available);
    let events = planned_progress("task-2", none);
    assert_eq!(events.len(), 6);
    assert_eq!(events[3].status, "fallback");
    assert_eq!(events[3].progress, 62);
}

#[test]
fn export_state_keys_are_stable() {
    assert_eq!(export_state_key(ExportState::Queued), "queued");
    assert_eq!(export_state_key(ExportState::Fallback), "fallback");
    assert_eq!(export_state_key(ExportState::Failed), "failed");
}

#[test]
fn export_registry_rejects_concurrent_task_for_project() {
    let mut reg = ExportRegistry::new();
    let profile = focuslens::ExportProfile::default();
    let first = reg.start_task("proj-a", profile).unwrap();
    let conflict = reg.start_task("proj-a", profile);
    assert!(conflict.is_err());
    assert_eq!(conflict.unwrap_err().code, "EXPORT_ALREADY_ACTIVE");
    // a different project is free to start
    assert!(reg.start_task("proj-b", profile).is_ok());
    // once the first task settles, the project accepts a new task
    reg.set_task_state(&first, ExportState::Failed);
    assert!(reg.start_task("proj-a", profile).is_ok());
}

#[test]
fn export_registry_snapshot_and_retry() {
    let mut reg = ExportRegistry::new();
    let profile = focuslens::ExportProfile::default();
    let id = reg.start_task("proj-a", profile).unwrap();
    let snap = reg.task_snapshot(&id).unwrap();
    assert_eq!(snap.status, "queued");
    assert_eq!(snap.retries, 0);
    // retry of a still-active task conflicts
    assert!(reg.retry_task(&id).is_err());
    reg.fail_task(&id, focuslens::AppError::new("IO_FAIL", "boom", None));
    let snap = reg.task_snapshot(&id).unwrap();
    assert_eq!(snap.status, "failed");
    assert_eq!(snap.last_error.unwrap().code, "IO_FAIL");
    let retry_id = reg.retry_task(&id).unwrap();
    let snap = reg.task_snapshot(&retry_id).unwrap();
    assert_eq!(snap.retries, 1);
    assert_eq!(snap.status, "queued");
    assert!(reg.task_snapshot("no-such-task").is_err());
}

#[test]
fn session_registry_guards_lifecycle() {
    let mut reg = SessionRegistry::new();
    let id = reg
        .start_session("proj-a", RecordingProfile::default(), None)
        .unwrap();
    // a second concurrent session is rejected
    let second = reg.start_session("proj-b", RecordingProfile::default(), None);
    assert_eq!(second.unwrap_err().code, "RECORDING_ALREADY_ACTIVE");
    // pause only from recording, resume only from paused
    assert!(reg.pause_session(&id).is_ok());
    assert_eq!(reg.pause_session(&id).unwrap_err().code, "INVALID_RECORDING_STATE");
    assert!(reg.resume_session(&id).is_ok());
    // samples are collected only while recording
    reg.record_cursor_sample(&id, focuslens::motion::CursorSample { t_ms: 10, x: 1, y: 2 });
    reg.pause_session(&id).unwrap();
    reg.record_cursor_sample(&id, focuslens::motion::CursorSample { t_ms: 20, x: 3, y: 4 });
    let samples = reg.cursor_samples(&id);
    assert_eq!(samples.len(), 1);
    assert_eq!(samples[0].t_ms, 10);
    // teardown frees the slot
    let removed = reg.remove_session(&id).unwrap();
    assert_eq!(removed.project_id, "proj-a");
    assert!(reg.start_session("proj-c", RecordingProfile::default(), None).is_ok());
}

#[test]
fn platform_capability_reports_degrades() {
    let win = platform_capability(Platform::Windows, false);
    assert_eq!(win.platform, "windows");
    assert!(!win.supports_system_audio);
    assert!(win.system_audio_degrade_message.is_some());
    let win_ok = platform_capability(Platform::Windows, true);
    assert!(win_ok.supports_system_audio);
    assert!(win_ok.system_audio_degrade_message.is_none());
    let other = platform_capability(Platform::Other, true);
    assert!(!other.supports_screen_capture);
}

#[test]
fn encoder_probe_is_case_insensitive() {
    let hw = hardware_encoder_availability(Platform::Windows, Some("V..... H264_NVENC   NVIDIA"));
    assert!(hw.available);
    assert_eq!(hw.codec, "h264_nvenc");
    assert_eq!(hw.detail, "detected hardware encoder: h264_nvenc");
    let missing = hardware_encoder_availability(Platform::MacOs, Some("nothing here"));
    assert!(!missing.available);
    assert_eq!(missing.codec, "h264_videotoolbox");
}
