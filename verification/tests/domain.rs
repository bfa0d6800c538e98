use focuslens::{ExportMachine, ExportState, RecordingMachine, RecordingState};

#[test]
fn recording_state_machine_rejects_invalid_pause() {
    let mut machine = RecordingMachine::new();
    let result = machine.pause();
    assert!(result.is_err());
    assert_eq!(machine.state(), RecordingState::Idle);
}

#[test]
fn recording_state_machine_full_flow() {
    let mut machine = RecordingMachine::new();
    machine.start().unwrap();
    machine.pause().unwrap();
    machine.resume().unwrap();
    machine.stop().unwrap();
    assert_eq!(machine.state(), RecordingState::Stopped);
}

#[test]
fn export_state_machine_fallback_then_success() {
    let mut machine = ExportMachine::new();
    machine.start().unwrap();
    machine.fallback().unwrap();
    machine.success().unwrap();
    assert_eq!(machine.state(), ExportState::Success);
}

#[test]
fn export_state_machine_cannot_fail_after_success() {
    let mut machine = ExportMachine::new();
    machine.start().unwrap();
    machine.success().unwrap();
    let result = machine.fail();
    assert!(result.is_err());
    assert_eq!(machine.state(), ExportState::Success);
}

#[test]
fn recording_state_machine_rejects_double_start() {
    let mut machine = RecordingMachine::new();
    machine.start().unwrap();
    assert!(machine.start().is_err());
    assert_eq!(machine.state(), RecordingState::Recording);
}

#[test]
fn quality_gate_passes_when_all_metrics_in_range() {
    let result = focuslens::validate_mvp_quality(80, 180, 490);
    assert!(result.passed);
    assert!(result.reasons.is_empty());
}

#[test]
fn quality_gate_fails_when_drop_metrics_missing() {
    let result = focuslens::validate_mvp_quality(80, -100, -100);
    assert!(!result.passed);
    assert_eq!(result.reasons.len(), 1);
}

#[test]
fn quality_gate_fails_when_metrics_out_of_range() {
    let result = focuslens::validate_mvp_quality(180, 230, 620);
    assert!(!result.passed);
    assert_eq!(result.reasons.len(), 3);
}

#[test]
fn parse_drop_rate_from_frame_and_drop_count() {
    let log = "frame=100 fps=30 drop=1\nframe=200 fps=30 drop=4";
    let (avg, peak) = focuslens::metrics::parse_drop_rates(log);
    assert_eq!(avg, 150);
    assert_eq!(peak, 200);
}

#[test]
fn parse_direct_drop_percentage() {
    let log = "drop=1.2\n drop=3.4";
    let (avg, peak) = focuslens::metrics::parse_drop_rates(log);
    assert_eq!(avg, 230);
    assert_eq!(peak, 340);
}

#[test]
fn drop_rates_sentinel_without_marker() {
    let log = "frame=100 fps=30\nnothing to see";
    let (avg, peak) = focuslens::metrics::log_drop_rates(log);
    assert_eq!(avg, focuslens::metrics::DROP_RATE_UNAVAILABLE);
    assert_eq!(peak, focuslens::metrics::DROP_RATE_UNAVAILABLE);
}

#[test]
fn drop_rates_average_never_exceeds_peak() {
    let log = "drop=0.5\ndrop=9.9\nframe=50 drop=5";
    let (avg, peak) = focuslens::metrics::log_drop_rates(log);
    assert!(avg >= 0);
    assert!(avg <= peak);
    assert_eq!(peak, 1000);
}

#[test]
fn av_offset_positive() {
    assert_eq!(focuslens::probe::calc_av_offset_ms(Some(30_100), Some(30_000)), 100);
}

#[test]
fn av_offset_zero_when_missing() {
    assert_eq!(focuslens::probe::calc_av_offset_ms(Some(30_000), None), 0);
}

#[test]
fn duration_parsing_truncates_to_milliseconds() {
    assert_eq!(focuslens::probe::parse_duration_ms(Some("30.100000")), Some(30_100));
    assert_eq!(focuslens::probe::parse_duration_ms(Some("2")), Some(2_000));
    assert_eq!(focuslens::probe::parse_duration_ms(Some("-5.0")), Some(0));
    assert_eq!(focuslens::probe::parse_duration_ms(Some("garbage")), None);
    assert_eq!(focuslens::probe::parse_duration_ms(None), None);
}

#[test]
fn probe_summary_reads_first_streams() {
    let streams = vec![
        focuslens::probe::ProbeStreamInfo { codec_type: Some("video"), duration: Some("1.500") },
        focuslens::probe::ProbeStreamInfo { codec_type: Some("audio"), duration: Some("1.400") },
        focuslens::probe::ProbeStreamInfo { codec_type: Some("audio"), duration: Some("9.000") },
    ];
    let summary = focuslens::probe::probe_summary(&streams, Some("1.600"));
    assert_eq!(summary.video_duration_ms, Some(1_500));
    assert_eq!(summary.audio_duration_ms, Some(1_400));
    assert_eq!(summary.container_duration_ms, 1_600);
    let offset = focuslens::probe::calc_av_offset_ms(
        summary.video_duration_ms,
        summary.audio_duration_ms,
    );
    assert_eq!(offset, 100);
}

#[test]
fn project_id_validation_rejects_path_escapes() {
    assert!(focuslens::ident::ensure_valid_project_id("abc-123").is_ok());
    assert!(focuslens::ident::ensure_valid_project_id("").is_err());
    assert!(focuslens::ident::ensure_valid_project_id("   ").is_err());
    assert!(focuslens::ident::ensure_valid_project_id("a/b").is_err());
    assert!(focuslens::ident::ensure_valid_project_id("a\\b").is_err());
    let err = focuslens::ident::ensure_valid_project_id("..").unwrap_err();
    assert_eq!(err.code, "INVALID_PROJECT_ID");
}

#[test]
fn fresh_ids_are_hyphenated_uuids() {
    let id = focuslens::ident::fresh_id();
    assert_eq!(id.len(), 36);
    assert!(id.chars().all(|c| c.is_ascii_hexdigit() || c == '-'));
    assert!(focuslens::ident::ensure_valid_project_id(&id).is_ok());
}

#[test]
fn clock_reads_a_modern_time() {
    let now = focuslens::clock::now_ms();
    // well past 2020 on any sanely configured machine
    assert!(now > 1_577_836_800_000);
    let elapsed = focuslens::clock::elapsed_ms(now - 5_000);
    assert!(elapsed >= 5_000);
}
