use focuslens::capabilities::format_listing_supports;
use focuslens::devices::{extract_device_index_and_label, extract_quoted};
use focuslens::export_flow::{status_key_to_state, used_fallback};
use focuslens::supervise::{status_tick, TickAction};
use focuslens::{ExportState, RecordingState};

#[test]
fn format_listing_is_matched_per_demuxer_line() {
    let body = " D  wasapi          Windows WASAPI\n E  mp4             MP4 output";
    assert!(format_listing_supports(body, "wasapi"));
    assert!(format_listing_supports(body, "WASAPI"));
    // named but not as a demuxer line
    assert!(!format_listing_supports(" E  wasapi  output only", "wasapi"));
    assert!(!format_listing_supports(body, "avfoundation"));
    assert!(!format_listing_supports("", "wasapi"));
}

#[test]
fn quoted_and_bracketed_spans_are_extracted() {
    assert_eq!(
        extract_quoted("  \"Microphone (USB)\"  (audio)").as_deref(),
        Some("Microphone (USB)")
    );
    assert_eq!(extract_quoted("no quotes here"), None);
    assert_eq!(extract_quoted("\"unterminated"), None);
    let (idx, label) = extract_device_index_and_label("[ 3 ] \"Built-in Mic\"").unwrap();
    assert_eq!(idx, "3");
    assert_eq!(label, "Built-in Mic");
    assert_eq!(extract_device_index_and_label("[3] no label"), None);
}

#[test]
fn status_keywords_round_trip() {
    assert_eq!(status_key_to_state("queued"), Some(ExportState::Queued));
    assert_eq!(status_key_to_state("fallback"), Some(ExportState::Fallback));
    assert_eq!(status_key_to_state("nonsense"), None);
}

#[test]
fn fallback_is_detected_from_codecs() {
    assert!(used_fallback("libx264", "h264_nvenc"));
    assert!(!used_fallback("h264_nvenc", "h264_nvenc"));
    assert!(!used_fallback("libx264", "libx264"));
}

#[test]
fn supervisor_ticks_follow_session_state() {
    assert_eq!(status_tick(None, false), TickAction::StopPolling);
    assert_eq!(status_tick(Some(RecordingState::Recording), true), TickAction::TearDown);
    assert_eq!(status_tick(Some(RecordingState::Recording), false), TickAction::EmitStatus);
    assert_eq!(status_tick(Some(RecordingState::Error), false), TickAction::EmitStatusAndStop);
}

#[test]
fn seconds_and_numbers_format_exactly() {
    assert_eq!(focuslens::recording_cmd::seconds_string(0), "0.000");
    assert_eq!(focuslens::recording_cmd::seconds_string(1_500), "1.500");
    assert_eq!(focuslens::recording_cmd::seconds_string(30_045), "30.045");
    assert_eq!(focuslens::textfmt::u64_string(0), "0");
    assert_eq!(focuslens::textfmt::u64_string(90210), "90210");
}

#[test]
fn recording_command_uses_mock_source_off_platform() {
    let profile = focuslens::RecordingProfile::default();
    let (args, _) = focuslens::recording_cmd::build_recording_command(
        focuslens::Platform::Other,
        &profile,
        false,
        "out.mp4",
    );
    let joined = args.join(" ");
    assert!(joined.contains("testsrc2=size=1920x1080:rate=30"));
    assert!(joined.contains("-c:v libx264"));
    assert!(joined.ends_with("out.mp4"));
}
