use vstd::prelude::*;

use crate::errors::AppError;

verus! {

/// The host platform, decided once at startup; drives capture
/// syntax, codec choice and degrade messaging.
#[derive(Debug, Clone, Copy, PartialEq, Eq, Structural)]
pub enum Platform {
    Windows,
    MacOs,
    Other,
}

#[derive(Debug, Clone, Copy, PartialEq, Eq, Structural)]
pub enum CaptureMode {
    Fullscreen,
    Window,
}

#[derive(Debug, Clone, Copy, PartialEq, Eq, Structural)]
pub enum Resolution {
    R1080p,
    R720p,
}

#[derive(Debug, Clone, Copy, PartialEq, Eq, Structural)]
pub enum CameraIntensity {
    Low,
    Medium,
    High,
}

#[derive(Debug, Clone, Copy, PartialEq, Eq, Structural)]
pub enum AspectRatio {
    Widescreen,
    Vertical,
    Square,
}

#[derive(Debug, Clone, Copy, PartialEq, Eq, Structural)]
pub enum ExportFormat {
    Mp4,
}

#[derive(Debug, Clone, Copy, PartialEq, Eq, Structural)]
pub enum VideoCodec {
    H264,
}

#[derive(Debug, Clone, Copy, PartialEq, Eq, Structural)]
pub enum AudioCodec {
    Aac,
}

#[derive(Debug, Clone, Copy, PartialEq, Eq, Structural)]
pub enum ProjectStatus {
    Recording,
    ReadyToEdit,
    Exporting,
    ExportFailed,
    ExportSucceeded,
}

#[derive(Debug, Clone)]
pub struct Hotkeys {
    pub start_stop: String,
    pub pause_resume: String,
}

#[derive(Debug, Clone)]
pub struct RecordingProfile {
    pub capture_mode: CaptureMode,
    pub window_target: Option<String>,
    pub frame_rate: u8,
    pub resolution: Resolution,
    pub microphone_device_id: Option<String>,
    pub system_audio_enabled: bool,
    pub hotkeys: Hotkeys,
}

/// User-tunable virtual-camera motion profile. `smoothing` is in
/// thousandths (`0..=1000`); `max_zoom` is a zoom factor in
/// thousandths (`1000..=2000`).
#[derive(Debug, Clone, Copy)]
pub struct CameraMotionProfile {
    pub enabled: bool,
    pub intensity: CameraIntensity,
    pub smoothing: i64,
    pub max_zoom: i64,
    pub idle_threshold_ms: u64,
}

#[derive(Debug, Clone, Copy)]
pub struct ExportProfile {
    pub format: ExportFormat,
    pub resolution: Resolution,
    pub bitrate_mbps: u8,
    pub fps: u8,
    pub video_codec: VideoCodec,
    pub audio_codec: AudioCodec,
}

#[derive(Debug, Clone, Copy)]
pub struct TimelineConfig {
    pub trim_start_ms: u64,
    pub trim_end_ms: u64,
    pub aspect_ratio: AspectRatio,
    pub cursor_highlight_enabled: bool,
}

#[derive(Debug, Clone)]
pub struct ProjectArtifacts {
    pub raw_recording_path: Option<String>,
    pub cursor_track_path: Option<String>,
    pub last_export_path: Option<String>,
    pub export_log_path: Option<String>,
}

/// Derived export quality metrics. Drop rates are in hundredths of a
/// percent; a negative rate is the "not measured" sentinel.
#[derive(Debug, Clone, Copy)]
pub struct QualityMetrics {
    pub av_offset_ms: i64,
    pub avg_drop_rate: i64,
    pub peak_drop_rate: i64,
}

#[derive(Debug, Clone)]
pub struct TimelinePatch {
    pub trim_start_ms: Option<u64>,
    pub trim_end_ms: Option<u64>,
    pub aspect_ratio: Option<AspectRatio>,
    pub cursor_highlight_enabled: Option<bool>,
}

/// Partial update of a camera-motion profile, in the same fixed-point
/// units as `CameraMotionProfile`.
#[derive(Debug, Clone)]
pub struct CameraMotionPatch {
    pub enabled: Option<bool>,
    pub intensity: Option<CameraIntensity>,
    pub smoothing: Option<i64>,
    pub max_zoom: Option<i64>,
    pub idle_threshold_ms: Option<u64>,
}

#[derive(Debug, Clone)]
pub struct RecoverableProject {
    pub project_id: String,
    pub reason: String,
    pub path: String,
}

#[derive(Debug, Clone)]
pub struct RecordingDevice {
    pub id: String,
    pub label: String,
    pub kind: String,
}

#[derive(Debug, Clone)]
pub struct HotkeySettings {
    pub start_stop: String,
    pub pause_resume: String,
}

#[derive(Debug, Clone)]
pub struct RecordingStatusEvent {
    pub session_id: String,
    pub status: String,
    pub duration_ms: u64,
    pub source_label: String,
    pub detail: String,
    pub degrade_message: Option<String>,
}

#[derive(Debug, Clone)]
pub struct ExportProgressEvent {
    pub task_id: String,
    pub status: String,
    pub progress: u8,
    pub detail: String,
}

/// The persisted description of one project: profiles, timeline,
/// artifacts, derived quality and status. Timestamps are
/// milliseconds since the Unix epoch.
#[derive(Debug, Clone)]
pub struct ProjectManifest {
    pub schema_version: u8,
    pub app_version: String,
    pub title: Option<String>,
    pub created_at_ms: i64,
    pub updated_at_ms: i64,
    pub recording: RecordingProfile,
    pub camera_motion: CameraMotionProfile,
    pub export: ExportProfile,
    pub timeline: TimelineConfig,
    pub artifacts: ProjectArtifacts,
    pub quality: QualityMetrics,
    pub status: ProjectStatus,
    pub last_error: Option<AppError>,
}

impl Default for RecordingProfile {
    fn default() -> (r: Self)
        ensures
            r.capture_mode == CaptureMode::Fullscreen,
            r.window_target is None,
            r.frame_rate == 30,
            r.resolution == Resolution::R1080p,
            r.microphone_device_id is None,
            r.system_audio_enabled == true,
            r.hotkeys.start_stop@ == "Ctrl+Shift+R"@,
            r.hotkeys.pause_resume@ == "Ctrl+Shift+P"@,
    {
        Self {
            capture_mode: CaptureMode::Fullscreen,
            window_target: None,
            frame_rate: 30,
            resolution: Resolution::R1080p,
            microphone_device_id: None,
            system_audio_enabled: true,
            hotkeys: Hotkeys {
                start_stop: "Ctrl+Shift+R".to_owned(),
                pause_resume: "Ctrl+Shift+P".to_owned(),
            },
        }
    }
}

impl Default for CameraMotionProfile {
    fn default() -> (r: Self)
        ensures
            r.enabled == true,
            r.intensity == CameraIntensity::Medium,
            r.smoothing == 680,
            r.max_zoom == 1350,
            r.idle_threshold_ms == 500,
    {
        Self {
            enabled: true,
            intensity: CameraIntensity::Medium,
            smoothing: 680,
            max_zoom: 1350,
            idle_threshold_ms: 500,
        }
    }
}

impl Default for ExportProfile {
    fn default() -> (r: Self)
        ensures
            r.format == ExportFormat::Mp4,
            r.resolution == Resolution::R1080p,
            r.bitrate_mbps == 8,
            r.fps == 30,
            r.video_codec == VideoCodec::H264,
            r.audio_codec == AudioCodec::Aac,
    {
        Self {
            format: ExportFormat::Mp4,
            resolution: Resolution::R1080p,
            bitrate_mbps: 8,
            fps: 30,
            video_codec: VideoCodec::H264,
            audio_codec: AudioCodec::Aac,
        }
    }
}

impl Default for TimelineConfig {
    fn default() -> (r: Self)
        ensures
            r.trim_start_ms == 0,
            r.trim_end_ms == 0,
            r.aspect_ratio == AspectRatio::Widescreen,
            r.cursor_highlight_enabled == true,
    {
        Self {
            trim_start_ms: 0,
            trim_end_ms: 0,
            aspect_ratio: AspectRatio::Widescreen,
            cursor_highlight_enabled: true,
        }
    }
}

impl Default for ProjectArtifacts {
    fn default() -> (r: Self)
        ensures
            r.raw_recording_path is None,
            r.cursor_track_path is None,
            r.last_export_path is None,
            r.export_log_path is None,
    {
        Self {
            raw_recording_path: None,
            cursor_track_path: None,
            last_export_path: None,
            export_log_path: None,
        }
    }
}

impl Default for TimelinePatch {
    fn default() -> (r: Self)
        ensures
            r.trim_start_ms is None,
            r.trim_end_ms is None,
            r.aspect_ratio is None,
            r.cursor_highlight_enabled is None,
    {
        Self {
            trim_start_ms: None,
            trim_end_ms: None,
            aspect_ratio: None,
            cursor_highlight_enabled: None,
        }
    }
}

impl Default for CameraMotionPatch {
    fn default() -> (r: Self)
        ensures
            r.enabled is None,
            r.intensity is None,
            r.smoothing is None,
            r.max_zoom is None,
            r.idle_threshold_ms is None,
    {
        Self {
            enabled: None,
            intensity: None,
            smoothing: None,
            max_zoom: None,
            idle_threshold_ms: None,
        }
    }
}

impl Default for QualityMetrics {
    fn default() -> (r: Self)
        ensures
            r.av_offset_ms == 0,
            r.avg_drop_rate == 0,
            r.peak_drop_rate == 0,
    {
        Self { av_offset_ms: 0, avg_drop_rate: 0, peak_drop_rate: 0 }
    }
}

impl Default for HotkeySettings {
    fn default() -> (r: Self)
        ensures
            r.start_stop@ == "Ctrl+Shift+R"@,
            r.pause_resume@ == "Ctrl+Shift+P"@,
    {
        Self { start_stop: "Ctrl+Shift+R".to_owned(), pause_resume: "Ctrl+Shift+P".to_owned() }
    }
}

} // verus!
