use vstd::prelude::*;
use vstd::string::StringExecFns;
use vstd::string::StrSliceExecFns;

use crate::capabilities::PlatformCapability;
use crate::cropexpr::fixed3_chars;
use crate::models::{CaptureMode, Platform, ProjectManifest, RecordingProfile, Resolution};
use crate::project::is_space_char_spec;
use crate::textfmt::{dec_digits, push_u64};

verus! {

/// The capture size string of a resolution.
pub fn resolution_size(resolution: &Resolution) -> (r: &'static str)
    ensures
        *resolution == Resolution::R1080p ==> r@ == "1920x1080"@,
        *resolution == Resolution::R720p ==> r@ == "1280x720"@,
{
    match resolution {
        Resolution::R1080p => "1920x1080",
        Resolution::R720p => "1280x720",
    }
}

pub open spec fn str_all_space(s: Seq<char>) -> bool {
    forall|i: int| 0 <= i < s.len() ==> is_space_char_spec(#[trigger] s[i])
}

fn is_all_space_str(s: &str) -> (r: bool)
    ensures
        r == str_all_space(s@),
{
    let n = s.unicode_len();
    let mut i: usize = 0;
    while i < n
        invariant
            0 <= i <= n == s@.len(),
            forall|j: int| 0 <= j < i ==> is_space_char_spec(#[trigger] s@[j]),
        decreases n - i,
    {
        let c = s.get_char(i);
        if !(c == ' ' || c == '\t' || c == '\n' || c == '\r' || c == '\u{b}' || c == '\u{c}') {
            return false;
        }
        i = i + 1;
    }
    true
}

/// Milliseconds rendered as seconds with three decimals, as the
/// encoder's trim options expect.
pub fn seconds_string(ms: u64) -> (r: String)
    ensures
        r@ == fixed3_chars(ms as nat),
{
    let mut s = String::new();
    push_u64(&mut s, ms / 1000);
    proof {
        reveal_strlit(".");
    }
    s.append(".");
    crate::textfmt::push_padded(&mut s, ms % 1000, 3);
    proof {
        assert("."@ =~= seq!['.']);
        assert(s@ =~= fixed3_chars(ms as nat));
    }
    s
}

/// The copy of a recording profile used for the degraded retry:
/// system audio and the microphone are dropped so the respawn can
/// succeed without an audio device.
pub fn degraded_profile(profile: &RecordingProfile) -> (r: RecordingProfile)
    ensures
        r.system_audio_enabled == false,
        r.microphone_device_id is None,
        r.capture_mode == profile.capture_mode,
        r.window_target == profile.window_target,
        r.frame_rate == profile.frame_rate,
        r.resolution == profile.resolution,
{
    RecordingProfile {
        capture_mode: profile.capture_mode,
        window_target: match &profile.window_target {
            Some(w) => Some(w.clone()),
            None => None,
        },
        frame_rate: profile.frame_rate,
        resolution: profile.resolution,
        microphone_device_id: None,
        system_audio_enabled: false,
        hotkeys: crate::models::Hotkeys {
            start_stop: profile.hotkeys.start_stop.clone(),
            pause_resume: profile.hotkeys.pause_resume.clone(),
        },
    }
}

/// What to do after the first spawn attempt: keep the process when
/// it survived its probation; retry once with the degraded profile
/// when it exited early and system audio was on; otherwise fail.
#[derive(Debug, Clone, Copy, PartialEq, Eq, Structural)]
pub enum SpawnDecision {
    Keep,
    RetryDegraded,
    Fail,
}

pub fn spawn_retry_decision(first_exited_early: bool, system_audio_enabled: bool) -> (r:
    SpawnDecision)
    ensures
        !first_exited_early ==> r == SpawnDecision::Keep,
        (first_exited_early && system_audio_enabled) ==> r == SpawnDecision::RetryDegraded,
        (first_exited_early && !system_audio_enabled) ==> r == SpawnDecision::Fail,
{
    if !first_exited_early {
        SpawnDecision::Keep
    } else if system_audio_enabled {
        SpawnDecision::RetryDegraded
    } else {
        SpawnDecision::Fail
    }
}

/// Degrade a requested profile against the platform's capability
/// before recording starts: system audio is dropped when the
/// platform cannot capture it, and window capture without a target
/// falls back to fullscreen; the first applicable degrade message
/// is reported.
pub fn prepare_recording_profile(profile: RecordingProfile, capability: &PlatformCapability) -> (r:
    (RecordingProfile, Option<String>))
    ensures
        r.0.system_audio_enabled == (profile.system_audio_enabled
            && capability.supports_system_audio),
        ({
            let window_degraded = profile.capture_mode == CaptureMode::Window && (match
                profile.window_target {
                Some(w) => str_all_space(w@),
                None => true,
            });
            &&& r.0.capture_mode == (if window_degraded {
                CaptureMode::Fullscreen
            } else {
                profile.capture_mode
            })
            &&& window_degraded ==> (r.1 matches Some(m) && m@
                == "no window target was given; recording falls back to fullscreen"@)
            &&& (!window_degraded && profile.system_audio_enabled
                && !capability.supports_system_audio) ==> r.1
                == capability.system_audio_degrade_message
            &&& (!window_degraded && !(profile.system_audio_enabled
                && !capability.supports_system_audio)) ==> r.1 is None
        }),
        r.0.frame_rate == profile.frame_rate && r.0.resolution == profile.resolution
            && r.0.window_target == profile.window_target && r.0.microphone_device_id
            == profile.microphone_device_id,
{
    let mut profile = profile;
    let mut degrade_message: Option<String> = None;
    if profile.system_audio_enabled && !capability.supports_system_audio {
        profile.system_audio_enabled = false;
        degrade_message = match &capability.system_audio_degrade_message {
            Some(m) => Some(m.clone()),
            None => None,
        };
    }
    let window_missing = match &profile.window_target {
        Some(w) => is_all_space_str(w.as_str()),
        None => true,
    };
    if profile.capture_mode == CaptureMode::Window && window_missing {
        profile.capture_mode = CaptureMode::Fullscreen;
        degrade_message = Some(
            "no window target was given; recording falls back to fullscreen".to_owned(),
        );
    }
    (profile, degrade_message)
}

/// The encoder argument list of one export attempt: trim range,
/// input, the video filter chain, frame rate, codec, bitrate, pixel
/// format, audio, container flags, aspect and output path.
pub fn export_args(
    manifest: &ProjectManifest,
    profile_fps: u8,
    profile_bitrate_mbps: u8,
    input_path: &str,
    output_path: &str,
    codec: &str,
    video_filters: &str,
    target_w: u32,
    target_h: u32,
) -> (r: Vec<String>)
    ensures
        r@.map_values(|s: String| s@) == export_args_spec(
            manifest.timeline.trim_start_ms as int,
            manifest.timeline.trim_end_ms as int,
            input_path@,
            output_path@,
            codec@,
            video_filters@,
            profile_fps as int,
            profile_bitrate_mbps as int,
            target_w as int,
            target_h as int,
        ),
{
    let mut args: Vec<String> = Vec::new();
    args.push("-y".to_owned());
    args.push("-hide_banner".to_owned());
    args.push("-loglevel".to_owned());
    args.push("info".to_owned());
    args.push("-stats".to_owned());
    if manifest.timeline.trim_start_ms > 0 {
        args.push("-ss".to_owned());
        args.push(seconds_string(manifest.timeline.trim_start_ms));
    }
    if manifest.timeline.trim_end_ms > manifest.timeline.trim_start_ms {
        args.push("-to".to_owned());
        args.push(seconds_string(manifest.timeline.trim_end_ms));
    }
    args.push("-i".to_owned());
    args.push(input_path.to_owned());
    args.push("-vf".to_owned());
    args.push(video_filters.to_owned());
    args.push("-r".to_owned());
    args.push(crate::textfmt::u64_string(profile_fps as u64));
    args.push("-c:v".to_owned());
    args.push(codec.to_owned());
    args.push("-b:v".to_owned());
    let mut bitrate = crate::textfmt::u64_string(profile_bitrate_mbps as u64);
    proof {
        reveal_strlit("M");
    }
    bitrate.append("M");
    args.push(bitrate);
    args.push("-pix_fmt".to_owned());
    args.push("yuv420p".to_owned());
    args.push("-c:a".to_owned());
    args.push("aac".to_owned());
    args.push("-b:a".to_owned());
    args.push("128k".to_owned());
    args.push("-movflags".to_owned());
    args.push("+faststart".to_owned());
    args.push("-metadata:s:v:0".to_owned());
    args.push("rotate=0".to_owned());
    args.push("-aspect".to_owned());
    let mut aspect = crate::textfmt::u64_string(target_w as u64);
    proof {
        reveal_strlit(":");
    }
    aspect.append(":");
    push_u64(&mut aspect, target_h as u64);
    args.push(aspect);
    args.push(output_path.to_owned());
    proof {
        assert("M"@ =~= seq!['M']);
        assert(":"@ =~= seq![':']);
        assert(args@.map_values(|s: String| s@) =~= export_args_spec(
            manifest.timeline.trim_start_ms as int,
            manifest.timeline.trim_end_ms as int,
            input_path@,
            output_path@,
            codec@,
            video_filters@,
            profile_fps as int,
            profile_bitrate_mbps as int,
            target_w as int,
            target_h as int,
        ));
    }
    args
}

/// The capture source and audio arguments for a given platform.
pub open spec fn capture_args_spec(
    platform: Platform,
    profile: RecordingProfile,
    wasapi_supported: bool,
) -> Seq<Seq<char>> {
    match platform {
        Platform::Windows => {
            let input: Seq<char> = match profile.capture_mode {
                CaptureMode::Fullscreen => "desktop"@,
                CaptureMode::Window => match profile.window_target {
                    Some(w) => w@,
                    None => "desktop"@,
                },
            };
            let mic_used = profile.microphone_device_id matches Some(m) && !str_all_space(m@)
                && m@ != "default"@;
            let sys_used = profile.system_audio_enabled && wasapi_supported;
            let mic_part: Seq<Seq<char>> = if mic_used {
                seq!["-f"@, "dshow"@, "-i"@, "audio="@ + profile.microphone_device_id.unwrap()@]
            } else {
                Seq::<Seq<char>>::empty()
            };
            let sys_part: Seq<Seq<char>> = if sys_used {
                seq!["-f"@, "wasapi"@, "-i"@, "default"@]
            } else {
                Seq::<Seq<char>>::empty()
            };
            let null_part: Seq<Seq<char>> = if !mic_used && !sys_used {
                seq!["-f"@, "lavfi"@, "-i"@, "anullsrc=channel_layout=stereo:sample_rate=48000"@]
            } else {
                Seq::<Seq<char>>::empty()
            };
            let map_part: Seq<Seq<char>> = if mic_used && sys_used {
                seq![
                    "-filter_complex"@,
                    "[1:a][2:a]amix=inputs=2:duration=longest[aout]"@,
                    "-map"@,
                    "0:v:0"@,
                    "-map"@,
                    "[aout]"@,
                ]
            } else {
                seq!["-map"@, "0:v:0"@, "-map"@, "1:a:0"@]
            };
            seq!["-f"@, "gdigrab"@, "-framerate"@, dec_digits(profile.frame_rate as nat), "-i"@,
                input] + mic_part + sys_part + null_part + map_part + seq!["-c:a"@, "aac"@,
                "-b:a"@, "128k"@]
        },
        Platform::MacOs => {
            let size: Seq<char> = match profile.resolution {
                Resolution::R1080p => "1920x1080"@,
                Resolution::R720p => "1280x720"@,
            };
            seq!["-f"@, "avfoundation"@, "-framerate"@, dec_digits(profile.frame_rate as nat),
                "-video_size"@, size, "-i"@, "1:none"@, "-f"@, "lavfi"@, "-i"@,
                "anullsrc=channel_layout=stereo:sample_rate=48000"@, "-map"@, "0:v:0"@, "-map"@,
                "1:a:0"@, "-c:a"@, "aac"@, "-b:a"@, "128k"@]
        },
        Platform::Other => {
            let size: Seq<char> = match profile.resolution {
                Resolution::R1080p => "1920x1080"@,
                Resolution::R720p => "1280x720"@,
            };
            seq!["-f"@, "lavfi"@, "-i"@, "testsrc2=size="@ + size + ":rate="@ + dec_digits(
                profile.frame_rate as nat,
            ), "-f"@, "lavfi"@, "-i"@, "anullsrc=channel_layout=stereo:sample_rate=48000"@,
                "-map"@, "0:v:0"@, "-map"@, "1:a:0"@, "-c:a"@, "aac"@, "-b:a"@, "128k"@]
        },
    }
}

/// The whole recording command argument list: quiet logging, the
/// platform's capture source and audio chain, then the x264
/// encoding tail and the output path.
pub open spec fn recording_args_spec(
    platform: Platform,
    profile: RecordingProfile,
    wasapi_supported: bool,
    output_path: Seq<char>,
) -> Seq<Seq<char>> {
    seq!["-y"@, "-hide_banner"@, "-loglevel"@, "warning"@] + capture_args_spec(
        platform,
        profile,
        wasapi_supported,
    ) + seq!["-pix_fmt"@, "yuv420p"@, "-c:v"@, "libx264"@, "-preset"@, "ultrafast"@, "-movflags"@,
        "+faststart"@, "-r"@, dec_digits(profile.frame_rate as nat), output_path]
}

/// Build the encoder argument list for a capture session, with the
/// degrade message the configuration implies (system audio dropped
/// on Windows without WASAPI, microphone-only capture elsewhere, a
/// mock source off the supported platforms).
#[verifier::rlimit(100)]
pub fn build_recording_command(
    platform: Platform,
    profile: &RecordingProfile,
    wasapi_supported: bool,
    output_path: &str,
) -> (r: (Vec<String>, Option<String>))
    ensures
        r.0@.map_values(|s: String| s@) == recording_args_spec(
            platform,
            *profile,
            wasapi_supported,
            output_path@,
        ),
        platform == Platform::Windows ==> (r.1 is Some <==> (profile.system_audio_enabled
            && !wasapi_supported)),
        platform == Platform::MacOs ==> (r.1 is Some <==> profile.system_audio_enabled),
        platform == Platform::Other ==> r.1 is Some,
{
    let mut args: Vec<String> = Vec::new();
    args.push("-y".to_owned());
    args.push("-hide_banner".to_owned());
    args.push("-loglevel".to_owned());
    args.push("warning".to_owned());
    let degrade: Option<String>;
    match platform {
        Platform::Windows => {
            args.push("-f".to_owned());
            args.push("gdigrab".to_owned());
            args.push("-framerate".to_owned());
            args.push(crate::textfmt::u64_string(profile.frame_rate as u64));
            args.push("-i".to_owned());
            match profile.capture_mode {
                CaptureMode::Fullscreen => args.push("desktop".to_owned()),
                CaptureMode::Window => {
                    match &profile.window_target {
                        Some(w) => args.push(w.clone()),
                        None => args.push("desktop".to_owned()),
                    }
                },
            }
            let mic_used = match &profile.microphone_device_id {
                Some(m) => !is_all_space_str(m.as_str()) && !crate::text::str_eq(
                    m.as_str(),
                    "default",
                ),
                None => false,
            };
            let sys_used = profile.system_audio_enabled && wasapi_supported;
            if mic_used {
                args.push("-f".to_owned());
                args.push("dshow".to_owned());
                args.push("-i".to_owned());
                let mut a = String::from_str("audio=");
                match &profile.microphone_device_id {
                    Some(m) => a.append(m.as_str()),
                    None => {},
                }
                args.push(a);
            }
            if sys_used {
                args.push("-f".to_owned());
                args.push("wasapi".to_owned());
                args.push("-i".to_owned());
                args.push("default".to_owned());
            }
            if !mic_used && !sys_used {
                args.push("-f".to_owned());
                args.push("lavfi".to_owned());
                args.push("-i".to_owned());
                args.push("anullsrc=channel_layout=stereo:sample_rate=48000".to_owned());
            }
            if mic_used && sys_used {
                args.push("-filter_complex".to_owned());
                args.push("[1:a][2:a]amix=inputs=2:duration=longest[aout]".to_owned());
                args.push("-map".to_owned());
                args.push("0:v:0".to_owned());
                args.push("-map".to_owned());
                args.push("[aout]".to_owned());
            } else {
                args.push("-map".to_owned());
                args.push("0:v:0".to_owned());
                args.push("-map".to_owned());
                args.push("1:a:0".to_owned());
            }
            args.push("-c:a".to_owned());
            args.push("aac".to_owned());
            args.push("-b:a".to_owned());
            args.push("128k".to_owned());
            degrade = if profile.system_audio_enabled && !wasapi_supported {
                Some(
                    "this encoder build does not support WASAPI; system audio was disabled"
                        .to_owned(),
                )
            } else {
                None
            };
        },
        Platform::MacOs => {
            args.push("-f".to_owned());
            args.push("avfoundation".to_owned());
            args.push("-framerate".to_owned());
            args.push(crate::textfmt::u64_string(profile.frame_rate as u64));
            args.push("-video_size".to_owned());
            args.push(resolution_size(&profile.resolution).to_owned());
            args.push("-i".to_owned());
            args.push("1:none".to_owned());
            args.push("-f".to_owned());
            args.push("lavfi".to_owned());
            args.push("-i".to_owned());
            args.push("anullsrc=channel_layout=stereo:sample_rate=48000".to_owned());
            args.push("-map".to_owned());
            args.push("0:v:0".to_owned());
            args.push("-map".to_owned());
            args.push("1:a:0".to_owned());
            args.push("-c:a".to_owned());
            args.push("aac".to_owned());
            args.push("-b:a".to_owned());
            args.push("128k".to_owned());
            degrade = if profile.system_audio_enabled {
                Some("system audio is not supported here; only the microphone is recorded"
                    .to_owned())
            } else {
                None
            };
        },
        Platform::Other => {
            args.push("-f".to_owned());
            args.push("lavfi".to_owned());
            args.push("-i".to_owned());
            let mut src = String::from_str("testsrc2=size=");
            src.append(resolution_size(&profile.resolution));
            src.append(":rate=");
            push_u64(&mut src, profile.frame_rate as u64);
            args.push(src);
            args.push("-f".to_owned());
            args.push("lavfi".to_owned());
            args.push("-i".to_owned());
            args.push("anullsrc=channel_layout=stereo:sample_rate=48000".to_owned());
            args.push("-map".to_owned());
            args.push("0:v:0".to_owned());
            args.push("-map".to_owned());
            args.push("1:a:0".to_owned());
            args.push("-c:a".to_owned());
            args.push("aac".to_owned());
            args.push("-b:a".to_owned());
            args.push("128k".to_owned());
            degrade = Some(
                "this platform is outside the supported range; a mock capture source is used"
                    .to_owned(),
            );
        },
    }
    args.push("-pix_fmt".to_owned());
    args.push("yuv420p".to_owned());
    args.push("-c:v".to_owned());
    args.push("libx264".to_owned());
    args.push("-preset".to_owned());
    args.push("ultrafast".to_owned());
    args.push("-movflags".to_owned());
    args.push("+faststart".to_owned());
    args.push("-r".to_owned());
    args.push(crate::textfmt::u64_string(profile.frame_rate as u64));
    args.push(output_path.to_owned());
    proof {
        assert(args@.map_values(|s: String| s@) =~= recording_args_spec(
            platform,
            *profile,
            wasapi_supported,
            output_path@,
        ));
    }
    (args, degrade)
}

/// The export argument list as data: the fixed options, the
/// conditional trim range, and the formatted numeric values.
pub open spec fn export_args_spec(
    trim_start_ms: int,
    trim_end_ms: int,
    input_path: Seq<char>,
    output_path: Seq<char>,
    codec: Seq<char>,
    video_filters: Seq<char>,
    fps: int,
    bitrate_mbps: int,
    target_w: int,
    target_h: int,
) -> Seq<Seq<char>> {
    seq!["-y"@, "-hide_banner"@, "-loglevel"@, "info"@, "-stats"@] + (if trim_start_ms > 0 {
        seq!["-ss"@, fixed3_chars(trim_start_ms as nat)]
    } else {
        Seq::<Seq<char>>::empty()
    }) + (if trim_end_ms > trim_start_ms {
        seq!["-to"@, fixed3_chars(trim_end_ms as nat)]
    } else {
        Seq::<Seq<char>>::empty()
    }) + seq!["-i"@, input_path, "-vf"@, video_filters, "-r"@, dec_digits(fps as nat), "-c:v"@,
        codec, "-b:v"@, dec_digits(bitrate_mbps as nat) + seq!['M'], "-pix_fmt"@, "yuv420p"@,
        "-c:a"@, "aac"@, "-b:a"@, "128k"@, "-movflags"@, "+faststart"@, "-metadata:s:v:0"@,
        "rotate=0"@, "-aspect"@, dec_digits(target_w as nat) + seq![':'] + dec_digits(
            target_h as nat,
        ), output_path]
}

} // verus!
