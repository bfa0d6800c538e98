use vstd::prelude::*;
use vstd::string::StringExecFns;
use vstd::string::StringSliceAdditionalSpecFns;

use crate::capabilities::HardwareEncoderAvailability;
use crate::errors::AppError;
use crate::models::{ExportProgressEvent, Platform};
use crate::state_machine::ExportState;
use crate::text::{contains_sub, has_sub, lower_bytes, lower_seq};

verus! {

/// Outcome of one encoder invocation: whether it exited successfully
/// and its full diagnostic (standard error) text.
#[derive(Debug, Clone)]
pub struct EncodeAttempt {
    pub success: bool,
    pub stderr: String,
}

/// Outcome of the hardware-then-software export strategy: whether
/// any attempt succeeded, which codec produced the output, and the
/// concatenated diagnostic log of all attempts.
#[derive(Debug, Clone)]
pub struct ExportAttemptResult {
    pub success: bool,
    pub used_codec: String,
    pub stderr: String,
    pub output_path: String,
}

/// The per-platform hardware codec the export tries first.
pub open spec fn hardware_codec_spec(platform: Platform) -> Seq<char> {
    match platform {
        Platform::Windows => "h264_nvenc"@,
        Platform::MacOs => "h264_videotoolbox"@,
        Platform::Other => "libx264"@,
    }
}

pub fn hardware_codec(platform: Platform) -> (r: &'static str)
    ensures
        r@ == hardware_codec_spec(platform),
{
    match platform {
        Platform::Windows => "h264_nvenc",
        Platform::MacOs => "h264_videotoolbox",
        Platform::Other => "libx264",
    }
}

/// The fixed software codec of the fallback attempt.
pub fn fallback_codec() -> (r: &'static str)
    ensures
        r@ == "libx264"@,
{
    "libx264"
}

/// Combine the hardware attempt and the optional software fallback
/// attempt into the export outcome, concatenating diagnostics with
/// the fallback separator exactly as they are persisted.
pub fn resolve_attempts(
    primary_codec: &str,
    first: EncodeAttempt,
    second: Option<EncodeAttempt>,
    output_path: &str,
) -> (r: ExportAttemptResult)
    requires
        first.success <==> second is None,
    ensures
        r.output_path@ == output_path@,
        first.success ==> r.success && r.used_codec@ == primary_codec@ && r.stderr@
            == first.stderr@,
        !first.success ==> r.used_codec@ == "libx264"@ && {
            let sec = second.unwrap();
            &&& r.success == sec.success
            &&& (sec.success && first.stderr@.len() == 0) ==> r.stderr@ == sec.stderr@
            &&& (sec.success && first.stderr@.len() > 0) ==> r.stderr@ == first.stderr@
                + "\n---- fallback ----\n"@ + sec.stderr@
            &&& !sec.success ==> r.stderr@ == first.stderr@ + "\n---- fallback ----\n"@
                + sec.stderr@
        },
{
    if first.success {
        return ExportAttemptResult {
            success: true,
            used_codec: primary_codec.to_owned(),
            stderr: first.stderr,
            output_path: output_path.to_owned(),
        };
    }
    let second = match second {
        Some(s) => s,
        None => {
            return ExportAttemptResult {
                success: false,
                used_codec: fallback_codec().to_owned(),
                stderr: first.stderr,
                output_path: output_path.to_owned(),
            };
        },
    };
    let mut stderr = first.stderr;
    if second.success {
        if stderr.as_str().is_empty() {
            return ExportAttemptResult {
                success: true,
                used_codec: fallback_codec().to_owned(),
                stderr: second.stderr,
                output_path: output_path.to_owned(),
            };
        }
        stderr.append("\n---- fallback ----\n");
        stderr.append(second.stderr.as_str());
        return ExportAttemptResult {
            success: true,
            used_codec: fallback_codec().to_owned(),
            stderr,
            output_path: output_path.to_owned(),
        };
    }
    stderr.append("\n---- fallback ----\n");
    stderr.append(second.stderr.as_str());
    ExportAttemptResult {
        success: false,
        used_codec: fallback_codec().to_owned(),
        stderr,
        output_path: output_path.to_owned(),
    }
}

pub open spec fn np_permission() -> Seq<u8> {
    seq![
        112u8, 101u8, 114u8, 109u8, 105u8, 115u8, 115u8, 105u8, 111u8, 110u8, 32u8, 100u8, 101u8,
        110u8, 105u8, 101u8, 100u8,
    ]
}

pub open spec fn np_access() -> Seq<u8> {
    seq![
        97u8, 99u8, 99u8, 101u8, 115u8, 115u8, 32u8, 105u8, 115u8, 32u8, 100u8, 101u8, 110u8,
        105u8, 101u8, 100u8,
    ]
}

pub open spec fn np_no_space() -> Seq<u8> {
    seq![
        110u8, 111u8, 32u8, 115u8, 112u8, 97u8, 99u8, 101u8, 32u8, 108u8, 101u8, 102u8, 116u8,
        32u8, 111u8, 110u8, 32u8, 100u8, 101u8, 118u8, 105u8, 99u8, 101u8,
    ]
}

pub open spec fn np_not_enough() -> Seq<u8> {
    seq![
        116u8, 104u8, 101u8, 114u8, 101u8, 32u8, 105u8, 115u8, 32u8, 110u8, 111u8, 116u8, 32u8,
        101u8, 110u8, 111u8, 117u8, 103u8, 104u8, 32u8, 115u8, 112u8, 97u8, 99u8, 101u8,
    ]
}

pub open spec fn np_unknown_enc() -> Seq<u8> {
    seq![
        117u8, 110u8, 107u8, 110u8, 111u8, 119u8, 110u8, 32u8, 101u8, 110u8, 99u8, 111u8, 100u8,
        101u8, 114u8,
    ]
}

pub open spec fn np_err_open_enc() -> Seq<u8> {
    seq![
        101u8, 114u8, 114u8, 111u8, 114u8, 32u8, 119u8, 104u8, 105u8, 108u8, 101u8, 32u8, 111u8,
        112u8, 101u8, 110u8, 105u8, 110u8, 103u8, 32u8, 101u8, 110u8, 99u8, 111u8, 100u8, 101u8,
        114u8,
    ]
}

pub open spec fn np_cannot_open() -> Seq<u8> {
    seq![
        99u8, 97u8, 110u8, 110u8, 111u8, 116u8, 32u8, 111u8, 112u8, 101u8, 110u8, 32u8, 101u8,
        110u8, 99u8, 111u8, 100u8, 101u8, 114u8,
    ]
}

pub open spec fn diag_is_permission(l: Seq<u8>) -> bool {
    contains_sub(l, np_permission()) || contains_sub(l, np_access())
}

pub open spec fn diag_is_no_space(l: Seq<u8>) -> bool {
    contains_sub(l, np_no_space()) || contains_sub(l, np_not_enough())
}

pub open spec fn diag_is_encoder_fail(l: Seq<u8>) -> bool {
    contains_sub(l, np_unknown_enc()) || contains_sub(l, np_err_open_enc()) || contains_sub(
        l,
        np_cannot_open(),
    )
}

/// Classify a failed export's combined diagnostic text into an error
/// category by ordered substring matching on the lowercased text:
/// permission, then disk space, then encoder-init failure, then
/// generic I/O.
pub fn classify_export_error(stderr: &str) -> (r: AppError)
    ensures
        ({
            let l = lower_seq(stderr.spec_bytes());
            &&& diag_is_permission(l) ==> r.code@ == "NO_PERMISSION"@
            &&& (!diag_is_permission(l) && diag_is_no_space(l)) ==> r.code@ == "NO_SPACE"@
            &&& (!diag_is_permission(l) && !diag_is_no_space(l) && diag_is_encoder_fail(l))
                ==> r.code@ == "ENCODER_FAIL"@
            &&& (!diag_is_permission(l) && !diag_is_no_space(l) && !diag_is_encoder_fail(l))
                ==> r.code@ == "IO_FAIL"@
            &&& r.suggestion is Some
        }),
{
    let lower = lower_bytes(stderr.as_bytes());
    let l = lower.as_slice();
    let p1: Vec<u8> = vec![
        112u8, 101u8, 114u8, 109u8, 105u8, 115u8, 115u8, 105u8, 111u8, 110u8, 32u8, 100u8, 101u8,
        110u8, 105u8, 101u8, 100u8,
    ];
    let p2: Vec<u8> = vec![
        97u8, 99u8, 99u8, 101u8, 115u8, 115u8, 32u8, 105u8, 115u8, 32u8, 100u8, 101u8, 110u8,
        105u8, 101u8, 100u8,
    ];
    proof {
        assert(p1@ =~= np_permission());
        assert(p2@ =~= np_access());
    }
    if has_sub(l, p1.as_slice()) || has_sub(l, p2.as_slice()) {
        return AppError::new(
            "NO_PERMISSION",
            "the export path is not writable",
            Some("switch to a writable output path and retry".to_owned()),
        );
    }
    let s1: Vec<u8> = vec![
        110u8, 111u8, 32u8, 115u8, 112u8, 97u8, 99u8, 101u8, 32u8, 108u8, 101u8, 102u8, 116u8,
        32u8, 111u8, 110u8, 32u8, 100u8, 101u8, 118u8, 105u8, 99u8, 101u8,
    ];
    let s2: Vec<u8> = vec![
        116u8, 104u8, 101u8, 114u8, 101u8, 32u8, 105u8, 115u8, 32u8, 110u8, 111u8, 116u8, 32u8,
        101u8, 110u8, 111u8, 117u8, 103u8, 104u8, 32u8, 115u8, 112u8, 97u8, 99u8, 101u8,
    ];
    proof {
        assert(s1@ =~= np_no_space());
        assert(s2@ =~= np_not_enough());
    }
    if has_sub(l, s1.as_slice()) || has_sub(l, s2.as_slice()) {
        return AppError::new(
            "NO_SPACE",
            "the disk is out of space; export failed",
            Some("free some space and retry the export".to_owned()),
        );
    }
    let e1: Vec<u8> = vec![
        117u8, 110u8, 107u8, 110u8, 111u8, 119u8, 110u8, 32u8, 101u8, 110u8, 99u8, 111u8, 100u8,
        101u8, 114u8,
    ];
    let e2: Vec<u8> = vec![
        101u8, 114u8, 114u8, 111u8, 114u8, 32u8, 119u8, 104u8, 105u8, 108u8, 101u8, 32u8, 111u8,
        112u8, 101u8, 110u8, 105u8, 110u8, 103u8, 32u8, 101u8, 110u8, 99u8, 111u8, 100u8, 101u8,
        114u8,
    ];
    let e3: Vec<u8> = vec![
        99u8, 97u8, 110u8, 110u8, 111u8, 116u8, 32u8, 111u8, 112u8, 101u8, 110u8, 32u8, 101u8,
        110u8, 99u8, 111u8, 100u8, 101u8, 114u8,
    ];
    proof {
        assert(e1@ =~= np_unknown_enc());
        assert(e2@ =~= np_err_open_enc());
        assert(e3@ =~= np_cannot_open());
    }
    if has_sub(l, e1.as_slice()) || has_sub(l, e2.as_slice()) || has_sub(l, e3.as_slice()) {
        return AppError::new(
            "ENCODER_FAIL",
            "the encoder failed to initialize",
            Some("software encoding will be tried; check the encoder drivers".to_owned()),
        );
    }
    AppError::new(
        "IO_FAIL",
        "export failed",
        Some("check the export log and retry".to_owned()),
    )
}

/// Whether the export actually used the software fallback: the
/// output came from `libx264` although the platform preferred a
/// hardware codec.
pub fn used_fallback(used_codec: &str, hw_codec: &str) -> (r: bool)
    ensures
        r == (used_codec@ == "libx264"@ && hw_codec@ != "libx264"@),
{
    crate::text::str_eq(used_codec, "libx264") && !crate::text::str_eq(hw_codec, "libx264")
}

/// The stable status keyword of an export state.
pub fn export_state_key(state: ExportState) -> (r: &'static str)
    ensures
        state == ExportState::Queued ==> r@ == "queued"@,
        state == ExportState::Running ==> r@ == "running"@,
        state == ExportState::Fallback ==> r@ == "fallback"@,
        state == ExportState::Success ==> r@ == "success"@,
        state == ExportState::Failed ==> r@ == "failed"@,
{
    match state {
        ExportState::Queued => "queued",
        ExportState::Running => "running",
        ExportState::Fallback => "fallback",
        ExportState::Success => "success",
        ExportState::Failed => "failed",
    }
}

/// The export state named by a status keyword; `None` for an
/// unknown keyword, which leaves a task's state untouched.
pub fn status_key_to_state(key: &str) -> (r: Option<ExportState>)
    ensures
        key@ == "queued"@ ==> r == Some(ExportState::Queued),
        key@ == "running"@ ==> r == Some(ExportState::Running),
        key@ == "fallback"@ ==> r == Some(ExportState::Fallback),
        key@ == "success"@ ==> r == Some(ExportState::Success),
        key@ == "failed"@ ==> r == Some(ExportState::Failed),
        (key@ != "queued"@ && key@ != "running"@ && key@ != "fallback"@ && key@ != "success"@
            && key@ != "failed"@) ==> r is None,
{
    proof {
        reveal_strlit("queued");
        reveal_strlit("running");
        reveal_strlit("fallback");
        reveal_strlit("success");
        reveal_strlit("failed");
        assert("queued"@.len() == 6 && "running"@.len() == 7 && "fallback"@.len() == 8
            && "success"@.len() == 7 && "failed"@.len() == 6);
        assert(("running"@)[0] == 'r' && ("success"@)[0] == 's');
        assert(("queued"@)[0] == 'q' && ("failed"@)[0] == 'f');
        assert("running"@ != "success"@);
        assert("queued"@ != "failed"@);
    }
    if crate::text::str_eq(key, "queued") {
        Some(ExportState::Queued)
    } else if crate::text::str_eq(key, "running") {
        Some(ExportState::Running)
    } else if crate::text::str_eq(key, "fallback") {
        Some(ExportState::Fallback)
    } else if crate::text::str_eq(key, "success") {
        Some(ExportState::Success)
    } else if crate::text::str_eq(key, "failed") {
        Some(ExportState::Failed)
    } else {
        None
    }
}

/// The planned milestone events of an export task, in order:
/// queued, parsing, encoding, an optional fallback notice when the
/// hardware encoder is unavailable, muxing, success. Progress is
/// monotonically non-decreasing from 0 to 100.
pub fn planned_progress(task_id: &str, hw_encoder: HardwareEncoderAvailability) -> (r: Vec<
    ExportProgressEvent,
>)
    ensures
        r@.len() == (if hw_encoder.available {
            5int
        } else {
            6int
        }),
        forall|i: int| 0 <= i < r@.len() ==> (#[trigger] r@[i]).task_id@ == task_id@,
        forall|i: int, j: int| 0 <= i <= j < r@.len() ==> (#[trigger] r@[i]).progress <= (
        #[trigger] r@[j]).progress,
        r@[0].status@ == "queued"@ && r@[0].progress == 0,
        r@[r@.len() - 1].status@ == "success"@ && r@[r@.len() - 1].progress == 100,
        !hw_encoder.available ==> r@[3].status@ == "fallback"@ && r@[3].progress == 62,
{
    let mut events: Vec<ExportProgressEvent> = Vec::new();
    events.push(
        ExportProgressEvent {
            task_id: task_id.to_owned(),
            status: "queued".to_owned(),
            progress: 0,
            detail: "export task queued".to_owned(),
        },
    );
    events.push(
        ExportProgressEvent {
            task_id: task_id.to_owned(),
            status: "running".to_owned(),
            progress: 20,
            detail: "parsing project configuration".to_owned(),
        },
    );
    events.push(
        ExportProgressEvent {
            task_id: task_id.to_owned(),
            status: "running".to_owned(),
            progress: 50,
            detail: "encoding video stream".to_owned(),
        },
    );
    if !hw_encoder.available {
        let detail = String::from_str("hardware encoder (").concat(
            hw_encoder.codec.as_str(),
        ).concat(") unavailable; falling back to software encoding");
        events.push(
            ExportProgressEvent {
                task_id: task_id.to_owned(),
                status: "fallback".to_owned(),
                progress: 62,
                detail,
            },
        );
    }
    events.push(
        ExportProgressEvent {
            task_id: task_id.to_owned(),
            status: "running".to_owned(),
            progress: 85,
            detail: "muxing MP4 container".to_owned(),
        },
    );
    events.push(
        ExportProgressEvent {
            task_id: task_id.to_owned(),
            status: "success".to_owned(),
            progress: 100,
            detail: "export finished".to_owned(),
        },
    );
    events
}

} // verus!
