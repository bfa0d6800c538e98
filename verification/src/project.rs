use vstd::prelude::*;
use vstd::string::StringSliceAdditionalSpecFns;
use vstd::string::StrSliceExecFns;

use crate::clock::now_ms;
use crate::errors::AppError;
use crate::metrics::{drop_key_spec, log_drop_rates, rates_of, seq_max, seq_sum, RATE_CAP};
use crate::models::{ProjectManifest, ProjectStatus, TimelinePatch, CameraMotionPatch};
use crate::probe::{calc_av_offset_ms, clamp_i64, ProbeSummary};
use crate::quality::{quality_reasons, validate_mvp_quality};

use crate::text::contains_sub;
use vstd::multiset::Multiset;

verus! {

/// One row of the project list: identity, timestamps, status and
/// the artifact paths a frontend needs.
#[derive(Debug, Clone)]
pub struct ProjectListItem {
    pub project_id: String,
    pub title: Option<String>,
    pub created_at_ms: i64,
    pub updated_at_ms: i64,
    pub status: ProjectStatus,
    pub duration_ms: u64,
    pub has_export: bool,
    pub export_path: Option<String>,
    pub raw_path: Option<String>,
}

/// Overall verdict of the release quality check for one project,
/// with every reason it did not pass.
#[derive(Debug, Clone)]
pub struct QualityGateStatus {
    pub passed: bool,
    pub reasons: Vec<String>,
}

/// Apply a partial timeline update; absent fields keep their value.
/// The update timestamp is refreshed from the wall clock.
pub fn apply_timeline_patch(manifest: &mut ProjectManifest, patch: TimelinePatch)
    ensures
        final(manifest).timeline.trim_start_ms == (match patch.trim_start_ms {
            Some(v) => v,
            None => old(manifest).timeline.trim_start_ms,
        }),
        final(manifest).timeline.trim_end_ms == (match patch.trim_end_ms {
            Some(v) => v,
            None => old(manifest).timeline.trim_end_ms,
        }),
        final(manifest).timeline.aspect_ratio == (match patch.aspect_ratio {
            Some(v) => v,
            None => old(manifest).timeline.aspect_ratio,
        }),
        final(manifest).timeline.cursor_highlight_enabled == (match patch.cursor_highlight_enabled {
            Some(v) => v,
            None => old(manifest).timeline.cursor_highlight_enabled,
        }),
        *final(manifest) == (ProjectManifest {
            timeline: final(manifest).timeline,
            updated_at_ms: final(manifest).updated_at_ms,
            ..*old(manifest)
        }),
{
    if let Some(trim_start_ms) = patch.trim_start_ms {
        manifest.timeline.trim_start_ms = trim_start_ms;
    }
    if let Some(trim_end_ms) = patch.trim_end_ms {
        manifest.timeline.trim_end_ms = trim_end_ms;
    }
    if let Some(aspect_ratio) = patch.aspect_ratio {
        manifest.timeline.aspect_ratio = aspect_ratio;
    }
    if let Some(cursor_highlight_enabled) = patch.cursor_highlight_enabled {
        manifest.timeline.cursor_highlight_enabled = cursor_highlight_enabled;
    }
    manifest.updated_at_ms = now_ms();
}

/// A timeline is invalid when a nonzero trim end precedes the trim
/// start.
pub fn validate_timeline(manifest: &ProjectManifest) -> (r: Result<(), AppError>)
    ensures
        r is Ok <==> !(manifest.timeline.trim_end_ms > 0 && manifest.timeline.trim_end_ms
            < manifest.timeline.trim_start_ms),
        r matches Err(e) ==> e.code@ == "INVALID_TIMELINE"@,
{
    if manifest.timeline.trim_end_ms > 0 && manifest.timeline.trim_end_ms
        < manifest.timeline.trim_start_ms {
        Err(
            AppError::new(
                "INVALID_TIMELINE",
                "the trim end must come after the trim start",
                Some("adjust the trim range".to_owned()),
            ),
        )
    } else {
        Ok(())
    }
}

/// Apply a partial camera-motion update; numeric fields are clamped
/// into their documented ranges. The update timestamp is refreshed
/// from the wall clock.
pub fn apply_camera_motion_patch(manifest: &mut ProjectManifest, patch: CameraMotionPatch)
    ensures
        final(manifest).camera_motion.enabled == (match patch.enabled {
            Some(v) => v,
            None => old(manifest).camera_motion.enabled,
        }),
        final(manifest).camera_motion.intensity == (match patch.intensity {
            Some(v) => v,
            None => old(manifest).camera_motion.intensity,
        }),
        final(manifest).camera_motion.smoothing == (match patch.smoothing {
            Some(v) => crate::motion::clamp_spec(v as int, 0, 1000),
            None => old(manifest).camera_motion.smoothing as int,
        }),
        final(manifest).camera_motion.max_zoom == (match patch.max_zoom {
            Some(v) => crate::motion::clamp_spec(v as int, 1000, 2000),
            None => old(manifest).camera_motion.max_zoom as int,
        }),
        final(manifest).camera_motion.idle_threshold_ms == (match patch.idle_threshold_ms {
            Some(v) => crate::motion::clamp_spec(v as int, 120, 900),
            None => old(manifest).camera_motion.idle_threshold_ms as int,
        }),
        *final(manifest) == (ProjectManifest {
            camera_motion: final(manifest).camera_motion,
            updated_at_ms: final(manifest).updated_at_ms,
            ..*old(manifest)
        }),
{
    if let Some(enabled) = patch.enabled {
        manifest.camera_motion.enabled = enabled;
    }
    if let Some(intensity) = patch.intensity {
        manifest.camera_motion.intensity = intensity;
    }
    if let Some(smoothing) = patch.smoothing {
        manifest.camera_motion.smoothing = if smoothing < 0 {
            0
        } else if smoothing > 1000 {
            1000
        } else {
            smoothing
        };
    }
    if let Some(max_zoom) = patch.max_zoom {
        manifest.camera_motion.max_zoom = if max_zoom < 1000 {
            1000
        } else if max_zoom > 2000 {
            2000
        } else {
            max_zoom
        };
    }
    if let Some(idle_threshold_ms) = patch.idle_threshold_ms {
        manifest.camera_motion.idle_threshold_ms = if idle_threshold_ms < 120 {
            120
        } else if idle_threshold_ms > 900 {
            900
        } else {
            idle_threshold_ms
        };
    }
    manifest.updated_at_ms = now_ms();
}

/// Set or clear a project's title: a whitespace-only title clears
/// it. The update timestamp is refreshed from the wall clock.
pub fn apply_title(manifest: &mut ProjectManifest, title: &str)
    ensures
        ({
            let t = title@;
            if trimmed_range(t).0 >= trimmed_range(t).1 {
                final(manifest).title is None
            } else {
                final(manifest).title matches Some(s) && s@ == t.subrange(
                    trimmed_range(t).0,
                    trimmed_range(t).1,
                )
            }
        }),
        *final(manifest) == (ProjectManifest {
            title: final(manifest).title,
            updated_at_ms: final(manifest).updated_at_ms,
            ..*old(manifest)
        }),
{
    let n = title.unicode_len();
    let mut lo: usize = 0;
    while lo < n && is_space_char(title.get_char(lo))
        invariant
            0 <= lo <= n == title@.len(),
            forall|j: int| 0 <= j < lo ==> is_space_char_spec(#[trigger] title@[j]),
        decreases n - lo,
    {
        lo = lo + 1;
    }
    let mut hi: usize = n;
    while hi > lo && is_space_char(title.get_char(hi - 1))
        invariant
            lo <= hi <= n == title@.len(),
            forall|j: int| 0 <= j < lo ==> is_space_char_spec(#[trigger] title@[j]),
            lo < n ==> !is_space_char_spec(title@[lo as int]),
            forall|j: int| hi <= j < n ==> is_space_char_spec(#[trigger] title@[j]),
        decreases hi,
    {
        hi = hi - 1;
    }
    proof {
        lemma_trimmed_range_is(title@, lo as int, hi as int);
    }
    if lo >= hi {
        manifest.title = None;
    } else {
        manifest.title = Some(title.substring_char(lo, hi).to_owned());
    }
    manifest.updated_at_ms = now_ms();
}

pub open spec fn is_space_char_spec(c: char) -> bool {
    c == ' ' || c == '\t' || c == '\n' || c == '\r' || c == '\u{b}' || c == '\u{c}'
}

fn is_space_char(c: char) -> (r: bool)
    ensures
        r == is_space_char_spec(c),
{
    c == ' ' || c == '\t' || c == '\n' || c == '\r' || c == '\u{b}' || c == '\u{c}'
}

/// The index range left after trimming whitespace on both ends.
pub open spec fn trimmed_range(t: Seq<char>) -> (int, int) {
    let lo = choose|lo: int| trim_lo_ok(t, lo);
    let hi = choose|hi: int| trim_hi_ok(t, lo, hi);
    (lo, hi)
}

pub open spec fn trim_lo_ok(t: Seq<char>, lo: int) -> bool {
    &&& 0 <= lo <= t.len()
    &&& forall|j: int| 0 <= j < lo ==> is_space_char_spec(#[trigger] t[j])
    &&& (lo < t.len() ==> !is_space_char_spec(t[lo]))
}

pub open spec fn trim_hi_ok(t: Seq<char>, lo: int, hi: int) -> bool {
    &&& lo <= hi <= t.len()
    &&& forall|j: int| hi <= j < t.len() ==> is_space_char_spec(#[trigger] t[j])
    &&& (hi > lo ==> !is_space_char_spec(t[hi - 1]))
}

proof fn lemma_trim_lo_unique(t: Seq<char>, a: int, b: int)
    requires
        trim_lo_ok(t, a),
        trim_lo_ok(t, b),
    ensures
        a == b,
{
    if a < b {
        assert(is_space_char_spec(t[a]));
    }
    if b < a {
        assert(is_space_char_spec(t[b]));
    }
}

proof fn lemma_trim_hi_unique(t: Seq<char>, lo: int, a: int, b: int)
    requires
        trim_hi_ok(t, lo, a),
        trim_hi_ok(t, lo, b),
    ensures
        a == b,
{
    if a < b {
        assert(is_space_char_spec(t[b - 1]));
    }
    if b < a {
        assert(is_space_char_spec(t[a - 1]));
    }
}

pub proof fn lemma_trimmed_range_is(t: Seq<char>, lo: int, hi: int)
    requires
        trim_lo_ok(t, lo),
        trim_hi_ok(t, lo, hi),
    ensures
        trimmed_range(t) == (lo, hi),
{
    let clo = choose|x: int| trim_lo_ok(t, x);
    lemma_trim_lo_unique(t, lo, clo);
    let chi = choose|x: int| trim_hi_ok(t, clo, x);
    lemma_trim_hi_unique(t, clo, hi, chi);
}

/// The list row of one project's manifest: duration from the trim
/// range, export presence from the artifacts.
pub fn project_list_item(project_id: &str, manifest: &ProjectManifest) -> (r: ProjectListItem)
    ensures
        r.project_id@ == project_id@,
        r.title == manifest.title,
        r.created_at_ms == manifest.created_at_ms,
        r.updated_at_ms == manifest.updated_at_ms,
        r.status == manifest.status,
        r.duration_ms == crate::motion::sat_sub_spec(
            manifest.timeline.trim_end_ms as int,
            manifest.timeline.trim_start_ms as int,
        ),
        r.has_export == (manifest.artifacts.last_export_path is Some),
        r.export_path == manifest.artifacts.last_export_path,
        r.raw_path == manifest.artifacts.raw_recording_path,
{
    let duration_ms = if manifest.timeline.trim_end_ms >= manifest.timeline.trim_start_ms {
        manifest.timeline.trim_end_ms - manifest.timeline.trim_start_ms
    } else {
        0
    };
    ProjectListItem {
        project_id: project_id.to_owned(),
        title: clone_opt_string(&manifest.title),
        created_at_ms: manifest.created_at_ms,
        updated_at_ms: manifest.updated_at_ms,
        status: manifest.status,
        duration_ms,
        has_export: match &manifest.artifacts.last_export_path {
            Some(_) => true,
            None => false,
        },
        export_path: clone_opt_string(&manifest.artifacts.last_export_path),
        raw_path: clone_opt_string(&manifest.artifacts.raw_recording_path),
    }
}

fn clone_opt_string(s: &Option<String>) -> (r: Option<String>)
    ensures
        r == *s,
{
    match s {
        Some(v) => Some(v.clone()),
        None => None,
    }
}

/// The full quality-gate verdict for a project: precondition
/// reasons (no successful export yet, missing artifacts) followed
/// by the metric reasons of `validate_mvp_quality`.
pub fn quality_gate_status(
    manifest: &ProjectManifest,
    has_export_file: bool,
    has_log_file: bool,
) -> (r: QualityGateStatus)
    ensures
        ({
            let pre: Seq<Seq<char>> = (if manifest.status != ProjectStatus::ExportSucceeded {
                seq!["no successful export yet; the quality gate cannot run"@]
            } else {
                Seq::<Seq<char>>::empty()
            }) + (if !has_export_file {
                seq!["the exported video file is missing; a/v metrics cannot be checked"@]
            } else {
                Seq::<Seq<char>>::empty()
            }) + (if !has_log_file {
                seq!["the export log is missing; drop rate metrics cannot be checked"@]
            } else {
                Seq::<Seq<char>>::empty()
            });
            let metric = quality_reasons(
                manifest.quality.av_offset_ms,
                manifest.quality.avg_drop_rate,
                manifest.quality.peak_drop_rate,
            );
            &&& r.reasons@.map_values(|s: String| s@) == pre + metric
            &&& (r.passed <==> (pre + metric).len() == 0)
        }),
{
    let mut reasons: Vec<String> = Vec::new();
    if manifest.status != ProjectStatus::ExportSucceeded {
        reasons.push("no successful export yet; the quality gate cannot run".to_owned());
    }
    if !has_export_file {
        reasons.push("the exported video file is missing; a/v metrics cannot be checked".to_owned());
    }
    if !has_log_file {
        reasons.push("the export log is missing; drop rate metrics cannot be checked".to_owned());
    }
    let gate = validate_mvp_quality(
        manifest.quality.av_offset_ms,
        manifest.quality.avg_drop_rate,
        manifest.quality.peak_drop_rate,
    );
    let mut k: usize = 0;
    let ghost pre_seq = reasons@;
    while k < gate.reasons.len()
        invariant
            0 <= k <= gate.reasons@.len(),
            reasons@ =~= pre_seq + gate.reasons@.subrange(0, k as int),
        decreases gate.reasons@.len() - k,
    {
        reasons.push(gate.reasons[k].clone());
        proof {
            assert(reasons@ =~= pre_seq + gate.reasons@.subrange(0, k + 1));
        }
        k = k + 1;
    }
    let passed = reasons.len() == 0;
    proof {
        assert(reasons@ =~= pre_seq + gate.reasons@) by {
            assert(gate.reasons@.subrange(0, gate.reasons@.len() as int) =~= gate.reasons@);
        }
        let pre: Seq<Seq<char>> = (if manifest.status != ProjectStatus::ExportSucceeded {
            seq!["no successful export yet; the quality gate cannot run"@]
        } else {
            Seq::<Seq<char>>::empty()
        }) + (if !has_export_file {
            seq!["the exported video file is missing; a/v metrics cannot be checked"@]
        } else {
            Seq::<Seq<char>>::empty()
        }) + (if !has_log_file {
            seq!["the export log is missing; drop rate metrics cannot be checked"@]
        } else {
            Seq::<Seq<char>>::empty()
        });
        let metric = quality_reasons(
            manifest.quality.av_offset_ms,
            manifest.quality.avg_drop_rate,
            manifest.quality.peak_drop_rate,
        );
        assert forall|j: int| 0 <= j < reasons@.len() implies reasons@.map_values(
            (|s: String| s@),
        )[j] == #[trigger] (pre + metric)[j] by {
            if j >= pre_seq.len() {
                assert(gate.reasons@.map_values((|s: String| s@))[j - pre_seq.len()] == metric[j
                    - pre_seq.len()]);
            }
        }
        assert(reasons@.map_values(|s: String| s@) =~= pre + metric);
    }
    QualityGateStatus { passed, reasons }
}

/// Record a successful export on the manifest: status, artifact
/// paths, the A/V offset from the output probe, the default trim end
/// from the container duration, and the drop rates parsed from the
/// diagnostic log (the sentinel when it has no drop markers).
pub fn apply_export_success(
    manifest: &mut ProjectManifest,
    output_path: &str,
    log_path: &str,
    probe: Option<&ProbeSummary>,
    log_text: &str,
)
    ensures
        final(manifest).status == ProjectStatus::ExportSucceeded,
        final(manifest).artifacts.last_export_path matches Some(p) && p@ == output_path@,
        final(manifest).artifacts.export_log_path matches Some(p) && p@ == log_path@,
        final(manifest).artifacts.raw_recording_path == old(manifest).artifacts.raw_recording_path,
        final(manifest).artifacts.cursor_track_path == old(manifest).artifacts.cursor_track_path,
        probe matches Some(s) ==> final(manifest).quality.av_offset_ms == (
        if s.video_duration_ms is Some && s.audio_duration_ms is Some {
            clamp_i64(s.video_duration_ms.unwrap() - s.audio_duration_ms.unwrap())
        } else {
            0
        }),
        probe is None ==> final(manifest).quality.av_offset_ms == old(manifest).quality.av_offset_ms,
        (probe is Some && old(manifest).timeline.trim_end_ms == 0) ==> final(manifest).timeline.trim_end_ms == probe.unwrap().container_duration_ms,
        (probe is None || old(manifest).timeline.trim_end_ms != 0) ==> final(manifest).timeline.trim_end_ms == old(manifest).timeline.trim_end_ms,
        !contains_sub(log_text.spec_bytes(), drop_key_spec()) ==> final(manifest).quality.avg_drop_rate == crate::metrics::DROP_RATE_UNAVAILABLE && final(manifest).quality.peak_drop_rate == crate::metrics::DROP_RATE_UNAVAILABLE,
        contains_sub(log_text.spec_bytes(), drop_key_spec()) ==> 0 <= final(manifest).quality.avg_drop_rate <= final(manifest).quality.peak_drop_rate <= RATE_CAP && (rates_of(
            log_text.spec_bytes(),
        ).len() > 0 ==> final(manifest).quality.avg_drop_rate == seq_sum(
            rates_of(log_text.spec_bytes()),
        ) / rates_of(log_text.spec_bytes()).len() as int && final(manifest).quality.peak_drop_rate
            == seq_max(rates_of(log_text.spec_bytes()))),
{
    manifest.status = ProjectStatus::ExportSucceeded;
    manifest.updated_at_ms = now_ms();
    manifest.artifacts.last_export_path = Some(output_path.to_owned());
    manifest.artifacts.export_log_path = Some(log_path.to_owned());
    if let Some(summary) = probe {
        manifest.quality.av_offset_ms = calc_av_offset_ms(
            summary.video_duration_ms,
            summary.audio_duration_ms,
        );
        if manifest.timeline.trim_end_ms == 0 {
            manifest.timeline.trim_end_ms = summary.container_duration_ms;
        }
    }
    let (avg, peak) = log_drop_rates(log_text);
    manifest.quality.avg_drop_rate = avg;
    manifest.quality.peak_drop_rate = peak;
}

/// Record a failed export on the manifest.
pub fn apply_export_failed(manifest: &mut ProjectManifest, error: AppError)
    ensures
        final(manifest).status == ProjectStatus::ExportFailed,
        final(manifest).last_error == Some(error),
        final(manifest).artifacts == old(manifest).artifacts,
        final(manifest).quality == old(manifest).quality,
        final(manifest).timeline == old(manifest).timeline,
{
    manifest.status = ProjectStatus::ExportFailed;
    manifest.last_error = Some(error);
    manifest.updated_at_ms = now_ms();
}

/// Record a started export on the manifest.
pub fn apply_export_started(manifest: &mut ProjectManifest, profile: crate::models::ExportProfile)
    ensures
        final(manifest).status == ProjectStatus::Exporting,
        final(manifest).export == profile,
        final(manifest).artifacts == old(manifest).artifacts,
        final(manifest).timeline == old(manifest).timeline,
{
    manifest.status = ProjectStatus::Exporting;
    manifest.export = profile;
    manifest.updated_at_ms = now_ms();
}

/// Order project rows most recently updated first: the result is a
/// permutation of the input, sorted by the update timestamp in
/// descending order.
pub fn sort_projects_by_recency(items: Vec<ProjectListItem>) -> (r: Vec<ProjectListItem>)
    ensures
        r@.len() == items@.len(),
        r@.to_multiset() == items@.to_multiset(),
        forall|i: int, j: int|
            0 <= i <= j < r@.len() ==> (#[trigger] r@[i]).updated_at_ms >= (
            #[trigger] r@[j]).updated_at_ms,
{
    let ghost orig = items@;
    let mut remaining = items;
    let mut out: Vec<ProjectListItem> = Vec::new();
    proof {
        assert(out@.to_multiset().add(remaining@.to_multiset()) =~= orig.to_multiset()) by {
            out@.to_multiset_ensures();
            remaining@.to_multiset_ensures();
        }
    }
    while remaining.len() > 0
        invariant
            out@.len() + remaining@.len() == orig.len(),
            out@.to_multiset().add(remaining@.to_multiset()) == orig.to_multiset(),
            forall|i: int, j: int|
                0 <= i <= j < out@.len() ==> (#[trigger] out@[i]).updated_at_ms >= (
                #[trigger] out@[j]).updated_at_ms,
            forall|i: int, j: int|
                0 <= i < out@.len() && 0 <= j < remaining@.len() ==> (
                #[trigger] out@[i]).updated_at_ms >= (#[trigger] remaining@[j]).updated_at_ms,
        decreases remaining@.len(),
    {
        let n = remaining.len();
        let mut best: usize = 0;
        let mut k: usize = 1;
        while k < n
            invariant
                0 <= best < k <= n == remaining@.len(),
                forall|j: int|
                    0 <= j < k ==> remaining@[best as int].updated_at_ms >= (
                    #[trigger] remaining@[j]).updated_at_ms,
            decreases n - k,
        {
            if remaining[k].updated_at_ms > remaining[best].updated_at_ms {
                best = k;
            }
            k = k + 1;
        }
        let ghost pre = remaining@;
        let ghost preout = out@;
        let v = remaining.remove(best);
        out.push(v);
        proof {
            pre.to_multiset_ensures();
            preout.to_multiset_ensures();
            assert(remaining@.to_multiset() =~= pre.to_multiset().remove(v));
            assert(out@.to_multiset() =~= preout.to_multiset().insert(v));
            assert(out@.to_multiset().add(remaining@.to_multiset()) =~= preout.to_multiset().add(
                pre.to_multiset(),
            )) by {
                pre.to_multiset_ensures();
                assert(pre.to_multiset().count(v) > 0);
            }
        }
    }
    proof {
        assert(remaining@.to_multiset() =~= Multiset::<ProjectListItem>::empty()) by {
            remaining@.to_multiset_ensures();
        }
        assert(out@.to_multiset() =~= orig.to_multiset());
        assert(out@.len() == orig.len());
    }
    out
}

} // verus!
