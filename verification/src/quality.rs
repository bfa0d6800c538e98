use vstd::prelude::*;

verus! {

/// Result of holding derived quality metrics against the fixed
/// release thresholds.
#[derive(Debug, Clone)]
pub struct QualityGateResult {
    pub passed: bool,
    pub reasons: Vec<String>,
}

/// Largest tolerated absolute A/V offset, in milliseconds.
pub const MAX_AV_OFFSET_MS: i64 = 100;

/// Largest tolerated average drop rate, in hundredths of a percent.
pub const MAX_AVG_DROP_RATE: i64 = 200;

/// Largest tolerated peak drop rate, in hundredths of a percent.
pub const MAX_PEAK_DROP_RATE: i64 = 500;

/// A negative drop rate is the sentinel for "not measured".
pub open spec fn drop_data_missing(avg_drop_rate: i64, peak_drop_rate: i64) -> bool {
    avg_drop_rate < 0 || peak_drop_rate < 0
}

pub open spec fn av_offset_out_of_band(av_offset_ms: i64) -> bool {
    av_offset_ms > MAX_AV_OFFSET_MS || av_offset_ms < -MAX_AV_OFFSET_MS
}

pub open spec fn avg_drop_out_of_band(avg_drop_rate: i64) -> bool {
    avg_drop_rate > MAX_AVG_DROP_RATE
}

pub open spec fn peak_drop_out_of_band(peak_drop_rate: i64) -> bool {
    peak_drop_rate > MAX_PEAK_DROP_RATE
}

/// The full list of rejection reasons for the given metrics, in
/// the order they are listed.
pub open spec fn quality_reasons(
    av_offset_ms: i64,
    avg_drop_rate: i64,
    peak_drop_rate: i64,
) -> Seq<Seq<char>> {
    (if drop_data_missing(avg_drop_rate, peak_drop_rate) {
        seq!["missing drop rate data; check export log collection"@]
    } else {
        Seq::<Seq<char>>::empty()
    }) + (if av_offset_out_of_band(av_offset_ms) {
        seq!["a/v offset above threshold (limit 100ms)"@]
    } else {
        Seq::<Seq<char>>::empty()
    }) + (if avg_drop_out_of_band(avg_drop_rate) {
        seq!["average drop rate above threshold (limit 2%)"@]
    } else {
        Seq::<Seq<char>>::empty()
    }) + (if peak_drop_out_of_band(peak_drop_rate) {
        seq!["peak drop rate above threshold (limit 5%)"@]
    } else {
        Seq::<Seq<char>>::empty()
    })
}

/// Quality check over the derived export metrics. Drop rates are
/// in hundredths of a percent; a negative rate is the "not
/// measured" sentinel and is rejected with a single distinct reason.
pub fn validate_mvp_quality(av_offset_ms: i64, avg_drop_rate: i64, peak_drop_rate: i64) -> (r:
    QualityGateResult)
    ensures
        r.reasons@.map_values(|s: String| s@) == quality_reasons(
            av_offset_ms,
            avg_drop_rate,
            peak_drop_rate,
        ),
        r.passed <==> quality_reasons(av_offset_ms, avg_drop_rate, peak_drop_rate).len() == 0,
{
    let mut reasons: Vec<String> = Vec::new();
    if avg_drop_rate < 0 || peak_drop_rate < 0 {
        reasons.push("missing drop rate data; check export log collection".to_owned());
    }
    if av_offset_ms > MAX_AV_OFFSET_MS || av_offset_ms < -MAX_AV_OFFSET_MS {
        reasons.push("a/v offset above threshold (limit 100ms)".to_owned());
    }
    if avg_drop_rate > MAX_AVG_DROP_RATE {
        reasons.push("average drop rate above threshold (limit 2%)".to_owned());
    }
    if peak_drop_rate > MAX_PEAK_DROP_RATE {
        reasons.push("peak drop rate above threshold (limit 5%)".to_owned());
    }
    let passed = reasons.len() == 0;
    proof {
        assert(reasons@.map_values(|s: String| s@) =~= quality_reasons(
            av_offset_ms,
            avg_drop_rate,
            peak_drop_rate,
        ));
    }
    QualityGateResult { passed, reasons }
}

} // verus!
