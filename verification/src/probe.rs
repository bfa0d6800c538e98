use vstd::prelude::*;
use vstd::string::StringSliceAdditionalSpecFns;

use crate::text::{
    bytes_eq, lemma_scaled_decimal_bounds, parse_decimal, scaled_decimal_val, valid_decimal_token,
};

verus! {

/// Per-stream and container durations of a probed media file, in
/// milliseconds; a stream duration is `None` when the probe did not
/// report one that could be read.
pub struct ProbeSummary {
    pub container_duration_ms: u64,
    pub video_duration_ms: Option<u64>,
    pub audio_duration_ms: Option<u64>,
}

/// One stream row of a media probe: its codec type (`video`,
/// `audio`, ...) and its duration in seconds, both as the probe
/// printed them.
pub struct ProbeStreamInfo<'a> {
    pub codec_type: Option<&'a str>,
    pub duration: Option<&'a str>,
}

/// ASCII minus sign.
pub const MINUS: u8 = 45;

/// Milliseconds encoded by a probe duration string (seconds with a
/// fractional part): a negative duration reads as zero, and a string
/// that is not a decimal does not read at all.
pub open spec fn duration_ms_val(b: Seq<u8>) -> Option<int> {
    if b.len() >= 1 && b[0] == MINUS {
        if valid_decimal_token(b.skip(1)) {
            Some(0)
        } else {
            None
        }
    } else if valid_decimal_token(b) {
        Some(scaled_decimal_val(b, 3))
    } else {
        None
    }
}

/// Parse an optional probe duration (in seconds) into milliseconds.
pub fn parse_duration_ms(raw: Option<&str>) -> (r: Option<u64>)
    ensures
        match raw {
            None => r is None,
            Some(s) => match duration_ms_val(s.spec_bytes()) {
                Some(v) => r == Some(v as u64),
                None => r is None,
            },
        },
{
    let s = match raw {
        Some(s) => s,
        None => {
            return None;
        },
    };
    let b = s.as_bytes();
    let n = b.len();
    if n >= 1 && b[0] == MINUS {
        proof {
            assert(b@.skip(1) =~= b@.subrange(1, n as int));
        }
        match parse_decimal(b, 1, n, 3) {
            Some(_) => Some(0),
            None => None,
        }
    } else {
        proof {
            assert(b@ =~= b@.subrange(0, n as int));
            if valid_decimal_token(b@) {
                lemma_scaled_decimal_bounds(b@, 3);
            }
        }
        parse_decimal(b, 0, n, 3)
    }
}

pub open spec fn clamp_i64(v: int) -> int {
    if v > i64::MAX {
        i64::MAX as int
    } else if v < i64::MIN {
        i64::MIN as int
    } else {
        v
    }
}

/// A/V offset: video duration minus audio duration, in milliseconds;
/// zero when either stream's duration is unknown.
pub fn calc_av_offset_ms(video_duration_ms: Option<u64>, audio_duration_ms: Option<u64>) -> (r:
    i64)
    ensures
        (video_duration_ms is Some && audio_duration_ms is Some) ==> r == clamp_i64(
            video_duration_ms.unwrap() - audio_duration_ms.unwrap(),
        ),
        (video_duration_ms is None || audio_duration_ms is None) ==> r == 0,
{
    match (video_duration_ms, audio_duration_ms) {
        (Some(video), Some(audio)) => {
            if video >= audio {
                let d = video - audio;
                if d > i64::MAX as u64 {
                    i64::MAX
                } else {
                    d as i64
                }
            } else {
                let d = audio - video;
                if d > i64::MAX as u64 {
                    i64::MIN
                } else {
                    -(d as i64)
                }
            }
        },
        _ => 0,
    }
}

pub open spec fn is_stream_kind(s: ProbeStreamInfo, kind: Seq<u8>) -> bool {
    s.codec_type matches Some(ct) && ct.spec_bytes() == kind
}

/// Readable duration in milliseconds of the first stream of the
/// given kind; `None` when no such stream exists or its duration is
/// missing or unreadable.
pub open spec fn kind_duration(ss: Seq<ProbeStreamInfo>, kind: Seq<u8>) -> Option<int>
    decreases ss.len(),
{
    if ss.len() == 0 {
        None
    } else if is_stream_kind(ss[0], kind) {
        match ss[0].duration {
            Some(ds) => duration_ms_val(ds.spec_bytes()),
            None => None,
        }
    } else {
        kind_duration(ss.skip(1), kind)
    }
}

proof fn lemma_kind_duration_at(ss: Seq<ProbeStreamInfo>, kind: Seq<u8>, i: int)
    requires
        0 <= i <= ss.len(),
        forall|j: int| 0 <= j < i ==> !is_stream_kind(#[trigger] ss[j], kind),
        i < ss.len() ==> is_stream_kind(ss[i], kind),
    ensures
        i < ss.len() ==> kind_duration(ss, kind) == (match ss[i].duration {
            Some(ds) => duration_ms_val(ds.spec_bytes()),
            None => None,
        }),
        i == ss.len() ==> kind_duration(ss, kind) is None,
    decreases ss.len(),
{
    if ss.len() > 0 && !is_stream_kind(ss[0], kind) {
        assert(i >= 1);
        assert forall|j: int| 0 <= j < i - 1 implies !is_stream_kind(
            #[trigger] ss.skip(1)[j],
            kind,
        ) by {
            assert(ss.skip(1)[j] == ss[j + 1]);
        }
        if i - 1 < ss.skip(1).len() {
            assert(ss.skip(1)[i - 1] == ss[i]);
        }
        lemma_kind_duration_at(ss.skip(1), kind, i - 1);
    }
}

/// Readable duration of the first stream of the given kind, in
/// milliseconds.
pub fn first_kind_duration_ms(streams: &Vec<ProbeStreamInfo>, kind: &[u8]) -> (r: Option<u64>)
    ensures
        match kind_duration(streams@, kind@) {
            Some(v) => r == Some(v as u64),
            None => r is None,
        },
{
    let n = streams.len();
    let mut i: usize = 0;
    while i < n
        invariant
            0 <= i <= n == streams@.len(),
            forall|j: int| 0 <= j < i ==> !is_stream_kind(#[trigger] streams@[j], kind@),
        decreases n - i,
    {
        let hit = match streams[i].codec_type {
            Some(ct) => bytes_eq(ct.as_bytes(), kind),
            None => false,
        };
        if hit {
            proof {
                lemma_kind_duration_at(streams@, kind@, i as int);
            }
            return parse_duration_ms(streams[i].duration);
        }
        i = i + 1;
    }
    proof {
        lemma_kind_duration_at(streams@, kind@, n as int);
    }
    None
}

/// Assemble the probe summary from the stream rows and the container
/// duration string: per-kind stream durations, and a container
/// duration that falls back to zero when unreadable.
pub fn probe_summary(streams: &Vec<ProbeStreamInfo>, container_duration: Option<&str>) -> (r:
    ProbeSummary)
    ensures
        ({
            let v = kind_duration(streams@, video_kind());
            match v {
                Some(ms) => r.video_duration_ms == Some(ms as u64),
                None => r.video_duration_ms is None,
            }
        }),
        ({
            let a = kind_duration(streams@, audio_kind());
            match a {
                Some(ms) => r.audio_duration_ms == Some(ms as u64),
                None => r.audio_duration_ms is None,
            }
        }),
        r.container_duration_ms == (match container_duration {
            Some(s) => match duration_ms_val(s.spec_bytes()) {
                Some(ms) => ms as u64,
                None => 0,
            },
            None => 0,
        }),
{
    let vk: Vec<u8> = vec![118u8, 105u8, 100u8, 101u8, 111u8];
    let ak: Vec<u8> = vec![97u8, 117u8, 100u8, 105u8, 111u8];
    proof {
        assert(vk@ =~= video_kind());
        assert(ak@ =~= audio_kind());
    }
    let video_duration_ms = first_kind_duration_ms(streams, vk.as_slice());
    let audio_duration_ms = first_kind_duration_ms(streams, ak.as_slice());
    let container_duration_ms = match parse_duration_ms(container_duration) {
        Some(ms) => ms,
        None => 0,
    };
    ProbeSummary { container_duration_ms, video_duration_ms, audio_duration_ms }
}

/// The probe's name for a video stream, as bytes.
pub open spec fn video_kind() -> Seq<u8> {
    seq![118u8, 105u8, 100u8, 101u8, 111u8]
}

/// The probe's name for an audio stream, as bytes.
pub open spec fn audio_kind() -> Seq<u8> {
    seq![97u8, 117u8, 100u8, 105u8, 111u8]
}

} // verus!
