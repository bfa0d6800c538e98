use vstd::prelude::*;
use vstd::string::StringSliceAdditionalSpecFns;
use vstd::string::StrSliceExecFns;

use crate::models::RecordingDevice;
use crate::project::{is_space_char_spec, trimmed_range, trim_lo_ok, trim_hi_ok};
use crate::text::{contains_sub, has_sub, lower_bytes, lower_seq};

verus! {

/// Index of the first occurrence of `c` in `s`; `s.len()` when
/// absent.
pub open spec fn cidx_of(s: Seq<char>, c: char) -> int
    decreases s.len(),
{
    if s.len() == 0 {
        0
    } else if s[0] == c {
        0
    } else {
        1 + cidx_of(s.skip(1), c)
    }
}

pub proof fn lemma_cidx_of_is(s: Seq<char>, c: char, i: int)
    requires
        0 <= i <= s.len(),
        forall|j: int| 0 <= j < i ==> s[j] != c,
        i < s.len() ==> s[i] == c,
    ensures
        cidx_of(s, c) == i,
    decreases s.len(),
{
    if s.len() > 0 && s[0] != c {
        assert(i >= 1);
        assert forall|j: int| 0 <= j < i - 1 implies s.skip(1)[j] != c by {
            assert(s.skip(1)[j] == s[j + 1]);
        }
        if i - 1 < s.skip(1).len() {
            assert(s.skip(1)[i - 1] == s[i]);
        }
        lemma_cidx_of_is(s.skip(1), c, i - 1);
    }
}

/// Find the first occurrence of `c` in `s` at or after `from`.
fn find_char(s: &str, from: usize, c: char) -> (r: usize)
    requires
        from <= s@.len(),
    ensures
        r - from == cidx_of(s@.subrange(from as int, s@.len() as int), c),
        from <= r <= s@.len(),
{
    let n = s.unicode_len();
    let mut i: usize = from;
    while i < n
        invariant
            from <= i <= n == s@.len(),
            forall|j: int| from <= j < i ==> s@[j] != c,
        decreases n - i,
    {
        if s.get_char(i) == c {
            proof {
                lemma_cidx_of_is(s@.subrange(from as int, n as int), c, i - from);
            }
            return i;
        }
        i = i + 1;
    }
    proof {
        lemma_cidx_of_is(s@.subrange(from as int, n as int), c, (n - from) as int);
    }
    n
}

/// The text between the first two double quotes of a line, when
/// both are present.
pub open spec fn quoted_of(s: Seq<char>) -> Option<Seq<char>> {
    let q1 = cidx_of(s, '"');
    if q1 == s.len() {
        None
    } else {
        let rest = s.subrange(q1 + 1, s.len() as int);
        let q2 = cidx_of(rest, '"');
        if q2 == rest.len() {
            None
        } else {
            Some(rest.subrange(0, q2))
        }
    }
}

/// Extract the first double-quoted span of a device listing line.
pub fn extract_quoted(line: &str) -> (r: Option<String>)
    ensures
        match r {
            Some(s) => quoted_of(line@) == Some(s@),
            None => quoted_of(line@) is None,
        },
{
    let n = line.unicode_len();
    let q1 = find_char(line, 0, '"');
    proof {
        assert(line@.subrange(0, n as int) =~= line@);
    }
    if q1 == n {
        return None;
    }
    let q2 = find_char(line, q1 + 1, '"');
    let ghost rest = line@.subrange(q1 + 1, n as int);
    if q2 == n {
        proof {
            assert(cidx_of(rest, '"') == rest.len());
        }
        return None;
    }
    let out = line.substring_char(q1 + 1, q2).to_owned();
    proof {
        assert(out@ =~= rest.subrange(0, q2 - (q1 + 1)));
    }
    Some(out)
}

/// The bracketed device index of a listing line, with surrounding
/// whitespace dropped.
pub open spec fn bracketed_index_of(s: Seq<char>) -> Option<Seq<char>> {
    let l = cidx_of(s, '[');
    if l == s.len() {
        None
    } else {
        let rest = s.subrange(l + 1, s.len() as int);
        let r = cidx_of(rest, ']');
        if r == rest.len() {
            None
        } else {
            let inner = rest.subrange(0, r);
            Some(inner.subrange(trimmed_range(inner).0, trimmed_range(inner).1))
        }
    }
}

/// Extract the device index (between brackets, trimmed) and the
/// quoted label of a device listing line; both must be present.
pub fn extract_device_index_and_label(line: &str) -> (r: Option<(String, String)>)
    ensures
        r matches Some(pair) ==> bracketed_index_of(line@) == Some(pair.0@) && quoted_of(line@)
            == Some(pair.1@),
        r is None ==> bracketed_index_of(line@) is None || quoted_of(line@) is None,
{
    let n = line.unicode_len();
    let l = find_char(line, 0, '[');
    proof {
        assert(line@.subrange(0, n as int) =~= line@);
    }
    if l == n {
        return None;
    }
    let rb = find_char(line, l + 1, ']');
    let ghost rest = line@.subrange(l + 1, n as int);
    if rb == n {
        proof {
            assert(cidx_of(rest, ']') == rest.len());
        }
        return None;
    }
    let ghost inner = rest.subrange(0, rb - (l + 1));
    // trim the inner span in place
    let mut lo: usize = l + 1;
    while lo < rb && is_space(line.get_char(lo))
        invariant
            l + 1 <= lo <= rb <= n == line@.len(),
            forall|j: int| l + 1 <= j < lo ==> is_space_char_spec(#[trigger] line@[j]),
        decreases rb - lo,
    {
        lo = lo + 1;
    }
    let mut hi: usize = rb;
    while hi > lo && is_space(line.get_char(hi - 1))
        invariant
            lo <= hi <= rb <= n == line@.len(),
            l + 1 <= lo,
            forall|j: int| l + 1 <= j < lo ==> is_space_char_spec(#[trigger] line@[j]),
            lo < rb ==> !is_space_char_spec(line@[lo as int]),
            forall|j: int| hi <= j < rb ==> is_space_char_spec(#[trigger] line@[j]),
        decreases hi,
    {
        hi = hi - 1;
    }
    proof {
        assert(inner =~= line@.subrange(l + 1, rb as int));
        assert forall|j: int| 0 <= j < lo - (l + 1) implies is_space_char_spec(
            #[trigger] inner[j],
        ) by {
            assert(inner[j] == line@[l + 1 + j]);
        }
        if lo < rb {
            assert(inner[lo - (l + 1)] == line@[lo as int]);
        }
        assert(trim_lo_ok(inner, lo - (l + 1)));
        assert forall|j: int| hi - (l + 1) <= j < inner.len() implies is_space_char_spec(
            #[trigger] inner[j],
        ) by {
            assert(inner[j] == line@[l + 1 + j]);
        }
        if hi > lo {
            assert(inner[hi - (l + 1) - 1] == line@[hi - 1]);
        }
        assert(trim_hi_ok(inner, lo - (l + 1), hi - (l + 1)));
        crate::project::lemma_trimmed_range_is(inner, lo - (l + 1), hi - (l + 1));
    }
    let idx = line.substring_char(lo, hi).to_owned();
    let label = match extract_quoted(line) {
        Some(label) => label,
        None => {
            return None;
        },
    };
    proof {
        assert(idx@ =~= inner.subrange(lo - (l + 1), hi - (l + 1)));
    }
    Some((idx, label))
}

fn is_space(c: char) -> (r: bool)
    ensures
        r == is_space_char_spec(c),
{
    c == ' ' || c == '\t' || c == '\n' || c == '\r' || c == '\u{b}' || c == '\u{c}'
}

/// The `audio` marker, lowercase, as bytes.
pub open spec fn audio_marker() -> Seq<u8> {
    seq![97u8, 117u8, 100u8, 105u8, 111u8]
}

/// The section header that opens the audio-device block of an
/// AVFoundation listing, as bytes.
pub open spec fn avf_audio_header() -> Seq<u8> {
    seq![
        65u8, 86u8, 70u8, 111u8, 117u8, 110u8, 100u8, 97u8, 116u8, 105u8, 111u8, 110u8, 32u8,
        97u8, 117u8, 100u8, 105u8, 111u8, 32u8, 100u8, 101u8, 118u8, 105u8, 99u8, 101u8, 115u8,
    ]
}

/// The section header that opens the video-device block of an
/// AVFoundation listing, as bytes.
pub open spec fn avf_video_header() -> Seq<u8> {
    seq![
        65u8, 86u8, 70u8, 111u8, 117u8, 110u8, 100u8, 97u8, 116u8, 105u8, 111u8, 110u8, 32u8,
        118u8, 105u8, 100u8, 101u8, 111u8, 32u8, 100u8, 101u8, 118u8, 105u8, 99u8, 101u8, 115u8,
    ]
}

/// Read one line of a DirectShow device listing: a line yields a
/// microphone entry when it carries a quoted label and mentions
/// audio (case-insensitively); the label doubles as the device id.
pub fn dshow_audio_device(line: &str) -> (r: Option<RecordingDevice>)
    ensures
        ({
            let eligible = contains_sub(lower_seq(line.spec_bytes()), audio_marker())
                && quoted_of(line@) is Some;
            if eligible {
                r matches Some(d) && Some(d.label@) == quoted_of(line@) && Some(d.id@)
                    == quoted_of(line@) && d.kind@ == "microphone"@
            } else {
                r is None
            }
        }),
{
    let needle: Vec<u8> = vec![97u8, 117u8, 100u8, 105u8, 111u8];
    proof {
        assert(needle@ =~= audio_marker());
    }
    let lowered = lower_bytes(line.as_bytes());
    if !has_sub(lowered.as_slice(), needle.as_slice()) {
        return None;
    }
    let label = match extract_quoted(line) {
        Some(label) => label,
        None => {
            return None;
        },
    };
    let id = label.clone();
    Some(RecordingDevice { id, label, kind: "microphone".to_owned() })
}

/// Read one line of an AVFoundation device listing: section headers
/// toggle whether the scan is inside the audio block and never name
/// a device themselves; inside the audio block, a bracketed index
/// with a quoted label names a microphone.
pub fn avf_scan_step(in_audio_section: bool, line: &str) -> (r: (bool, Option<RecordingDevice>))
    ensures
        contains_sub(line.spec_bytes(), avf_audio_header()) ==> r.0 == true && r.1 is None,
        (!contains_sub(line.spec_bytes(), avf_audio_header()) && contains_sub(
            line.spec_bytes(),
            avf_video_header(),
        )) ==> r.0 == false && r.1 is None,
        (!contains_sub(line.spec_bytes(), avf_audio_header()) && !contains_sub(
            line.spec_bytes(),
            avf_video_header(),
        )) ==> r.0 == in_audio_section && {
            let found = in_audio_section && bracketed_index_of(line@) is Some && quoted_of(line@)
                is Some;
            if found {
                r.1 matches Some(d) && Some(d.id@) == bracketed_index_of(line@) && Some(d.label@)
                    == quoted_of(line@) && d.kind@ == "microphone"@
            } else {
                r.1 is None
            }
        },
{
    let audio_header: Vec<u8> = vec![
        65u8, 86u8, 70u8, 111u8, 117u8, 110u8, 100u8, 97u8, 116u8, 105u8, 111u8, 110u8, 32u8,
        97u8, 117u8, 100u8, 105u8, 111u8, 32u8, 100u8, 101u8, 118u8, 105u8, 99u8, 101u8, 115u8,
    ];
    let video_header: Vec<u8> = vec![
        65u8, 86u8, 70u8, 111u8, 117u8, 110u8, 100u8, 97u8, 116u8, 105u8, 111u8, 110u8, 32u8,
        118u8, 105u8, 100u8, 101u8, 111u8, 32u8, 100u8, 101u8, 118u8, 105u8, 99u8, 101u8, 115u8,
    ];
    proof {
        assert(audio_header@ =~= avf_audio_header());
        assert(video_header@ =~= avf_video_header());
    }
    let bytes = line.as_bytes();
    if has_sub(bytes, audio_header.as_slice()) {
        return (true, None);
    }
    if has_sub(bytes, video_header.as_slice()) {
        return (false, None);
    }
    if !in_audio_section {
        return (in_audio_section, None);
    }
    match extract_device_index_and_label(line) {
        Some((id, label)) => (
            in_audio_section,
            Some(RecordingDevice { id, label, kind: "microphone".to_owned() }),
        ),
        None => (in_audio_section, None),
    }
}

/// The default microphone entry reported when no real device could
/// be enumerated.
pub fn default_audio_device() -> (r: RecordingDevice)
    ensures
        r.id@ == "default"@,
        r.label@ == "Default Microphone"@,
        r.kind@ == "microphone"@,
{
    RecordingDevice {
        id: "default".to_owned(),
        label: "Default Microphone".to_owned(),
        kind: "microphone".to_owned(),
    }
}

} // verus!
