use vstd::prelude::*;
use vstd::string::StringExecFns;
use vstd::string::StringSliceAdditionalSpecFns;

use crate::models::Platform;
use crate::text::{
    contains_sub, find_byte, find_non_space, has_sub, idx_of, is_space_byte, lower_bytes,
    lower_seq, NL,
};

verus! {

/// What the host platform can capture, and the degrade message shown
/// when system audio is not available.
#[derive(Debug, Clone)]
pub struct PlatformCapability {
    pub platform: String,
    pub supports_screen_capture: bool,
    pub supports_window_capture: bool,
    pub supports_microphone: bool,
    pub supports_system_audio: bool,
    pub system_audio_degrade_message: Option<String>,
}

/// Whether the preferred hardware encoder was confirmed present, the
/// codec that was looked for, and a human-readable detail.
#[derive(Debug, Clone)]
pub struct HardwareEncoderAvailability {
    pub available: bool,
    pub detail: String,
    pub codec: String,
}

/// The per-platform preferred hardware encoder codec; software
/// `libx264` where no hardware path exists.
pub open spec fn preferred_codec_spec(platform: Platform) -> Seq<char> {
    match platform {
        Platform::Windows => "h264_nvenc"@,
        Platform::MacOs => "h264_videotoolbox"@,
        Platform::Other => "libx264"@,
    }
}

pub fn preferred_codec(platform: Platform) -> (r: &'static str)
    ensures
        r@ == preferred_codec_spec(platform),
{
    match platform {
        Platform::Windows => "h264_nvenc",
        Platform::MacOs => "h264_videotoolbox",
        Platform::Other => "libx264",
    }
}

/// Whether an encoder listing confirms the codec: the listing,
/// lowercased byte-wise, holds the codec name as a substring.
pub open spec fn listing_confirms(listing: Seq<u8>, codec: Seq<u8>) -> bool {
    contains_sub(lower_seq(listing), codec)
}

/// Decide hardware-encoder availability from the capability probe's
/// output: `listing` is the probe's standard output when the probe
/// ran and exited successfully, `None` otherwise. A missing or
/// non-confirming probe reads as "not confirmed".
pub fn hardware_encoder_availability(platform: Platform, listing: Option<&str>) -> (r:
    HardwareEncoderAvailability)
    ensures
        r.codec@ == preferred_codec_spec(platform),
        r.available <==> (listing matches Some(l) && listing_confirms(
            l.spec_bytes(),
            preferred_codec_spec(platform).map_values(|c: char| c as u8),
        )),
        r.available ==> r.detail@ == "detected hardware encoder: "@ + preferred_codec_spec(
            platform,
        ),
        !r.available ==> r.detail@ == (match platform {
            Platform::Windows => "windows: hardware encoder unavailable, fallback to software"@,
            Platform::MacOs => "macos: hardware encoder unavailable, fallback to software"@,
            Platform::Other => "unsupported platform, using software encoding"@,
        }),
{
    let codec = preferred_codec(platform);
    let codec_bytes: Vec<u8> = match platform {
        Platform::Windows => vec![
            104u8, 50u8, 54u8, 52u8, 95u8, 110u8, 118u8, 101u8, 110u8, 99u8,
        ],
        Platform::MacOs => vec![
            104u8, 50u8, 54u8, 52u8, 95u8, 118u8, 105u8, 100u8, 101u8, 111u8, 116u8, 111u8, 111u8,
            108u8, 98u8, 111u8, 120u8,
        ],
        Platform::Other => vec![108u8, 105u8, 98u8, 120u8, 50u8, 54u8, 52u8],
    };
    proof {
        reveal_strlit("h264_nvenc");
        reveal_strlit("h264_videotoolbox");
        reveal_strlit("libx264");
        assert(codec_bytes@ =~= preferred_codec_spec(platform).map_values(|c: char| c as u8));
    }
    let available = match listing {
        Some(l) => {
            let lower = lower_bytes(l.as_bytes());
            has_sub(lower.as_slice(), codec_bytes.as_slice())
        },
        None => false,
    };
    if available {
        let detail = String::from_str("detected hardware encoder: ").concat(codec);
        HardwareEncoderAvailability { available: true, detail, codec: codec.to_owned() }
    } else {
        let detail = match platform {
            Platform::Windows => "windows: hardware encoder unavailable, fallback to software"
                .to_owned(),
            Platform::MacOs => "macos: hardware encoder unavailable, fallback to software"
                .to_owned(),
            Platform::Other => "unsupported platform, using software encoding".to_owned(),
        };
        HardwareEncoderAvailability { available: false, detail, codec: codec.to_owned() }
    }
}

fn is_space_u8(b: u8) -> (r: bool)
    ensures
        r == is_space_byte(b),
{
    b == 32 || b == 9 || b == 10 || b == 13 || b == 11 || b == 12
}

/// `s` with its leading whitespace dropped.
pub open spec fn ltrim_bytes(s: Seq<u8>) -> Seq<u8>
    decreases s.len(),
{
    if s.len() > 0 && is_space_byte(s[0]) {
        ltrim_bytes(s.skip(1))
    } else {
        s
    }
}

/// `s` with its trailing whitespace dropped.
pub open spec fn rtrim_bytes(s: Seq<u8>) -> Seq<u8>
    decreases s.len(),
{
    if s.len() > 0 && is_space_byte(s.last()) {
        rtrim_bytes(s.drop_last())
    } else {
        s
    }
}

pub open spec fn trim_bytes(s: Seq<u8>) -> Seq<u8> {
    rtrim_bytes(ltrim_bytes(s))
}

proof fn lemma_ltrim_is(s: Seq<u8>, i: int)
    requires
        0 <= i <= s.len(),
        forall|j: int| 0 <= j < i ==> is_space_byte(#[trigger] s[j]),
        i < s.len() ==> !is_space_byte(s[i]),
    ensures
        ltrim_bytes(s) == s.subrange(i, s.len() as int),
    decreases s.len(),
{
    if s.len() > 0 && is_space_byte(s[0]) {
        assert(i >= 1);
        assert forall|j: int| 0 <= j < i - 1 implies is_space_byte(#[trigger] s.skip(1)[j]) by {
            assert(s.skip(1)[j] == s[j + 1]);
        }
        if i - 1 < s.skip(1).len() {
            assert(s.skip(1)[i - 1] == s[i]);
        }
        lemma_ltrim_is(s.skip(1), i - 1);
        assert(s.skip(1).subrange(i - 1, s.skip(1).len() as int) =~= s.subrange(
            i,
            s.len() as int,
        ));
    } else {
        assert(i == 0);
        assert(s.subrange(0, s.len() as int) =~= s);
    }
}

proof fn lemma_rtrim_is(s: Seq<u8>, i: int)
    requires
        0 <= i <= s.len(),
        forall|j: int| i <= j < s.len() ==> is_space_byte(#[trigger] s[j]),
        i > 0 ==> !is_space_byte(s[i - 1]),
    ensures
        rtrim_bytes(s) == s.subrange(0, i),
    decreases s.len(),
{
    if s.len() > 0 && is_space_byte(s.last()) {
        assert(i < s.len());
        assert forall|j: int| i <= j < s.drop_last().len() implies is_space_byte(
            #[trigger] s.drop_last()[j],
        ) by {
            assert(s.drop_last()[j] == s[j]);
        }
        lemma_rtrim_is(s.drop_last(), i);
        assert(s.drop_last().subrange(0, i) =~= s.subrange(0, i));
    } else {
        assert(i == s.len());
        assert(s.subrange(0, s.len() as int) =~= s);
    }
}

/// Whether one listing line confirms the input format: trimmed and
/// lowercased, it names the format and begins with the demuxer
/// marker `d`.
pub open spec fn line_supports_format(line: Seq<u8>, needle: Seq<u8>) -> bool {
    let t = lower_seq(trim_bytes(line));
    &&& t.len() > 0
    &&& t[0] == 100u8
    &&& contains_sub(t, needle)
}

/// Whether any line of the format listing confirms the format.
pub open spec fn listing_supports_format(s: Seq<u8>, needle: Seq<u8>) -> bool
    decreases s.len(),
{
    if s.len() == 0 {
        false
    } else {
        let k = idx_of(s, NL);
        if 0 <= k < s.len() {
            line_supports_format(s.subrange(0, k), needle) || listing_supports_format(
                s.subrange(k + 1, s.len() as int),
                needle,
            )
        } else {
            line_supports_format(s, needle)
        }
    }
}

/// Decide from a format listing whether the encoder can read the
/// named input format: some line must name it (case-insensitively)
/// and be marked as a demuxer.
pub fn format_listing_supports(body: &str, format_name: &str) -> (r: bool)
    ensures
        r == listing_supports_format(
            body.spec_bytes(),
            lower_seq(format_name.spec_bytes()),
        ),
{
    let bytes = body.as_bytes();
    let needle = lower_bytes(format_name.as_bytes());
    let n = bytes.len();
    let mut pos: usize = 0;
    let ghost whole = bytes@;
    proof {
        assert(whole.subrange(0, n as int) =~= whole);
    }
    while pos < n
        invariant
            0 <= pos <= n == bytes@.len(),
            whole == bytes@,
            whole == body.spec_bytes(),
            needle@ == lower_seq(format_name.spec_bytes()),
            listing_supports_format(whole, needle@) == listing_supports_format(
                whole.subrange(pos as int, n as int),
                needle@,
            ),
        decreases n - pos,
    {
        let ghost suffix = whole.subrange(pos as int, n as int);
        let k = find_byte(bytes, pos, n, NL);
        let ghost line = whole.subrange(pos as int, k as int);
        // trim the line in place
        let lo = find_non_space(bytes, pos, k);
        let mut hi: usize = k;
        while hi > lo && is_space_u8(bytes[hi - 1])
            invariant
                lo <= hi <= k <= n == bytes@.len(),
                pos <= lo,
                whole == bytes@,
                forall|j: int| hi <= j < k ==> is_space_byte(#[trigger] whole[j]),
            decreases hi,
        {
            hi = hi - 1;
        }
        let supported: bool;
        if lo >= hi {
            supported = false;
        } else {
            let seg = &bytes[lo..hi];
            let lowered = lower_bytes(seg);
            let head_is_d = lowered[0] == 100;
            supported = head_is_d && has_sub(lowered.as_slice(), needle.as_slice());
        }
        proof {
            crate::text::lemma_idx_non_space_bounds(suffix.subrange(0, k - pos));
            assert(suffix.subrange(0, k - pos) =~= line);
            assert forall|j: int| 0 <= j < lo - pos implies is_space_byte(#[trigger] line[j]) by {
                assert(line[j] == whole[pos + j]);
            }
            if lo < k {
                assert(line[lo - pos] == whole[lo as int]);
            }
            lemma_ltrim_is(line, lo - pos);
            let lt = line.subrange(lo - pos, line.len() as int);
            assert forall|j: int| hi - lo <= j < lt.len() implies is_space_byte(
                #[trigger] lt[j],
            ) by {
                assert(lt[j] == whole[lo + j]);
            }
            if hi > lo {
                assert(lt[hi - lo - 1] == whole[hi - 1]);
                assert(!is_space_byte(whole[hi - 1]));
            }
            lemma_rtrim_is(lt, hi - lo);
            assert(trim_bytes(line) =~= whole.subrange(lo as int, hi as int));
            if lo < hi {
                assert(whole.subrange(lo as int, hi as int) =~= bytes@.subrange(
                    lo as int,
                    hi as int,
                ));
                assert(supported == line_supports_format(line, needle@));
            } else {
                assert(trim_bytes(line).len() == 0);
                assert(!line_supports_format(line, needle@));
            }
        }
        if supported {
            proof {
                assert(idx_of(suffix, NL) == k - pos);
                if k < n {
                    assert(suffix.subrange(0, k - pos) =~= line);
                    assert(listing_supports_format(suffix, needle@));
                } else {
                    assert(suffix =~= line);
                    assert(listing_supports_format(suffix, needle@));
                }
                assert(listing_supports_format(whole, needle@));
                assert(whole == body.spec_bytes());
                assert(needle@ == lower_seq(format_name.spec_bytes()));
                assert(listing_supports_format(
                    body.spec_bytes(),
                    lower_seq(format_name.spec_bytes()),
                ));
            }
            return true;
        }
        proof {
            if k < n {
                assert(suffix.subrange(0, k - pos) =~= line);
                assert(suffix.subrange(k - pos + 1, suffix.len() as int) =~= whole.subrange(
                    k + 1,
                    n as int,
                ));
            } else {
                assert(suffix =~= line);
                assert(whole.subrange(n as int, n as int) =~= Seq::<u8>::empty());
            }
        }
        if k < n {
            pos = k + 1;
        } else {
            pos = n;
        }
    }
    proof {
        assert(whole.subrange(n as int, n as int) =~= Seq::<u8>::empty());
    }
    false
}

/// The capture capability of the host platform. On Windows, system
/// audio is available only when the encoder supports the WASAPI
/// input format (`wasapi_supported`); elsewhere the flag is ignored.
pub fn platform_capability(platform: Platform, wasapi_supported: bool) -> (r: PlatformCapability)
    ensures
        platform == Platform::Windows ==> r.platform@ == "windows"@ && r.supports_screen_capture
            && r.supports_window_capture && r.supports_microphone && r.supports_system_audio
            == wasapi_supported && (wasapi_supported <==> r.system_audio_degrade_message is None),
        platform == Platform::MacOs ==> r.platform@ == "macos"@ && r.supports_screen_capture
            && r.supports_window_capture && r.supports_microphone && !r.supports_system_audio
            && r.system_audio_degrade_message is Some,
        platform == Platform::Other ==> r.platform@ == "unsupported"@ && !r.supports_screen_capture
            && !r.supports_window_capture && !r.supports_microphone && !r.supports_system_audio
            && r.system_audio_degrade_message is Some,
{
    match platform {
        Platform::Windows => PlatformCapability {
            platform: "windows".to_owned(),
            supports_screen_capture: true,
            supports_window_capture: true,
            supports_microphone: true,
            supports_system_audio: wasapi_supported,
            system_audio_degrade_message: if wasapi_supported {
                None
            } else {
                Some(
                    "this encoder build does not support WASAPI; system audio will be disabled"
                        .to_owned(),
                )
            },
        },
        Platform::MacOs => PlatformCapability {
            platform: "macos".to_owned(),
            supports_screen_capture: true,
            supports_window_capture: true,
            supports_microphone: true,
            supports_system_audio: false,
            system_audio_degrade_message: Some(
                "system audio is not supported here; only the microphone is recorded".to_owned(),
            ),
        },
        Platform::Other => PlatformCapability {
            platform: "unsupported".to_owned(),
            supports_screen_capture: false,
            supports_window_capture: false,
            supports_microphone: false,
            supports_system_audio: false,
            system_audio_degrade_message: Some(
                "this platform is outside the supported range".to_owned(),
            ),
        },
    }
}

} // verus!
