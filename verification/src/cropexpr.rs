use vstd::prelude::*;
use vstd::string::StringExecFns;

use crate::models::{AspectRatio, CameraIntensity, ProjectManifest, Resolution};
use crate::motion::{clamp_spec, intensity_zoom_spec, tdiv, wf_camera_profile, CursorSample};
use crate::textfmt::{dec_digits, pad_digits, push_padded, push_u64};

verus! {

/// Output pixel dimensions for a resolution and an aspect ratio.
pub fn output_resolution(resolution: Resolution, aspect_ratio: AspectRatio) -> (r: (u32, u32))
    ensures
        resolution == Resolution::R1080p && aspect_ratio == AspectRatio::Widescreen ==> r == (
            1920u32,
            1080u32,
        ),
        resolution == Resolution::R1080p && aspect_ratio == AspectRatio::Vertical ==> r == (
            1080u32,
            1920u32,
        ),
        resolution == Resolution::R1080p && aspect_ratio == AspectRatio::Square ==> r == (
            1080u32,
            1080u32,
        ),
        resolution == Resolution::R720p && aspect_ratio == AspectRatio::Widescreen ==> r == (
            1280u32,
            720u32,
        ),
        resolution == Resolution::R720p && aspect_ratio == AspectRatio::Vertical ==> r == (
            720u32,
            1280u32,
        ),
        resolution == Resolution::R720p && aspect_ratio == AspectRatio::Square ==> r == (
            720u32,
            720u32,
        ),
{
    match (resolution, aspect_ratio) {
        (Resolution::R1080p, AspectRatio::Widescreen) => (1920, 1080),
        (Resolution::R1080p, AspectRatio::Vertical) => (1080, 1920),
        (Resolution::R1080p, AspectRatio::Square) => (1080, 1080),
        (Resolution::R720p, AspectRatio::Widescreen) => (1280, 720),
        (Resolution::R720p, AspectRatio::Vertical) => (720, 1280),
        (Resolution::R720p, AspectRatio::Square) => (720, 720),
    }
}

/// The zoom factor of the virtual camera, in thousandths: the
/// intensity's base zoom plus headroom toward the user's cap, scaled
/// by responsiveness, clamped to the cap and to `[1.0, 2.0]`; one
/// when camera motion is disabled.
pub open spec fn camera_zoom_spec(m: ProjectManifest) -> int {
    if !m.camera_motion.enabled {
        1000
    } else {
        let base = intensity_zoom_spec(m.camera_motion.intensity);
        let resp = clamp_spec(1000 - m.camera_motion.smoothing as int, 0, 1000);
        let cap = clamp_spec(m.camera_motion.max_zoom as int, 1000, 2000);
        let room = if cap - base > 0 {
            cap - base
        } else {
            0
        };
        let factor = 350 + resp * 650 / 1000;
        let adaptive = base + room * factor / 1000;
        let capped = if adaptive < cap {
            adaptive
        } else {
            cap
        };
        clamp_spec(capped, 1000, 2000)
    }
}

pub fn camera_zoom(manifest: &ProjectManifest) -> (r: i64)
    requires
        wf_camera_profile(manifest.camera_motion),
    ensures
        r == camera_zoom_spec(*manifest),
        1000 <= r <= 2000,
        r <= clamp_spec(manifest.camera_motion.max_zoom as int, 1000, 2000),
{
    if !manifest.camera_motion.enabled {
        return 1000;
    }
    let base: i64 = crate::motion::intensity_zoom(manifest.camera_motion.intensity);
    let s = manifest.camera_motion.smoothing;
    let resp: i64 = if 1000 - s < 0 {
        0
    } else if 1000 - s > 1000 {
        1000
    } else {
        1000 - s
    };
    let cap: i64 = if manifest.camera_motion.max_zoom < 1000 {
        1000
    } else if manifest.camera_motion.max_zoom > 2000 {
        2000
    } else {
        manifest.camera_motion.max_zoom
    };
    let room: i64 = if cap - base > 0 {
        cap - base
    } else {
        0
    };
    let factor: i64 = 350 + resp * 650 / 1000;
    proof {
        assert(0 <= (room as int) * (factor as int) <= 2_000_000) by (nonlinear_arith)
            requires
                0 <= room as int <= 1000,
                0 <= factor as int <= 1000,
        ;
    }
    let adaptive: i64 = base + room * factor / 1000;
    let capped: i64 = if adaptive < cap {
        adaptive
    } else {
        cap
    };
    if capped < 1000 {
        1000
    } else if capped > 2000 {
        2000
    } else {
        capped
    }
}

/// Derived gains of the hybrid follow algorithm, in thousandths of
/// the normalized frame: dead-zone radius, follow and recenter
/// gains, the micro-follow gain inside the dead zone, and the
/// movement epsilon of idle tracking.
#[derive(Debug, Clone, Copy, PartialEq, Eq, Structural)]
pub struct HybridSettings {
    pub dead_zone: i64,
    pub follow_gain: i64,
    pub recenter_gain: i64,
    pub micro_follow_gain: i64,
    pub movement_epsilon: i64,
}

/// The hybrid-follow gains as functions of intensity and the user's
/// smoothing preference alone.
pub open spec fn hybrid_settings_spec(intensity: CameraIntensity, smoothing: int)
    -> HybridSettings {
    let resp = clamp_spec(1000 - smoothing, 0, 1000);
    let base_dead_zone: int = match intensity {
        CameraIntensity::Low => 50,
        CameraIntensity::Medium => 36,
        CameraIntensity::High => 26,
    };
    let base_follow: int = match intensity {
        CameraIntensity::Low => 220,
        CameraIntensity::Medium => 300,
        CameraIntensity::High => 380,
    };
    let base_micro: int = match intensity {
        CameraIntensity::Low => 50,
        CameraIntensity::Medium => 70,
        CameraIntensity::High => 100,
    };
    let follow_gain = clamp_spec(base_follow + resp * 300 / 1000, 180, 720);
    let dead_zone = clamp_spec(base_dead_zone - resp * 12 / 1000, 12, 80);
    let recenter_gain = clamp_spec(follow_gain * 560 / 1000, 100, 360);
    let micro_follow_gain = clamp_spec(base_micro + resp * 60 / 1000, 30, 220);
    let movement_epsilon = clamp_spec(dead_zone * 100 / 1000, 3, 18);
    HybridSettings {
        dead_zone: dead_zone as i64,
        follow_gain: follow_gain as i64,
        recenter_gain: recenter_gain as i64,
        micro_follow_gain: micro_follow_gain as i64,
        movement_epsilon: movement_epsilon as i64,
    }
}

fn clamp64(v: i64, lo: i64, hi: i64) -> (r: i64)
    requires
        lo <= hi,
    ensures
        r == clamp_spec(v as int, lo as int, hi as int),
{
    if v < lo {
        lo
    } else if v > hi {
        hi
    } else {
        v
    }
}

pub fn hybrid_settings(intensity: CameraIntensity, smoothing: i64) -> (r: HybridSettings)
    requires
        0 <= smoothing <= 1000,
    ensures
        r == hybrid_settings_spec(intensity, smoothing as int),
        12 <= r.dead_zone <= 80,
        180 <= r.follow_gain <= 720,
        100 <= r.recenter_gain <= 360,
        30 <= r.micro_follow_gain <= 220,
        3 <= r.movement_epsilon <= 18,
{
    let resp = clamp64(1000 - smoothing, 0, 1000);
    let (base_dead_zone, base_follow, base_micro): (i64, i64, i64) = match intensity {
        CameraIntensity::Low => (50, 220, 50),
        CameraIntensity::Medium => (36, 300, 70),
        CameraIntensity::High => (26, 380, 100),
    };
    let follow_gain = clamp64(base_follow + resp * 300 / 1000, 180, 720);
    let dead_zone = clamp64(base_dead_zone - resp * 12 / 1000, 12, 80);
    let recenter_gain = clamp64(follow_gain * 560 / 1000, 100, 360);
    let micro_follow_gain = clamp64(base_micro + resp * 60 / 1000, 30, 220);
    let movement_epsilon = clamp64(dead_zone * 100 / 1000, 3, 18);
    HybridSettings { dead_zone, follow_gain, recenter_gain, micro_follow_gain, movement_epsilon }
}

/// One dead-zone follow step of a focal-center axis, in thousandths:
/// inside the dead zone the center follows with a small constant
/// micro gain; outside it moves by the excess distance times the
/// follow gain; the result stays within `[0.03, 0.97]` of the frame.
pub open spec fn follow_axis_spec(center: int, target: int, st: HybridSettings) -> int {
    let delta = target - center;
    let adelta = if delta >= 0 {
        delta
    } else {
        -delta
    };
    if adelta <= st.dead_zone {
        clamp_spec(center + tdiv(delta * st.micro_follow_gain as int, 1000), 30, 970)
    } else {
        let overshoot = if delta >= 0 {
            adelta - st.dead_zone
        } else {
            -(adelta - st.dead_zone)
        };
        clamp_spec(center + tdiv(overshoot * st.follow_gain as int, 1000), 30, 970)
    }
}

pub fn follow_with_dead_zone(center: i64, target: i64, st: HybridSettings) -> (r: i64)
    requires
        -100_000 <= center <= 100_000,
        -100_000 <= target <= 100_000,
        12 <= st.dead_zone <= 80,
        180 <= st.follow_gain <= 720,
        30 <= st.micro_follow_gain <= 220,
    ensures
        r == follow_axis_spec(center as int, target as int, st),
        30 <= r <= 970,
{
    let delta = target - center;
    let adelta: i64 = if delta >= 0 {
        delta
    } else {
        -delta
    };
    if adelta <= st.dead_zone {
        proof {
            assert(-1_000_000_000_000 <= (delta as int) * (st.micro_follow_gain as int)
                <= 1_000_000_000_000) by (nonlinear_arith)
                requires
                    -200_000 <= delta as int <= 200_000,
                    0 <= st.micro_follow_gain as int <= 220,
            ;
        }
        let step = div_trunc_1000(delta * st.micro_follow_gain);
        clamp64(center + step, 30, 970)
    } else {
        let overshoot: i64 = if delta >= 0 {
            adelta - st.dead_zone
        } else {
            -(adelta - st.dead_zone)
        };
        proof {
            assert(-1_000_000_000_000 <= (overshoot as int) * (st.follow_gain as int)
                <= 1_000_000_000_000) by (nonlinear_arith)
                requires
                    -400_000 <= overshoot as int <= 400_000,
                    0 <= st.follow_gain as int <= 720,
            ;
        }
        let step = div_trunc_1000(overshoot * st.follow_gain);
        clamp64(center + step, 30, 970)
    }
}

/// Truncating division by 1000 on a bounded value.
fn div_trunc_1000(a: i64) -> (r: i64)
    requires
        -1_000_000_000_000 <= a <= 1_000_000_000_000,
    ensures
        r == tdiv(a as int, 1000),
        -1_000_000_000 <= r <= 1_000_000_000,
{
    proof {
        if a >= 0 {
            vstd::arithmetic::div_mod::lemma_div_is_ordered(a as int, 1_000_000_000_000, 1000);
            vstd::arithmetic::div_mod::lemma_div_pos_is_pos(a as int, 1000);
        } else {
            vstd::arithmetic::div_mod::lemma_div_is_ordered(-(a as int), 1_000_000_000_000, 1000);
            vstd::arithmetic::div_mod::lemma_div_pos_is_pos(-(a as int), 1000);
        }
    }
    if a >= 0 {
        ((a as u64) / 1000u64) as i64
    } else {
        let q = ((-a) as u64) / 1000u64;
        -(q as i64)
    }
}

/// The idle threshold actually applied, adjusted by the smoothing
/// preference and kept within `[120, 900]` milliseconds.
pub open spec fn effective_idle_spec(idle_threshold_ms: int, smoothing: int) -> int {
    let base = clamp_spec(idle_threshold_ms, 120, 900);
    let factor = 650 + clamp_spec(smoothing, 0, 1000) * 200 / 1000;
    clamp_spec(base * factor / 1000, 120, 900)
}

pub fn effective_idle_threshold(idle_threshold_ms: u64, smoothing: i64) -> (r: u64)
    ensures
        r == effective_idle_spec(idle_threshold_ms as int, smoothing as int),
        120 <= r <= 900,
{
    let base: u64 = if idle_threshold_ms < 120 {
        120
    } else if idle_threshold_ms > 900 {
        900
    } else {
        idle_threshold_ms
    };
    let sm: i64 = if smoothing < 0 {
        0
    } else if smoothing > 1000 {
        1000
    } else {
        smoothing
    };
    let factor: u64 = 650 + ((sm as u64) * 200) / 1000;
    proof {
        assert(0 <= (base as int) * (factor as int) <= 900 * 850) by (nonlinear_arith)
            requires
                120 <= base as int <= 900,
                650 <= factor as int <= 850,
        ;
    }
    let v = (base * factor) / 1000;
    if v < 120 {
        120
    } else if v > 900 {
        900
    } else {
        v
    }
}

/// One state of the hybrid follow pass: the time and normalized
/// cursor position of the sample just consumed, the focal center
/// after it, and the accumulated idle time.
#[derive(Debug, Clone, Copy, PartialEq, Eq, Structural)]
pub struct FollowState {
    pub t_ms: u64,
    pub cx: i64,
    pub cy: i64,
    pub nx: i64,
    pub ny: i64,
    pub idle_ms: u64,
}

pub open spec fn follow_init_spec(s0: CursorSample, w: int, h: int) -> FollowState {
    let nx = norm_axis_spec(s0.x as int, w);
    let ny = norm_axis_spec(s0.y as int, h);
    FollowState {
        t_ms: s0.t_ms,
        cx: nx as i64,
        cy: ny as i64,
        nx: nx as i64,
        ny: ny as i64,
        idle_ms: 0,
    }
}

/// One step of the hybrid follow: idle time accumulates while the
/// cursor moves less than the epsilon; past the effective idle
/// threshold the center decays toward frame center at the recenter
/// gain, otherwise it follows the cursor through the dead zone.
pub open spec fn follow_step_spec(
    prev: FollowState,
    s: CursorSample,
    w: int,
    h: int,
    st: HybridSettings,
    eff_idle: int,
) -> FollowState {
    let nx = norm_axis_spec(s.x as int, w);
    let ny = norm_axis_spec(s.y as int, h);
    let dt = crate::motion::sat_sub_spec(s.t_ms as int, prev.t_ms as int);
    let dx = nx - prev.nx as int;
    let dy = ny - prev.ny as int;
    let m2 = dx * dx + dy * dy;
    let idle: int = if m2 <= st.movement_epsilon * st.movement_epsilon {
        if prev.idle_ms + dt > u64::MAX {
            u64::MAX as int
        } else {
            prev.idle_ms + dt
        }
    } else {
        0
    };
    let cx: int = if idle >= eff_idle {
        prev.cx + tdiv((500 - prev.cx) * st.recenter_gain as int, 1000)
    } else {
        follow_axis_spec(prev.cx as int, nx, st)
    };
    let cy: int = if idle >= eff_idle {
        prev.cy + tdiv((500 - prev.cy) * st.recenter_gain as int, 1000)
    } else {
        follow_axis_spec(prev.cy as int, ny, st)
    };
    FollowState {
        t_ms: s.t_ms,
        cx: cx as i64,
        cy: cy as i64,
        nx: nx as i64,
        ny: ny as i64,
        idle_ms: idle as u64,
    }
}

/// The follow state after consuming samples `0..=i`.
pub open spec fn traj_at(
    samples: Seq<CursorSample>,
    w: int,
    h: int,
    st: HybridSettings,
    eff_idle: int,
    i: int,
) -> FollowState
    decreases i,
{
    if i <= 0 {
        follow_init_spec(samples[0], w, h)
    } else {
        follow_step_spec(traj_at(samples, w, h, st, eff_idle, i - 1), samples[i], w, h, st, eff_idle)
    }
}

pub open spec fn wf_follow_state(st: FollowState) -> bool {
    &&& 20 <= st.cx <= 980
    &&& 20 <= st.cy <= 980
    &&& 20 <= st.nx <= 980
    &&& 20 <= st.ny <= 980
}

/// The focal-center trajectory over a full cursor track, one state
/// per sample, as `traj_at` specifies.
pub fn smooth_track(
    samples: &Vec<CursorSample>,
    source_w: u32,
    source_h: u32,
    st: HybridSettings,
    eff_idle: u64,
) -> (r: Vec<FollowState>)
    requires
        forall|i: int|
            0 <= i < samples@.len() ==> -100_000_000 <= (#[trigger] samples@[i]).x <= 100_000_000
                && -100_000_000 <= samples@[i].y <= 100_000_000,
        12 <= st.dead_zone <= 80,
        180 <= st.follow_gain <= 720,
        100 <= st.recenter_gain <= 360,
        30 <= st.micro_follow_gain <= 220,
        3 <= st.movement_epsilon <= 18,
        eff_idle <= 900,
    ensures
        r@.len() == samples@.len(),
        forall|i: int|
            0 <= i < r@.len() ==> #[trigger] r@[i] == traj_at(
                samples@,
                source_w as int,
                source_h as int,
                st,
                eff_idle as int,
                i,
            ),
        forall|i: int| 0 <= i < r@.len() ==> wf_follow_state(#[trigger] r@[i]),
{
    let mut out: Vec<FollowState> = Vec::new();
    if samples.len() == 0 {
        return out;
    }
    let n0x = norm_axis(samples[0].x, source_w);
    let n0y = norm_axis(samples[0].y, source_h);
    let mut cur = FollowState {
        t_ms: samples[0].t_ms,
        cx: n0x,
        cy: n0y,
        nx: n0x,
        ny: n0y,
        idle_ms: 0,
    };
    out.push(cur);
    let mut i: usize = 1;
    while i < samples.len()
        invariant
            1 <= i <= samples@.len(),
            out@.len() == i,
            forall|j: int|
                0 <= j < samples@.len() ==> -100_000_000 <= (#[trigger] samples@[j]).x
                    <= 100_000_000 && -100_000_000 <= samples@[j].y <= 100_000_000,
            12 <= st.dead_zone <= 80,
            180 <= st.follow_gain <= 720,
            100 <= st.recenter_gain <= 360,
            30 <= st.micro_follow_gain <= 220,
            3 <= st.movement_epsilon <= 18,
            eff_idle <= 900,
            forall|j: int|
                0 <= j < i ==> #[trigger] out@[j] == traj_at(
                    samples@,
                    source_w as int,
                    source_h as int,
                    st,
                    eff_idle as int,
                    j,
                ),
            forall|j: int| 0 <= j < i ==> wf_follow_state(#[trigger] out@[j]),
            cur == out@[i - 1],
        decreases samples@.len() - i,
    {
        let s = samples[i];
        let nx = norm_axis(s.x, source_w);
        let ny = norm_axis(s.y, source_h);
        let dt: u64 = if s.t_ms >= cur.t_ms {
            s.t_ms - cur.t_ms
        } else {
            0
        };
        let dx = nx - cur.nx;
        let dy = ny - cur.ny;
        proof {
            assert(0 <= (dx as int) * (dx as int) <= 1_000_000) by (nonlinear_arith)
                requires
                    -960 <= dx as int <= 960,
            ;
            assert(0 <= (dy as int) * (dy as int) <= 1_000_000) by (nonlinear_arith)
                requires
                    -960 <= dy as int <= 960,
            ;
        }
        let m2 = dx * dx + dy * dy;
        proof {
            assert(0 <= (st.movement_epsilon as int) * (st.movement_epsilon as int) <= 324)
                by (nonlinear_arith)
                requires
                    3 <= st.movement_epsilon as int <= 18,
            ;
        }
        let idle: u64 = if m2 <= st.movement_epsilon * st.movement_epsilon {
            cur.idle_ms.saturating_add(dt)
        } else {
            0
        };
        let (cx, cy): (i64, i64) = if idle >= eff_idle {
            proof {
                assert(-1_000_000 <= (500 - cur.cx as int) * (st.recenter_gain as int)
                    <= 1_000_000) by (nonlinear_arith)
                    requires
                        -480 <= 500 - cur.cx as int <= 480,
                        0 <= st.recenter_gain as int <= 360,
                ;
                crate::motion::lemma_frac_shrinks(500 - cur.cx as int, st.recenter_gain as int);
                crate::motion::lemma_frac_shrinks(500 - cur.cy as int, st.recenter_gain as int);
            }
            let sx = div_trunc_1000((500 - cur.cx) * st.recenter_gain);
            let sy = div_trunc_1000((500 - cur.cy) * st.recenter_gain);
            (cur.cx + sx, cur.cy + sy)
        } else {
            (follow_with_dead_zone(cur.cx, nx, st), follow_with_dead_zone(cur.cy, ny, st))
        };
        cur = FollowState { t_ms: s.t_ms, cx, cy, nx, ny, idle_ms: idle };
        proof {
            assert(cur == follow_step_spec(
                out@[i - 1],
                samples@[i as int],
                source_w as int,
                source_h as int,
                st,
                eff_idle as int,
            ));
        }
        out.push(cur);
        i = i + 1;
    }
    out
}

/// A cursor position normalized to thousandths of the frame,
/// clamped into `[0.02, 0.98]`.
pub open spec fn norm_axis_spec(coord_milli: int, dim_px: int) -> int {
    let safe = if dim_px >= 1 {
        dim_px
    } else {
        1
    };
    clamp_spec(tdiv(coord_milli, safe), 20, 980)
}

pub fn norm_axis(coord_milli: i64, dim_px: u32) -> (r: i64)
    requires
        -100_000_000 <= coord_milli <= 100_000_000,
    ensures
        r == norm_axis_spec(coord_milli as int, dim_px as int),
        20 <= r <= 980,
{
    let safe: i64 = if dim_px >= 1 {
        dim_px as i64
    } else {
        1
    };
    let q: i64 = if coord_milli >= 0 {
        proof {
            vstd::arithmetic::div_mod::lemma_div_pos_is_pos(coord_milli as int, safe as int);
            vstd::arithmetic::div_mod::lemma_div_is_ordered(
                coord_milli as int,
                100_000_000,
                safe as int,
            );
        }
        ((coord_milli as u64) / (safe as u64)) as i64
    } else {
        proof {
            vstd::arithmetic::div_mod::lemma_div_pos_is_pos(-(coord_milli as int), safe as int);
            vstd::arithmetic::div_mod::lemma_div_is_ordered(
                -(coord_milli as int),
                100_000_000,
                safe as int,
            );
        }
        let q0 = (((-coord_milli) as u64) / (safe as u64)) as i64;
        -q0
    };
    clamp64(q, 20, 980)
}

/// Milliseconds rendered as seconds with three decimals (`12.345`).
pub open spec fn fixed3_chars(ms: nat) -> Seq<char> {
    dec_digits(ms / 1000) + seq!['.'] + pad_digits(ms % 1000, 3)
}

/// A millionths value rendered with six decimals (`0.456000`).
pub open spec fn micro6_chars(m: nat) -> Seq<char> {
    dec_digits(m / 1000000) + seq!['.'] + pad_digits(m % 1000000, 6)
}

/// A signed thousandths value rendered with six decimals.
pub open spec fn permille6_chars(v: int) -> Seq<char> {
    if v >= 0 {
        micro6_chars((v * 1000) as nat)
    } else {
        seq!['-'] + micro6_chars((-v * 1000) as nat)
    }
}

fn push_fixed3(s: &mut String, ms: u64)
    ensures
        final(s)@ == old(s)@ + fixed3_chars(ms as nat),
{
    push_u64(s, ms / 1000);
    proof {
        reveal_strlit(".");
    }
    s.append(".");
    push_padded(s, ms % 1000, 3);
    proof {
        assert("."@ =~= seq!['.']);
        assert(final(s)@ =~= old(s)@ + fixed3_chars(ms as nat));
    }
}

fn push_micro6(s: &mut String, m: u64)
    ensures
        final(s)@ == old(s)@ + micro6_chars(m as nat),
{
    push_u64(s, m / 1000000);
    proof {
        reveal_strlit(".");
    }
    s.append(".");
    push_padded(s, m % 1000000, 6);
    proof {
        assert("."@ =~= seq!['.']);
        assert(final(s)@ =~= old(s)@ + micro6_chars(m as nat));
    }
}

fn push_permille6(s: &mut String, v: i64)
    requires
        -1_000_000 <= v <= 1_000_000,
    ensures
        final(s)@ == old(s)@ + permille6_chars(v as int),
{
    if v >= 0 {
        push_micro6(s, (v as u64) * 1000);
    } else {
        proof {
            reveal_strlit("-");
        }
        s.append("-");
        push_micro6(s, ((-v) as u64) * 1000);
        proof {
            assert("-"@ =~= seq!['-']);
            assert(final(s)@ =~= old(s)@ + permille6_chars(v as int));
        }
    }
}

/// One linear segment of the piecewise expression, interpolating
/// from `p0` to `p1` in the encode-time variable `t`.
pub open spec fn seg_chars(p0: (u64, i64), p1: (u64, i64)) -> Seq<char> {
    let dt = if crate::motion::sat_sub_spec(p1.0 as int, p0.0 as int) >= 1 {
        crate::motion::sat_sub_spec(p1.0 as int, p0.0 as int)
    } else {
        1
    };
    "("@ + permille6_chars(p0.1 as int) + "+((t-"@ + fixed3_chars(p0.0 as nat) + ")/"@
        + fixed3_chars(dt as nat) + ")*"@ + permille6_chars(p1.1 - p0.1) + ")"@
}

/// The nested piecewise expression over segments `i..`, innermost
/// last: each level guards on the end time of its segment.
pub open spec fn piece_from(ps: Seq<(u64, i64)>, i: int) -> Seq<char>
    decreases ps.len() - i,
{
    if i < 0 || i >= ps.len() - 1 {
        permille6_chars(ps[ps.len() - 1].1 as int)
    } else {
        "if(lt(t,"@ + fixed3_chars(ps[i + 1].0 as nat) + "),"@ + seg_chars(ps[i], ps[i + 1]) + ","@
            + piece_from(ps, i + 1) + ")"@
    }
}

/// The full piecewise time-expression of one axis: a constant for a
/// trivial track, otherwise the first value before the first sample
/// and the nested segments after it.
pub open spec fn piecewise_chars(ps: Seq<(u64, i64)>) -> Seq<char> {
    if ps.len() == 0 {
        "0.5"@
    } else if ps.len() == 1 {
        permille6_chars(ps[0].1 as int)
    } else {
        "if(lt(t,"@ + fixed3_chars(ps[0].0 as nat) + "),"@ + permille6_chars(ps[0].1 as int) + ","@
            + piece_from(ps, 0) + ")"@
    }
}

#[verifier::rlimit(60)]
fn piece_from_exec(ps: &Vec<(u64, i64)>, i: usize) -> (r: String)
    requires
        ps@.len() >= 1,
        i < ps@.len(),
        forall|j: int| 0 <= j < ps@.len() ==> -100_000 <= (#[trigger] ps@[j]).1 <= 100_000,
    ensures
        r@ == piece_from(ps@, i as int),
    decreases ps@.len() - i,
{
    let mut s = String::new();
    if i >= ps.len() - 1 {
        push_permille6(&mut s, ps[ps.len() - 1].1);
        proof {
            assert(s@ =~= piece_from(ps@, i as int));
        }
        return s;
    }
    let (t0, v0) = ps[i];
    let (t1, v1) = ps[i + 1];
    let dt0: u64 = if t1 >= t0 {
        t1 - t0
    } else {
        0
    };
    let dt: u64 = if dt0 >= 1 {
        dt0
    } else {
        1
    };
    s.append("if(lt(t,");
    push_fixed3(&mut s, t1);
    s.append("),");
    s.append("(");
    push_permille6(&mut s, v0);
    s.append("+((t-");
    push_fixed3(&mut s, t0);
    s.append(")/");
    push_fixed3(&mut s, dt);
    s.append(")*");
    push_permille6(&mut s, v1 - v0);
    s.append(")");
    s.append(",");
    let rest = piece_from_exec(ps, i + 1);
    s.append(rest.as_str());
    s.append(")");
    proof {
        assert(s@ =~= piece_from(ps@, i as int));
    }
    s
}

/// Compile one axis of the downsampled focal-center track into a
/// bounded piecewise expression of the encode-time clock.
pub fn piecewise_expr(ps: &Vec<(u64, i64)>) -> (r: String)
    requires
        forall|j: int| 0 <= j < ps@.len() ==> -100_000 <= (#[trigger] ps@[j]).1 <= 100_000,
    ensures
        r@ == piecewise_chars(ps@),
{
    if ps.len() == 0 {
        return "0.5".to_owned();
    }
    if ps.len() == 1 {
        let mut s = String::new();
        push_permille6(&mut s, ps[0].1);
        proof {
            assert(s@ =~= piecewise_chars(ps@));
        }
        return s;
    }
    let mut s = String::new();
    s.append("if(lt(t,");
    push_fixed3(&mut s, ps[0].0);
    s.append("),");
    push_permille6(&mut s, ps[0].1);
    s.append(",");
    let inner = piece_from_exec(ps, 0);
    s.append(inner.as_str());
    s.append(")");
    proof {
        assert(s@ =~= piecewise_chars(ps@));
    }
    s
}

/// Downsampling stride for a track of `n` points: expression
/// nesting in the encoder is limited, so at most 64 segments are
/// kept (plus the preserved last point).
pub open spec fn ds_step(n: int) -> int {
    let q = if n % 64 == 0 {
        n / 64
    } else {
        n / 64 + 1
    };
    if q >= 1 {
        q
    } else {
        1
    }
}

pub open spec fn ds_count(n: int) -> int {
    (n + ds_step(n) - 1) / ds_step(n)
}

/// The `(time, value)` pairs of one axis after downsampling: every
/// `ds_step`-th trajectory state, with the last state appended when
/// the sampled tail is more than a millisecond away from it.
pub open spec fn ds_pairs(
    samples: Seq<CursorSample>,
    w: int,
    h: int,
    st: HybridSettings,
    eff_idle: int,
    x_axis: bool,
) -> Seq<(u64, i64)> {
    let n = samples.len() as int;
    let base = Seq::new(
        ds_count(n) as nat,
        |j: int|
            {
                let t = traj_at(samples, w, h, st, eff_idle, j * ds_step(n));
                (
                    t.t_ms,
                    if x_axis {
                        t.cx
                    } else {
                        t.cy
                    },
                )
            },
    );
    let lastst = traj_at(samples, w, h, st, eff_idle, n - 1);
    let lastv = if x_axis {
        lastst.cx
    } else {
        lastst.cy
    };
    if crate::motion::abs_spec(base.last().0 as int - lastst.t_ms as int) > 1 {
        base.push((lastst.t_ms, lastv))
    } else {
        base
    }
}

/// Compile a cursor track into the pair of focal-center expressions
/// (horizontal, vertical) evaluable from the encode-time clock: the
/// track is normalized, smoothed with the hybrid follow, downsampled
/// to a bounded segment count, and rendered piecewise. An empty
/// track yields nothing.
pub fn build_cursor_position_expr(
    points: &Vec<CursorSample>,
    source_w: u32,
    source_h: u32,
    smoothing: i64,
    idle_threshold_ms: u64,
    intensity: CameraIntensity,
) -> (r: Option<(String, String)>)
    requires
        forall|i: int|
            0 <= i < points@.len() ==> -100_000_000 <= (#[trigger] points@[i]).x <= 100_000_000
                && -100_000_000 <= points@[i].y <= 100_000_000,
        0 <= smoothing <= 1000,
        points@.len() <= 1_000_000_000,
    ensures
        r is Some <==> points@.len() > 0,
        r matches Some(pair) ==> {
            let st = hybrid_settings_spec(intensity, smoothing as int);
            let eff = effective_idle_spec(idle_threshold_ms as int, smoothing as int);
            &&& pair.0@ == piecewise_chars(
                ds_pairs(points@, source_w as int, source_h as int, st, eff, true),
            )
            &&& pair.1@ == piecewise_chars(
                ds_pairs(points@, source_w as int, source_h as int, st, eff, false),
            )
        },
{
    let n = points.len();
    if n == 0 {
        return None;
    }
    let st = hybrid_settings(intensity, smoothing);
    let eff = effective_idle_threshold(idle_threshold_ms, smoothing);
    let traj = smooth_track(points, source_w, source_h, st, eff);
    let q0: usize = n / 64;
    let q: usize = if n % 64 == 0 {
        q0
    } else {
        q0 + 1
    };
    let step: usize = if q >= 1 {
        q
    } else {
        1
    };
    let ghost count = ds_count(n as int);
    proof {
        assert(step as int == ds_step(n as int));
    }
    let mut xs: Vec<(u64, i64)> = Vec::new();
    let mut ys: Vec<(u64, i64)> = Vec::new();
    let mut idx: usize = 0;
    let mut k: usize = 0;
    while idx < n
        invariant
            n == points@.len() == traj@.len(),
            1 <= n <= 1_000_000_000,
            1 <= step <= n,
            step as int == ds_step(n as int),
            idx == k * step,
            0 <= k <= n,
            k == 0 || ((k - 1) * (step as int)) < n,
            xs@.len() == k && ys@.len() == k,
            forall|i: int| 0 <= i < traj@.len() ==> wf_follow_state(#[trigger] traj@[i]),
            forall|i: int|
                0 <= i < traj@.len() ==> #[trigger] traj@[i] == traj_at(
                    points@,
                    source_w as int,
                    source_h as int,
                    st,
                    eff as int,
                    i,
                ),
            forall|j: int|
                0 <= j < k ==> #[trigger] xs@[j] == (traj@[j * step as int].t_ms, traj@[j
                    * step as int].cx),
            forall|j: int|
                0 <= j < k ==> #[trigger] ys@[j] == (traj@[j * step as int].t_ms, traj@[j
                    * step as int].cy),
            forall|j: int| 0 <= j < k ==> -100_000 <= (#[trigger] xs@[j]).1 <= 100_000,
            forall|j: int| 0 <= j < k ==> -100_000 <= (#[trigger] ys@[j]).1 <= 100_000,
        decreases n + step - idx,
    {
        let t = traj[idx];
        xs.push((t.t_ms, t.cx));
        ys.push((t.t_ms, t.cy));
        proof {
            assert((k + 1) * (step as int) == k * (step as int) + (step as int))
                by (nonlinear_arith);
            assert(k as int + 1 <= n) by (nonlinear_arith)
                requires
                    ((k as int) * (step as int)) < n,
                    (step as int) >= 1,
                    k >= 0,
            ;
        }
        idx = idx + step;
        k = k + 1;
    }
    proof {
        assert(k >= 1);
        assert(k == count) by {
            let r = n as int + step - 1 - step * (k as int);
            assert(k as int * step as int == step as int * k as int) by (nonlinear_arith);
            assert((k as int - 1) * step as int == step as int * k as int - step as int)
                by (nonlinear_arith);
            assert(0 <= r < step as int);
            vstd::arithmetic::div_mod::lemma_div_multiples_vanish_fancy(
                k as int,
                r,
                step as int,
            );
            assert(step as int * k as int + r == n as int + step as int - 1);
        }
    }
    let last = traj[n - 1];
    let tail_t = xs[xs.len() - 1].0;
    let gap: u64 = if tail_t >= last.t_ms {
        tail_t - last.t_ms
    } else {
        last.t_ms - tail_t
    };
    if gap > 1 {
        xs.push((last.t_ms, last.cx));
        ys.push((last.t_ms, last.cy));
    }
    proof {
        let stg = hybrid_settings_spec(intensity, smoothing as int);
        let effg = effective_idle_spec(idle_threshold_ms as int, smoothing as int);
        let basex = Seq::new(
            count as nat,
            |j: int|
                {
                    let t = traj_at(
                        points@,
                        source_w as int,
                        source_h as int,
                        stg,
                        effg,
                        j * ds_step(n as int),
                    );
                    (t.t_ms, t.cx)
                },
        );
        let basey = Seq::new(
            count as nat,
            |j: int|
                {
                    let t = traj_at(
                        points@,
                        source_w as int,
                        source_h as int,
                        stg,
                        effg,
                        j * ds_step(n as int),
                    );
                    (t.t_ms, t.cy)
                },
        );
        assert forall|j: int| 0 <= j < count implies #[trigger] basex[j] == (traj@[j * (
        step as int)].t_ms, traj@[j * (step as int)].cx) by {
            assert(j * (step as int) <= (k - 1) * (step as int)) by (nonlinear_arith)
                requires
                    j <= k as int - 1,
                    (step as int) >= 0,
            ;
            assert(0 <= j * (step as int)) by (nonlinear_arith)
                requires
                    j >= 0,
                    (step as int) >= 0,
            ;
            assert(traj@[j * (step as int)] == traj_at(
                points@,
                source_w as int,
                source_h as int,
                st,
                eff as int,
                j * (step as int),
            ));
        }
        assert forall|j: int| 0 <= j < count implies #[trigger] basey[j] == (traj@[j * (
        step as int)].t_ms, traj@[j * (step as int)].cy) by {
            assert(j * (step as int) <= (k - 1) * (step as int)) by (nonlinear_arith)
                requires
                    j <= k as int - 1,
                    (step as int) >= 0,
            ;
            assert(0 <= j * (step as int)) by (nonlinear_arith)
                requires
                    j >= 0,
                    (step as int) >= 0,
            ;
            assert(traj@[j * (step as int)] == traj_at(
                points@,
                source_w as int,
                source_h as int,
                st,
                eff as int,
                j * (step as int),
            ));
        }
        let lastst = traj_at(points@, source_w as int, source_h as int, stg, effg, n as int - 1);
        assert(last == lastst);
        assert(basex.last() == (traj@[(count - 1) * (step as int)].t_ms, traj@[(count - 1) * (
        step as int)].cx));
        assert(tail_t == basex.last().0);
        assert((gap > 1) == (crate::motion::abs_spec(basex.last().0 as int - lastst.t_ms as int)
            > 1));
        if gap > 1 {
            assert(xs@.drop_last() =~= basex);
            assert(ys@.drop_last() =~= basey);
            assert(ds_pairs(points@, source_w as int, source_h as int, stg, effg, true)
                =~= basex.push((lastst.t_ms, lastst.cx)));
            assert(ds_pairs(points@, source_w as int, source_h as int, stg, effg, false)
                =~= basey.push((lastst.t_ms, lastst.cy)));
            assert(xs@ =~= basex.push((lastst.t_ms, lastst.cx)));
            assert(ys@ =~= basey.push((lastst.t_ms, lastst.cy)));
        } else {
            assert(xs@ =~= basex);
            assert(ys@ =~= basey);
            assert(xs@ =~= ds_pairs(points@, source_w as int, source_h as int, stg, effg, true));
            assert(ys@ =~= ds_pairs(points@, source_w as int, source_h as int, stg, effg, false));
        }
    }
    let px = piecewise_expr(&xs);
    let py = piecewise_expr(&ys);
    Some((px, py))
}

/// The target aspect ratio in millionths, rounded to nearest.
pub open spec fn ar_micro_spec(w: int, h: int) -> int {
    (w * 1_000_000 + h / 2) / h
}

pub fn aspect_ratio_micro(target_w: u32, target_h: u32) -> (r: u64)
    requires
        1 <= target_h,
        target_w <= 100_000,
    ensures
        r == ar_micro_spec(target_w as int, target_h as int),
{
    ((target_w as u64) * 1_000_000 + (target_h as u64) / 2) / (target_h as u64)
}

/// The crop-width expression: letterbox-safe against the source
/// aspect ratio, divided by zoom, rounded to even integers.
pub open spec fn crop_w_chars(ar: nat, zoom_micro: nat) -> Seq<char> {
    "if(gt(iw/ih,"@ + micro6_chars(ar) + "),trunc((ih*"@ + micro6_chars(ar) + ")/"@ + micro6_chars(
        zoom_micro,
    ) + "/2)*2,trunc(iw/"@ + micro6_chars(zoom_micro) + "/2)*2)"@
}

/// The crop-height expression, the other side of the letterbox case.
pub open spec fn crop_h_chars(ar: nat, zoom_micro: nat) -> Seq<char> {
    "if(gt(iw/ih,"@ + micro6_chars(ar) + "),trunc(ih/"@ + micro6_chars(zoom_micro)
        + "/2)*2,trunc((iw/"@ + micro6_chars(ar) + ")/"@ + micro6_chars(zoom_micro) + "/2)*2)"@
}

/// The whole crop filter, given its four field expressions.
pub open spec fn crop_filter_chars(w: Seq<char>, h: Seq<char>, x: Seq<char>, y: Seq<char>)
    -> Seq<char> {
    "crop=w='"@ + w + "':h='"@ + h + "':x='"@ + x + "':y='"@ + y + "'"@
}

/// A focal-center position expression clamped so the crop window
/// never leaves the frame, horizontally.
pub open spec fn dyn_x_chars(nx: Seq<char>) -> Seq<char> {
    "max(0,min(iw-ow,iw*("@ + nx + ")-ow/2))"@
}

/// The vertical counterpart of `dyn_x_chars`.
pub open spec fn dyn_y_chars(ny: Seq<char>) -> Seq<char> {
    "max(0,min(ih-oh,ih*("@ + ny + ")-oh/2))"@
}

/// The crop filter of one export: dynamic focal-center expressions
/// at the adaptive zoom when camera motion is enabled and a cursor
/// track exists; a static centered window at zoom one otherwise.
pub open spec fn crop_filter_spec(
    m: ProjectManifest,
    target_w: int,
    target_h: int,
    source_w: int,
    source_h: int,
    track: Seq<CursorSample>,
) -> Seq<char> {
    let ar = ar_micro_spec(target_w, target_h) as nat;
    if m.camera_motion.enabled && track.len() > 0 {
        let st = hybrid_settings_spec(m.camera_motion.intensity, m.camera_motion.smoothing as int);
        let eff = effective_idle_spec(
            m.camera_motion.idle_threshold_ms as int,
            m.camera_motion.smoothing as int,
        );
        let zoom = (camera_zoom_spec(m) * 1000) as nat;
        let nx = piecewise_chars(ds_pairs(track, source_w, source_h, st, eff, true));
        let ny = piecewise_chars(ds_pairs(track, source_w, source_h, st, eff, false));
        crop_filter_chars(
            crop_w_chars(ar, zoom),
            crop_h_chars(ar, zoom),
            dyn_x_chars(nx),
            dyn_y_chars(ny),
        )
    } else {
        crop_filter_chars(
            crop_w_chars(ar, 1_000_000),
            crop_h_chars(ar, 1_000_000),
            "(iw-ow)/2"@,
            "(ih-oh)/2"@,
        )
    }
}

/// Build the crop filter for one export: when camera motion is
/// enabled and a cursor track exists, the crop window follows the
/// synthesized focal-center expressions at the adaptive zoom;
/// otherwise it is a static centered window at zoom one.
pub fn build_crop_filter(
    manifest: &ProjectManifest,
    target_w: u32,
    target_h: u32,
    source_w: u32,
    source_h: u32,
    track: &Vec<CursorSample>,
) -> (r: String)
    requires
        wf_camera_profile(manifest.camera_motion),
        1 <= target_h,
        target_w <= 100_000,
        forall|i: int|
            0 <= i < track@.len() ==> -100_000_000 <= (#[trigger] track@[i]).x <= 100_000_000
                && -100_000_000 <= track@[i].y <= 100_000_000,
        track@.len() <= 1_000_000_000,
    ensures
        r@ == crop_filter_spec(
            *manifest,
            target_w as int,
            target_h as int,
            source_w as int,
            source_h as int,
            track@,
        ),
{
    let ar = aspect_ratio_micro(target_w, target_h);
    let dynamic = manifest.camera_motion.enabled && track.len() > 0;
    let zoom_milli: i64 = if dynamic {
        camera_zoom(manifest)
    } else {
        1000
    };
    let zoom_micro: u64 = (zoom_milli as u64) * 1000;
    let mut w = String::new();
    w.append("if(gt(iw/ih,");
    push_micro6(&mut w, ar);
    w.append("),trunc((ih*");
    push_micro6(&mut w, ar);
    w.append(")/");
    push_micro6(&mut w, zoom_micro);
    w.append("/2)*2,trunc(iw/");
    push_micro6(&mut w, zoom_micro);
    w.append("/2)*2)");
    proof {
        assert(w@ =~= crop_w_chars(ar as nat, zoom_micro as nat));
    }
    let mut h = String::new();
    h.append("if(gt(iw/ih,");
    push_micro6(&mut h, ar);
    h.append("),trunc(ih/");
    push_micro6(&mut h, zoom_micro);
    h.append("/2)*2,trunc((iw/");
    push_micro6(&mut h, ar);
    h.append(")/");
    push_micro6(&mut h, zoom_micro);
    h.append("/2)*2)");
    proof {
        assert(h@ =~= crop_h_chars(ar as nat, zoom_micro as nat));
    }
    let (x, y): (String, String) = if dynamic {
        let exprs = build_cursor_position_expr(
            track,
            source_w,
            source_h,
            manifest.camera_motion.smoothing,
            manifest.camera_motion.idle_threshold_ms,
            manifest.camera_motion.intensity,
        );
        let (nx, ny) = match exprs {
            Some(pair) => pair,
            None => (String::new(), String::new()),
        };
        let mut x = String::new();
        x.append("max(0,min(iw-ow,iw*(");
        x.append(nx.as_str());
        x.append(")-ow/2))");
        let mut y = String::new();
        y.append("max(0,min(ih-oh,ih*(");
        y.append(ny.as_str());
        y.append(")-oh/2))");
        proof {
            assert(x@ =~= dyn_x_chars(nx@));
            assert(y@ =~= dyn_y_chars(ny@));
        }
        (x, y)
    } else {
        ("(iw-ow)/2".to_owned(), "(ih-oh)/2".to_owned())
    };
    let mut out = String::new();
    out.append("crop=w='");
    out.append(w.as_str());
    out.append("':h='");
    out.append(h.as_str());
    out.append("':x='");
    out.append(x.as_str());
    out.append("':y='");
    out.append(y.as_str());
    out.append("'");
    proof {
        assert(out@ =~= crop_filter_chars(w@, h@, x@, y@));
    }
    out
}

/// The full video filter chain of one export: the crop filter, a
/// light visual enhancement when cursor highlighting is on, then
/// scaling and aspect metadata for the target resolution.
pub fn build_video_filters(
    manifest: &ProjectManifest,
    target_w: u32,
    target_h: u32,
    source_w: u32,
    source_h: u32,
    track: &Vec<CursorSample>,
) -> (r: String)
    requires
        wf_camera_profile(manifest.camera_motion),
        1 <= target_h,
        target_w <= 100_000,
        forall|i: int|
            0 <= i < track@.len() ==> -100_000_000 <= (#[trigger] track@[i]).x <= 100_000_000
                && -100_000_000 <= track@[i].y <= 100_000_000,
        track@.len() <= 1_000_000_000,
    ensures
        ({
            let eq_part: Seq<char> = if manifest.timeline.cursor_highlight_enabled {
                ",eq=contrast=1.03:saturation=1.06"@
            } else {
                ""@
            };
            r@ == crop_filter_spec(
                *manifest,
                target_w as int,
                target_h as int,
                source_w as int,
                source_h as int,
                track@,
            ) + eq_part + ",scale="@ + dec_digits(target_w as nat) + ":"@ + dec_digits(
                target_h as nat,
            ) + ",setsar=1,setdar="@ + dec_digits(target_w as nat) + "/"@ + dec_digits(
                target_h as nat,
            )
        }),
{
    let crop = build_crop_filter(manifest, target_w, target_h, source_w, source_h, track);
    let mut out = String::new();
    out.append(crop.as_str());
    if manifest.timeline.cursor_highlight_enabled {
        out.append(",eq=contrast=1.03:saturation=1.06");
    }
    out.append(",scale=");
    push_u64(&mut out, target_w as u64);
    out.append(":");
    push_u64(&mut out, target_h as u64);
    out.append(",setsar=1,setdar=");
    push_u64(&mut out, target_w as u64);
    out.append("/");
    push_u64(&mut out, target_h as u64);
    proof {
        let eq_part: Seq<char> = if manifest.timeline.cursor_highlight_enabled {
            ",eq=contrast=1.03:saturation=1.06"@
        } else {
            ""@
        };
        reveal_strlit("");
        assert(out@ =~= crop@ + eq_part + ",scale="@ + dec_digits(target_w as nat) + ":"@
            + dec_digits(target_h as nat) + ",setsar=1,setdar="@ + dec_digits(target_w as nat)
            + "/"@ + dec_digits(target_h as nat));
    }
    out
}

} // verus!
