use vstd::prelude::*;

use crate::models::{CameraIntensity, CameraMotionProfile};

verus! {

/// Largest coordinate magnitude the engine accepts, in thousandths
/// of a pixel (one hundred thousand pixels).
pub const COORD_LIMIT: i64 = 100_000_000;

/// Largest per-tick speed cap, in thousandths of a pixel.
pub const SPEED_LIMIT: i64 = 100_000_000;

/// Largest zoom magnitude the engine accepts, in thousandths.
pub const ZOOM_LIMIT: i64 = 1_000_000;

/// A smoothed virtual-camera state. Coordinates are in thousandths
/// of a pixel; zoom is a factor in thousandths, clamped by the
/// engine to `[1000, 2000]` (that is, `[1.0, 2.0]`).
#[derive(Debug, Clone, Copy, PartialEq, Eq, Structural)]
pub struct MotionPoint {
    pub x: i64,
    pub y: i64,
    pub zoom: i64,
}

/// Smoothing-step parameters: `smoothing` in thousandths of one,
/// `max_speed_px` in thousandths of a pixel per tick, and
/// `max_zoom_step` in thousandths of zoom per tick.
#[derive(Debug, Clone, Copy)]
pub struct MotionConfig {
    pub smoothing: i64,
    pub max_speed_px: i64,
    pub max_zoom_step: i64,
}

impl Default for MotionConfig {
    fn default() -> (r: Self)
        ensures
            r.smoothing == 680,
            r.max_speed_px == 80_000,
            r.max_zoom_step == 80,
    {
        Self { smoothing: 680, max_speed_px: 80_000, max_zoom_step: 80 }
    }
}

pub open spec fn wf_point(p: MotionPoint) -> bool {
    &&& -COORD_LIMIT <= p.x <= COORD_LIMIT
    &&& -COORD_LIMIT <= p.y <= COORD_LIMIT
    &&& -ZOOM_LIMIT <= p.zoom <= ZOOM_LIMIT
}

pub open spec fn wf_config(cfg: MotionConfig) -> bool {
    &&& 0 <= cfg.max_speed_px <= SPEED_LIMIT
    &&& 0 <= cfg.max_zoom_step <= ZOOM_LIMIT
}

/// Truncating division, as the machine performs it on signed values.
pub open spec fn tdiv(a: int, b: int) -> int {
    if a >= 0 {
        a / b
    } else {
        -((-a) / b)
    }
}

pub open spec fn clamp_spec(v: int, lo: int, hi: int) -> int {
    if v < lo {
        lo
    } else if v > hi {
        hi
    } else {
        v
    }
}

/// `d` is the ceiling of the square root of `n`.
pub open spec fn is_ceil_sqrt(n: int, d: int) -> bool {
    &&& d >= 0
    &&& d * d >= n
    &&& (d == 0 || (d - 1) * (d - 1) < n)
}

pub open spec fn ceil_sqrt(n: int) -> int {
    choose|d: int| is_ceil_sqrt(n, d)
}

pub proof fn lemma_ceil_sqrt_unique(n: int, d1: int, d2: int)
    requires
        is_ceil_sqrt(n, d1),
        is_ceil_sqrt(n, d2),
    ensures
        d1 == d2,
{
    if d1 < d2 {
        assert((d2 - 1) * (d2 - 1) >= d1 * d1) by (nonlinear_arith)
            requires
                0 <= d1 <= d2 - 1,
        ;
    }
    if d2 < d1 {
        assert((d1 - 1) * (d1 - 1) >= d2 * d2) by (nonlinear_arith)
            requires
                0 <= d2 <= d1 - 1,
        ;
    }
}

/// Smallest `d` with `d * d >= n`.
pub fn isqrt_ceil(n: u64) -> (r: u64)
    ensures
        is_ceil_sqrt(n as int, r as int),
        ceil_sqrt(n as int) == r as int,
        r <= 0x1_0000_0000,
{
    let mut lo: u128 = 0;
    let mut hi: u128 = 0x1_0000_0000;
    proof {
        assert((0x1_0000_0000 as int) * (0x1_0000_0000 as int) >= n as int);
    }
    while lo < hi
        invariant
            0 <= lo <= hi <= 0x1_0000_0000,
            (hi * hi) as int >= n as int,
            lo == 0 || (lo - 1) * (lo - 1) < n,
        decreases hi - lo,
    {
        let mid: u128 = lo + (hi - lo) / 2;
        proof {
            assert(mid * mid <= 0x1_0000_0000 * 0x1_0000_0000) by (nonlinear_arith)
                requires
                    0 <= mid <= 0x1_0000_0000,
            ;
        }
        if mid * mid >= n as u128 {
            hi = mid;
        } else {
            lo = mid + 1;
        }
    }
    let r = lo as u64;
    proof {
        assert(is_ceil_sqrt(n as int, r as int));
        lemma_ceil_sqrt_unique(n as int, r as int, ceil_sqrt(n as int));
    }
    r
}

/// The exponential smoothing step, in exact fixed-point arithmetic:
/// the displacement toward the target is scaled by one minus the
/// smoothing factor, capped in Euclidean norm at `max_speed_px`
/// (direction preserved), and the zoom step is capped at
/// `max_zoom_step` and the result clamped to `[1000, 2000]`.
pub open spec fn smooth_spec(prev: MotionPoint, target: MotionPoint, cfg: MotionConfig)
    -> MotionPoint {
    let alpha = clamp_spec(cfg.smoothing as int, 0, 1000);
    let inv = 1000 - alpha;
    let dx = tdiv((target.x - prev.x) * inv, 1000);
    let dy = tdiv((target.y - prev.y) * inv, 1000);
    let s = cfg.max_speed_px as int;
    let capped = dx * dx + dy * dy > s * s;
    let d = ceil_sqrt(dx * dx + dy * dy);
    let fx = if capped {
        tdiv(dx * s, d)
    } else {
        dx
    };
    let fy = if capped {
        tdiv(dy * s, d)
    } else {
        dy
    };
    let dz0 = tdiv((target.zoom - prev.zoom) * inv, 1000);
    let dz = clamp_spec(dz0, -cfg.max_zoom_step as int, cfg.max_zoom_step as int);
    MotionPoint {
        x: (prev.x + fx) as i64,
        y: (prev.y + fy) as i64,
        zoom: clamp_spec(prev.zoom + dz, 1000, 2000) as i64,
    }
}

/// Truncating division of `a` by `b > 0`, with the magnitude bound
/// `|a| <= m ==> |r| <= m / b`.
fn div_trunc(a: i64, b: i64, Ghost(m): Ghost<int>) -> (r: i64)
    requires
        b >= 1,
        -m <= a as int <= m,
        0 <= m <= i64::MAX,
    ensures
        r == tdiv(a as int, b as int),
        -(m / b as int) <= r as int <= m / b as int,
{
    proof {
        if a >= 0 {
            vstd::arithmetic::div_mod::lemma_div_is_ordered(a as int, m, b as int);
            vstd::arithmetic::div_mod::lemma_div_pos_is_pos(a as int, b as int);
        } else {
            vstd::arithmetic::div_mod::lemma_div_is_ordered(-(a as int), m, b as int);
            vstd::arithmetic::div_mod::lemma_div_pos_is_pos(-(a as int), b as int);
        }
    }
    if a >= 0 {
        ((a as u64) / (b as u64)) as i64
    } else {
        let q = ((-a) as u64) / (b as u64);
        -(q as i64)
    }
}

/// Scaling a displacement by `inv/1000` with `0 <= inv <= 1000`
/// shrinks it toward zero and keeps its sign.
pub proof fn lemma_frac_shrinks(t: int, inv: int)
    requires
        0 <= inv <= 1000,
    ensures
        t >= 0 ==> 0 <= tdiv(t * inv, 1000) <= t,
        t < 0 ==> t <= tdiv(t * inv, 1000) <= 0,
{
    if t >= 0 {
        assert(0 <= t * inv <= t * 1000) by (nonlinear_arith)
            requires
                t >= 0,
                0 <= inv <= 1000,
        ;
        vstd::arithmetic::div_mod::lemma_div_pos_is_pos(t * inv, 1000);
        vstd::arithmetic::div_mod::lemma_div_is_ordered(t * inv, t * 1000, 1000);
        vstd::arithmetic::div_mod::lemma_div_multiples_vanish(t, 1000);
        assert(t * 1000 == 1000 * t) by (nonlinear_arith);
    } else {
        let u = -t;
        assert(0 <= u * inv <= u * 1000) by (nonlinear_arith)
            requires
                u >= 0,
                0 <= inv <= 1000,
        ;
        vstd::arithmetic::div_mod::lemma_div_pos_is_pos(u * inv, 1000);
        vstd::arithmetic::div_mod::lemma_div_is_ordered(u * inv, u * 1000, 1000);
        vstd::arithmetic::div_mod::lemma_div_multiples_vanish(u, 1000);
        assert(u * 1000 == 1000 * u) by (nonlinear_arith);
        assert(-(t * inv) == u * inv) by (nonlinear_arith)
            requires
                u == -t,
        ;
    }
}

/// Scaling a displacement by `s/d` with `0 <= s < d` shrinks it
/// toward zero and keeps its sign.
proof fn lemma_cap_shrinks(v: int, s: int, d: int)
    requires
        0 <= s < d,
    ensures
        v >= 0 ==> 0 <= tdiv(v * s, d) <= v,
        v < 0 ==> v <= tdiv(v * s, d) <= 0,
{
    if v >= 0 {
        assert(0 <= v * s <= v * d) by (nonlinear_arith)
            requires
                v >= 0,
                0 <= s <= d,
        ;
        vstd::arithmetic::div_mod::lemma_div_pos_is_pos(v * s, d);
        vstd::arithmetic::div_mod::lemma_div_is_ordered(v * s, v * d, d);
        vstd::arithmetic::div_mod::lemma_div_multiples_vanish(v, d);
        assert(v * d == d * v) by (nonlinear_arith);
    } else {
        let u = -v;
        assert(0 <= u * s <= u * d) by (nonlinear_arith)
            requires
                u >= 0,
                0 <= s <= d,
        ;
        vstd::arithmetic::div_mod::lemma_div_pos_is_pos(u * s, d);
        vstd::arithmetic::div_mod::lemma_div_is_ordered(u * s, u * d, d);
        vstd::arithmetic::div_mod::lemma_div_multiples_vanish(u, d);
        assert(u * d == d * u) by (nonlinear_arith);
        assert(-(v * s) == u * s) by (nonlinear_arith)
            requires
                u == -v,
        ;
    }
}

/// One smoothing step of the virtual camera.
///
/// The result is exactly `smooth_spec`; in addition, for every
/// accepted input: the squared displacement from `prev` never
/// exceeds the squared speed cap; the resulting zoom always lies in
/// `[1000, 2000]`; and a point already on target (with its zoom in
/// range) is a fixed point — smoothing at rest does not move.
pub fn smooth_motion(prev: MotionPoint, target: MotionPoint, cfg: MotionConfig) -> (r: MotionPoint)
    requires
        wf_point(prev),
        wf_point(target),
        wf_config(cfg),
    ensures
        r == smooth_spec(prev, target, cfg),
        1000 <= r.zoom <= 2000,
        (r.x - prev.x) * (r.x - prev.x) + (r.y - prev.y) * (r.y - prev.y) <= cfg.max_speed_px
            * cfg.max_speed_px,
        (prev == target && 1000 <= prev.zoom <= 2000) ==> r == prev,
        wf_point(r),
{
    let alpha: i64 = if cfg.smoothing < 0 {
        0
    } else if cfg.smoothing > 1000 {
        1000
    } else {
        cfg.smoothing
    };
    let inv: i64 = 1000 - alpha;
    let tx = target.x - prev.x;
    let ty = target.y - prev.y;
    proof {
        assert(-400_000_000_000 <= (tx as int) * (inv as int) <= 400_000_000_000)
            by (nonlinear_arith)
            requires
                -200_000_000 <= tx as int <= 200_000_000,
                0 <= inv as int <= 1000,
        ;
        assert(-400_000_000_000 <= (ty as int) * (inv as int) <= 400_000_000_000)
            by (nonlinear_arith)
            requires
                -200_000_000 <= ty as int <= 200_000_000,
                0 <= inv as int <= 1000,
        ;
    }
    let dx = div_trunc(tx * inv, 1000, Ghost(400_000_000_000));
    let dy = div_trunc(ty * inv, 1000, Ghost(400_000_000_000));
    proof {
        lemma_frac_shrinks(tx as int, inv as int);
        lemma_frac_shrinks(ty as int, inv as int);
    }
    let s = cfg.max_speed_px;
    proof {
        assert(0 <= (dx as int) * (dx as int) <= 40_000_000_000_000_000) by (nonlinear_arith)
            requires
                -200_000_000 <= dx as int <= 200_000_000,
        ;
        assert(0 <= (dy as int) * (dy as int) <= 40_000_000_000_000_000) by (nonlinear_arith)
            requires
                -200_000_000 <= dy as int <= 200_000_000,
        ;
        assert(0 <= (s as int) * (s as int) <= 10_000_000_000_000_000) by (nonlinear_arith)
            requires
                0 <= s as int <= 100_000_000,
        ;
    }
    let dist2: i64 = dx * dx + dy * dy;
    let (fx, fy): (i64, i64) = if dist2 > s * s {
        let d = isqrt_ceil(dist2 as u64);
        proof {
            assert(d >= 1) by {
                if d == 0 {
                    assert((d as int) * (d as int) == 0);
                }
            }
            assert((s as int) < d as int) by (nonlinear_arith)
                requires
                    (d as int) * (d as int) >= dist2 as int,
                    dist2 as int > (s as int) * (s as int),
                    d as int >= 0,
                    s as int >= 0,
            ;
            assert(-20_000_000_000_000_000 <= (dx as int) * (s as int) <= 20_000_000_000_000_000)
                by (nonlinear_arith)
                requires
                    -200_000_000 <= dx as int <= 200_000_000,
                    0 <= s as int <= 100_000_000,
            ;
            assert(-20_000_000_000_000_000 <= (dy as int) * (s as int) <= 20_000_000_000_000_000)
                by (nonlinear_arith)
                requires
                    -200_000_000 <= dy as int <= 200_000_000,
                    0 <= s as int <= 100_000_000,
            ;
        }
        let di = d as i64;
        let fx = div_trunc(dx * s, di, Ghost(20_000_000_000_000_000));
        let fy = div_trunc(dy * s, di, Ghost(20_000_000_000_000_000));
        proof {
            lemma_capped_step_bounded(dx as int, dy as int, s as int, d as int);
            lemma_cap_shrinks(dx as int, s as int, d as int);
            lemma_cap_shrinks(dy as int, s as int, d as int);
        }
        (fx, fy)
    } else {
        (dx, dy)
    };
    let tz = target.zoom - prev.zoom;
    proof {
        assert(-2_000_000_000 <= (tz as int) * (inv as int) <= 2_000_000_000) by (nonlinear_arith)
            requires
                -2_000_000 <= tz as int <= 2_000_000,
                0 <= inv as int <= 1000,
        ;
    }
    let dz0 = div_trunc(tz * inv, 1000, Ghost(2_000_000_000));
    proof {
        lemma_frac_shrinks(tz as int, inv as int);
    }
    let dz: i64 = if dz0 > cfg.max_zoom_step {
        cfg.max_zoom_step
    } else if dz0 < -cfg.max_zoom_step {
        -cfg.max_zoom_step
    } else {
        dz0
    };
    let z0 = prev.zoom + dz;
    let zoom: i64 = if z0 < 1000 {
        1000
    } else if z0 > 2000 {
        2000
    } else {
        z0
    };
    let r = MotionPoint { x: prev.x + fx, y: prev.y + fy, zoom };
    proof {
        if prev == target {
            assert(tdiv(0 * inv as int, 1000) == 0) by {
                assert(0 * inv as int == 0) by (nonlinear_arith);
            }
        }
    }
    r
}

/// In the capped branch, the scaled displacement keeps its squared
/// Euclidean norm within the squared speed cap.
proof fn lemma_capped_step_bounded(dx: int, dy: int, s: int, d: int)
    requires
        s >= 0,
        d >= 1,
        d * d >= dx * dx + dy * dy,
    ensures
        tdiv(dx * s, d) * tdiv(dx * s, d) + tdiv(dy * s, d) * tdiv(dy * s, d) <= s * s,
{
    let x = tdiv(dx * s, d);
    let y = tdiv(dy * s, d);
    let ax = if dx >= 0 {
        dx
    } else {
        -dx
    };
    let ay = if dy >= 0 {
        dy
    } else {
        -dy
    };
    assert(ax * s >= 0 && ay * s >= 0) by (nonlinear_arith)
        requires
            ax >= 0,
            ay >= 0,
            s >= 0,
    ;
    // |tdiv(v * s, d)| == (|v| * s) / d for the truncating division
    if dx < 0 {
        assert(dx * s == -(ax * s)) by (nonlinear_arith)
            requires
                ax == -dx,
        ;
    }
    if dy < 0 {
        assert(dy * s == -(ay * s)) by (nonlinear_arith)
            requires
                ay == -dy,
        ;
    }
    let qx = (ax * s) / d;
    let qy = (ay * s) / d;
    vstd::arithmetic::div_mod::lemma_div_pos_is_pos(ax * s, d);
    vstd::arithmetic::div_mod::lemma_div_pos_is_pos(ay * s, d);
    assert(x == qx || x == -qx);
    assert(y == qy || y == -qy);
    vstd::arithmetic::div_mod::lemma_fundamental_div_mod(ax * s, d);
    vstd::arithmetic::div_mod::lemma_fundamental_div_mod(ay * s, d);
    vstd::arithmetic::div_mod::lemma_mod_bound(ax * s, d);
    vstd::arithmetic::div_mod::lemma_mod_bound(ay * s, d);
    assert(qx * d <= ax * s) by (nonlinear_arith)
        requires
            ax * s == d * qx + (ax * s) % d,
            (ax * s) % d >= 0,
    ;
    assert(qy * d <= ay * s) by (nonlinear_arith)
        requires
            ay * s == d * qy + (ay * s) % d,
            (ay * s) % d >= 0,
    ;
    assert((qx * d) * (qx * d) <= (ax * s) * (ax * s)) by (nonlinear_arith)
        requires
            0 <= qx * d,
            qx * d <= ax * s,
    ;
    assert((qy * d) * (qy * d) <= (ay * s) * (ay * s)) by (nonlinear_arith)
        requires
            0 <= qy * d,
            qy * d <= ay * s,
    ;
    assert((qx * d) * (qx * d) == (qx * qx) * (d * d)) by (nonlinear_arith);
    assert((qy * d) * (qy * d) == (qy * qy) * (d * d)) by (nonlinear_arith);
    assert((ax * s) * (ax * s) == (ax * ax) * (s * s)) by (nonlinear_arith);
    assert((ay * s) * (ay * s) == (ay * ay) * (s * s)) by (nonlinear_arith);
    assert(ax * ax == dx * dx) by (nonlinear_arith)
        requires
            ax == dx || ax == -dx,
    ;
    assert(ay * ay == dy * dy) by (nonlinear_arith)
        requires
            ay == dy || ay == -dy,
    ;
    assert((qx * qx + qy * qy) * (d * d) == (qx * qx) * (d * d) + (qy * qy) * (d * d))
        by (nonlinear_arith);
    assert((ax * ax) * (s * s) + (ay * ay) * (s * s) == (ax * ax + ay * ay) * (s * s))
        by (nonlinear_arith);
    assert((ax * ax + ay * ay) * (s * s) <= (d * d) * (s * s)) by (nonlinear_arith)
        requires
            ax * ax + ay * ay <= d * d,
            s * s >= 0,
    ;
    assert(qx * qx + qy * qy <= s * s) by (nonlinear_arith)
        requires
            (qx * qx + qy * qy) * (d * d) <= (d * d) * (s * s),
            d >= 1,
    ;
    assert(x * x == qx * qx && y * y == qy * qy) by (nonlinear_arith)
        requires
            x == qx || x == -qx,
            y == qy || y == -qy,
    ;
}

/// One raw pointer observation; coordinates in thousandths of a
/// pixel, time in milliseconds from session start.
#[derive(Debug, Clone, Copy, PartialEq, Eq, Structural)]
pub struct CursorSample {
    pub t_ms: u64,
    pub x: i64,
    pub y: i64,
}

/// Derived UX metrics of a smoothed path: how long the camera takes
/// to reach most of a transition, and how much it wanders at rest
/// (in thousandths, relative to the mean position).
#[derive(Debug, Clone, Copy, PartialEq, Eq, Structural)]
pub struct MotionMetrics {
    pub transition_latency_ms: u64,
    pub idle_jitter_ratio: i64,
}

/// The motion profile's fields in their documented ranges.
pub open spec fn wf_camera_profile(p: CameraMotionProfile) -> bool {
    &&& 0 <= p.smoothing <= 1000
    &&& 1000 <= p.max_zoom <= 2000
    &&& 120 <= p.idle_threshold_ms <= 900
}

/// Base responsiveness presets per intensity, blended half-and-half
/// with the user's own smoothing preference.
pub open spec fn profile_config_spec(p: CameraMotionProfile) -> MotionConfig {
    let base = match p.intensity {
        CameraIntensity::Low => MotionConfig { smoothing: 720, max_speed_px: 120_000, max_zoom_step: 50 },
        CameraIntensity::Medium => MotionConfig {
            smoothing: 560,
            max_speed_px: 260_000,
            max_zoom_step: 100,
        },
        CameraIntensity::High => MotionConfig {
            smoothing: 420,
            max_speed_px: 360_000,
            max_zoom_step: 140,
        },
    };
    MotionConfig {
        smoothing: (((base.smoothing + p.smoothing) / 2) as i64),
        max_speed_px: base.max_speed_px,
        max_zoom_step: base.max_zoom_step,
    }
}

/// The intensity preset's base zoom, in thousandths.
pub open spec fn intensity_zoom_spec(intensity: CameraIntensity) -> int {
    match intensity {
        CameraIntensity::Low => 1030,
        CameraIntensity::Medium => 1080,
        CameraIntensity::High => 1140,
    }
}

pub fn intensity_zoom(intensity: CameraIntensity) -> (r: i64)
    ensures
        r == intensity_zoom_spec(intensity),
{
    match intensity {
        CameraIntensity::Low => 1030,
        CameraIntensity::Medium => 1080,
        CameraIntensity::High => 1140,
    }
}

/// Smoothing parameters derived from a motion profile: intensity
/// picks the preset, blended with the user's smoothing preference.
pub fn profile_to_config(profile: &CameraMotionProfile) -> (r: MotionConfig)
    requires
        wf_camera_profile(*profile),
    ensures
        r == profile_config_spec(*profile),
        wf_config(r),
        0 <= r.smoothing <= 1000,
{
    let (bs, bsp, bz): (i64, i64, i64) = match profile.intensity {
        CameraIntensity::Low => (720, 120_000, 50),
        CameraIntensity::Medium => (560, 260_000, 100),
        CameraIntensity::High => (420, 360_000, 140),
    };
    MotionConfig { smoothing: (bs + profile.smoothing) / 2, max_speed_px: bsp, max_zoom_step: bz }
}

/// The per-step target zoom: the intensity's base zoom, capped by
/// the user's zoom cap (itself clamped into `[1000, 2000]`).
pub open spec fn target_zoom_spec(p: CameraMotionProfile) -> int {
    let cap = clamp_spec(p.max_zoom as int, 1000, 2000);
    if intensity_zoom_spec(p.intensity) < cap {
        intensity_zoom_spec(p.intensity)
    } else {
        cap
    }
}

/// The smoothed virtual-camera path of a cursor sample sequence:
/// starts at the first sample at zoom 1.0, then one smoothing step
/// per further sample toward it at the profile's target zoom.
pub fn compute_motion_path(samples: &Vec<CursorSample>, profile: &CameraMotionProfile) -> (r: Vec<
    MotionPoint,
>)
    requires
        wf_camera_profile(*profile),
        forall|i: int|
            0 <= i < samples@.len() ==> -COORD_LIMIT <= #[trigger] samples@[i].x <= COORD_LIMIT
                && -COORD_LIMIT <= samples@[i].y <= COORD_LIMIT,
    ensures
        r@.len() == samples@.len(),
        samples@.len() > 0 ==> r@[0] == (MotionPoint {
            x: samples@[0].x,
            y: samples@[0].y,
            zoom: 1000,
        }),
        forall|i: int|
            1 <= i < r@.len() ==> #[trigger] r@[i] == smooth_spec(
                r@[i - 1],
                MotionPoint {
                    x: samples@[i].x,
                    y: samples@[i].y,
                    zoom: target_zoom_spec(*profile) as i64,
                },
                profile_config_spec(*profile),
            ),
        forall|i: int| 0 <= i < r@.len() ==> wf_point(#[trigger] r@[i]),
{
    let mut output: Vec<MotionPoint> = Vec::new();
    if samples.len() == 0 {
        return output;
    }
    let config = profile_to_config(profile);
    let zcap = if profile.max_zoom < 1000 {
        1000
    } else if profile.max_zoom > 2000 {
        2000
    } else {
        profile.max_zoom
    };
    let iz = intensity_zoom(profile.intensity);
    let tz: i64 = if iz < zcap {
        iz
    } else {
        zcap
    };
    let mut current = MotionPoint { x: samples[0].x, y: samples[0].y, zoom: 1000 };
    output.push(current);
    let mut i: usize = 1;
    while i < samples.len()
        invariant
            1 <= i <= samples@.len(),
            output@.len() == i,
            wf_camera_profile(*profile),
            config == profile_config_spec(*profile),
            tz == target_zoom_spec(*profile),
            forall|j: int|
                0 <= j < samples@.len() ==> -COORD_LIMIT <= #[trigger] samples@[j].x <= COORD_LIMIT
                    && -COORD_LIMIT <= samples@[j].y <= COORD_LIMIT,
            output@[0] == (MotionPoint { x: samples@[0].x, y: samples@[0].y, zoom: 1000 }),
            forall|j: int|
                1 <= j < i ==> #[trigger] output@[j] == smooth_spec(
                    output@[j - 1],
                    MotionPoint { x: samples@[j].x, y: samples@[j].y, zoom: tz },
                    config,
                ),
            forall|j: int| 0 <= j < i ==> wf_point(#[trigger] output@[j]),
            current == output@[i - 1],
        decreases samples@.len() - i,
    {
        let target = MotionPoint { x: samples[i].x, y: samples[i].y, zoom: tz };
        current = smooth_motion(current, target, config);
        output.push(current);
        i = i + 1;
    }
    output
}

pub open spec fn abs_spec(v: int) -> int {
    if v >= 0 {
        v
    } else {
        -v
    }
}

pub open spec fn sat_sub_spec(a: int, b: int) -> int {
    if a >= b {
        a - b
    } else {
        0
    }
}

/// Progress of one axis toward the final displacement, in
/// thousandths, clamped to one.
pub open spec fn axis_progress(delta: int, total: int) -> int {
    let a = abs_spec(delta);
    let p = (a * 1000) / total;
    if p > 1000 {
        1000
    } else {
        p
    }
}

/// Progress of a path point toward the final sample, averaged over
/// the axes that actually moved (at least one pixel in total).
pub open spec fn weighted_progress(p: MotionPoint, start: CursorSample, tdx: int, tdy: int)
    -> int {
    let hx = tdx >= 1000;
    let hy = tdy >= 1000;
    let px = if hx {
        axis_progress(p.x - start.x, tdx)
    } else {
        0
    };
    let py = if hy {
        axis_progress(p.y - start.y, tdy)
    } else {
        0
    };
    let cnt = (if hx {
        1int
    } else {
        0int
    }) + (if hy {
        1int
    } else {
        0int
    });
    if cnt == 0 {
        0
    } else {
        (px + py) / cnt
    }
}

/// First path index whose weighted progress reaches 75%, searching
/// from `i`; `path.len()` when none does.
pub open spec fn first_hit_from(
    path: Seq<MotionPoint>,
    start: CursorSample,
    tdx: int,
    tdy: int,
    i: int,
) -> int
    decreases path.len() - i,
{
    if i < 0 || i >= path.len() {
        path.len() as int
    } else if weighted_progress(path[i], start, tdx, tdy) >= 750 {
        i
    } else {
        first_hit_from(path, start, tdx, tdy, i + 1)
    }
}

/// Transition latency: elapsed time until the smoothed path first
/// reaches 75% weighted progress toward the final sample; the whole
/// elapsed time when it never does (and some axis moved).
pub open spec fn latency_spec(samples: Seq<CursorSample>, path: Seq<MotionPoint>) -> int {
    let start = samples[0];
    let target = samples[samples.len() - 1];
    let tdx = abs_spec(target.x - start.x);
    let tdy = abs_spec(target.y - start.y);
    let h = first_hit_from(path, start, tdx, tdy, 0);
    let base = if h < path.len() {
        sat_sub_spec(samples[h].t_ms as int, start.t_ms as int)
    } else {
        0
    };
    if base == 0 && (tdx >= 1000 || tdy >= 1000) {
        sat_sub_spec(target.t_ms as int, start.t_ms as int)
    } else {
        base
    }
}

pub open spec fn sum_x(s: Seq<MotionPoint>) -> int
    decreases s.len(),
{
    if s.len() == 0 {
        0
    } else {
        sum_x(s.drop_last()) + s.last().x
    }
}

pub open spec fn sum_absdev_x(s: Seq<MotionPoint>, c: int) -> int
    decreases s.len(),
{
    if s.len() == 0 {
        0
    } else {
        sum_absdev_x(s.drop_last(), c) + abs_spec(s.last().x - c)
    }
}

proof fn lemma_first_hit_is(
    path: Seq<MotionPoint>,
    start: CursorSample,
    tdx: int,
    tdy: int,
    k: int,
    i: int,
)
    requires
        0 <= k <= i <= path.len(),
        forall|j: int| k <= j < i ==> weighted_progress(#[trigger] path[j], start, tdx, tdy) < 750,
        i < path.len() ==> weighted_progress(path[i], start, tdx, tdy) >= 750,
    ensures
        first_hit_from(path, start, tdx, tdy, k) == (if i < path.len() {
            i
        } else {
            path.len() as int
        }),
    decreases i - k,
{
    if k < i {
        lemma_first_hit_is(path, start, tdx, tdy, k + 1, i);
    }
}

/// Progress of one axis, in thousandths, from the raw coordinates.
fn axis_progress_exec(p_coord: i64, start_coord: i64, total: i64) -> (r: i64)
    requires
        -COORD_LIMIT <= p_coord <= COORD_LIMIT,
        -COORD_LIMIT <= start_coord <= COORD_LIMIT,
        total >= 1,
    ensures
        r == axis_progress(p_coord - start_coord, total as int),
        0 <= r <= 1000,
{
    let delta = p_coord - start_coord;
    let a: i64 = if delta >= 0 {
        delta
    } else {
        -delta
    };
    let prod: i64 = a * 1000;
    let q = ((prod as u64) / (total as u64)) as i64;
    proof {
        vstd::arithmetic::div_mod::lemma_div_pos_is_pos(prod as int, total as int);
    }
    if q > 1000 {
        1000
    } else {
        q
    }
}

/// Derived UX metrics of a smoothed camera path against its raw
/// samples: transition latency and idle jitter, as `latency_spec`
/// and `jitter_spec` state them. Trivial inputs (fewer than two
/// samples or path points) yield zero metrics.
pub fn evaluate_metrics(samples: &Vec<CursorSample>, path: &Vec<MotionPoint>) -> (r: MotionMetrics)
    requires
        samples@.len() == path@.len(),
        forall|i: int|
            0 <= i < samples@.len() ==> -COORD_LIMIT <= #[trigger] samples@[i].x <= COORD_LIMIT
                && -COORD_LIMIT <= samples@[i].y <= COORD_LIMIT,
        forall|i: int| 0 <= i < path@.len() ==> wf_point(#[trigger] path@[i]),
    ensures
        (samples@.len() < 2 || path@.len() < 2) ==> r == (MotionMetrics {
            transition_latency_ms: 0,
            idle_jitter_ratio: 0,
        }),
        (samples@.len() >= 2 && path@.len() >= 2) ==> r.transition_latency_ms == latency_spec(
            samples@,
            path@,
        ) && r.idle_jitter_ratio == jitter_spec(path@),
{
    let n = samples.len();
    if n < 2 {
        return MotionMetrics { transition_latency_ms: 0, idle_jitter_ratio: 0 };
    }
    let start = samples[0];
    let target = samples[n - 1];
    let tdx: i64 = if target.x >= start.x {
        target.x - start.x
    } else {
        start.x - target.x
    };
    let tdy: i64 = if target.y >= start.y {
        target.y - start.y
    } else {
        start.y - target.y
    };
    let has_x = tdx >= 1000;
    let has_y = tdy >= 1000;
    let axis_count: i64 = (if has_x {
        1
    } else {
        0
    }) + (if has_y {
        1
    } else {
        0
    });
    // first path index with weighted progress at or past 75%
    let mut hit: usize = n;
    let mut found: bool = false;
    let mut i: usize = 0;
    while i < n && !found
        invariant
            0 <= i <= n == path@.len(),
            n == samples@.len(),
            !found ==> hit == n,
            found ==> hit < n && first_hit_from(path@, start, tdx as int, tdy as int, 0)
                == hit as int,
            start == samples@[0],
            target == samples@[n - 1],
            tdx == abs_spec(target.x - start.x),
            tdy == abs_spec(target.y - start.y),
            has_x == (tdx >= 1000),
            has_y == (tdy >= 1000),
            axis_count == (if has_x {
                1int
            } else {
                0int
            }) + (if has_y {
                1int
            } else {
                0int
            }),
            forall|i0: int|
                0 <= i0 < samples@.len() ==> -COORD_LIMIT <= #[trigger] samples@[i0].x
                    <= COORD_LIMIT && -COORD_LIMIT <= samples@[i0].y <= COORD_LIMIT,
            forall|i0: int| 0 <= i0 < path@.len() ==> wf_point(#[trigger] path@[i0]),
            !found ==> (forall|j: int|
                0 <= j < i ==> weighted_progress(#[trigger] path@[j], start, tdx as int, tdy as int)
                    < 750),
        decreases n - i + (if found {
            0int
        } else {
            1int
        }),
    {
        let p = path[i];
        let px: i64 = if has_x {
            axis_progress_exec(p.x, start.x, tdx)
        } else {
            0
        };
        let py: i64 = if has_y {
            axis_progress_exec(p.y, start.y, tdy)
        } else {
            0
        };
        let wp: i64 = if axis_count == 0 {
            0
        } else {
            ((px + py) as u64 / axis_count as u64) as i64
        };
        proof {
            assert(wp == weighted_progress(path@[i as int], start, tdx as int, tdy as int));
        }
        if wp >= 750 {
            hit = i;
            found = true;
            proof {
                lemma_first_hit_is(path@, start, tdx as int, tdy as int, 0, i as int);
            }
        } else {
            i = i + 1;
        }
    }
    proof {
        if !found {
            lemma_first_hit_is(path@, start, tdx as int, tdy as int, 0, n as int);
        }
        assert(first_hit_from(path@, start, tdx as int, tdy as int, 0) == hit as int);
    }
    let base: u64 = if hit < n {
        let t = samples[hit].t_ms;
        if t >= start.t_ms {
            t - start.t_ms
        } else {
            0
        }
    } else {
        0
    };
    let transition_latency_ms: u64 = if base == 0 && (has_x || has_y) {
        if target.t_ms >= start.t_ms {
            target.t_ms - start.t_ms
        } else {
            0
        }
    } else {
        base
    };
    // idle jitter over the last ten path points
    let m: usize = if n >= 10 {
        10
    } else {
        n
    };
    let lo = n - m;
    let ghost tail = path@.subrange(lo as int, n as int);
    let mut sum: i64 = 0;
    let mut j: usize = lo;
    while j < n
        invariant
            lo <= j <= n == path@.len(),
            1 <= m <= 10,
            lo == n - m,
            tail == path@.subrange(lo as int, n as int),
            forall|i0: int| 0 <= i0 < path@.len() ==> wf_point(#[trigger] path@[i0]),
            sum == sum_x(path@.subrange(lo as int, j as int)),
            -(j - lo) * COORD_LIMIT <= sum <= (j - lo) * COORD_LIMIT,
        decreases n - j,
    {
        proof {
            assert(path@.subrange(lo as int, j + 1).drop_last() =~= path@.subrange(
                lo as int,
                j as int,
            ));
            assert((j + 1 - lo) * COORD_LIMIT == (j - lo) * COORD_LIMIT + COORD_LIMIT)
                by (nonlinear_arith);
        }
        sum = sum + path[j].x;
        j = j + 1;
    }
    proof {
        assert(tail =~= path@.subrange(lo as int, n as int));
        assert((m as int) * COORD_LIMIT <= 10 * COORD_LIMIT) by (nonlinear_arith)
            requires
                1 <= m as int <= 10,
    ;
    }
    let c = div_trunc(sum, m as i64, Ghost(1_000_000_000));
    let mut dev: i64 = 0;
    let mut j2: usize = lo;
    while j2 < n
        invariant
            lo <= j2 <= n == path@.len(),
            1 <= m <= 10,
            lo == n - m,
            tail == path@.subrange(lo as int, n as int),
            forall|i0: int| 0 <= i0 < path@.len() ==> wf_point(#[trigger] path@[i0]),
            -2_000_000_000 <= c <= 2_000_000_000,
            dev == sum_absdev_x(path@.subrange(lo as int, j2 as int), c as int),
            0 <= dev <= (j2 - lo) * 4_000_000_000,
        decreases n - j2,
    {
        proof {
            assert(path@.subrange(lo as int, j2 + 1).drop_last() =~= path@.subrange(
                lo as int,
                j2 as int,
            ));
            assert((j2 + 1 - lo) * 4_000_000_000 == (j2 - lo) * 4_000_000_000 + 4_000_000_000)
                by (nonlinear_arith);
        }
        let x = path[j2].x;
        let d: i64 = if x >= c {
            x - c
        } else {
            c - x
        };
        dev = dev + d;
        j2 = j2 + 1;
    }
    proof {
        assert((j2 - lo) * 4_000_000_000 <= 40_000_000_000) by (nonlinear_arith)
            requires
                0 <= j2 - lo <= 10,
        ;
    }
    let jm = ((dev as u64) / (m as u64)) as i64;
    proof {
        vstd::arithmetic::div_mod::lemma_div_pos_is_pos(dev as int, m as int);
        vstd::arithmetic::div_mod::lemma_div_is_ordered(dev as int, 40_000_000_000, m as int);
    }
    let idle_jitter_ratio: i64 = if c == 0 {
        0
    } else {
        let ac: i64 = if c >= 0 {
            c
        } else {
            -c
        };
        let prod = jm * 1000;
        ((prod as u64) / (ac as u64)) as i64
    };
    proof {
        if c != 0 {
            let ac = abs_spec(c as int);
            vstd::arithmetic::div_mod::lemma_div_pos_is_pos((jm as int) * 1000, ac);
        }
    }
    MotionMetrics { transition_latency_ms, idle_jitter_ratio }
}

/// Idle jitter: mean absolute deviation of the last ten path points'
/// x-coordinate from their mean, relative to that mean, in
/// thousandths; zero when the mean is zero.
pub open spec fn jitter_spec(path: Seq<MotionPoint>) -> int {
    let n = if path.len() >= 10 {
        10int
    } else {
        path.len() as int
    };
    let tail = path.subrange(path.len() - n, path.len() as int);
    let c = tdiv(sum_x(tail), n);
    let jm = sum_absdev_x(tail, c) / n;
    if c == 0 {
        0
    } else {
        (jm * 1000) / abs_spec(c)
    }
}

} // verus!
