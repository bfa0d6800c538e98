use vstd::prelude::*;

use crate::motion::CursorSample;

verus! {

/// Deterministic synthetic cursor x-coordinate at time `t`, in
/// thousandths of a pixel.
pub open spec fn synth_x(t: int) -> int {
    200_000 + (t % 1000) * 300
}

/// Deterministic synthetic cursor y-coordinate at time `t`.
pub open spec fn synth_y(t: int) -> int {
    160_000 + (t % 1400) * 200
}

pub open spec fn synth_sample(t: int) -> CursorSample {
    CursorSample { t_ms: t as u64, x: synth_x(t) as i64, y: synth_y(t) as i64 }
}

/// The synthetic track of a session: one sample every 120
/// milliseconds from zero, with the exact end time appended when the
/// grid misses it, so the track always covers `[0, duration_ms]`.
pub open spec fn synthetic_track_spec(duration_ms: int) -> Seq<CursorSample> {
    let base = Seq::new((duration_ms / 120 + 1) as nat, |i: int| synth_sample(i * 120));
    if duration_ms % 120 == 0 {
        base
    } else {
        base.push(synth_sample(duration_ms))
    }
}

/// Timestamps never decrease along the track.
pub open spec fn track_monotone(s: Seq<CursorSample>) -> bool {
    forall|i: int, j: int| 0 <= i <= j < s.len() ==> (#[trigger] s[i]).t_ms <= (#[trigger] s[j]).t_ms
}

/// A deterministic substitute trajectory for a session where no real
/// pointer was observed, so downstream stages never see an empty
/// track.
pub fn synthetic_track(duration_ms: u64) -> (r: Vec<CursorSample>)
    requires
        duration_ms <= 1_000_000_000_000,
    ensures
        r@ == synthetic_track_spec(duration_ms as int),
        r@.len() >= 1,
        r@[0].t_ms == 0,
        r@.last().t_ms == duration_ms,
        track_monotone(r@),
        forall|i: int|
            0 <= i < r@.len() ==> -100_000_000 <= (#[trigger] r@[i]).x <= 100_000_000
                && -100_000_000 <= r@[i].y <= 100_000_000,
{
    let n: u64 = duration_ms / 120 + 1;
    let mut out: Vec<CursorSample> = Vec::new();
    let mut i: u64 = 0;
    while i < n
        invariant
            0 <= i <= n == duration_ms / 120 + 1,
            duration_ms <= 1_000_000_000_000,
            out@.len() == i,
            forall|j: int| 0 <= j < i ==> #[trigger] out@[j] == synth_sample(j * 120),
        decreases n - i,
    {
        let t = i * 120;
        let x: i64 = 200_000 + ((t % 1000) as i64) * 300;
        let y: i64 = 160_000 + ((t % 1400) as i64) * 200;
        out.push(CursorSample { t_ms: t, x, y });
        proof {
            assert(out@.last() == synth_sample(i as int * 120));
        }
        i = i + 1;
    }
    if duration_ms % 120 != 0 {
        let x: i64 = 200_000 + ((duration_ms % 1000) as i64) * 300;
        let y: i64 = 160_000 + ((duration_ms % 1400) as i64) * 200;
        out.push(CursorSample { t_ms: duration_ms, x, y });
    }
    proof {
        let base = Seq::new((duration_ms as int / 120 + 1) as nat, |j: int| synth_sample(j * 120));
        if duration_ms % 120 == 0 {
            assert(out@ =~= base);
        } else {
            assert(out@.drop_last() =~= base);
            assert(out@ =~= synthetic_track_spec(duration_ms as int));
        }
        assert forall|a: int, b: int| 0 <= a <= b < out@.len() implies (#[trigger] out@[a]).t_ms
            <= (#[trigger] out@[b]).t_ms by {
            if b < duration_ms as int / 120 + 1 {
                assert(out@[a] == synth_sample(a * 120));
                assert(out@[b] == synth_sample(b * 120));
                assert(a * 120 <= b * 120) by (nonlinear_arith)
                    requires
                        a <= b,
                ;
            } else {
                if a < b {
                    assert(out@[a] == synth_sample(a * 120));
                    assert(a * 120 <= duration_ms) by (nonlinear_arith)
                        requires
                            a <= duration_ms as int / 120,
                            duration_ms as int / 120 * 120 <= duration_ms,
                    ;
                    assert((duration_ms as int / 120) * 120 <= duration_ms) by {
                        vstd::arithmetic::div_mod::lemma_fundamental_div_mod(
                            duration_ms as int,
                            120,
                        );
                        vstd::arithmetic::div_mod::lemma_mod_bound(duration_ms as int, 120);
                    }
                }
            }
        }
    }
    out
}

/// Normalize a recorded cursor track for persistence: timestamps
/// are clamped to the session duration, and the last position is
/// extended to the exact end when the real samples fall short; an
/// empty track is replaced by the synthetic trajectory.
pub fn normalize_cursor_track(samples: &Vec<CursorSample>, duration_ms: u64) -> (r: Vec<
    CursorSample,
>)
    requires
        duration_ms <= 1_000_000_000_000,
    ensures
        samples@.len() == 0 ==> r@ == synthetic_track_spec(duration_ms as int),
        samples@.len() > 0 ==> {
            let clamped = Seq::new(
                samples@.len(),
                |i: int|
                    CursorSample {
                        t_ms: (if samples@[i].t_ms <= duration_ms {
                            samples@[i].t_ms
                        } else {
                            duration_ms
                        }),
                        ..samples@[i]
                    },
            );
            if clamped.last().t_ms < duration_ms {
                r@ == clamped.push(
                    CursorSample {
                        t_ms: duration_ms,
                        x: clamped.last().x,
                        y: clamped.last().y,
                    },
                )
            } else {
                r@ == clamped
            }
        },
        r@.len() >= 1,
        r@.last().t_ms == duration_ms,
        forall|i: int| 0 <= i < r@.len() ==> (#[trigger] r@[i]).t_ms <= duration_ms,
{
    if samples.len() == 0 {
        return synthetic_track(duration_ms);
    }
    let mut out: Vec<CursorSample> = Vec::new();
    let n = samples.len();
    let mut i: usize = 0;
    while i < n
        invariant
            0 <= i <= n == samples@.len(),
            out@.len() == i,
            forall|j: int|
                0 <= j < i ==> #[trigger] out@[j] == (CursorSample {
                    t_ms: (if samples@[j].t_ms <= duration_ms {
                        samples@[j].t_ms
                    } else {
                        duration_ms
                    }),
                    ..samples@[j]
                }),
        decreases n - i,
    {
        let s = samples[i];
        let t = if s.t_ms <= duration_ms {
            s.t_ms
        } else {
            duration_ms
        };
        out.push(CursorSample { t_ms: t, x: s.x, y: s.y });
        i = i + 1;
    }
    let last = out[out.len() - 1];
    if last.t_ms < duration_ms {
        out.push(CursorSample { t_ms: duration_ms, x: last.x, y: last.y });
    }
    proof {
        let clamped = Seq::new(
            samples@.len(),
            |j: int|
                CursorSample {
                    t_ms: (if samples@[j].t_ms <= duration_ms {
                        samples@[j].t_ms
                    } else {
                        duration_ms
                    }),
                    ..samples@[j]
                },
        );
        if last.t_ms < duration_ms {
            assert(out@.drop_last() =~= clamped);
            assert(out@ =~= clamped.push(
                CursorSample { t_ms: duration_ms, x: clamped.last().x, y: clamped.last().y },
            ));
        } else {
            assert(out@ =~= clamped);
        }
    }
    out
}

} // verus!
