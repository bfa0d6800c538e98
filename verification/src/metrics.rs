use vstd::prelude::*;

use vstd::string::StringSliceAdditionalSpecFns;

use crate::text::{
    contains_sub, digits_val, find_byte, find_non_space, find_space, find_sub, has_sub,
    idx_non_space, idx_of, idx_of_sub, idx_space, is_digit_byte, lemma_digits_val_nonneg,
    lemma_frac_digits_val_bounds, lemma_idx_of_props, lemma_idx_of_sub_props, lemma_pow10_pos,
    match_at, parse_decimal, pow10, scaled_decimal_val, valid_decimal_token, CR, DOT, NL,
};

verus! {

/// Upper cap on a single parsed drop rate, in hundredths of a percent.
pub const RATE_CAP: i64 = 1_000_000_000;

/// The `drop=` marker, as bytes.
pub open spec fn drop_key_spec() -> Seq<u8> {
    seq![100u8, 114u8, 111u8, 112u8, 61u8]
}

/// Sentinel for "no drop markers were present in the log at all":
/// distinguishes "measured good" from "not measured".
pub const DROP_RATE_UNAVAILABLE: i64 = -100;

pub open spec fn rate_cap(v: int) -> int {
    if v > RATE_CAP {
        RATE_CAP as int
    } else {
        v
    }
}

pub open spec fn frame_key_spec() -> Seq<u8> {
    seq![102u8, 114u8, 97u8, 109u8, 101u8, 61u8]
}

/// One line of a diagnostic log, with a single trailing carriage
/// return removed.
pub open spec fn strip_cr(line: Seq<u8>) -> Seq<u8> {
    if line.len() > 0 && line.last() == CR {
        line.drop_last()
    } else {
        line
    }
}

/// The whitespace-delimited value token following the first
/// occurrence of `key` in `line`, skipping leading whitespace.
pub open spec fn token_after(line: Seq<u8>, key: Seq<u8>) -> Option<Seq<u8>> {
    if contains_sub(line, key) {
        let p = idx_of_sub(line, key);
        let seg = line.subrange(p + key.len(), line.len() as int);
        let ts = idx_non_space(seg);
        if ts == seg.len() {
            None
        } else {
            let rest = seg.subrange(ts, seg.len() as int);
            Some(rest.subrange(0, idx_space(rest)))
        }
    } else {
        None
    }
}

/// Drop rate contributed by one log line, in hundredths of a percent:
/// `drop=` and `frame=` counters give `drop/frame` as a percentage;
/// a `drop=` token without a readable `frame=` token is taken as a
/// direct percentage. A line without a readable `drop=` token
/// contributes nothing.
pub open spec fn line_rate(raw: Seq<u8>) -> Option<int> {
    let line = strip_cr(raw);
    match token_after(line, drop_key_spec()) {
        None => None,
        Some(dt) => if !valid_decimal_token(dt) {
            None
        } else {
            let d = scaled_decimal_val(dt, 2);
            match token_after(line, frame_key_spec()) {
                Some(ft) => if valid_decimal_token(ft) {
                    let f = scaled_decimal_val(ft, 2);
                    if f > 0 {
                        Some(rate_cap(d * 10000 / f))
                    } else {
                        Some(0)
                    }
                } else {
                    Some(rate_cap(d))
                },
                None => Some(rate_cap(d)),
            }
        },
    }
}

pub open spec fn opt_rate_seq(o: Option<int>) -> Seq<int> {
    match o {
        Some(v) => seq![v],
        None => Seq::<int>::empty(),
    }
}

/// All per-line drop rates of a log, in order.
pub open spec fn rates_of(s: Seq<u8>) -> Seq<int>
    decreases s.len(),
{
    if s.len() == 0 {
        Seq::<int>::empty()
    } else {
        let k = idx_of(s, NL);
        if 0 <= k < s.len() {
            opt_rate_seq(line_rate(s.subrange(0, k))) + rates_of(s.subrange(k + 1, s.len() as int))
        } else {
            opt_rate_seq(line_rate(s))
        }
    }
}

pub open spec fn seq_sum(s: Seq<int>) -> int
    decreases s.len(),
{
    if s.len() == 0 {
        0
    } else {
        seq_sum(s.drop_last()) + s.last()
    }
}

/// Maximum of a rate sequence and zero, mirroring a fold from zero.
pub open spec fn seq_max(s: Seq<int>) -> int
    decreases s.len(),
{
    if s.len() == 0 {
        0
    } else if s.last() > seq_max(s.drop_last()) {
        s.last()
    } else {
        seq_max(s.drop_last())
    }
}

proof fn lemma_scaled_decimal_nonneg(t: Seq<u8>, k: nat)
    requires
        valid_decimal_token(t),
    ensures
        scaled_decimal_val(t, k) >= 0,
{
    let d = idx_of(t, DOT);
    lemma_idx_of_props(t, DOT);
    let ip = t.subrange(0, d);
    lemma_digits_val_nonneg(ip);
    let fr = if d < t.len() {
        t.subrange(d + 1, t.len() as int)
    } else {
        Seq::<u8>::empty()
    };
    assert forall|i: int| 0 <= i < fr.len() implies is_digit_byte(#[trigger] fr[i]) by {
        assert(fr[i] == t[d + 1 + i]);
    }
    lemma_frac_digits_val_bounds(fr, k);
    lemma_pow10_pos(k);
    assert(digits_val(ip) * pow10(k) >= 0) by (nonlinear_arith)
        requires
            digits_val(ip) >= 0,
            pow10(k) >= 1,
    ;
}

/// Every rate a log line can contribute lies in `[0, RATE_CAP]`.
pub proof fn lemma_line_rate_bounds(raw: Seq<u8>)
    ensures
        line_rate(raw) matches Some(v) ==> 0 <= v <= RATE_CAP,
{
    let line = strip_cr(raw);
    if line_rate(raw) is Some {
        let dt = token_after(line, drop_key_spec()).unwrap();
        lemma_scaled_decimal_nonneg(dt, 2);
        let d = scaled_decimal_val(dt, 2);
        match token_after(line, frame_key_spec()) {
            Some(ft) => {
                if valid_decimal_token(ft) {
                    let f = scaled_decimal_val(ft, 2);
                    if f > 0 {
                        assert(d * 10000 >= 0) by (nonlinear_arith)
                            requires
                                d >= 0,
                        ;
                        assert(d * 10000 / f >= 0) by (nonlinear_arith)
                            requires
                                d * 10000 >= 0,
                                f > 0,
                        ;
                    }
                }
            },
            None => {},
        }
    }
}

/// Every element of `rates_of` lies in `[0, RATE_CAP]`.
pub proof fn lemma_rates_of_bounds(s: Seq<u8>)
    ensures
        forall|i: int| 0 <= i < rates_of(s).len() ==> 0 <= #[trigger] rates_of(s)[i] <= RATE_CAP,
    decreases s.len(),
{
    if s.len() > 0 {
        let k = idx_of(s, NL);
        if 0 <= k < s.len() {
            lemma_line_rate_bounds(s.subrange(0, k));
            lemma_rates_of_bounds(s.subrange(k + 1, s.len() as int));
            let first = opt_rate_seq(line_rate(s.subrange(0, k)));
            let rest = rates_of(s.subrange(k + 1, s.len() as int));
            assert forall|i: int| 0 <= i < rates_of(s).len() implies 0 <= #[trigger] rates_of(
                s,
            )[i] <= RATE_CAP by {
                if i < first.len() {
                    assert(rates_of(s)[i] == first[i]);
                } else {
                    assert(rates_of(s)[i] == rest[i - first.len()]);
                }
            }
        } else {
            lemma_line_rate_bounds(s);
        }
    }
}

proof fn lemma_sum_max_push(s: Seq<int>, v: int)
    ensures
        seq_sum(s.push(v)) == seq_sum(s) + v,
        seq_max(s.push(v)) == (if v > seq_max(s) {
            v
        } else {
            seq_max(s)
        }),
{
    assert(s.push(v).drop_last() =~= s);
}

/// Extract the value token after `key` within `s[lo..hi]`; the flag
/// says whether a token was found, and the two indices delimit it.
fn token_bounds(s: &[u8], lo: usize, hi: usize, key: &[u8]) -> (r: (bool, usize, usize))
    requires
        lo <= hi <= s@.len(),
        key@.len() >= 1,
    ensures
        ({
            let line = s@.subrange(lo as int, hi as int);
            if r.0 {
                token_after(line, key@) == Some(s@.subrange(r.1 as int, r.2 as int)) && lo <= r.1
                    <= r.2 <= hi
            } else {
                token_after(line, key@) is None
            }
        }),
{
    let ghost line = s@.subrange(lo as int, hi as int);
    let p = find_sub(s, lo, hi, key);
    proof {
        lemma_idx_of_sub_props(line, key@);
    }
    if p == hi {
        proof {
            if contains_sub(line, key@) {
                assert(match_at(line, key@, idx_of_sub(line, key@)));
            }
        }
        return (false, lo, lo);
    }
    proof {
        assert(match_at(line, key@, p - lo));
    }
    let seg_lo = p + key.len();
    let ghost seg = line.subrange(p - lo + key@.len(), line.len() as int);
    proof {
        assert(seg =~= s@.subrange(seg_lo as int, hi as int));
    }
    let ts = find_non_space(s, seg_lo, hi);
    if ts == hi {
        proof {
            assert(idx_non_space(seg) == seg.len());
        }
        return (false, lo, lo);
    }
    let ghost rest = seg.subrange(idx_non_space(seg), seg.len() as int);
    proof {
        assert(rest =~= s@.subrange(ts as int, hi as int));
    }
    let te = find_space(s, ts, hi);
    proof {
        assert(rest.subrange(0, idx_space(rest)) =~= s@.subrange(ts as int, te as int));
    }
    (true, ts, te)
}

/// Drop rate contributed by the log line `s[lo..hi]` (without its
/// newline), as `line_rate` specifies.
fn line_rate_exec(s: &[u8], lo: usize, hi: usize) -> (r: Option<i64>)
    requires
        lo <= hi <= s@.len(),
    ensures
        ({
            let spec_r = line_rate(s@.subrange(lo as int, hi as int));
            match r {
                Some(v) => spec_r == Some(v as int) && 0 <= v <= RATE_CAP,
                None => spec_r is None,
            }
        }),
{
    let ghost raw = s@.subrange(lo as int, hi as int);
    let mut h = hi;
    if hi > lo && s[hi - 1] == CR {
        h = hi - 1;
    }
    let ghost line = strip_cr(raw);
    proof {
        assert(line =~= s@.subrange(lo as int, h as int));
        lemma_line_rate_bounds(raw);
    }
    let dk: Vec<u8> = vec![100u8, 114u8, 111u8, 112u8, 61u8];
    proof {
        assert(dk@ =~= drop_key_spec());
    }
    let (d_found, dts, dte) = token_bounds(s, lo, h, dk.as_slice());
    if !d_found {
        return None;
    }
    let d = match parse_decimal(s, dts, dte, 2) {
        Some(v) => v,
        None => {
            return None;
        },
    };
    proof {
        let dt = token_after(line, drop_key_spec()).unwrap();
        assert(valid_decimal_token(dt));
        lemma_scaled_decimal_nonneg(dt, 2);
    }
    let fk: Vec<u8> = vec![102u8, 114u8, 97u8, 109u8, 101u8, 61u8];
    proof {
        assert(fk@ =~= frame_key_spec());
    }
    let (f_found, fts, fte) = token_bounds(s, lo, h, fk.as_slice());
    let f_val: Option<u64> = if f_found {
        parse_decimal(s, fts, fte, 2)
    } else {
        None
    };
    proof {
        if f_val is Some {
            let ft = token_after(line, frame_key_spec()).unwrap();
            assert(valid_decimal_token(ft));
            lemma_scaled_decimal_nonneg(ft, 2);
        }
    }
    let rate: u64 = match f_val {
        Some(f) => {
            if f > 0 {
                let wide: u128 = (d as u128) * 10000 / (f as u128);
                if wide > RATE_CAP as u128 {
                    RATE_CAP as u64
                } else {
                    wide as u64
                }
            } else {
                0
            }
        },
        None => {
            if d > RATE_CAP as u64 {
                RATE_CAP as u64
            } else {
                d
            }
        },
    };
    Some(rate as i64)
}

/// Average and peak drop rate of an encoder diagnostic log, in
/// hundredths of a percent, derived from its `drop=` (and `frame=`)
/// counters; `(0, 0)` when no line contributes a rate.
pub fn parse_drop_rates(log: &str) -> (r: (i64, i64))
    ensures
        rates_of(log.spec_bytes()).len() == 0 ==> r == (0i64, 0i64),
        rates_of(log.spec_bytes()).len() > 0 ==> r.0 == seq_sum(rates_of(log.spec_bytes()))
            / rates_of(log.spec_bytes()).len() as int && r.1 == seq_max(
            rates_of(log.spec_bytes()),
        ),
        0 <= r.0 <= r.1 <= RATE_CAP,
{
    let bytes = log.as_bytes();
    let n = bytes.len();
    let ghost total = rates_of(bytes@);
    let ghost mut processed = Seq::<int>::empty();
    let mut pos: usize = 0;
    let mut cnt: u128 = 0;
    let mut sum: u128 = 0;
    let mut peak: u64 = 0;
    proof {
        assert(total == processed + rates_of(bytes@.subrange(0, n as int))) by {
            assert(bytes@.subrange(0, n as int) =~= bytes@);
            assert(processed + rates_of(bytes@) =~= rates_of(bytes@));
        }
    }
    while pos < n
        invariant
            pos <= n == bytes@.len(),
            total == rates_of(bytes@),
            total == processed + rates_of(bytes@.subrange(pos as int, n as int)),
            cnt == processed.len(),
            sum == seq_sum(processed),
            peak == seq_max(processed),
            forall|i: int| 0 <= i < processed.len() ==> 0 <= #[trigger] processed[i] <= RATE_CAP,
            cnt <= pos,
            sum <= cnt * (peak as int),
            sum <= cnt * (RATE_CAP as int),
            peak <= RATE_CAP,
        decreases n - pos,
    {
        let ghost suffix = bytes@.subrange(pos as int, n as int);
        let k = find_byte(bytes, pos, n, NL);
        let rate_opt = line_rate_exec(bytes, pos, k);
        proof {
            if k < n {
                assert(suffix.subrange(0, k - pos) =~= bytes@.subrange(pos as int, k as int));
                assert(suffix.subrange(k - pos + 1, suffix.len() as int) =~= bytes@.subrange(
                    k + 1,
                    n as int,
                ));
            } else {
                assert(suffix =~= bytes@.subrange(pos as int, k as int));
                assert(rates_of(suffix) == opt_rate_seq(line_rate(suffix)));
            }
        }
        match rate_opt {
            Some(v) => {
                proof {
                    lemma_sum_max_push(processed, v as int);
                    let oldpeak = peak as int;
                    let newpeak: int = if v as int > oldpeak {
                        v as int
                    } else {
                        oldpeak
                    };
                    assert(cnt * oldpeak <= cnt * newpeak) by (nonlinear_arith)
                        requires
                            oldpeak <= newpeak,
                            cnt >= 0,
                    ;
                    assert((cnt + 1) * newpeak == cnt * newpeak + newpeak) by (nonlinear_arith);
                    assert((cnt + 1) * (RATE_CAP as int) == cnt * (RATE_CAP as int) + (
                    RATE_CAP as int)) by (nonlinear_arith);
                    assert(cnt * (RATE_CAP as int) <= (n as int) * (RATE_CAP as int))
                        by (nonlinear_arith)
                        requires
                            cnt <= n as int,
                            RATE_CAP as int >= 0,
                    ;
                    assert((n as int) * (RATE_CAP as int) + (RATE_CAP as int) < u128::MAX)
                        by (nonlinear_arith)
                        requires
                            n as int <= 0xffff_ffff_ffff_ffffu64 as int,
                    ;
                    processed = processed.push(v as int);
                }
                cnt = cnt + 1;
                sum = sum + (v as u128);
                if v as u64 > peak {
                    peak = v as u64;
                }
            },
            None => {},
        }
        if k < n {
            pos = k + 1;
        } else {
            pos = n;
            proof {
                assert(rates_of(bytes@.subrange(pos as int, n as int)) =~= Seq::<int>::empty());
            }
        }
    }
    proof {
        assert(bytes@.subrange(n as int, n as int) =~= Seq::<u8>::empty());
        assert(total =~= processed);
    }
    if cnt == 0 {
        return (0, 0);
    }
    let avg_wide: u128 = sum / cnt;
    proof {
        vstd::arithmetic::div_mod::lemma_div_is_ordered(
            sum as int,
            cnt * (peak as int),
            cnt as int,
        );
        vstd::arithmetic::div_mod::lemma_div_multiples_vanish(peak as int, cnt as int);
        assert((cnt * (peak as int)) == (cnt as int) * (peak as int));
    }
    let avg = avg_wide as u64;
    (avg as i64, peak as i64)
}

/// Average and peak drop rate of a diagnostic log, or the
/// "unavailable" sentinel pair when the log carries no `drop=`
/// marker at all.
pub fn log_drop_rates(log: &str) -> (r: (i64, i64))
    ensures
        !contains_sub(log.spec_bytes(), drop_key_spec()) ==> r == (
            DROP_RATE_UNAVAILABLE,
            DROP_RATE_UNAVAILABLE,
        ),
        contains_sub(log.spec_bytes(), drop_key_spec()) ==> {
            &&& rates_of(log.spec_bytes()).len() == 0 ==> r == (0i64, 0i64)
            &&& rates_of(log.spec_bytes()).len() > 0 ==> r.0 == seq_sum(
                rates_of(log.spec_bytes()),
            ) / rates_of(log.spec_bytes()).len() as int && r.1 == seq_max(
                rates_of(log.spec_bytes()),
            )
            &&& 0 <= r.0 <= r.1 <= RATE_CAP
        },
{
    let bytes = log.as_bytes();
    let dk: Vec<u8> = vec![100u8, 114u8, 111u8, 112u8, 61u8];
    proof {
        assert(dk@ =~= drop_key_spec());
    }
    if has_sub(bytes, dk.as_slice()) {
        parse_drop_rates(log)
    } else {
        (DROP_RATE_UNAVAILABLE, DROP_RATE_UNAVAILABLE)
    }
}

} // verus!
