use vstd::prelude::*;
use vstd::string::StrSliceExecFns;

verus! {

/// ASCII newline.
pub const NL: u8 = 10;

/// ASCII carriage return.
pub const CR: u8 = 13;

pub open spec fn is_digit_byte(b: u8) -> bool {
    48 <= b && b <= 57
}

/// ASCII whitespace, as a token separator in encoder logs.
pub open spec fn is_space_byte(b: u8) -> bool {
    b == 32 || b == 9 || b == 10 || b == 13 || b == 11 || b == 12
}

/// Value of a big-endian decimal digit string.
pub open spec fn digits_val(s: Seq<u8>) -> int
    decreases s.len(),
{
    if s.len() == 0 {
        0
    } else {
        digits_val(s.drop_last()) * 10 + (s.last() - 48)
    }
}

/// Saturation of an unbounded value to the `u64` range.
pub open spec fn cap_u64(v: int) -> int {
    if v > u64::MAX {
        u64::MAX as int
    } else {
        v
    }
}

pub proof fn lemma_digits_val_nonneg(s: Seq<u8>)
    requires
        forall|i: int| 0 <= i < s.len() ==> is_digit_byte(#[trigger] s[i]),
    ensures
        digits_val(s) >= 0,
    decreases s.len(),
{
    if s.len() > 0 {
        lemma_digits_val_nonneg(s.drop_last());
    }
}

/// Index of the first occurrence of `b` in `s`; `s.len()` when absent.
pub open spec fn idx_of(s: Seq<u8>, b: u8) -> int
    decreases s.len(),
{
    if s.len() == 0 {
        0
    } else if s[0] == b {
        0
    } else {
        1 + idx_of(s.skip(1), b)
    }
}

pub proof fn lemma_idx_of_props(s: Seq<u8>, b: u8)
    ensures
        0 <= idx_of(s, b) <= s.len(),
        idx_of(s, b) < s.len() ==> s[idx_of(s, b)] == b,
        forall|j: int| 0 <= j < idx_of(s, b) ==> s[j] != b,
    decreases s.len(),
{
    if s.len() > 0 && s[0] != b {
        lemma_idx_of_props(s.skip(1), b);
        if idx_of(s, b) < s.len() {
            assert(s.skip(1)[idx_of(s, b) - 1] == s[idx_of(s, b)]);
        }
        assert forall|j: int| 0 <= j < idx_of(s, b) implies s[j] != b by {
            if j >= 1 {
                assert(s.skip(1)[j - 1] == s[j]);
            }
        }
    }
}

/// The characterization in `lemma_idx_of_props` pins `idx_of` down.
pub proof fn lemma_idx_of_is(s: Seq<u8>, b: u8, i: int)
    requires
        0 <= i <= s.len(),
        forall|j: int| 0 <= j < i ==> s[j] != b,
        i < s.len() ==> s[i] == b,
    ensures
        idx_of(s, b) == i,
    decreases s.len(),
{
    if s.len() > 0 && s[0] != b {
        assert(i >= 1);
        lemma_idx_of_is(s.skip(1), b, i - 1);
    }
}

/// Find the first occurrence of `b` in `s[lo..hi]`, as an absolute
/// index; `hi` when absent.
pub fn find_byte(s: &[u8], lo: usize, hi: usize, b: u8) -> (r: usize)
    requires
        lo <= hi <= s@.len(),
    ensures
        r - lo == idx_of(s@.subrange(lo as int, hi as int), b),
        lo <= r <= hi,
{
    let mut i: usize = lo;
    while i < hi
        invariant
            lo <= i <= hi <= s@.len(),
            forall|j: int| lo <= j < i ==> s@[j] != b,
        decreases hi - i,
    {
        if s[i] == b {
            proof {
                lemma_idx_of_is(s@.subrange(lo as int, hi as int), b, i - lo);
            }
            return i;
        }
        i = i + 1;
    }
    proof {
        lemma_idx_of_is(s@.subrange(lo as int, hi as int), b, (hi - lo) as int);
    }
    hi
}

/// Index of the first whitespace byte in `s`; `s.len()` when absent.
pub open spec fn idx_space(s: Seq<u8>) -> int
    decreases s.len(),
{
    if s.len() == 0 {
        0
    } else if is_space_byte(s[0]) {
        0
    } else {
        1 + idx_space(s.skip(1))
    }
}

pub proof fn lemma_idx_space_is(s: Seq<u8>, i: int)
    requires
        0 <= i <= s.len(),
        forall|j: int| 0 <= j < i ==> !is_space_byte(#[trigger] s[j]),
        i < s.len() ==> is_space_byte(s[i]),
    ensures
        idx_space(s) == i,
    decreases s.len(),
{
    if s.len() > 0 && !is_space_byte(s[0]) {
        assert(i >= 1);
        lemma_idx_space_is(s.skip(1), i - 1);
    }
}

/// Find the first whitespace byte in `s[lo..hi]`, as an absolute
/// index; `hi` when absent.
pub fn find_space(s: &[u8], lo: usize, hi: usize) -> (r: usize)
    requires
        lo <= hi <= s@.len(),
    ensures
        r - lo == idx_space(s@.subrange(lo as int, hi as int)),
        lo <= r <= hi,
{
    let mut i: usize = lo;
    while i < hi
        invariant
            lo <= i <= hi <= s@.len(),
            forall|j: int| lo <= j < i ==> !is_space_byte(#[trigger] s@[j]),
        decreases hi - i,
    {
        let b = s[i];
        if b == 32 || b == 9 || b == 10 || b == 13 || b == 11 || b == 12 {
            proof {
                lemma_idx_space_is(s@.subrange(lo as int, hi as int), i - lo);
            }
            return i;
        }
        i = i + 1;
    }
    proof {
        lemma_idx_space_is(s@.subrange(lo as int, hi as int), (hi - lo) as int);
    }
    hi
}

/// Index of the first non-whitespace byte in `s`; `s.len()` when absent.
pub open spec fn idx_non_space(s: Seq<u8>) -> int
    decreases s.len(),
{
    if s.len() == 0 {
        0
    } else if !is_space_byte(s[0]) {
        0
    } else {
        1 + idx_non_space(s.skip(1))
    }
}

pub proof fn lemma_idx_non_space_bounds(s: Seq<u8>)
    ensures
        0 <= idx_non_space(s) <= s.len(),
        idx_non_space(s) < s.len() ==> !is_space_byte(s[idx_non_space(s)]),
        forall|j: int| 0 <= j < idx_non_space(s) ==> is_space_byte(#[trigger] s[j]),
    decreases s.len(),
{
    if s.len() > 0 && is_space_byte(s[0]) {
        lemma_idx_non_space_bounds(s.skip(1));
        if idx_non_space(s) < s.len() {
            assert(s.skip(1)[idx_non_space(s) - 1] == s[idx_non_space(s)]);
        }
        assert forall|j: int| 0 <= j < idx_non_space(s) implies is_space_byte(#[trigger] s[j]) by {
            if j >= 1 {
                assert(s.skip(1)[j - 1] == s[j]);
            }
        }
    }
}

pub proof fn lemma_idx_non_space_is(s: Seq<u8>, i: int)
    requires
        0 <= i <= s.len(),
        forall|j: int| 0 <= j < i ==> is_space_byte(#[trigger] s[j]),
        i < s.len() ==> !is_space_byte(s[i]),
    ensures
        idx_non_space(s) == i,
    decreases s.len(),
{
    if s.len() > 0 && is_space_byte(s[0]) {
        assert(i >= 1);
        lemma_idx_non_space_is(s.skip(1), i - 1);
    }
}

/// Find the first non-whitespace byte in `s[lo..hi]`, as an absolute
/// index; `hi` when absent.
pub fn find_non_space(s: &[u8], lo: usize, hi: usize) -> (r: usize)
    requires
        lo <= hi <= s@.len(),
    ensures
        r - lo == idx_non_space(s@.subrange(lo as int, hi as int)),
        lo <= r <= hi,
{
    let mut i: usize = lo;
    while i < hi
        invariant
            lo <= i <= hi <= s@.len(),
            forall|j: int| lo <= j < i ==> is_space_byte(#[trigger] s@[j]),
        decreases hi - i,
    {
        let b = s[i];
        if !(b == 32 || b == 9 || b == 10 || b == 13 || b == 11 || b == 12) {
            proof {
                lemma_idx_non_space_is(s@.subrange(lo as int, hi as int), i - lo);
            }
            return i;
        }
        i = i + 1;
    }
    proof {
        lemma_idx_non_space_is(s@.subrange(lo as int, hi as int), (hi - lo) as int);
    }
    hi
}

/// `n` occurs in `h` starting at position `i`.
pub open spec fn match_at(h: Seq<u8>, n: Seq<u8>, i: int) -> bool {
    0 <= i && i + n.len() <= h.len() && h.subrange(i, i + n.len()) == n
}

/// Index of the first occurrence of `n` in `h`; `h.len()` when absent
/// (also when `n` is longer than every suffix of `h`).
pub open spec fn idx_of_sub(h: Seq<u8>, n: Seq<u8>) -> int
    decreases h.len(),
{
    if match_at(h, n, 0) {
        0
    } else if h.len() == 0 {
        0
    } else {
        1 + idx_of_sub(h.skip(1), n)
    }
}

pub proof fn lemma_match_at_skip(h: Seq<u8>, n: Seq<u8>, i: int)
    requires
        h.len() > 0,
        1 <= i,
    ensures
        match_at(h, n, i) == match_at(h.skip(1), n, i - 1),
{
    if match_at(h, n, i) {
        assert(h.skip(1).subrange(i - 1, i - 1 + n.len()) =~= h.subrange(i, i + n.len()));
    }
    if match_at(h.skip(1), n, i - 1) {
        assert(h.subrange(i, i + n.len()) =~= h.skip(1).subrange(i - 1, i - 1 + n.len()));
    }
}

pub proof fn lemma_idx_of_sub_props(h: Seq<u8>, n: Seq<u8>)
    ensures
        0 <= idx_of_sub(h, n) <= h.len(),
        forall|j: int| 0 <= j < idx_of_sub(h, n) ==> !match_at(h, n, j),
        idx_of_sub(h, n) < h.len() ==> match_at(h, n, idx_of_sub(h, n)),
        (exists|i: int| match_at(h, n, i)) ==> match_at(h, n, idx_of_sub(h, n)),
    decreases h.len(),
{
    if !match_at(h, n, 0) && h.len() > 0 {
        lemma_idx_of_sub_props(h.skip(1), n);
        assert forall|j: int| 0 <= j < idx_of_sub(h, n) implies !match_at(h, n, j) by {
            if j >= 1 {
                lemma_match_at_skip(h, n, j);
            }
        }
        if idx_of_sub(h, n) < h.len() {
            lemma_match_at_skip(h, n, idx_of_sub(h, n));
        }
        if exists|i: int| match_at(h, n, i) {
            let i = choose|i: int| match_at(h, n, i);
            assert(i >= 1);
            lemma_match_at_skip(h, n, i);
            assert(match_at(h.skip(1), n, i - 1));
            lemma_match_at_skip(h, n, idx_of_sub(h.skip(1), n) + 1);
        }
    }
}

pub proof fn lemma_idx_of_sub_is(h: Seq<u8>, n: Seq<u8>, i: int)
    requires
        0 <= i <= h.len(),
        forall|j: int| 0 <= j < i ==> !match_at(h, n, j),
        match_at(h, n, i) || (i == h.len() && !(exists|j: int| match_at(h, n, j))),
    ensures
        idx_of_sub(h, n) == i,
    decreases h.len(),
{
    if match_at(h, n, 0) {
        assert(i == 0);
    } else if h.len() > 0 {
        assert(i >= 1);
        assert forall|j: int| 0 <= j < i - 1 implies !match_at(h.skip(1), n, j) by {
            lemma_match_at_skip(h, n, j + 1);
        }
        if match_at(h, n, i) {
            lemma_match_at_skip(h, n, i);
        } else {
            assert forall|j: int| !match_at(h.skip(1), n, j) by {
                if 0 <= j {
                    lemma_match_at_skip(h, n, j + 1);
                } else {
                    assert(!match_at(h.skip(1), n, j));
                }
            }
        }
        lemma_idx_of_sub_is(h.skip(1), n, i - 1);
    }
}

/// Find the first occurrence of `n` in `h[lo..hi]`, as an absolute
/// index; `hi` when absent.
pub fn find_sub(h: &[u8], lo: usize, hi: usize, n: &[u8]) -> (r: usize)
    requires
        lo <= hi <= h@.len(),
    ensures
        r - lo == idx_of_sub(h@.subrange(lo as int, hi as int), n@),
        lo <= r <= hi,
{
    let ghost win = h@.subrange(lo as int, hi as int);
    if n.len() > hi - lo {
        proof {
            assert forall|j: int| !match_at(win, n@, j) by {
                assert(win.len() < n@.len());
            }
            lemma_idx_of_sub_is(win, n@, (hi - lo) as int);
        }
        return hi;
    }
    let last_start: usize = hi - n.len();
    let mut i: usize = lo;
    while i <= last_start
        invariant
            lo <= i <= last_start + 1,
            last_start == hi - n@.len(),
            lo <= hi <= h@.len(),
            n@.len() <= hi - lo,
            win == h@.subrange(lo as int, hi as int),
            forall|j: int| 0 <= j < i - lo ==> !match_at(win, n@, j),
        decreases last_start + 1 - i,
    {
        let mut k: usize = 0;
        let mut eq: bool = true;
        while k < n.len()
            invariant
                lo <= i <= last_start,
                last_start == hi - n@.len(),
                lo <= hi <= h@.len(),
                0 <= k <= n@.len(),
                win == h@.subrange(lo as int, hi as int),
                eq <==> (forall|m: int| 0 <= m < k ==> win[i - lo + m] == n@[m]),
            decreases n@.len() - k,
        {
            if h[i + k] != n[k] {
                proof {
                    assert(win[i - lo + k] == h@[i + k]);
                }
                eq = false;
                k = n.len();
            } else {
                k = k + 1;
            }
        }
        if eq {
            proof {
                assert(win.subrange(i - lo, i - lo + n@.len()) =~= n@);
                lemma_idx_of_sub_is(win, n@, i - lo);
            }
            return i;
        }
        proof {
            assert(!match_at(win, n@, i - lo)) by {
                if match_at(win, n@, i - lo) {
                    let m = choose|m: int|
                        0 <= m < n@.len() && win[i - lo + m] != n@[m];
                    assert(win.subrange(i - lo, i - lo + n@.len())[m] == win[i - lo + m]);
                }
            }
        }
        i = i + 1;
    }
    proof {
        assert forall|j: int| !match_at(win, n@, j) by {
            if 0 <= j && j + n@.len() <= win.len() {
                assert(j < i - lo);
            }
        }
        lemma_idx_of_sub_is(win, n@, (hi - lo) as int);
    }
    hi
}

/// Whether `n` occurs anywhere in `h`.
pub open spec fn contains_sub(h: Seq<u8>, n: Seq<u8>) -> bool {
    exists|i: int| match_at(h, n, i)
}

pub fn has_sub(h: &[u8], n: &[u8]) -> (r: bool)
    ensures
        r == contains_sub(h@, n@),
{
    let hit = find_sub(h, 0, h.len(), n);
    proof {
        lemma_idx_of_sub_props(h@, n@);
        assert(h@.subrange(0, h@.len() as int) =~= h@);
    }
    if hit < h.len() {
        true
    } else {
        if h.len() == 0 && n.len() == 0 {
            proof {
                assert(match_at(h@, n@, 0)) by {
                    assert(h@.subrange(0, 0) =~= n@);
                }
            }
            true
        } else {
            proof {
                if contains_sub(h@, n@) {
                    assert(match_at(h@, n@, idx_of_sub(h@, n@)));
                    assert(idx_of_sub(h@, n@) == h@.len());
                    assert(n@.len() == 0);
                    assert(match_at(h@, n@, 0)) by {
                        assert(h@.subrange(0, 0) =~= n@);
                    }
                    assert(idx_of_sub(h@, n@) == 0);
                    assert(false);
                }
            }
            false
        }
    }
}

/// ASCII lowercasing of one byte; bytes outside `A..Z` are unchanged,
/// so multi-byte UTF-8 sequences pass through intact.
pub open spec fn lower_byte(b: u8) -> u8 {
    if 65 <= b && b <= 90 {
        (b + 32) as u8
    } else {
        b
    }
}

pub open spec fn lower_seq(s: Seq<u8>) -> Seq<u8> {
    s.map_values(|b: u8| lower_byte(b))
}

pub fn lower_bytes(s: &[u8]) -> (r: Vec<u8>)
    ensures
        r@ == lower_seq(s@),
{
    let mut out: Vec<u8> = Vec::new();
    let mut i: usize = 0;
    while i < s.len()
        invariant
            0 <= i <= s@.len(),
            out@.len() == i,
            forall|j: int| 0 <= j < i ==> out@[j] == lower_byte(s@[j]),
        decreases s@.len() - i,
    {
        let b = s[i];
        if 65 <= b && b <= 90 {
            out.push(b + 32);
        } else {
            out.push(b);
        }
        i = i + 1;
    }
    proof {
        assert(out@ =~= lower_seq(s@));
    }
    out
}

/// ASCII decimal point.
pub const DOT: u8 = 46;

pub open spec fn pow10(k: nat) -> int
    decreases k,
{
    if k == 0 {
        1
    } else {
        10 * pow10((k - 1) as nat)
    }
}

/// An unsigned decimal token: digits with at most one point, and at
/// least one digit somewhere.
pub open spec fn valid_decimal_token(t: Seq<u8>) -> bool {
    let d = idx_of(t, DOT);
    &&& t.len() >= 1
    &&& (d < t.len() ==> t.len() >= 2)
    &&& forall|i: int| 0 <= i < d ==> is_digit_byte(#[trigger] t[i])
    &&& forall|i: int| d < i < t.len() ==> is_digit_byte(#[trigger] t[i])
}

/// Value of the first `k` fractional digits of `fr`, zero-padded on
/// the right to exactly `k` digits.
pub open spec fn frac_digits_val(fr: Seq<u8>, k: nat) -> int
    decreases k,
{
    if k == 0 {
        0
    } else {
        (if fr.len() > 0 {
            (fr[0] - 48) as int
        } else {
            0
        }) * pow10((k - 1) as nat) + frac_digits_val(
            if fr.len() > 0 {
                fr.skip(1)
            } else {
                fr
            },
            (k - 1) as nat,
        )
    }
}

/// Digit `m` of the fractional part, zero when past the end.
pub open spec fn frac_digit(fr: Seq<u8>, m: int) -> int {
    if 0 <= m < fr.len() {
        (fr[m] - 48) as int
    } else {
        0
    }
}

pub proof fn lemma_pow10_pos(k: nat)
    ensures
        pow10(k) >= 1,
    decreases k,
{
    if k > 0 {
        lemma_pow10_pos((k - 1) as nat);
    }
}

pub proof fn lemma_pow10_small(k: nat)
    requires
        k <= 4,
    ensures
        k == 0 ==> pow10(k) == 1,
        k == 1 ==> pow10(k) == 10,
        k == 2 ==> pow10(k) == 100,
        k == 3 ==> pow10(k) == 1000,
        k == 4 ==> pow10(k) == 10000,
{
    assert(pow10(0) == 1);
    assert(pow10(1) == 10);
    assert(pow10(2) == 100);
    assert(pow10(3) == 1000);
    assert(pow10(4) == 10000);
}

pub proof fn lemma_frac_step(fr: Seq<u8>, m: nat)
    ensures
        frac_digits_val(fr, m + 1) == frac_digits_val(fr, m) * 10 + frac_digit(fr, m as int),
    decreases m,
{
    assert(pow10(0) == 1);
    if m == 0 {
        assert(frac_digits_val(fr, 0) == 0);
        if fr.len() > 0 {
            assert(frac_digits_val(fr, 1) == ((fr[0] - 48) as int) * pow10(0) + frac_digits_val(
                fr.skip(1),
                0,
            ));
            assert(frac_digits_val(fr.skip(1), 0) == 0);
        } else {
            assert(frac_digits_val(fr, 1) == 0 * pow10(0) + frac_digits_val(fr, 0));
        }
    } else if fr.len() == 0 {
        lemma_frac_step(fr, (m - 1) as nat);
        assert(pow10(m) == 10 * pow10((m - 1) as nat));
    } else {
        lemma_frac_step(fr.skip(1), (m - 1) as nat);
        assert(pow10(m) == 10 * pow10((m - 1) as nat));
        assert(frac_digit(fr.skip(1), m - 1) == frac_digit(fr, m as int));
        let d0 = (fr[0] - 48) as int;
        assert(frac_digits_val(fr, m + 1) == d0 * pow10(m) + frac_digits_val(fr.skip(1), m));
        assert(frac_digits_val(fr, m) == d0 * pow10((m - 1) as nat) + frac_digits_val(
            fr.skip(1),
            (m - 1) as nat,
        ));
        assert(d0 * pow10(m) == (d0 * pow10((m - 1) as nat)) * 10) by (nonlinear_arith)
            requires
                pow10(m) == 10 * pow10((m - 1) as nat),
        ;
    }
}

pub proof fn lemma_frac_digits_val_bounds(fr: Seq<u8>, k: nat)
    requires
        forall|i: int| 0 <= i < fr.len() ==> is_digit_byte(#[trigger] fr[i]),
    ensures
        0 <= frac_digits_val(fr, k) < pow10(k),
    decreases k,
{
    if k == 0 {
    } else {
        let p = pow10((k - 1) as nat);
        lemma_pow10_pos((k - 1) as nat);
        if fr.len() > 0 {
            assert forall|i: int| 0 <= i < fr.skip(1).len() implies is_digit_byte(
                #[trigger] fr.skip(1)[i],
            ) by {
                assert(fr.skip(1)[i] == fr[i + 1]);
            }
            lemma_frac_digits_val_bounds(fr.skip(1), (k - 1) as nat);
            let d0 = (fr[0] - 48) as int;
            assert(0 <= d0 <= 9);
            assert(d0 * p <= 9 * p) by (nonlinear_arith)
                requires
                    0 <= d0 <= 9,
                    p >= 1,
            ;
            assert(pow10(k) == 10 * p);
        } else {
            lemma_frac_digits_val_bounds(fr, (k - 1) as nat);
            assert(pow10(k) == 10 * p);
        }
    }
}

/// Fixed-point value of a decimal token, scaled by `10^k` and
/// saturated to `u64`: `k` fractional digits are kept (padded or
/// truncated) and the rest discarded.
pub open spec fn scaled_decimal_val(t: Seq<u8>, k: nat) -> int {
    let d = idx_of(t, DOT);
    let fr = if d < t.len() {
        t.subrange(d + 1, t.len() as int)
    } else {
        Seq::<u8>::empty()
    };
    cap_u64(digits_val(t.subrange(0, d)) * pow10(k) + frac_digits_val(fr, k))
}

pub fn pow10_u64(k: usize) -> (r: u64)
    requires
        k <= 4,
    ensures
        r == pow10(k as nat),
{
    proof {
        lemma_pow10_small(k as nat);
    }
    if k == 0 {
        1
    } else if k == 1 {
        10
    } else if k == 2 {
        100
    } else if k == 3 {
        1000
    } else {
        10000
    }
}

/// Parse `s[lo..hi]` as an unsigned decimal token with `k` fractional
/// digits of precision; `None` when the token is not a decimal.
pub fn parse_decimal(s: &[u8], lo: usize, hi: usize, k: usize) -> (r: Option<u64>)
    requires
        lo <= hi <= s@.len(),
        k <= 4,
    ensures
        ({
            let t = s@.subrange(lo as int, hi as int);
            if valid_decimal_token(t) {
                r == Some((scaled_decimal_val(t, k as nat) as u64))
            } else {
                r is None
            }
        }),
{
    let ghost t = s@.subrange(lo as int, hi as int);
    if lo == hi {
        return None;
    }
    let dp = find_byte(s, lo, hi, DOT);
    proof {
        lemma_idx_of_props(t, DOT);
    }
    if dp < hi && hi - lo < 2 {
        return None;
    }
    // all bytes before the point must be digits
    let mut i: usize = lo;
    while i < dp
        invariant
            lo <= i <= dp <= hi <= s@.len(),
            dp - lo == idx_of(s@.subrange(lo as int, hi as int), DOT),
            forall|j: int| lo <= j < i ==> is_digit_byte(#[trigger] s@[j]),
        decreases dp - i,
    {
        let b = s[i];
        if !(48 <= b && b <= 57) {
            proof {
                assert(s@.subrange(lo as int, hi as int)[i - lo] == s@[i as int]);
            }
            return None;
        }
        i = i + 1;
    }
    // all bytes after the point must be digits
    let after: usize = if dp < hi {
        dp + 1
    } else {
        hi
    };
    let mut j: usize = after;
    while j < hi
        invariant
            lo <= dp <= hi <= s@.len(),
            after == (if dp < hi {
                (dp + 1) as int
            } else {
                hi as int
            }),
            after <= j <= hi,
            dp - lo == idx_of(s@.subrange(lo as int, hi as int), DOT),
            forall|m: int| after <= m < j ==> is_digit_byte(#[trigger] s@[m]),
        decreases hi - j,
    {
        let b = s[j];
        if !(48 <= b && b <= 57) {
            proof {
                assert(s@.subrange(lo as int, hi as int)[j - lo] == s@[j as int]);
            }
            return None;
        }
        j = j + 1;
    }
    proof {
        assert forall|x: int| 0 <= x < dp - lo implies is_digit_byte(#[trigger] t[x]) by {
            assert(t[x] == s@[lo + x]);
        }
        assert forall|x: int| dp - lo < x < t.len() implies is_digit_byte(#[trigger] t[x]) by {
            assert(t[x] == s@[lo + x]);
        }
        assert(valid_decimal_token(t));
        assert(t.subrange(0, dp - lo) =~= s@.subrange(lo as int, dp as int));
    }
    let int_val = digits_value_capped(s, lo, dp);
    let ghost fr = if dp < hi {
        s@.subrange(dp + 1, hi as int)
    } else {
        Seq::<u8>::empty()
    };
    proof {
        if (dp - lo) < t.len() {
            assert(fr =~= t.subrange(dp - lo + 1, t.len() as int));
        }
        assert forall|x: int| 0 <= x < fr.len() implies is_digit_byte(#[trigger] fr[x]) by {
            assert(fr[x] == s@[dp + 1 + x]);
        }
    }
    let mut fv: u64 = 0;
    let mut m: usize = 0;
    while m < k
        invariant
            0 <= m <= k <= 4,
            lo <= dp <= hi <= s@.len(),
            after == (if dp < hi {
                (dp + 1) as int
            } else {
                hi as int
            }),
            fr == (if dp < hi {
                s@.subrange(dp + 1, hi as int)
            } else {
                Seq::<u8>::empty()
            }),
            forall|x: int| 0 <= x < fr.len() ==> is_digit_byte(#[trigger] fr[x]),
            fv == frac_digits_val(fr, m as nat),
            fv < pow10(m as nat),
        decreases k - m,
    {
        proof {
            lemma_pow10_small(m as nat);
            lemma_pow10_small((m + 1) as nat);
        }
        let d: u64;
        if m < hi - after {
            proof {
                assert(dp < hi);
                assert(fr[m as int] == s@[after + m]);
            }
            d = (s[after + m] - 48) as u64;
        } else {
            d = 0;
        }
        proof {
            lemma_frac_step(fr, m as nat);
            assert(pow10((m + 1) as nat) == 10 * pow10(m as nat));
        }
        fv = fv * 10 + d;
        m = m + 1;
    }
    let scale = pow10_u64(k);
    let ghost dv = digits_val(t.subrange(0, dp - lo));
    let ghost pk = pow10(k as nat);
    proof {
        lemma_digits_val_nonneg(t.subrange(0, dp - lo));
        lemma_pow10_pos(k as nat);
    }
    let r = match int_val.checked_mul(scale) {
        Some(v) => v.saturating_add(fv),
        None => u64::MAX,
    };
    proof {
        if dv > u64::MAX {
            assert(int_val == u64::MAX);
            assert(dv * pk >= dv * 1) by (nonlinear_arith)
                requires
                    dv >= 0,
                    pk >= 1,
            ;
            assert(dv * pk + fv > u64::MAX);
            if u64::MAX * scale <= u64::MAX {
                assert(u64::MAX * pk >= u64::MAX * 1) by (nonlinear_arith)
                    requires
                        pk >= 1,
                ;
            }
        } else {
            assert(int_val == dv);
            if dv * pk > u64::MAX {
                assert(dv * pk + fv > u64::MAX);
            }
        }
        assert(r == scaled_decimal_val(t, k as nat));
    }
    Some(r)
}

/// Bounds of a valid decimal token's scaled value.
pub proof fn lemma_scaled_decimal_bounds(t: Seq<u8>, k: nat)
    requires
        valid_decimal_token(t),
    ensures
        0 <= scaled_decimal_val(t, k) <= u64::MAX,
{
    let d = idx_of(t, DOT);
    lemma_idx_of_props(t, DOT);
    let ip = t.subrange(0, d);
    lemma_digits_val_nonneg(ip);
    let fr = if d < t.len() {
        t.subrange(d + 1, t.len() as int)
    } else {
        Seq::<u8>::empty()
    };
    assert forall|i: int| 0 <= i < fr.len() implies is_digit_byte(#[trigger] fr[i]) by {
        assert(fr[i] == t[d + 1 + i]);
    }
    lemma_frac_digits_val_bounds(fr, k);
    lemma_pow10_pos(k);
    assert(digits_val(ip) * pow10(k) >= 0) by (nonlinear_arith)
        requires
            digits_val(ip) >= 0,
            pow10(k) >= 1,
    ;
}

/// Whether two byte slices hold the same bytes.
pub fn bytes_eq(a: &[u8], b: &[u8]) -> (r: bool)
    ensures
        r == (a@ == b@),
{
    if a.len() != b.len() {
        return false;
    }
    let mut i: usize = 0;
    while i < a.len()
        invariant
            0 <= i <= a@.len() == b@.len(),
            forall|j: int| 0 <= j < i ==> a@[j] == b@[j],
        decreases a@.len() - i,
    {
        if a[i] != b[i] {
            return false;
        }
        i = i + 1;
    }
    proof {
        assert(a@ =~= b@);
    }
    true
}

/// Whether two string slices hold the same characters.
pub fn str_eq(a: &str, b: &str) -> (r: bool)
    ensures
        r == (a@ == b@),
{
    let n = a.unicode_len();
    if n != b.unicode_len() {
        return false;
    }
    let mut i: usize = 0;
    while i < n
        invariant
            0 <= i <= n == a@.len(),
            a@.len() == b@.len(),
            forall|j: int| 0 <= j < i ==> a@[j] == b@[j],
        decreases n - i,
    {
        if a.get_char(i) != b.get_char(i) {
            return false;
        }
        i = i + 1;
    }
    proof {
        assert(a@ =~= b@);
    }
    true
}

/// Decimal value of `s[lo..hi]`, saturated to `u64`.
pub fn digits_value_capped(s: &[u8], lo: usize, hi: usize) -> (r: u64)
    requires
        lo <= hi <= s@.len(),
        forall|i: int| lo <= i < hi ==> is_digit_byte(#[trigger] s@[i]),
    ensures
        r == cap_u64(digits_val(s@.subrange(lo as int, hi as int))),
{
    let ghost whole = s@.subrange(lo as int, hi as int);
    let mut acc: u64 = 0;
    let mut i: usize = lo;
    while i < hi
        invariant
            lo <= i <= hi <= s@.len(),
            forall|j: int| lo <= j < hi ==> is_digit_byte(#[trigger] s@[j]),
            whole == s@.subrange(lo as int, hi as int),
            acc == cap_u64(digits_val(s@.subrange(lo as int, i as int))),
        decreases hi - i,
    {
        let ghost pre = s@.subrange(lo as int, i as int);
        let d = s[i];
        proof {
            lemma_digits_val_nonneg(pre);
            assert(s@.subrange(lo as int, i + 1 as int).drop_last() =~= pre);
        }
        acc = match acc.checked_mul(10) {
            Some(v) => v.saturating_add((d - 48) as u64),
            None => u64::MAX,
        };
        i = i + 1;
    }
    acc
}

} // verus!
