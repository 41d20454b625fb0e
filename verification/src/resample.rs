//! Rate normalization: fixed decimation of 16/32/48 kHz input down to the
//! 8 kHz internal working rate.
//!
//! The decimator is a moving-average low-pass filter of length `2*r` (where
//! `r` is the decimation ratio) evaluated at every `r`-th position, so each
//! output sample is the floored mean of a `2*r`-wide window over the previous
//! frame's tail (the delay line) followed by the current frame.  All sums are
//! taken over offset samples (`sample + 0x8000`) so that every intermediate
//! value is non-negative and division is exact floor division.

use vstd::prelude::*;

verus! {

/// Every element of the sequence is the zero sample.
pub open spec fn all_zero(s: Seq<i16>) -> bool {
    forall|i: int| 0 <= i < s.len() ==> s[i] == 0i16
}

/// Sum of `n` offset samples `s[start + j] + 0x8000`, `0 <= j < n`.
pub open spec fn win_sum(s: Seq<i16>, start: int, n: int) -> int
    decreases n,
{
    if n <= 0 {
        0
    } else {
        win_sum(s, start, n - 1) + s[start + n - 1] + 0x8000
    }
}

/// The `k`-th decimated output sample: the floored mean of the `2*r`-wide
/// offset window starting at `r*k` in the delay line followed by the frame.
pub open spec fn decim_out(hist: Seq<i16>, x: Seq<i16>, r: int, k: int) -> int {
    win_sum(hist + x, r * k, 2 * r) / (2 * r) - 0x8000
}

/// The whole decimated frame.
pub open spec fn decimated(hist: Seq<i16>, x: Seq<i16>, r: int) -> Seq<i16> {
    Seq::new((x.len() as int / r) as nat, |k: int| decim_out(hist, x, r, k) as i16)
}

pub proof fn lemma_win_sum_bounds(s: Seq<i16>, start: int, n: int)
    requires
        0 <= n,
    ensures
        0 <= win_sum(s, start, n) <= n * 0xffff,
    decreases n,
{
    if n > 0 {
        lemma_win_sum_bounds(s, start, n - 1);
    }
}

pub proof fn lemma_win_sum_zero(s: Seq<i16>, start: int, n: int)
    requires
        0 <= n,
        0 <= start,
        start + n <= s.len(),
        all_zero(s),
    ensures
        win_sum(s, start, n) == n * 0x8000,
    decreases n,
{
    if n > 0 {
        lemma_win_sum_zero(s, start, n - 1);
    }
}

/// A decimated all-zero frame with an all-zero delay line is all zero.
pub proof fn lemma_decimated_zero(hist: Seq<i16>, x: Seq<i16>, r: int)
    requires
        r == 2 || r == 4 || r == 6,
        hist.len() == r,
        x.len() as int % r == 0,
        all_zero(hist),
        all_zero(x),
    ensures
        all_zero(decimated(hist, x, r)),
{
    let cat = hist + x;
    assert(all_zero(cat));
    let m = x.len() as int / r;
    assert forall|k: int| 0 <= k < m implies decim_out(hist, x, r, k) == 0 by {
        vstd::arithmetic::mul::lemma_mul_inequality(k, m - 1, r);
        vstd::arithmetic::div_mod::lemma_fundamental_div_mod(x.len() as int, r);
        assert(r * k + 2 * r <= cat.len());
        lemma_win_sum_zero(cat, r * k, 2 * r);
        vstd::arithmetic::div_mod::lemma_div_multiples_vanish(0x8000, 2 * r);
        assert((2 * r * 0x8000) / (2 * r) == 0x8000);
    }
    assert forall|k: int| 0 <= k < decimated(hist, x, r).len() implies decimated(hist, x, r)[k]
        == 0i16 by {
        assert(decim_out(hist, x, r, k) == 0);
    }
}

/// Decimate one frame `x` by the ratio `r`, using the `r` samples of `hist`
/// as the history that precedes the frame.
pub fn resample_frame(hist: &Vec<i16>, x: &[i16], r: usize) -> (out: Vec<i16>)
    requires
        r == 2 || r == 4 || r == 6,
        hist@.len() == r,
        x@.len() as int % (r as int) == 0,
        x@.len() <= 1440,
    ensures
        out@ == decimated(hist@, x@, r as int),
        out@.len() == x@.len() as int / r as int,
{
    let ghost cat = hist@ + x@;
    let n = x.len();
    let m = n / r;
    proof {
        vstd::arithmetic::div_mod::lemma_fundamental_div_mod(n as int, r as int);
    }
    let mut out: Vec<i16> = Vec::new();
    let mut k: usize = 0;
    while k < m
        invariant
            r == 2 || r == 4 || r == 6,
            hist@.len() == r,
            n == x@.len(),
            n <= 1440,
            n == r * m,
            m == x@.len() as int / r as int,
            cat == hist@ + x@,
            out@.len() == k,
            k <= m,
            forall|kk: int|
                0 <= kk < k ==> out@[kk] as int == decim_out(hist@, x@, r as int, kk),
        decreases m - k,
    {
        proof {
            vstd::arithmetic::mul::lemma_mul_inequality(k as int, m as int - 1, r as int);
        }
        let mut sum: u64 = 0;
        let mut j: usize = 0;
        while j < 2 * r
            invariant
                r == 2 || r == 4 || r == 6,
                hist@.len() == r,
                n == x@.len(),
                n <= 1440,
                n == r * m,
                k < m,
                r * k + 2 * r <= n + r,
                cat == hist@ + x@,
                j <= 2 * r,
                sum == win_sum(cat, r as int * k as int, j as int),
                sum <= j * 0xffff,
            decreases 2 * r - j,
        {
            let idx = r * k + j;
            let v: i16 = if idx < r {
                hist[idx]
            } else {
                x[idx - r]
            };
            assert(v == cat[idx as int]);
            sum = sum + ((v as i64 + 0x8000) as u64);
            j = j + 1;
        }
        let q = sum / ((2 * r) as u64);
        proof {
            vstd::arithmetic::div_mod::lemma_div_is_ordered(
                sum as int,
                2 * r as int * 0xffff,
                2 * r as int,
            );
            vstd::arithmetic::div_mod::lemma_div_multiples_vanish(0xffff, 2 * r as int);
        }
        assert(q <= 0xffff);
        let y = (q as i64) - 0x8000;
        assert(-0x8000 <= y <= 0x7fff);
        assert(y == decim_out(hist@, x@, r as int, k as int));
        out.push(y as i16);
        k = k + 1;
    }
    proof {
        assert forall|kk: int| 0 <= kk < m implies out@[kk] == decimated(hist@, x@, r as int)[kk]
            by {
            lemma_win_sum_bounds(cat, r as int * kk, 2 * r as int);
        }
        assert(out@ =~= decimated(hist@, x@, r as int));
    }
    out
}

} // verus!
