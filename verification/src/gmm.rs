//! The two-class mixture classifier over the six band features.
//!
//! Per band and per class (non-speech and speech) the detector keeps two
//! mixture components, each a weight, a location (in the log-energy domain)
//! and a spread.  A component scores an observed feature with an integer
//! kernel that decreases with the squared distance from the location and is
//! normalized by the spread; a class scores with the weighted sum of its two
//! components.  The per-band log-likelihood ratio is the difference of the
//! integer log2 of the two class scores, and the frame score is the weighted
//! sum of the band ratios, lower bands weighing more.  After every classified
//! frame the component that matched the observation best, within the class
//! the frame was most consistent with, is moved toward the observation by an
//! exponentially weighted update, its spread likewise, and the class's two
//! weights are renormalized to the fixed class mass.

use vstd::prelude::*;
use crate::filterbank::bits;
use crate::filterbank::lemma_bits_le;
use crate::filterbank::lemma_bits_nonneg;

verus! {

/// One mixture component: weight, location and spread, all plain integers in
/// the scaled log-energy domain.
#[derive(Clone, Copy)]
pub struct Gauss {
    pub w: i64,
    pub m: i64,
    pub v: i64,
}

/// Mixture layout: component `k` of class `c` for band `b` sits at index
/// `4*b + 2*c + k`; class 0 is non-speech, class 1 is speech.
pub open spec fn class_of(i: int) -> int {
    (i / 2) % 2
}

/// Class locations live in disjoint ranges of the feature domain.
pub open spec fn mean_ok(c: int, m: int) -> bool {
    if c == 0 {
        32 <= m <= 160
    } else {
        160 <= m <= 480
    }
}

pub open spec fn gauss_ok(i: int, g: Gauss) -> bool {
    &&& 16 <= g.w <= 240
    &&& mean_ok(class_of(i), g.m as int)
    &&& 512 <= g.v <= 16384
}

/// The mixture state invariant: 24 components, every field in range, and the
/// two weights of each (band, class) pair summing to the class mass 256.
pub open spec fn gmm_ok(g: Seq<Gauss>) -> bool {
    &&& g.len() == 24
    &&& forall|i: int| 0 <= i < 24 ==> gauss_ok(i, #[trigger] g[i])
    &&& forall|i: int| 0 <= i < 24 && i % 2 == 0 ==> #[trigger] g[i].w + g[i + 1].w == 256
}

/// The built-in prior for the component at index `i`.
pub open spec fn default_gauss(i: int) -> Gauss {
    if class_of(i) == 0 {
        if i % 2 == 0 {
            Gauss { w: 128, m: 48, v: 1024 }
        } else {
            Gauss { w: 128, m: 96, v: 1024 }
        }
    } else {
        if i % 2 == 0 {
            Gauss { w: 128, m: 192, v: 2048 }
        } else {
            Gauss { w: 128, m: 288, v: 2048 }
        }
    }
}

/// The built-in prior mixture state.
pub open spec fn default_gmm() -> Seq<Gauss> {
    Seq::new(24, |i: int| default_gauss(i))
}

/// The kernel score of one component for the feature `le`: the weight scaled
/// up and divided by the spread plus the squared distance.
pub open spec fn cscore(g: Gauss, le: int) -> int {
    (g.w * 0x10000) / (g.v + (le - g.m) * (le - g.m))
}

/// The score of the class whose first component sits at index `i`.
pub open spec fn class_score(g: Seq<Gauss>, i: int, le: int) -> int {
    cscore(g[i], le) + cscore(g[i + 1], le)
}

/// The log-likelihood ratio of band `b`: speech log-score minus non-speech
/// log-score.
pub open spec fn band_llr(g: Seq<Gauss>, b: int, le: int) -> int {
    bits(class_score(g, 4 * b + 2, le)) - bits(class_score(g, 4 * b, le))
}

/// Fixed aggregation weight of band `b`: lower bands carry more weight.
pub open spec fn band_weight(b: int) -> int {
    if b == 0 {
        6
    } else if b == 1 {
        5
    } else if b == 2 {
        4
    } else if b == 3 {
        3
    } else if b == 4 {
        2
    } else {
        1
    }
}

/// The aggregated score of the first `b` bands.
pub open spec fn score_rec(g: Seq<Gauss>, les: Seq<i64>, b: int) -> int
    decreases b,
{
    if b <= 0 {
        0
    } else {
        score_rec(g, les, b - 1) + band_weight(b - 1) * band_llr(g, b - 1, les[b - 1] as int)
    }
}

/// The frame score: weighted sum of the six band log-likelihood ratios.
pub open spec fn spec_score(g: Seq<Gauss>, les: Seq<i64>) -> int {
    score_rec(g, les, 6)
}

/// Build the built-in prior mixture state.
pub fn make_default_gmm() -> (g: Vec<Gauss>)
    ensures
        g@ == default_gmm(),
        gmm_ok(g@),
{
    let mut g: Vec<Gauss> = Vec::new();
    let mut i: usize = 0;
    while i < 24
        invariant
            i <= 24,
            g@.len() == i,
            forall|j: int| 0 <= j < i ==> g@[j] == default_gauss(j),
        decreases 24 - i,
    {
        let c = (i / 2) % 2;
        let k = i % 2;
        let gauss = if c == 0 {
            if k == 0 {
                Gauss { w: 128, m: 48, v: 1024 }
            } else {
                Gauss { w: 128, m: 96, v: 1024 }
            }
        } else {
            if k == 0 {
                Gauss { w: 128, m: 192, v: 2048 }
            } else {
                Gauss { w: 128, m: 288, v: 2048 }
            }
        };
        g.push(gauss);
        i = i + 1;
    }
    proof {
        assert(g@ =~= default_gmm());
        assert forall|i: int| 0 <= i < 24 implies gauss_ok(i, #[trigger] g@[i]) by {
            assert(g@[i] == default_gauss(i));
        }
        assert forall|i: int| 0 <= i < 24 && i % 2 == 0 implies #[trigger] g@[i].w + g@[i + 1].w
            == 256 by {
            assert(g@[i] == default_gauss(i) && g@[i + 1] == default_gauss(i + 1));
        }
    }
    g
}

/// The kernel score of one component.
fn cscore_x(g: &Gauss, le: i64) -> (p: i64)
    requires
        16 <= g.w <= 240,
        32 <= g.m <= 480,
        512 <= g.v <= 16384,
        0 <= le <= 304,
    ensures
        p == cscore(*g, le as int),
        0 <= p <= 30720,
{
    let d = le - g.m;
    proof {
        assert(0 <= d * d <= 230400) by (nonlinear_arith)
            requires
                -480 <= d <= 480,
        ;
    }
    let den = (g.v + d * d) as u64;
    let num = (g.w * 0x10000) as u64;
    let p = num / den;
    proof {
        vstd::arithmetic::div_mod::lemma_div_is_ordered(p as int * 0, num as int, den as int);
        vstd::arithmetic::div_mod::lemma_div_is_ordered(num as int, 15728640int, den as int);
        vstd::arithmetic::div_mod::lemma_div_is_ordered_by_denominator(15728640int, 512, den as int);
        assert(15728640int / 512 == 30720);
    }
    p as i64
}

/// The integer log2 of a non-negative score.
fn ilog2p(p: i64) -> (b: u32)
    requires
        0 <= p < 0x20000000,
    ensures
        b == bits(p as int),
        b <= 29,
{
    proof {
        vstd::arithmetic::power2::lemma2_to64();
        lemma_bits_le(p as int, 29);
        lemma_bits_nonneg(p as int);
    }
    let mut v = p as u64;
    let mut b: u32 = 0;
    while v > 0
        invariant
            bits(p as int) == b + bits(v as int),
            0 <= bits(v as int),
            bits(p as int) <= 29,
        decreases v,
    {
        proof {
            lemma_bits_nonneg(v as int / 2);
        }
        v = v / 2;
        b = b + 1;
    }
    b
}

proof fn lemma_div_exact(x: int, d: int, q: int, rem: int)
    requires
        d > 0,
        0 <= rem < d,
        x == q * d + rem,
    ensures
        x / d == q,
{
    vstd::arithmetic::div_mod::lemma_fundamental_div_mod_converse(x, d, q, rem);
}

/// Against the built-in priors a frame whose six features are all zero
/// scores exactly -63: in every band the non-speech class outscores the
/// speech class by three log steps, and the band weights sum to 21.
pub proof fn lemma_default_score_on_zero(les: Seq<i64>)
    requires
        les.len() == 6,
        forall|b: int| 0 <= b < 6 ==> les[b] == 0i64,
    ensures
        spec_score(default_gmm(), les) == -63,
{
    let g = default_gmm();
    assert forall|b: int| 0 <= b < 6 implies band_llr(g, b, 0) == -3 by {
        assert(g[4 * b] == default_gauss(4 * b));
        assert(g[4 * b + 1] == default_gauss(4 * b + 1));
        assert(g[4 * b + 2] == default_gauss(4 * b + 2));
        assert(g[4 * b + 3] == default_gauss(4 * b + 3));
        assert(class_of(4 * b) == 0 && (4 * b) % 2 == 0);
        assert(class_of(4 * b + 1) == 0 && (4 * b + 1) % 2 == 1);
        assert(class_of(4 * b + 2) == 1 && (4 * b + 2) % 2 == 0);
        assert(class_of(4 * b + 3) == 1 && (4 * b + 3) % 2 == 1);
        assert(128int * 0x10000 == 8388608
            && (0int - 48) * (0int - 48) == 2304
            && (0int - 96) * (0int - 96) == 9216
            && (0int - 192) * (0int - 192) == 36864
            && (0int - 288) * (0int - 288) == 82944
            && 2520int * 3328 + 2048 == 8388608
            && 819int * 10240 + 2048 == 8388608
            && 215int * 38912 + 22528 == 8388608
            && 98int * 84992 + 59392 == 8388608) by (nonlinear_arith);
        lemma_div_exact(8388608, 3328, 2520, 2048);
        lemma_div_exact(8388608, 10240, 819, 2048);
        lemma_div_exact(8388608, 38912, 215, 22528);
        lemma_div_exact(8388608, 84992, 98, 59392);
        assert(cscore(Gauss { w: 128, m: 48, v: 1024 }, 0) == 2520);
        assert(cscore(Gauss { w: 128, m: 96, v: 1024 }, 0) == 819);
        assert(cscore(Gauss { w: 128, m: 192, v: 2048 }, 0) == 215);
        assert(cscore(Gauss { w: 128, m: 288, v: 2048 }, 0) == 98);
        assert(class_score(g, 4 * b, 0) == 3339);
        assert(class_score(g, 4 * b + 2, 0) == 313);
        reveal_with_fuel(bits, 15);
        assert(bits(3339int) == 12);
        assert(bits(313int) == 9);
    }
    reveal_with_fuel(score_rec, 7);
    assert(spec_score(g, les) == -63);
}

pub open spec fn clamp_i(x: int, lo: int, hi: int) -> int {
    if x < lo {
        lo
    } else if x > hi {
        hi
    } else {
        x
    }
}

/// The exponentially weighted update step toward a difference `d`: a quarter
/// of `d` while the detector still bootstraps, a sixteenth afterwards.  The
/// offset keeps the dividend non-negative so the division is exact floor
/// division.
pub open spec fn ewma(d: int, fast: bool) -> int {
    if fast {
        (d + 16384) / 4 - 4096
    } else {
        (d + 16384) / 16 - 1024
    }
}

/// The renormalized weight of the matched component: moved toward the full
/// class mass by a sixteenth of the gap, kept inside the weight range.
pub open spec fn bumped_w(w: int) -> int {
    clamp_i(w + (256 - w) / 16, 16, 240)
}

pub open spec fn mean_lo(c: int) -> int {
    if c == 0 {
        32
    } else {
        160
    }
}

pub open spec fn mean_hi(c: int) -> int {
    if c == 0 {
        160
    } else {
        480
    }
}

/// The matched component after one adaptation step: location moved toward
/// the observation, spread moved toward the squared distance, both clamped
/// into their ranges.
pub open spec fn adapt_comp(g: Gauss, le: int, c: int, fast: bool) -> Gauss {
    let d = le - g.m;
    Gauss {
        w: g.w,
        m: clamp_i(g.m + ewma(d, fast), mean_lo(c), mean_hi(c)) as i64,
        v: clamp_i(g.v + ewma(d * d - g.v, fast), 512, 16384) as i64,
    }
}

/// One band's adaptation: the observation is assigned to the best matching
/// component of the class the frame was most consistent with; that component
/// moves toward the observation and the class's two weights renormalize.
pub open spec fn adapt_band(g: Seq<Gauss>, b: int, le: int, fast: bool) -> Seq<Gauss> {
    let i0 = 4 * b;
    let c: int = if class_score(g, i0 + 2, le) > class_score(g, i0, le) {
        1
    } else {
        0
    };
    let base = i0 + 2 * c;
    let k: int = if cscore(g[base + 1], le) > cscore(g[base], le) {
        1
    } else {
        0
    };
    let j = base + k;
    let o = base + 1 - k;
    let gj0 = adapt_comp(g[j], le, c, fast);
    let nw = bumped_w(g[j].w as int);
    let gj = Gauss { w: nw as i64, m: gj0.m, v: gj0.v };
    let go = Gauss { w: (256 - nw) as i64, m: g[o].m, v: g[o].v };
    g.update(j, gj).update(o, go)
}

/// The mixture state after adapting the first `b` bands.
pub open spec fn adapt_rec(g: Seq<Gauss>, les: Seq<i64>, b: int, fast: bool) -> Seq<Gauss>
    decreases b,
{
    if b <= 0 {
        g
    } else {
        adapt_band(adapt_rec(g, les, b - 1, fast), b - 1, les[b - 1] as int, fast)
    }
}

/// The mixture state after one full frame of adaptation.
pub open spec fn spec_adapt(g: Seq<Gauss>, les: Seq<i64>, fast: bool) -> Seq<Gauss> {
    adapt_rec(g, les, 6, fast)
}

fn clamp_x(x: i64, lo: i64, hi: i64) -> (r: i64)
    requires
        lo <= hi,
    ensures
        r == clamp_i(x as int, lo as int, hi as int),
{
    if x < lo {
        lo
    } else if x > hi {
        hi
    } else {
        x
    }
}

fn ewma_x(d: i64, fast: bool) -> (r: i64)
    requires
        -16384 <= d <= 300000,
    ensures
        r == ewma(d as int, fast),
{
    let num = (d + 16384) as u64;
    if fast {
        (num / 4) as i64 - 4096
    } else {
        (num / 16) as i64 - 1024
    }
}

/// Adapt the mixture state to the six observed features of one frame.
#[verifier::rlimit(100)]
pub fn adapt_in_place(g: &mut Vec<Gauss>, les: &Vec<i64>, fast: bool)
    requires
        gmm_ok(old(g)@),
        les@.len() == 6,
        forall|b: int| 0 <= b < 6 ==> 0 <= #[trigger] les@[b] <= 304,
    ensures
        final(g)@ == spec_adapt(old(g)@, les@, fast),
        gmm_ok(final(g)@),
{
    let ghost g0 = g@;
    let mut b: usize = 0;
    while b < 6
        invariant
            les@.len() == 6,
            forall|bb: int| 0 <= bb < 6 ==> 0 <= #[trigger] les@[bb] <= 304,
            b <= 6,
            g@ == adapt_rec(g0, les@, b as int, fast),
            gmm_ok(g@),
        decreases 6 - b,
    {
        let ghost gpre = g@;
        let le = les[b];
        let i0 = 4 * b;
        let p00 = cscore_x(&g[i0], le);
        let p01 = cscore_x(&g[i0 + 1], le);
        let p10 = cscore_x(&g[i0 + 2], le);
        let p11 = cscore_x(&g[i0 + 3], le);
        let c: usize = if p10 + p11 > p00 + p01 {
            1
        } else {
            0
        };
        let base = i0 + 2 * c;
        let k: usize = if cscore_x(&g[base + 1], le) > cscore_x(&g[base], le) {
            1
        } else {
            0
        };
        let j = base + k;
        let o = base + 1 - k;
        let gj = g[j];
        let d = le - gj.m;
        proof {
            assert(0 <= d * d <= 230400) by (nonlinear_arith)
                requires
                    -480 <= d <= 480,
            ;
        }
        let nm = clamp_x(
            gj.m + ewma_x(d, fast),
            if c == 0 {
                32
            } else {
                160
            },
            if c == 0 {
                160
            } else {
                480
            },
        );
        let nv = clamp_x(gj.v + ewma_x(d * d - gj.v, fast), 512, 16384);
        let nw = clamp_x(gj.w + ((256 - gj.w) as u64 / 16) as i64, 16, 240);
        let go = g[o];
        g[j] = Gauss { w: nw, m: nm, v: nv };
        g[o] = Gauss { w: 256 - nw, m: go.m, v: go.v };
        proof {
            assert(j as int / 2 == 2 * (b as int) + c);
            assert(class_of(j as int) == c);
            assert(class_of(o as int) == c);
            assert(g@ == adapt_band(gpre, b as int, le as int, fast));
            assert forall|i: int| 0 <= i < 24 implies gauss_ok(i, #[trigger] g@[i]) by {
                if i != j && i != o {
                    assert(g@[i] == gpre[i]);
                }
            }
            assert forall|i: int| 0 <= i < 24 && i % 2 == 0 implies #[trigger] g@[i].w + g@[i
                + 1].w == 256 by {
                if i != base {
                    assert(g@[i] == gpre[i] && g@[i + 1] == gpre[i + 1]);
                }
            }
        }
        b = b + 1;
    }
    proof {
        assert(g@ == spec_adapt(g0, les@, fast));
    }
}

/// Evaluate the frame score of the six features against the mixture state.
pub fn eval_score(g: &Vec<Gauss>, les: &Vec<i64>) -> (s: i64)
    requires
        gmm_ok(g@),
        les@.len() == 6,
        forall|b: int| 0 <= b < 6 ==> 0 <= #[trigger] les@[b] <= 304,
    ensures
        s == spec_score(g@, les@),
{
    let mut s: i64 = 0;
    let mut b: usize = 0;
    while b < 6
        invariant
            gmm_ok(g@),
            les@.len() == 6,
            forall|bb: int| 0 <= bb < 6 ==> 0 <= #[trigger] les@[bb] <= 304,
            b <= 6,
            s == score_rec(g@, les@, b as int),
            -174 * b <= s <= 174 * b,
        decreases 6 - b,
    {
        let le = les[b];
        let p0 = cscore_x(&g[4 * b], le) + cscore_x(&g[4 * b + 1], le);
        let p1 = cscore_x(&g[4 * b + 2], le) + cscore_x(&g[4 * b + 3], le);
        let llr = ilog2p(p1) as i64 - ilog2p(p0) as i64;
        let wt: i64 = if b == 0 {
            6
        } else if b == 1 {
            5
        } else if b == 2 {
            4
        } else if b == 3 {
            3
        } else if b == 4 {
            2
        } else {
            1
        };
        assert(wt == band_weight(b as int));
        assert(llr == band_llr(g@, b as int, le as int));
        proof {
            assert(-174 <= wt * llr <= 174) by (nonlinear_arith)
                requires
                    1 <= wt <= 6,
                    -29 <= llr <= 29,
            ;
        }
        s = s + wt * llr;
        b = b + 1;
    }
    s
}

} // verus!
