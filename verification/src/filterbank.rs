//! Sub-band feature extraction at the 8 kHz working rate.
//!
//! A cascade of two-tap quadrature mirror filter splits divides the frame
//! into six contiguous sub-bands covering 0–4 kHz: the top split separates
//! 0–2 kHz from 2–4 kHz, the upper half is split once more (2–3, 3–4 kHz),
//! and the lower half is split recursively down to 0–250, 250–500, 500–1000
//! and 1000–2000 Hz.  Each split halves the rate, so the two taps of a pair
//! never straddle a frame boundary and the stages carry no state.  Per band
//! the feature is a scaled integer log2 of the summed sample energy, floored
//! at zero so an all-zero band yields the zero feature.

use vstd::prelude::*;
use crate::resample::all_zero;

verus! {

/// The low (sum) output of one quadrature mirror pair, floored mean of the
/// two offset taps.
pub open spec fn lo_val(a: int, b: int) -> int {
    (a + b + 0x10000) / 2 - 0x8000
}

/// The high (difference) output of one quadrature mirror pair.
pub open spec fn hi_val(a: int, b: int) -> int {
    (a - b + 0x10000) / 2 - 0x8000
}

/// Low half-band signal: the low output of each adjacent pair.
pub open spec fn lo_seq(x: Seq<i16>) -> Seq<i16> {
    Seq::new(x.len() / 2, |n: int| lo_val(x[2 * n] as int, x[2 * n + 1] as int) as i16)
}

/// High half-band signal: the high output of each adjacent pair.
pub open spec fn hi_seq(x: Seq<i16>) -> Seq<i16> {
    Seq::new(x.len() / 2, |n: int| hi_val(x[2 * n] as int, x[2 * n + 1] as int) as i16)
}

/// The signal of sub-band `b` (0 lowest band, 5 highest), as produced by the
/// filter cascade.
pub open spec fn band_seq(x8: Seq<i16>, b: int) -> Seq<i16> {
    let l1 = lo_seq(x8);
    if b == 5 {
        hi_seq(hi_seq(x8))
    } else if b == 4 {
        lo_seq(hi_seq(x8))
    } else if b == 3 {
        hi_seq(l1)
    } else {
        let l2 = lo_seq(l1);
        if b == 2 {
            hi_seq(l2)
        } else if b == 1 {
            hi_seq(lo_seq(l2))
        } else {
            lo_seq(lo_seq(l2))
        }
    }
}

/// Sum of squared samples of a band signal.
pub open spec fn energy(s: Seq<i16>) -> int
    decreases s.len(),
{
    if s.len() == 0 {
        0
    } else {
        energy(s.drop_last()) + s.last() * s.last()
    }
}

/// Number of binary digits of `e`: 0 for non-positive `e`, else
/// `floor(log2 e) + 1`.
pub open spec fn bits(e: int) -> int
    decreases e,
{
    if e <= 0 {
        0
    } else {
        1 + bits(e / 2)
    }
}

/// The log-energy feature: a scaled integer logarithm of the band energy.
pub open spec fn le_of(e: int) -> int {
    8 * bits(e)
}

/// The six log-energy features of one 8 kHz frame.
pub open spec fn spec_les(x8: Seq<i16>) -> Seq<i64> {
    Seq::new(6, |b: int| le_of(energy(band_seq(x8, b))) as i64)
}

pub proof fn lemma_bits_nonneg(e: int)
    ensures
        0 <= bits(e),
    decreases e,
{
    if e > 0 {
        lemma_bits_nonneg(e / 2);
    }
}

/// `bits` is bounded by the bit width: `e < 2^k` gives `bits(e) <= k`.
pub proof fn lemma_bits_le(e: int, k: nat)
    requires
        0 <= e < vstd::arithmetic::power2::pow2(k),
    ensures
        bits(e) <= k,
    decreases k,
{
    if e > 0 {
        if k == 0 {
            vstd::arithmetic::power2::lemma2_to64();
        } else {
            vstd::arithmetic::power2::lemma_pow2_unfold(k);
            lemma_bits_le(e / 2, (k - 1) as nat);
        }
    }
}

pub proof fn lemma_energy_bound(s: Seq<i16>)
    ensures
        0 <= energy(s) <= s.len() * 0x4000_0000,
    decreases s.len(),
{
    if s.len() > 0 {
        lemma_energy_bound(s.drop_last());
        let t = s.last();
        assert(0 <= t * t <= 0x4000_0000) by (nonlinear_arith)
            requires
                -0x8000 <= t <= 0x7fff,
        ;
    }
}

pub proof fn lemma_energy_zero(s: Seq<i16>)
    requires
        all_zero(s),
    ensures
        energy(s) == 0,
    decreases s.len(),
{
    if s.len() > 0 {
        assert(all_zero(s.drop_last()));
        lemma_energy_zero(s.drop_last());
    }
}

pub proof fn lemma_lo_seq_zero(x: Seq<i16>)
    requires
        all_zero(x),
    ensures
        all_zero(lo_seq(x)),
{
    assert forall|n: int| 0 <= n < lo_seq(x).len() implies lo_seq(x)[n] == 0i16 by {
        assert(x[2 * n] == 0i16 && x[2 * n + 1] == 0i16);
    }
}

pub proof fn lemma_hi_seq_zero(x: Seq<i16>)
    requires
        all_zero(x),
    ensures
        all_zero(hi_seq(x)),
{
    assert forall|n: int| 0 <= n < hi_seq(x).len() implies hi_seq(x)[n] == 0i16 by {
        assert(x[2 * n] == 0i16 && x[2 * n + 1] == 0i16);
    }
}

/// Every sub-band of an all-zero frame is all zero, so every feature of an
/// all-zero frame is zero.
pub proof fn lemma_les_zero(x8: Seq<i16>)
    requires
        all_zero(x8),
    ensures
        forall|b: int| 0 <= b < 6 ==> spec_les(x8)[b] == 0i64,
{
    lemma_lo_seq_zero(x8);
    lemma_hi_seq_zero(x8);
    lemma_lo_seq_zero(lo_seq(x8));
    lemma_hi_seq_zero(lo_seq(x8));
    lemma_lo_seq_zero(hi_seq(x8));
    lemma_hi_seq_zero(hi_seq(x8));
    lemma_lo_seq_zero(lo_seq(lo_seq(x8)));
    lemma_hi_seq_zero(lo_seq(lo_seq(x8)));
    lemma_lo_seq_zero(lo_seq(lo_seq(lo_seq(x8))));
    lemma_hi_seq_zero(lo_seq(lo_seq(lo_seq(x8))));
    assert forall|b: int| 0 <= b < 6 implies spec_les(x8)[b] == 0i64 by {
        lemma_energy_zero(band_seq(x8, b));
    }
}

/// One quadrature mirror split: the low half-band signal.
pub fn split_low(x: &Vec<i16>) -> (out: Vec<i16>)
    requires
        x@.len() <= 1440,
    ensures
        out@ == lo_seq(x@),
{
    let m = x.len() / 2;
    let mut out: Vec<i16> = Vec::new();
    let mut n: usize = 0;
    while n < m
        invariant
            x@.len() <= 1440,
            m == x@.len() / 2,
            out@.len() == n,
            n <= m,
            forall|i: int|
                0 <= i < n ==> out@[i] as int == lo_val(x@[2 * i] as int, x@[2 * i + 1] as int),
        decreases m - n,
    {
        let a = x[2 * n] as i32;
        let b = x[2 * n + 1] as i32;
        let num = (a + b + 0x10000) as u32;
        let y = (num / 2) as i32 - 0x8000;
        assert(-0x8000 <= y <= 0x7fff);
        out.push(y as i16);
        n = n + 1;
    }
    proof {
        assert forall|i: int| 0 <= i < m implies out@[i] == lo_seq(x@)[i] by {}
        assert(out@ =~= lo_seq(x@));
    }
    out
}

/// One quadrature mirror split: the high half-band signal.
pub fn split_high(x: &Vec<i16>) -> (out: Vec<i16>)
    requires
        x@.len() <= 1440,
    ensures
        out@ == hi_seq(x@),
{
    let m = x.len() / 2;
    let mut out: Vec<i16> = Vec::new();
    let mut n: usize = 0;
    while n < m
        invariant
            x@.len() <= 1440,
            m == x@.len() / 2,
            out@.len() == n,
            n <= m,
            forall|i: int|
                0 <= i < n ==> out@[i] as int == hi_val(x@[2 * i] as int, x@[2 * i + 1] as int),
        decreases m - n,
    {
        let a = x[2 * n] as i32;
        let b = x[2 * n + 1] as i32;
        let num = (a - b + 0x10000) as u32;
        let y = (num / 2) as i32 - 0x8000;
        assert(-0x8000 <= y <= 0x7fff);
        out.push(y as i16);
        n = n + 1;
    }
    proof {
        assert forall|i: int| 0 <= i < m implies out@[i] == hi_seq(x@)[i] by {}
        assert(out@ =~= hi_seq(x@));
    }
    out
}

/// Sum of squared samples of a band signal.
pub fn band_energy(x: &Vec<i16>) -> (e: u64)
    requires
        x@.len() <= 1440,
    ensures
        e == energy(x@),
        e <= x@.len() * 0x4000_0000,
{
    let mut e: u64 = 0;
    let mut i: usize = 0;
    while i < x.len()
        invariant
            x@.len() <= 1440,
            i <= x@.len(),
            e == energy(x@.take(i as int)),
            e <= i * 0x4000_0000,
        decreases x@.len() - i,
    {
        let s = x[i] as i64;
        proof {
            assert(0 <= s * s <= 0x4000_0000) by (nonlinear_arith)
                requires
                    -0x8000 <= s <= 0x7fff,
            ;
        }
        let sq = (s * s) as u64;
        proof {
            assert(x@.take(i as int + 1).drop_last() =~= x@.take(i as int));
            assert(x@.take(i as int + 1).last() == x@[i as int]);
        }
        e = e + sq;
        i = i + 1;
    }
    proof {
        assert(x@.take(x@.len() as int) =~= x@);
    }
    e
}

/// The scaled integer log2 of a band energy.
pub fn log_energy(e: u64) -> (le: i64)
    requires
        e < 0x2000000000,
    ensures
        le == le_of(e as int),
        0 <= le <= 304,
{
    proof {
        vstd::arithmetic::power2::lemma2_to64_rest();
        lemma_bits_le(e as int, 37);
        lemma_bits_nonneg(e as int);
    }
    let mut v = e;
    let mut b: u32 = 0;
    while v > 0
        invariant
            bits(e as int) == b + bits(v as int),
            0 <= bits(v as int),
            bits(e as int) <= 37,
        decreases v,
    {
        proof {
            lemma_bits_nonneg(v as int / 2);
        }
        v = v / 2;
        b = b + 1;
    }
    (8 * b) as i64
}

/// Compute the six log-energy features of one 8 kHz frame.
pub fn features(x8: &Vec<i16>) -> (les: Vec<i64>)
    requires
        x8@.len() == 80 || x8@.len() == 160 || x8@.len() == 240,
    ensures
        les@ == spec_les(x8@),
        les@.len() == 6,
        forall|b: int| 0 <= b < 6 ==> 0 <= #[trigger] les@[b] <= 304,
{
    let l1 = split_low(x8);
    let h1 = split_high(x8);
    let band4 = split_low(&h1);
    let band5 = split_high(&h1);
    let band3 = split_high(&l1);
    let l2 = split_low(&l1);
    let band2 = split_high(&l2);
    let l3 = split_low(&l2);
    let band0 = split_low(&l3);
    let band1 = split_high(&l3);
    let mut les: Vec<i64> = Vec::new();
    proof {
        lemma_energy_bound(band0@);
        lemma_energy_bound(band1@);
        lemma_energy_bound(band2@);
        lemma_energy_bound(band3@);
        lemma_energy_bound(band4@);
        lemma_energy_bound(band5@);
    }
    les.push(log_energy(band_energy(&band0)));
    les.push(log_energy(band_energy(&band1)));
    les.push(log_energy(band_energy(&band2)));
    les.push(log_energy(band_energy(&band3)));
    les.push(log_energy(band_energy(&band4)));
    les.push(log_energy(band_energy(&band5)));
    proof {
        assert(les@ =~= spec_les(x8@));
    }
    les
}

} // verus!
