//! A frame-based voice activity detector.
//!
//! Given short windows of mono 16-bit PCM audio at 8, 16, 32 or 48 kHz, the
//! detector classifies each window as containing active speech or not.  Per
//! frame the input is decimated to the 8 kHz working rate, a cascade of
//! quadrature mirror filter splits isolates six frequency sub-bands, a log
//! energy is taken per band, and a two-class mixture classifier compares the
//! aggregated per-band likelihood ratio against a threshold selected by the
//! aggressiveness mode.  The mixture statistics adapt online after every
//! classified frame, so the detector tracks slowly varying background noise
//! without a training phase.

use vstd::prelude::*;

pub mod filterbank;
pub mod gmm;
pub mod resample;

use crate::filterbank::features;
use crate::filterbank::lemma_les_zero;
use crate::filterbank::spec_les;
use crate::gmm::adapt_in_place;
use crate::gmm::default_gmm;
use crate::gmm::eval_score;
use crate::gmm::gmm_ok;
use crate::gmm::lemma_default_score_on_zero;
use crate::gmm::make_default_gmm;
use crate::gmm::spec_adapt;
use crate::gmm::spec_score;
use crate::gmm::Gauss;
use crate::resample::all_zero;
use crate::resample::decimated;
use crate::resample::lemma_decimated_zero;
use crate::resample::resample_frame;

verus! {

/// The aggressiveness mode: how restrictive the detector is in reporting
/// speech.  Higher modes report speech less often.
#[derive(Clone, Copy)]
pub enum VadMode {
    Quality,
    LowBitrate,
    Aggressive,
    VeryAggressive,
}

/// The supported input sample rates.
#[derive(Clone, Copy, Debug)]
pub enum SampleRate {
    Rate8kHz,
    Rate16kHz,
    Rate32kHz,
    Rate48kHz,
}

/// The ordinal of a mode: 0 is most permissive, 3 most restrictive.
pub open spec fn mode_rank(m: VadMode) -> int {
    match m {
        VadMode::Quality => 0,
        VadMode::LowBitrate => 1,
        VadMode::Aggressive => 2,
        VadMode::VeryAggressive => 3,
    }
}

/// The decision threshold of a mode; thresholds rise with the rank, so a
/// higher mode accepts no frame that a lower mode rejects.
pub open spec fn threshold(m: VadMode) -> int {
    match m {
        VadMode::Quality => -48,
        VadMode::LowBitrate => -42,
        VadMode::Aggressive => -36,
        VadMode::VeryAggressive => -30,
    }
}

/// The decimation ratio of a rate down to the 8 kHz working rate.
pub open spec fn rate_ratio(r: SampleRate) -> int {
    match r {
        SampleRate::Rate8kHz => 1,
        SampleRate::Rate16kHz => 2,
        SampleRate::Rate32kHz => 4,
        SampleRate::Rate48kHz => 6,
    }
}

/// The resampler delay line length: the ratio's worth of history, and empty
/// at the working rate where no resampling happens.
pub open spec fn hist_len(r: SampleRate) -> int {
    if rate_ratio(r) == 1 {
        0
    } else {
        rate_ratio(r)
    }
}

/// A frame length is valid iff it spans 10, 20 or 30 ms at the rate.
pub open spec fn frame_ok(r: SampleRate, n: int) -> bool {
    n == 80 * rate_ratio(r) || n == 160 * rate_ratio(r) || n == 240 * rate_ratio(r)
}

/// The 8 kHz signal a frame contributes: the frame itself at 8 kHz, else its
/// decimation against the current delay line.
pub open spec fn spec_x8(r: SampleRate, hist: Seq<i16>, x: Seq<i16>) -> Seq<i16> {
    if rate_ratio(r) == 1 {
        x
    } else {
        decimated(hist, x, rate_ratio(r))
    }
}

/// The decision for one frame: the aggregated mixture score against the
/// mode's threshold.
pub open spec fn spec_decision(g: Seq<Gauss>, les: Seq<i64>, m: VadMode) -> bool {
    spec_score(g, les) > threshold(m)
}

/// One detection session: the configured rate and mode, the resampler delay
/// line, the adaptive mixture state and the frame counter that selects the
/// faster bootstrap adaptation rate for the first frames after a reset.
pub struct Vad {
    pub rate: SampleRate,
    pub mode: VadMode,
    pub rhist: Vec<i16>,
    pub gmm: Vec<Gauss>,
    pub frame_count: u32,
}

/// The session invariant: a well-formed mixture state and a delay line of
/// exactly the rate's history length.
pub open spec fn wf(v: Vad) -> bool {
    &&& gmm_ok(v.gmm@)
    &&& v.rhist@.len() == hist_len(v.rate)
}

/// The built-in default state: 8 kHz, the most permissive mode, the prior
/// mixture state, an empty delay line and a zero frame count.
pub open spec fn is_fresh(v: Vad) -> bool {
    &&& v.rate == SampleRate::Rate8kHz
    &&& v.mode == VadMode::Quality
    &&& v.gmm@ == default_gmm()
    &&& v.rhist@.len() == 0
    &&& v.frame_count == 0
}

impl SampleRate {
    /// Converts a rate in Hz to the enumerated rate; every unsupported rate
    /// is rejected and nothing else changes.
    pub fn try_from(item: i32) -> (r: Result<SampleRate, &'static str>)
        ensures
            item == 8000 ==> r == Ok::<SampleRate, &'static str>(SampleRate::Rate8kHz),
            item == 16000 ==> r == Ok::<SampleRate, &'static str>(SampleRate::Rate16kHz),
            item == 32000 ==> r == Ok::<SampleRate, &'static str>(SampleRate::Rate32kHz),
            item == 48000 ==> r == Ok::<SampleRate, &'static str>(SampleRate::Rate48kHz),
            !(item == 8000 || item == 16000 || item == 32000 || item == 48000) ==> r is Err,
    {
        match item {
            8000 => Ok(SampleRate::Rate8kHz),
            16000 => Ok(SampleRate::Rate16kHz),
            32000 => Ok(SampleRate::Rate32kHz),
            48000 => Ok(SampleRate::Rate48kHz),
            _ => Err("Invalid sample rate"),
        }
    }
}

/// A zero-filled delay line of the rate's history length.
fn zero_hist(sample_rate: &SampleRate) -> (h: Vec<i16>)
    ensures
        h@.len() == hist_len(*sample_rate),
        all_zero(h@),
{
    let n: usize = match sample_rate {
        SampleRate::Rate8kHz => 0,
        SampleRate::Rate16kHz => 2,
        SampleRate::Rate32kHz => 4,
        SampleRate::Rate48kHz => 6,
    };
    let mut h: Vec<i16> = Vec::new();
    let mut i: usize = 0;
    while i < n
        invariant
            i <= n,
            h@.len() == i,
            all_zero(h@),
        decreases n - i,
    {
        h.push(0i16);
        i = i + 1;
    }
    h
}

/// Copy a frame into an owned buffer.
fn copy_frame(x: &[i16]) -> (out: Vec<i16>)
    ensures
        out@ == x@,
{
    let mut out: Vec<i16> = Vec::new();
    let mut i: usize = 0;
    while i < x.len()
        invariant
            i <= x@.len(),
            out@ == x@.take(i as int),
        decreases x@.len() - i,
    {
        out.push(x[i]);
        proof {
            assert(out@ =~= x@.take(i as int + 1));
        }
        i = i + 1;
    }
    proof {
        assert(x@.take(x@.len() as int) =~= x@);
    }
    out
}

/// The last `r` samples of a frame, the history the next frame will see.
fn tail_of(x: &[i16], r: usize) -> (out: Vec<i16>)
    requires
        r <= x@.len(),
    ensures
        out@ == x@.skip(x@.len() - r),
{
    let n = x.len();
    let mut out: Vec<i16> = Vec::new();
    let mut i: usize = n - r;
    while i < n
        invariant
            n == x@.len(),
            n - r <= i <= n,
            out@.len() == i - (n - r),
            forall|j: int| 0 <= j < out@.len() ==> out@[j] == x@[n - r + j],
        decreases n - i,
    {
        out.push(x[i]);
        i = i + 1;
    }
    proof {
        assert(out@ =~= x@.skip(x@.len() - r as int));
    }
    out
}

impl Vad {
    fn ratio(&self) -> (r: usize)
        ensures
            r == rate_ratio(self.rate),
    {
        match self.rate {
            SampleRate::Rate8kHz => 1,
            SampleRate::Rate16kHz => 2,
            SampleRate::Rate32kHz => 4,
            SampleRate::Rate48kHz => 6,
        }
    }

    fn threshold_of(&self) -> (t: i64)
        ensures
            t == threshold(self.mode),
    {
        match self.mode {
            VadMode::Quality => -48,
            VadMode::LowBitrate => -42,
            VadMode::Aggressive => -36,
            VadMode::VeryAggressive => -30,
        }
    }

    /// Creates and initializes a detection session.
    ///
    /// Defaults to 8 kHz sample rate and `Quality` mode.
    pub fn new() -> (v: Vad)
        ensures
            wf(v),
            is_fresh(v),
    {
        Vad::new_with_rate_and_mode(SampleRate::Rate8kHz, VadMode::Quality)
    }

    /// Creates and initializes a detection session.
    ///
    /// Defaults to `Quality` mode.
    pub fn new_with_rate(sample_rate: SampleRate) -> (v: Vad)
        ensures
            wf(v),
            v.rate == sample_rate,
            v.mode == VadMode::Quality,
            v.gmm@ == default_gmm(),
            all_zero(v.rhist@),
            v.frame_count == 0,
    {
        Vad::new_with_rate_and_mode(sample_rate, VadMode::Quality)
    }

    /// Creates and initializes a detection session.
    ///
    /// Defaults to 8 kHz sample rate.
    pub fn new_with_mode(mode: VadMode) -> (v: Vad)
        ensures
            wf(v),
            v.rate == SampleRate::Rate8kHz,
            v.mode == mode,
            v.gmm@ == default_gmm(),
            all_zero(v.rhist@),
            v.frame_count == 0,
    {
        Vad::new_with_rate_and_mode(SampleRate::Rate8kHz, mode)
    }

    /// Creates and initializes a detection session with the given rate and
    /// mode: the prior mixture state, a zeroed delay line and a zero frame
    /// count.
    pub fn new_with_rate_and_mode(sample_rate: SampleRate, mode: VadMode) -> (v: Vad)
        ensures
            wf(v),
            v.rate == sample_rate,
            v.mode == mode,
            v.gmm@ == default_gmm(),
            all_zero(v.rhist@),
            v.frame_count == 0,
    {
        let gmm = make_default_gmm();
        let rhist = zero_hist(&sample_rate);
        Vad { rate: sample_rate, mode, rhist, gmm, frame_count: 0 }
    }

    /// Reinitializes the session, clearing all adaptive state and resetting
    /// mode and sample rate to the built-in defaults.
    pub fn reset(&mut self)
        ensures
            wf(*final(self)),
            is_fresh(*final(self)),
    {
        self.rate = SampleRate::Rate8kHz;
        self.mode = VadMode::Quality;
        self.rhist = Vec::new();
        self.gmm = make_default_gmm();
        self.frame_count = 0;
    }

    /// Sets the input sample rate for the session.
    ///
    /// Internally all processing is done at 8000 Hz; input at a higher rate
    /// is decimated first, so the resampler delay line restarts from zeros.
    /// The mode, the adaptive mixture state and the frame counter are kept.
    pub fn set_sample_rate(&mut self, sample_rate: SampleRate)
        requires
            wf(*old(self)),
        ensures
            wf(*final(self)),
            final(self).rate == sample_rate,
            final(self).mode == old(self).mode,
            final(self).gmm@ == old(self).gmm@,
            final(self).frame_count == old(self).frame_count,
            all_zero(final(self).rhist@),
    {
        self.rhist = zero_hist(&sample_rate);
        self.rate = sample_rate;
    }

    /// Changes the operating ("aggressiveness") mode of the session.
    ///
    /// A more aggressive (higher) mode is more restrictive in reporting
    /// speech.  Nothing else of the session changes.
    pub fn set_mode(&mut self, mode: VadMode)
        requires
            wf(*old(self)),
        ensures
            wf(*final(self)),
            final(self).mode == mode,
            final(self).rate == old(self).rate,
            final(self).gmm@ == old(self).gmm@,
            final(self).rhist@ == old(self).rhist@,
            final(self).frame_count == old(self).frame_count,
    {
        self.mode = mode;
    }

    /// Calculates a detection decision for one audio frame.
    ///
    /// `buffer` is a slice of signed 16-bit samples whose length must span
    /// 10, 20 or 30 ms at the configured rate (so at 8 kHz: 80, 160 or 240
    /// samples); any other length is rejected with `Err(())` and the session
    /// is left exactly as it was.  On a valid frame the decision is the
    /// mixture score of the frame's six band features against the mode's
    /// threshold, and afterwards the mixture state adapts to the features,
    /// the delay line advances and the frame counter steps.
    pub fn is_voice_segment(&mut self, buffer: &[i16]) -> (r: Result<bool, ()>)
        requires
            wf(*old(self)),
        ensures
            wf(*final(self)),
            final(self).rate == old(self).rate,
            final(self).mode == old(self).mode,
            !frame_ok(old(self).rate, buffer@.len() as int) ==> r == Err::<bool, ()>(())
                && *final(self) == *old(self),
            frame_ok(old(self).rate, buffer@.len() as int) ==> {
                let les = spec_les(spec_x8(old(self).rate, old(self).rhist@, buffer@));
                &&& r == Ok::<bool, ()>(spec_decision(old(self).gmm@, les, old(self).mode))
                &&& final(self).gmm@ == spec_adapt(
                    old(self).gmm@,
                    les,
                    old(self).frame_count < 16,
                )
                &&& final(self).rhist@ == (if rate_ratio(old(self).rate) == 1 {
                    old(self).rhist@
                } else {
                    buffer@.skip(buffer@.len() - rate_ratio(old(self).rate))
                })
                &&& final(self).frame_count == (if old(self).frame_count < 65535 {
                    old(self).frame_count + 1
                } else {
                    old(self).frame_count as int
                })
            },
    {
        let rr = self.ratio();
        let n = buffer.len();
        if !(n == 80 * rr || n == 160 * rr || n == 240 * rr) {
            return Err(());
        }
        let x8: Vec<i16>;
        if rr == 1 {
            x8 = copy_frame(buffer);
        } else {
            proof {
                vstd::arithmetic::div_mod::lemma_mod_multiples_basic(80, rr as int);
                vstd::arithmetic::div_mod::lemma_mod_multiples_basic(160, rr as int);
                vstd::arithmetic::div_mod::lemma_mod_multiples_basic(240, rr as int);
                vstd::arithmetic::div_mod::lemma_div_multiples_vanish(80, rr as int);
                vstd::arithmetic::div_mod::lemma_div_multiples_vanish(160, rr as int);
                vstd::arithmetic::div_mod::lemma_div_multiples_vanish(240, rr as int);
            }
            x8 = resample_frame(&self.rhist, buffer, rr);
            self.rhist = tail_of(buffer, rr);
        }
        let les = features(&x8);
        let score = eval_score(&self.gmm, &les);
        let fast = self.frame_count < 16;
        adapt_in_place(&mut self.gmm, &les, fast);
        if self.frame_count < 65535 {
            self.frame_count = self.frame_count + 1;
        }
        let th = self.threshold_of();
        Ok(score > th)
    }
}

impl Default for Vad {
    /// The default session: 8 kHz sample rate and `Quality` mode.
    fn default() -> (v: Vad)
        ensures
            wf(v),
            is_fresh(v),
    {
        Vad::new()
    }
}

/// Monotonicity across modes: with the same mixture state and the same frame
/// features, any frame classified as speech under a stricter mode is also
/// classified as speech under every more permissive mode.
pub proof fn lemma_mode_monotone(g: Seq<Gauss>, les: Seq<i64>, m1: VadMode, m2: VadMode)
    requires
        mode_rank(m1) <= mode_rank(m2),
        spec_decision(g, les, m2),
    ensures
        spec_decision(g, les, m1),
{
}

/// The mixture state after adapting to the first `n` of a stream of frame
/// features, starting from state `g` with the frame counter at `fc`.  The
/// adaptation never reads the mode.
pub open spec fn gmm_after(g: Seq<Gauss>, frames: Seq<Seq<i64>>, fc: int, n: int) -> Seq<Gauss>
    decreases n,
{
    if n <= 0 {
        g
    } else {
        spec_adapt(gmm_after(g, frames, fc, n - 1), frames[n - 1], fc + n - 1 < 16)
    }
}

/// How many of the first `n` frames of a stream are classified as speech
/// under mode `m`, each frame scored against the state adapted to all the
/// frames before it.
pub open spec fn speech_count(
    g: Seq<Gauss>,
    frames: Seq<Seq<i64>>,
    fc: int,
    m: VadMode,
    n: int,
) -> int
    decreases n,
{
    if n <= 0 {
        0
    } else {
        speech_count(g, frames, fc, m, n - 1) + if spec_decision(
            gmm_after(g, frames, fc, n - 1),
            frames[n - 1],
            m,
        ) {
            1int
        } else {
            0int
        }
    }
}

/// Monotonicity across a buffered stream: the adaptation does not depend on
/// the mode, so two sessions that differ only in mode see the same states,
/// and the number of frames classified as speech never increases as the mode
/// gets stricter.
pub proof fn lemma_stream_mode_monotone(
    g: Seq<Gauss>,
    frames: Seq<Seq<i64>>,
    fc: int,
    m1: VadMode,
    m2: VadMode,
    n: int,
)
    requires
        mode_rank(m1) <= mode_rank(m2),
    ensures
        speech_count(g, frames, fc, m2, n) <= speech_count(g, frames, fc, m1, n),
    decreases n,
{
    if n > 0 {
        lemma_stream_mode_monotone(g, frames, fc, m1, m2, n - 1);
        if spec_decision(gmm_after(g, frames, fc, n - 1), frames[n - 1], m2) {
            lemma_mode_monotone(gmm_after(g, frames, fc, n - 1), frames[n - 1], m1, m2);
        }
    }
}

/// Silence is never classified as speech from a fresh state: against the
/// built-in prior mixture state an all-zero frame of any valid length, at any
/// rate with an all-zero delay line, scores -63 and so falls below every
/// mode's threshold.
pub proof fn lemma_silence_never_speech(
    rate: SampleRate,
    hist: Seq<i16>,
    x: Seq<i16>,
    m: VadMode,
)
    requires
        hist.len() == hist_len(rate),
        all_zero(hist),
        all_zero(x),
        frame_ok(rate, x.len() as int),
    ensures
        !spec_decision(default_gmm(), spec_les(spec_x8(rate, hist, x)), m),
{
    let rr = rate_ratio(rate);
    let x8 = spec_x8(rate, hist, x);
    if rr != 1 {
        vstd::arithmetic::div_mod::lemma_mod_multiples_basic(80, rr);
        vstd::arithmetic::div_mod::lemma_mod_multiples_basic(160, rr);
        vstd::arithmetic::div_mod::lemma_mod_multiples_basic(240, rr);
        lemma_decimated_zero(hist, x, rr);
    }
    assert(all_zero(x8));
    lemma_les_zero(x8);
    let les = spec_les(x8);
    lemma_default_score_on_zero(les);
    assert(spec_score(default_gmm(), les) == -63);
    assert(threshold(m) >= -48);
}

/// Resampling correctness on silence: an all-zero 48 kHz frame and an
/// all-zero 8 kHz frame of equivalent duration yield the same decision,
/// namely non-speech, from the same fresh starting state.
pub proof fn lemma_silence_rate_agnostic(
    h48: Seq<i16>,
    x48: Seq<i16>,
    h8: Seq<i16>,
    x8: Seq<i16>,
    m: VadMode,
)
    requires
        h48.len() == hist_len(SampleRate::Rate48kHz),
        h8.len() == hist_len(SampleRate::Rate8kHz),
        all_zero(h48),
        all_zero(h8),
        all_zero(x48),
        all_zero(x8),
        frame_ok(SampleRate::Rate48kHz, x48.len() as int),
        frame_ok(SampleRate::Rate8kHz, x8.len() as int),
        x48.len() == 6 * x8.len(),
    ensures
        spec_decision(default_gmm(), spec_les(spec_x8(SampleRate::Rate48kHz, h48, x48)), m)
            == spec_decision(default_gmm(), spec_les(spec_x8(SampleRate::Rate8kHz, h8, x8)), m),
        !spec_decision(default_gmm(), spec_les(spec_x8(SampleRate::Rate48kHz, h48, x48)), m),
{
    lemma_silence_never_speech(SampleRate::Rate48kHz, h48, x48, m);
    lemma_silence_never_speech(SampleRate::Rate8kHz, h8, x8, m);
}

/// Idempotence of `reset`: the reset state is a single fixed value, so two
/// sessions that were both reset agree in every observable field, and
/// resetting twice is the same as resetting once.
pub proof fn lemma_reset_idempotent(a: Vad, b: Vad)
    requires
        is_fresh(a),
        is_fresh(b),
    ensures
        a.rate == b.rate,
        a.mode == b.mode,
        a.gmm@ == b.gmm@,
        a.rhist@ == b.rhist@,
        a.frame_count == b.frame_count,
{
    assert(a.rhist@ =~= b.rhist@);
}

} // verus!
