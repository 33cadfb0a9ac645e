use vstd::prelude::*;

verus! {

use crate::autocorr::AutocorrelationEstimator;
use crate::autocorr::coeff_seq;
use crate::config::Config;
use crate::config::SAMPLE_SCALE;
use crate::config::TABLE_SCALE;
use crate::handoff::RingHandoff;
use crate::history::bounded;
use crate::history::fed;
use crate::spectrum::SpectralAnalyzer;
use crate::spectrum::framed;
use crate::spectrum::spectrum_seq;

use crate::autocorr::lemma_silence_zero_coeffs;
use crate::history::lemma_fed_bounded;
use crate::spectrum::lemma_zero_frame_zero_spectrum;

/// Law: silence in, silence out on the coefficient path — feeding an
/// all-zero buffer into an all-zero history window yields a window whose
/// coefficient vector is all zero, so a callback under silence pushes
/// only zeros into the coefficient handoff.
pub proof fn lemma_silent_buffer_zero_coeffs(w: Seq<i64>, xs: Seq<i64>, cap: nat, m: nat)
    requires
        forall|i: int| 0 <= i < w.len() ==> w[i] == 0,
        forall|i: int| 0 <= i < xs.len() ==> xs[i] == 0,
    ensures
        forall|l: int| 0 <= l < m ==> coeff_seq(fed(w, xs, cap), m)[l] == 0,
{
    lemma_fed_bounded(w, xs, cap, 0);
    let f = fed(w, xs, cap);
    assert(forall|i: int| 0 <= i < f.len() ==> f[i] == 0);
    lemma_silence_zero_coeffs(f, m);
}

/// Law: silence in, silence out on the spectrum path — under the same
/// silence the analyzed frame is all zero, so a callback under silence
/// pushes only zeros into the spectrum handoff.
pub proof fn lemma_silent_buffer_zero_spectrum(
    w: Seq<i64>,
    xs: Seq<i64>,
    n: nat,
    cos_tab: Seq<i64>,
    sin_tab: Seq<i64>,
    half: nat,
)
    requires
        forall|i: int| 0 <= i < w.len() ==> w[i] == 0,
        forall|i: int| 0 <= i < xs.len() ==> xs[i] == 0,
        cos_tab.len() > 0,
        sin_tab.len() > 0,
    ensures
        forall|k: int| 0 <= k < half ==> spectrum_seq(
            framed(fed(w, xs, n), n),
            cos_tab,
            sin_tab,
            half,
        )[k] == 0,
{
    lemma_fed_bounded(w, xs, n, 0);
    let f = fed(w, xs, n);
    assert(forall|i: int| 0 <= i < f.len() ==> f[i] == 0);
    let fr = framed(f, n);
    assert(forall|i: int| 0 <= i < fr.len() ==> fr[i] == 0);
    lemma_zero_frame_zero_spectrum(fr, cos_tab, sin_tab, half);
}

/// The real-time side of the pipeline: the state touched by the audio
/// driver's per-buffer callback. On every delivered buffer it feeds the
/// autocorrelation estimator and the spectral analyzer, pushes each
/// feature value element-wise into its handoff (dropping what does not
/// fit — the callback never blocks), and echoes the input to the output
/// slots for duplex operation.
pub struct CaptureLoop {
    estimator: AutocorrelationEstimator,
    analyzer: SpectralAnalyzer,
}

impl CaptureLoop {
    pub closed spec fn est_window(&self) -> Seq<i64> {
        self.estimator.window_view()
    }

    pub closed spec fn ac_capacity(&self) -> nat {
        self.estimator.spec_capacity()
    }

    pub closed spec fn num_coeffs(&self) -> nat {
        self.estimator.spec_num_coeffs()
    }

    pub closed spec fn fft_window(&self) -> Seq<i64> {
        self.analyzer.window_view()
    }

    pub closed spec fn fft_size(&self) -> nat {
        self.analyzer.spec_fft_size()
    }

    pub closed spec fn half(&self) -> nat {
        self.analyzer.spec_half()
    }

    pub closed spec fn cos_view(&self) -> Seq<i64> {
        self.analyzer.cos_view()
    }

    pub closed spec fn sin_view(&self) -> Seq<i64> {
        self.analyzer.sin_view()
    }

    pub closed spec fn wf(&self) -> bool {
        &&& self.estimator.wf()
        &&& self.analyzer.wf()
    }

    pub fn new(cfg: &Config, cos_tab: Vec<i64>, sin_tab: Vec<i64>) -> (c: Self)
        requires
            cfg.wf(),
            cos_tab@.len() == cfg.fft_size,
            sin_tab@.len() == cfg.fft_size,
            bounded(cos_tab@, TABLE_SCALE as int),
            bounded(sin_tab@, TABLE_SCALE as int),
        ensures
            c.wf(),
            c.est_window() == Seq::<i64>::empty(),
            c.fft_window() == Seq::<i64>::empty(),
            c.ac_capacity() == cfg.ac_capacity,
            c.num_coeffs() == cfg.auto_coeffs,
            c.fft_size() == cfg.fft_size,
            c.half() == cfg.fft_size as int / 2,
            c.cos_view() == cos_tab@,
            c.sin_view() == sin_tab@,
    {
        CaptureLoop {
            estimator: AutocorrelationEstimator::new(cfg.ac_capacity, cfg.auto_coeffs),
            analyzer: SpectralAnalyzer::new(cfg.fft_size, cos_tab, sin_tab),
        }
    }

    /// One callback invocation: updates both rolling windows with the
    /// input buffer, pushes the fitting prefix of the new coefficient
    /// vector and of the new spectrum into their handoffs, and copies the
    /// input verbatim to the output slots.
    pub fn on_buffer(
        &mut self,
        input: &Vec<i64>,
        coeff_out: &mut RingHandoff<i64>,
        spectrum_out: &mut RingHandoff<i64>,
        output: &mut Vec<i64>,
    )
        requires
            old(self).wf(),
            bounded(input@, SAMPLE_SCALE as int),
            old(coeff_out).wf(),
            old(spectrum_out).wf(),
            old(output)@.len() == input@.len(),
        ensures
            final(self).wf(),
            final(self).ac_capacity() == old(self).ac_capacity(),
            final(self).num_coeffs() == old(self).num_coeffs(),
            final(self).fft_size() == old(self).fft_size(),
            final(self).half() == old(self).half(),
            final(self).cos_view() == old(self).cos_view(),
            final(self).sin_view() == old(self).sin_view(),
            final(self).est_window() == fed(
                old(self).est_window(),
                input@,
                old(self).ac_capacity(),
            ),
            final(self).fft_window() == fed(
                old(self).fft_window(),
                input@,
                old(self).fft_size(),
            ),
            final(coeff_out).wf(),
            final(coeff_out).spec_capacity() == old(coeff_out).spec_capacity(),
            final(coeff_out)@ == old(coeff_out)@ + RingHandoff::<i64>::fitting(
                (old(coeff_out).spec_capacity() - old(coeff_out)@.len()) as nat,
                coeff_seq(final(self).est_window(), old(self).num_coeffs()),
            ),
            final(spectrum_out).wf(),
            final(spectrum_out).spec_capacity() == old(spectrum_out).spec_capacity(),
            final(spectrum_out)@ == old(spectrum_out)@ + RingHandoff::<i64>::fitting(
                (old(spectrum_out).spec_capacity() - old(spectrum_out)@.len()) as nat,
                spectrum_seq(
                    framed(final(self).fft_window(), old(self).fft_size()),
                    old(self).cos_view(),
                    old(self).sin_view(),
                    old(self).half(),
                ),
            ),
            final(output)@ == input@,
    {
        let coeffs = self.estimator.feed(input);
        let bins = self.analyzer.feed(input);
        coeff_out.push_all(&coeffs);
        spectrum_out.push_all(&bins);
        let mut i: usize = 0;
        while i < input.len()
            invariant
                output@.len() == input@.len(),
                i <= input@.len(),
                forall|j: int| 0 <= j < i ==> output@[j] == input@[j],
            decreases input@.len() - i,
        {
            let v = input[i];
            output[i] = v;
            i = i + 1;
        }
        proof {
            assert(output@ =~= input@);
        }
    }
}

} // verus!
