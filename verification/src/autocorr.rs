use vstd::prelude::*;

verus! {

use crate::config::COEFF_SCALE;
use crate::config::MAX_WINDOW_LEN;
use crate::config::SAMPLE_SCALE;
use crate::fixed::div_scale;
use crate::fixed::tdiv;
use vstd::arithmetic::div_mod::lemma_div_by_multiple;
use crate::history::HistoryWindow;
use crate::history::bounded;
use crate::history::fed;
use crate::history::lemma_fed_bounded;

/// Sum of the first `n` lagged products of `s`:
/// `s[0]*s[lag] + s[1]*s[1+lag] + ... + s[n-1]*s[n-1+lag]`.
pub open spec fn ac_sum(s: Seq<i64>, lag: int, n: int) -> int
    recommends
        0 <= lag,
        n + lag <= s.len(),
    decreases n,
{
    if n <= 0 {
        0
    } else {
        ac_sum(s, lag, n - 1) + s[n - 1] as int * s[n - 1 + lag] as int
    }
}

/// Autocorrelation of `s` at `lag`: the sum of products of the window
/// with its copy shifted by `lag`, zero once the shift passes the end.
pub open spec fn autocorr_at(s: Seq<i64>, lag: int) -> int {
    if 0 <= lag <= s.len() {
        ac_sum(s, lag, s.len() - lag)
    } else {
        0
    }
}

/// Normalized coefficient at `lag`: the autocorrelation scaled by
/// `COEFF_SCALE` and divided by the zero-lag value, so the zero-lag
/// coefficient is the fixed-point unit; an all-zero (silent) window has a
/// zero-lag value of zero and yields zero instead of a division fault.
pub open spec fn norm_coeff(s: Seq<i64>, lag: int) -> int {
    if autocorr_at(s, 0) == 0 {
        0
    } else {
        tdiv(autocorr_at(s, lag) * COEFF_SCALE as int, autocorr_at(s, 0))
    }
}

/// The vector of the first `m` normalized coefficients of window `s`.
pub open spec fn coeff_seq(s: Seq<i64>, m: nat) -> Seq<i64> {
    Seq::new(m, |l: int| norm_coeff(s, l) as i64)
}

/// Lagged product sums over a `b`-bounded window stay within `n * b * b`.
pub proof fn lemma_ac_sum_bound(s: Seq<i64>, lag: int, n: int, b: int)
    requires
        bounded(s, b),
        b >= 0,
        0 <= lag,
        0 <= n,
        n + lag <= s.len(),
    ensures
        -(n * b * b) <= ac_sum(s, lag, n) <= n * b * b,
    decreases n,
{
    if n > 0 {
        lemma_ac_sum_bound(s, lag, n - 1, b);
        let x = s[n - 1] as int;
        let y = s[n - 1 + lag] as int;
        assert(-(b * b) <= x * y <= b * b) by (nonlinear_arith)
            requires
                -b <= x <= b,
                -b <= y <= b,
                b >= 0,
        ;
        assert((n - 1) * b * b + b * b == n * b * b) by (nonlinear_arith);
    } else {
        assert(n * b * b == 0) by (nonlinear_arith)
            requires
                n == 0,
        ;
    }
}

/// The zero-lag sum is a sum of squares, hence non-negative.
pub proof fn lemma_ac_sum_squares_nonneg(s: Seq<i64>, n: int)
    requires
        n <= s.len(),
    ensures
        ac_sum(s, 0, n) >= 0,
    decreases n,
{
    if n > 0 {
        lemma_ac_sum_squares_nonneg(s, n - 1);
        let x = s[n - 1] as int;
        assert(x * x >= 0) by (nonlinear_arith);
    }
}

/// Every lagged product sum over an all-zero window is zero.
pub proof fn lemma_ac_sum_zero(s: Seq<i64>, lag: int, n: int)
    requires
        forall|i: int| 0 <= i < s.len() ==> s[i] == 0,
        0 <= lag,
        n + lag <= s.len(),
    ensures
        ac_sum(s, lag, n) == 0,
    decreases n,
{
    if n > 0 {
        lemma_ac_sum_zero(s, lag, n - 1);
    }
}

/// Law: whenever the window is not silent, normalization makes the
/// zero-lag coefficient exactly the fixed-point unit.
pub proof fn lemma_zero_lag_is_unit(s: Seq<i64>)
    requires
        autocorr_at(s, 0) != 0,
    ensures
        norm_coeff(s, 0) == COEFF_SCALE as int,
{
    let r0 = autocorr_at(s, 0);
    lemma_ac_sum_squares_nonneg(s, s.len() as int);
    assert(r0 > 0);
    lemma_div_by_multiple(COEFF_SCALE as int, r0);
    assert(r0 * COEFF_SCALE as int == COEFF_SCALE as int * r0) by (nonlinear_arith);
    assert(r0 * COEFF_SCALE as int >= 0) by (nonlinear_arith)
        requires
            r0 > 0,
    ;
}

/// Law: a silent window yields an all-zero coefficient vector — the
/// zero-lag value of silence is zero, and normalization substitutes zero
/// rather than dividing by it.
pub proof fn lemma_silence_zero_coeffs(s: Seq<i64>, m: nat)
    requires
        forall|i: int| 0 <= i < s.len() ==> s[i] == 0,
    ensures
        forall|l: int| 0 <= l < m ==> coeff_seq(s, m)[l] == 0,
{
    lemma_ac_sum_zero(s, 0, s.len() as int);
    assert forall|l: int| 0 <= l < m implies coeff_seq(s, m)[l] == 0 by {
        assert(norm_coeff(s, l) == 0);
    }
}

/// Raw autocorrelation of the window at one lag.
fn autocorr_lag(window: &Vec<i64>, lag: usize) -> (r: i64)
    requires
        bounded(window@, SAMPLE_SCALE as int),
        window@.len() <= MAX_WINDOW_LEN,
        lag <= window@.len(),
    ensures
        r as int == ac_sum(window@, lag as int, window@.len() - lag),
        -((window@.len() - lag) * SAMPLE_SCALE as int * SAMPLE_SCALE as int) <= r as int,
        r as int <= (window@.len() - lag) * SAMPLE_SCALE as int * SAMPLE_SCALE as int,
{
    let n = window.len() - lag;
    let ghost b: int = SAMPLE_SCALE as int;
    let mut acc: i64 = 0;
    let mut i: usize = 0;
    while i < n
        invariant
            bounded(window@, b),
            b == SAMPLE_SCALE as int,
            window@.len() <= MAX_WINDOW_LEN,
            lag <= window@.len(),
            n == window@.len() - lag,
            i <= n,
            acc as int == ac_sum(window@, lag as int, i as int),
        decreases n - i,
    {
        proof {
            lemma_ac_sum_bound(window@, lag as int, i as int, b);
            let x = window@[i as int] as int;
            let y = window@[i + lag] as int;
            assert(-(b * b) <= x * y <= b * b) by (nonlinear_arith)
                requires
                    -b <= x <= b,
                    -b <= y <= b,
                    b >= 0,
            ;
            assert(i as int * b * b <= MAX_WINDOW_LEN as int * b * b) by (nonlinear_arith)
                requires
                    0 <= i as int <= MAX_WINDOW_LEN as int,
                    b * b >= 0,
            ;
        }
        let t = window[i] * window[i + lag];
        acc = acc + t;
        i = i + 1;
    }
    proof {
        lemma_ac_sum_bound(window@, lag as int, n as int, b);
    }
    acc
}

/// The first `m` normalized autocorrelation coefficients of the window.
fn compute_coeffs(window: &Vec<i64>, m: usize) -> (out: Vec<i64>)
    requires
        bounded(window@, SAMPLE_SCALE as int),
        window@.len() <= MAX_WINDOW_LEN,
    ensures
        out@ == coeff_seq(window@, m as nat),
{
    let r0 = autocorr_lag(window, 0);
    proof {
        lemma_ac_sum_squares_nonneg(window@, window@.len() as int);
    }
    let mut out: Vec<i64> = Vec::new();
    let mut l: usize = 0;
    while l < m
        invariant
            bounded(window@, SAMPLE_SCALE as int),
            window@.len() <= MAX_WINDOW_LEN,
            r0 as int == autocorr_at(window@, 0),
            r0 >= 0,
            l <= m,
            out@.len() == l,
            forall|k: int| 0 <= k < l ==> out@[k] as int == norm_coeff(window@, k),
        decreases m - l,
    {
        let c: i64 = if r0 == 0 {
            proof {
                assert(norm_coeff(window@, l as int) == 0);
            }
            0
        } else {
            let raw: i64 = if l <= window.len() {
                autocorr_lag(window, l)
            } else {
                0
            };
            proof {
                assert(raw as int == autocorr_at(window@, l as int));
                let b: int = SAMPLE_SCALE as int;
                let len: int = window@.len() as int;
                if l as int <= len {
                    let d: int = len - l as int;
                    assert(d * b * b <= MAX_WINDOW_LEN as int * b * b) by (nonlinear_arith)
                        requires
                            0 <= d <= MAX_WINDOW_LEN as int,
                            b >= 0,
                    ;
                }
                assert(-(MAX_WINDOW_LEN as int * b * b) <= raw as int
                    <= MAX_WINDOW_LEN as int * b * b);
            }
            let num = raw * COEFF_SCALE;
            div_scale(num, r0)
        };
        proof {
            assert(c as int == norm_coeff(window@, l as int));
        }
        out.push(c);
        l = l + 1;
    }
    proof {
        assert(out@ =~= coeff_seq(window@, m as nat));
    }
    out
}

/// Per-buffer estimator: keeps the rolling history window and computes the
/// normalized autocorrelation vector over its current contents.
pub struct AutocorrelationEstimator {
    window: HistoryWindow,
    num_coeffs: usize,
}

impl AutocorrelationEstimator {
    /// The samples currently held by the history window, oldest first.
    pub closed spec fn window_view(&self) -> Seq<i64> {
        self.window@
    }

    pub closed spec fn spec_capacity(&self) -> nat {
        self.window.spec_capacity()
    }

    pub closed spec fn spec_num_coeffs(&self) -> nat {
        self.num_coeffs as nat
    }

    pub open spec fn wf(&self) -> bool {
        &&& self.window_view().len() <= self.spec_capacity()
        &&& 1 <= self.spec_capacity() <= MAX_WINDOW_LEN
        &&& 1 <= self.spec_num_coeffs()
        &&& bounded(self.window_view(), SAMPLE_SCALE as int)
    }

    pub fn new(ac_capacity: usize, num_coeffs: usize) -> (e: Self)
        requires
            1 <= ac_capacity <= MAX_WINDOW_LEN,
            1 <= num_coeffs,
        ensures
            e.wf(),
            e.window_view() == Seq::<i64>::empty(),
            e.spec_capacity() == ac_capacity,
            e.spec_num_coeffs() == num_coeffs,
    {
        AutocorrelationEstimator { window: HistoryWindow::new(ac_capacity), num_coeffs }
    }

    /// Appends the buffer to the history window (evicting the oldest
    /// samples at capacity) and returns the normalized autocorrelation
    /// vector of the updated window.
    pub fn feed(&mut self, buf: &Vec<i64>) -> (out: Vec<i64>)
        requires
            old(self).wf(),
            bounded(buf@, SAMPLE_SCALE as int),
        ensures
            final(self).wf(),
            final(self).spec_capacity() == old(self).spec_capacity(),
            final(self).spec_num_coeffs() == old(self).spec_num_coeffs(),
            final(self).window_view() == fed(
                old(self).window_view(),
                buf@,
                old(self).spec_capacity(),
            ),
            out@ == coeff_seq(final(self).window_view(), old(self).spec_num_coeffs()),
    {
        self.window.extend(buf);
        proof {
            lemma_fed_bounded(
                old(self).window_view(),
                buf@,
                old(self).spec_capacity(),
                SAMPLE_SCALE as int,
            );
        }
        compute_coeffs(self.window.contents(), self.num_coeffs)
    }
}

} // verus!
