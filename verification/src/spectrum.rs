use vstd::prelude::*;

verus! {

use crate::config::MAX_FFT_LEN;
use crate::config::SAMPLE_SCALE;
use crate::config::TABLE_SCALE;
use crate::fixed::div_scale;
use crate::fixed::lemma_tdiv_bound;
use crate::fixed::tdiv;
use crate::history::HistoryWindow;
use crate::history::bounded;
use crate::history::fed;
use crate::history::lemma_fed_bounded;

/// Sum of the first `n` products of the frame with one basis table read
/// at stride `k`: `x[0]*tab[0] + x[1]*tab[k % N] + ... `, index wrapped
/// modulo the table length.
pub open spec fn basis_sum(x: Seq<i64>, tab: Seq<i64>, k: int, n: int) -> int
    recommends
        tab.len() > 0,
        0 <= k,
        n <= x.len(),
    decreases n,
{
    if n <= 0 {
        0
    } else {
        basis_sum(x, tab, k, n - 1) + x[n - 1] as int * tab[(k * (n - 1)) % tab.len() as int] as int
    }
}

/// The frame of length `n` analyzed for a window `x`: `x` truncated to
/// `n` samples, or zero-padded up to `n` when it is shorter.
pub open spec fn framed(x: Seq<i64>, n: nat) -> Seq<i64> {
    Seq::new(n, |i: int| if i < x.len() { x[i] } else { 0i64 })
}

/// Power of spectrum bin `k` of frame `x` against the fixed-point basis
/// tables: the squared magnitude of the bin, each component scaled back
/// down by the table's fixed-point unit before squaring.
pub open spec fn bin_power(x: Seq<i64>, cos_tab: Seq<i64>, sin_tab: Seq<i64>, k: int) -> int
    recommends
        x.len() == cos_tab.len() == sin_tab.len(),
        x.len() > 0,
        0 <= k,
{
    let re = tdiv(basis_sum(x, cos_tab, k, x.len() as int), TABLE_SCALE as int);
    let im = tdiv(basis_sum(x, sin_tab, k, x.len() as int), TABLE_SCALE as int);
    re * re + im * im
}

/// The vector of the first `half` bin powers of frame `x`.
pub open spec fn spectrum_seq(x: Seq<i64>, cos_tab: Seq<i64>, sin_tab: Seq<i64>, half: nat) -> Seq<
    i64,
> {
    Seq::new(half, |k: int| bin_power(x, cos_tab, sin_tab, k) as i64)
}

/// Basis sums over bounded frames and tables stay within `n * bx * bt`.
pub proof fn lemma_basis_sum_bound(x: Seq<i64>, tab: Seq<i64>, k: int, n: int, bx: int, bt: int)
    requires
        bounded(x, bx),
        bounded(tab, bt),
        bx >= 0,
        bt >= 0,
        tab.len() > 0,
        0 <= k,
        0 <= n <= x.len(),
    ensures
        -(n * bx * bt) <= basis_sum(x, tab, k, n) <= n * bx * bt,
    decreases n,
{
    if n > 0 {
        lemma_basis_sum_bound(x, tab, k, n - 1, bx, bt);
        let xi = x[n - 1] as int;
        let ti = tab[(k * (n - 1)) % tab.len() as int] as int;
        assert(-(bx * bt) <= xi * ti <= bx * bt) by (nonlinear_arith)
            requires
                -bx <= xi <= bx,
                -bt <= ti <= bt,
                bx >= 0,
                bt >= 0,
        ;
        assert((n - 1) * bx * bt + bx * bt == n * bx * bt) by (nonlinear_arith);
    } else {
        assert(n * bx * bt == 0) by (nonlinear_arith)
            requires
                n == 0,
        ;
    }
}

/// Every basis sum over an all-zero frame is zero.
pub proof fn lemma_basis_sum_zero(x: Seq<i64>, tab: Seq<i64>, k: int, n: int)
    requires
        forall|i: int| 0 <= i < x.len() ==> x[i] == 0,
        tab.len() > 0,
        0 <= k,
        n <= x.len(),
    ensures
        basis_sum(x, tab, k, n) == 0,
    decreases n,
{
    if n > 0 {
        lemma_basis_sum_zero(x, tab, k, n - 1);
    }
}

/// Law: a zero input frame has an all-zero power spectrum.
pub proof fn lemma_zero_frame_zero_spectrum(
    x: Seq<i64>,
    cos_tab: Seq<i64>,
    sin_tab: Seq<i64>,
    half: nat,
)
    requires
        forall|i: int| 0 <= i < x.len() ==> x[i] == 0,
        cos_tab.len() > 0,
        sin_tab.len() > 0,
    ensures
        forall|k: int| 0 <= k < half ==> spectrum_seq(x, cos_tab, sin_tab, half)[k] == 0,
{
    assert forall|k: int| 0 <= k < half implies spectrum_seq(x, cos_tab, sin_tab, half)[k]
        == 0 by {
        lemma_basis_sum_zero(x, cos_tab, k, x.len() as int);
        lemma_basis_sum_zero(x, sin_tab, k, x.len() as int);
        assert(tdiv(0, TABLE_SCALE as int) == 0);
        assert(bin_power(x, cos_tab, sin_tab, k) == 0);
    }
}

/// Raw basis sum of the whole frame against one table at stride `k`.
fn basis_sum_exec(x: &Vec<i64>, tab: &Vec<i64>, k: usize) -> (r: i64)
    requires
        x@.len() == tab@.len(),
        1 <= tab@.len() <= MAX_FFT_LEN,
        k <= MAX_FFT_LEN,
        bounded(x@, SAMPLE_SCALE as int),
        bounded(tab@, TABLE_SCALE as int),
    ensures
        r as int == basis_sum(x@, tab@, k as int, x@.len() as int),
        -(x@.len() * SAMPLE_SCALE as int * TABLE_SCALE as int) <= r as int,
        r as int <= x@.len() * SAMPLE_SCALE as int * TABLE_SCALE as int,
{
    let n = x.len();
    let ghost bx: int = SAMPLE_SCALE as int;
    let ghost bt: int = TABLE_SCALE as int;
    let mut acc: i64 = 0;
    let mut j: usize = 0;
    while j < n
        invariant
            x@.len() == tab@.len(),
            1 <= tab@.len() <= MAX_FFT_LEN,
            k <= MAX_FFT_LEN,
            bounded(x@, bx),
            bounded(tab@, bt),
            bx == SAMPLE_SCALE as int,
            bt == TABLE_SCALE as int,
            n == x@.len(),
            j <= n,
            acc as int == basis_sum(x@, tab@, k as int, j as int),
        decreases n - j,
    {
        proof {
            lemma_basis_sum_bound(x@, tab@, k as int, j as int, bx, bt);
            assert(k * j <= MAX_FFT_LEN * MAX_FFT_LEN) by (nonlinear_arith)
                requires
                    0 <= k <= MAX_FFT_LEN,
                    0 <= j <= MAX_FFT_LEN,
            ;
            let xi = x@[j as int] as int;
            let ti = tab@[(k as int * j as int) % tab@.len() as int] as int;
            assert(-(bx * bt) <= xi * ti <= bx * bt) by (nonlinear_arith)
                requires
                    -bx <= xi <= bx,
                    -bt <= ti <= bt,
                    bx >= 0,
                    bt >= 0,
            ;
            assert(j as int * bx * bt <= MAX_FFT_LEN as int * bx * bt) by (nonlinear_arith)
                requires
                    0 <= j as int <= MAX_FFT_LEN as int,
                    bx >= 0,
                    bt >= 0,
            ;
        }
        let idx = (k * j) % n;
        let t = x[j] * tab[idx];
        acc = acc + t;
        j = j + 1;
    }
    proof {
        lemma_basis_sum_bound(x@, tab@, k as int, n as int, bx, bt);
    }
    acc
}

/// Power spectrum of a frame: the first `half` bins against the tables.
fn analyze_frame(x: &Vec<i64>, cos_tab: &Vec<i64>, sin_tab: &Vec<i64>, half: usize) -> (out: Vec<
    i64,
>)
    requires
        x@.len() == cos_tab@.len(),
        x@.len() == sin_tab@.len(),
        1 <= x@.len() <= MAX_FFT_LEN,
        half <= MAX_FFT_LEN,
        bounded(x@, SAMPLE_SCALE as int),
        bounded(cos_tab@, TABLE_SCALE as int),
        bounded(sin_tab@, TABLE_SCALE as int),
    ensures
        out@ == spectrum_seq(x@, cos_tab@, sin_tab@, half as nat),
{
    let mut out: Vec<i64> = Vec::new();
    let mut k: usize = 0;
    let ghost c: int = MAX_FFT_LEN as int * SAMPLE_SCALE as int;
    while k < half
        invariant
            x@.len() == cos_tab@.len(),
            x@.len() == sin_tab@.len(),
            1 <= x@.len() <= MAX_FFT_LEN,
            half <= MAX_FFT_LEN,
            bounded(x@, SAMPLE_SCALE as int),
            bounded(cos_tab@, TABLE_SCALE as int),
            bounded(sin_tab@, TABLE_SCALE as int),
            c == MAX_FFT_LEN as int * SAMPLE_SCALE as int,
            k <= half,
            out@.len() == k,
            forall|q: int| 0 <= q < k ==> out@[q] as int == bin_power(x@, cos_tab@, sin_tab@, q),
        decreases half - k,
    {
        let re_raw = basis_sum_exec(x, cos_tab, k);
        let im_raw = basis_sum_exec(x, sin_tab, k);
        proof {
            let n: int = x@.len() as int;
            let bx: int = SAMPLE_SCALE as int;
            let bt: int = TABLE_SCALE as int;
            assert(n * bx * bt <= c * bt) by (nonlinear_arith)
                requires
                    0 <= n <= MAX_FFT_LEN as int,
                    bx >= 0,
                    bt >= 0,
                    c == MAX_FFT_LEN as int * bx,
            ;
            lemma_tdiv_bound(re_raw as int, bt, c);
            lemma_tdiv_bound(im_raw as int, bt, c);
        }
        let re = div_scale(re_raw, TABLE_SCALE);
        let im = div_scale(im_raw, TABLE_SCALE);
        proof {
            assert(0 <= re as int * re as int <= 0x40000000000000) by (nonlinear_arith)
                requires
                    -c <= re as int <= c,
                    c == MAX_FFT_LEN as int * SAMPLE_SCALE as int,
            ;
            assert(0 <= im as int * im as int <= 0x40000000000000) by (nonlinear_arith)
                requires
                    -c <= im as int <= c,
                    c == MAX_FFT_LEN as int * SAMPLE_SCALE as int,
            ;
        }
        let p = re * re + im * im;
        out.push(p);
        k = k + 1;
    }
    proof {
        assert(out@ =~= spectrum_seq(x@, cos_tab@, sin_tab@, half as nat));
    }
    out
}

/// Per-buffer analyzer: keeps the most recent `fft_size` samples and
/// computes the first half of the power spectrum of that frame against
/// caller-supplied fixed-point basis tables.
///
/// The tables are data, not behaviour: the caller builds
/// `cos_tab[j] = round(TABLE_SCALE * cos(2*pi*j / fft_size))` and
/// `sin_tab[j] = round(TABLE_SCALE * sin(2*pi*j / fft_size))` once at
/// startup; the analyzer's contract is exact over whatever tables were
/// supplied.
pub struct SpectralAnalyzer {
    window: HistoryWindow,
    cos_tab: Vec<i64>,
    sin_tab: Vec<i64>,
    half: usize,
}

impl SpectralAnalyzer {
    /// The most recent samples, oldest first, at most `fft_size` of them.
    pub closed spec fn window_view(&self) -> Seq<i64> {
        self.window@
    }

    pub closed spec fn spec_fft_size(&self) -> nat {
        self.window.spec_capacity()
    }

    pub closed spec fn spec_half(&self) -> nat {
        self.half as nat
    }

    pub closed spec fn cos_view(&self) -> Seq<i64> {
        self.cos_tab@
    }

    pub closed spec fn sin_view(&self) -> Seq<i64> {
        self.sin_tab@
    }

    pub open spec fn wf(&self) -> bool {
        &&& self.window_view().len() <= self.spec_fft_size()
        &&& 2 <= self.spec_fft_size() <= MAX_FFT_LEN
        &&& 1 <= self.spec_half() <= self.spec_fft_size()
        &&& self.cos_view().len() == self.spec_fft_size()
        &&& self.sin_view().len() == self.spec_fft_size()
        &&& bounded(self.window_view(), SAMPLE_SCALE as int)
        &&& bounded(self.cos_view(), TABLE_SCALE as int)
        &&& bounded(self.sin_view(), TABLE_SCALE as int)
    }

    pub fn new(fft_size: usize, cos_tab: Vec<i64>, sin_tab: Vec<i64>) -> (a: Self)
        requires
            2 <= fft_size <= MAX_FFT_LEN,
            cos_tab@.len() == fft_size,
            sin_tab@.len() == fft_size,
            bounded(cos_tab@, TABLE_SCALE as int),
            bounded(sin_tab@, TABLE_SCALE as int),
        ensures
            a.wf(),
            a.window_view() == Seq::<i64>::empty(),
            a.spec_fft_size() == fft_size,
            a.spec_half() == fft_size / 2,
            a.cos_view() == cos_tab@,
            a.sin_view() == sin_tab@,
    {
        let half = fft_size / 2;
        SpectralAnalyzer { window: HistoryWindow::new(fft_size), cos_tab, sin_tab, half }
    }

    /// Appends the buffer to the rolling frame (evicting the oldest
    /// samples past `fft_size`) and returns the power spectrum of the
    /// updated frame, zero-padded up to `fft_size` while warming up.
    pub fn feed(&mut self, buf: &Vec<i64>) -> (out: Vec<i64>)
        requires
            old(self).wf(),
            bounded(buf@, SAMPLE_SCALE as int),
        ensures
            final(self).wf(),
            final(self).spec_fft_size() == old(self).spec_fft_size(),
            final(self).spec_half() == old(self).spec_half(),
            final(self).cos_view() == old(self).cos_view(),
            final(self).sin_view() == old(self).sin_view(),
            final(self).window_view() == fed(
                old(self).window_view(),
                buf@,
                old(self).spec_fft_size(),
            ),
            out@ == spectrum_seq(
                framed(final(self).window_view(), old(self).spec_fft_size()),
                old(self).cos_view(),
                old(self).sin_view(),
                old(self).spec_half(),
            ),
    {
        self.window.extend(buf);
        proof {
            lemma_fed_bounded(
                old(self).window_view(),
                buf@,
                old(self).spec_fft_size(),
                SAMPLE_SCALE as int,
            );
        }
        let n = self.cos_tab.len();
        let contents = self.window.contents();
        let mut frame: Vec<i64> = Vec::new();
        let mut i: usize = 0;
        while i < n
            invariant
                n == self.spec_fft_size(),
                i <= n,
                contents@ == self.window_view(),
                frame@ == framed(self.window_view(), i as nat),
            decreases n - i,
        {
            if i < contents.len() {
                frame.push(contents[i]);
            } else {
                frame.push(0);
            }
            proof {
                assert(framed(self.window_view(), (i + 1) as nat) =~= frame@);
            }
            i = i + 1;
        }
        proof {
            assert(bounded(frame@, SAMPLE_SCALE as int));
        }
        analyze_frame(&frame, &self.cos_tab, &self.sin_tab, self.half)
    }
}

} // verus!
