use vstd::prelude::*;

verus! {

use crate::config::COEFF_SCALE;
use crate::handoff::RingHandoff;
use vstd::arithmetic::div_mod::lemma_div_by_multiple;
use vstd::arithmetic::div_mod::lemma_div_is_ordered;
use vstd::arithmetic::div_mod::lemma_div_pos_is_pos;

/// The local array after the first `j` drained values have been written
/// round-robin: value `i` goes to slot `i % len`, later values overwrite
/// earlier ones in the same slot.
pub open spec fn scatter_upto(base: Seq<i64>, vals: Seq<i64>, j: int) -> Seq<i64>
    recommends
        base.len() > 0,
        j <= vals.len(),
    decreases j,
{
    if j <= 0 {
        base
    } else {
        scatter_upto(base, vals, j - 1).update((j - 1) % base.len() as int, vals[j - 1])
    }
}

/// Drains every value currently in the handoff into the local array,
/// index wrapped modulo the array length, and reports how many values
/// were drained. An empty handoff leaves the array exactly as it was: no
/// value is invented, and absence of new data keeps the previous frame.
pub fn drain_into(h: &mut RingHandoff<i64>, local: &mut Vec<i64>) -> (drained: usize)
    requires
        old(h).wf(),
        old(local)@.len() > 0,
    ensures
        final(h).wf(),
        final(h).spec_capacity() == old(h).spec_capacity(),
        final(h)@.len() == 0,
        drained == old(h)@.len(),
        final(local)@.len() == old(local)@.len(),
        final(local)@ == scatter_upto(old(local)@, old(h)@, old(h)@.len() as int),
        old(h)@.len() == 0 ==> final(local)@ == old(local)@,
{
    let ghost vals = old(h)@;
    let total = h.len();
    let mut j: usize = 0;
    while h.len() > 0
        invariant
            h.wf(),
            h.spec_capacity() == old(h).spec_capacity(),
            j <= vals.len(),
            vals.len() == total,
            h@ == vals.skip(j as int),
            local@.len() == old(local)@.len() > 0,
            local@ == scatter_upto(old(local)@, vals, j as int),
        decreases h@.len(),
    {
        if let Some(v) = h.try_pop() {
            proof {
                assert(vals.skip(j as int)[0] == vals[j as int]);
                assert(vals.skip(j as int).drop_first() =~= vals.skip(j + 1));
            }
            let slot = j % local.len();
            local[slot] = v;
            j = j + 1;
        }
    }
    proof {
        assert(vals.skip(j as int).len() == 0);
    }
    total
}

/// Vertical pixel position of one polyline vertex: a coefficient in
/// `[-COEFF_SCALE, COEFF_SCALE]` maps affinely onto `[height, 0]`, the
/// unit at the top of the window and the negative unit at the bottom.
pub fn y_of_coeff(v: i64, height: u64) -> (y: u64)
    requires
        -COEFF_SCALE <= v <= COEFF_SCALE,
        height <= 0x100000000,
    ensures
        y as int == height as int - (height as int * (v as int + COEFF_SCALE as int)) / (2
            * COEFF_SCALE as int),
        y <= height,
{
    let up: u64 = (v + COEFF_SCALE) as u64;
    let den: u64 = (2 * COEFF_SCALE) as u64;
    proof {
        assert(height as int * up as int <= height as int * den as int) by (nonlinear_arith)
            requires
                0 <= up as int <= den as int,
                0 <= height as int,
        ;
    }
    let num: u64 = height * up;
    let q: u64 = num / den;
    proof {
        lemma_div_is_ordered(num as int, height as int * den as int, den as int);
        lemma_div_by_multiple(height as int, den as int);
    }
    height - q
}

/// Height of one spectrum bar: proportional to the bin's power, the
/// strongest bin spanning the full drawing height.
pub fn bar_height(p: i64, peak: i64, height: u64) -> (h: u64)
    requires
        0 <= p <= peak,
        1 <= peak,
        height <= 0x100000000,
    ensures
        h as int == (p as int * height as int) / peak as int,
        h <= height,
{
    proof {
        assert(0 <= p as int * height as int <= 0x800000000000000000000000) by (nonlinear_arith)
            requires
                0 <= p as int <= 0x8000000000000000,
                0 <= height as int <= 0x100000000,
        ;
    }
    let num: u128 = p as u128 * height as u128;
    let q: u128 = num / peak as u128;
    proof {
        assert(p as int * height as int <= peak as int * height as int) by (nonlinear_arith)
            requires
                0 <= p as int <= peak as int,
                0 <= height as int,
        ;
        assert(peak as int * height as int == height as int * peak as int) by (nonlinear_arith);
        lemma_div_is_ordered(num as int, height as int * peak as int, peak as int);
        lemma_div_by_multiple(height as int, peak as int);
        lemma_div_pos_is_pos(num as int, peak as int);
    }
    q as u64
}

/// What the window's event stream hands the UI side: a key press (the
/// designated stop key or any other), or a render event asking for a
/// fresh frame. Window creation and event polling themselves belong to
/// the platform; only the decisions taken on the events live here.
#[derive(PartialEq, Eq, Structural, Clone, Copy, Debug)]
pub enum UiEvent {
    StopKey,
    OtherKey,
    RenderTick,
}

/// The UI loop closes the window exactly on the designated stop key.
pub fn should_close(e: UiEvent) -> (r: bool)
    ensures
        r == (e is StopKey),
{
    match e {
        UiEvent::StopKey => true,
        UiEvent::OtherKey => false,
        UiEvent::RenderTick => false,
    }
}

/// The UI loop rebuilds and draws the frames exactly on a render event.
pub fn wants_render(e: UiEvent) -> (r: bool)
    ensures
        r == (e is RenderTick),
{
    match e {
        UiEvent::RenderTick => true,
        UiEvent::StopKey => false,
        UiEvent::OtherKey => false,
    }
}

/// The render-side state: the two fixed-size local arrays rebuilt from
/// whatever the handoffs currently hold, one render tick at a time. The
/// drawing itself is the window system's business; a tick only refreshes
/// these arrays, never blocking on an empty handoff.
pub struct RenderLoop {
    auto_buf: Vec<i64>,
    fft_buf: Vec<i64>,
}

impl RenderLoop {
    pub closed spec fn auto_view(&self) -> Seq<i64> {
        self.auto_buf@
    }

    pub closed spec fn fft_view(&self) -> Seq<i64> {
        self.fft_buf@
    }

    pub open spec fn wf(&self) -> bool {
        &&& self.auto_view().len() >= 1
        &&& self.fft_view().len() >= 1
    }

    /// Fresh render state: both local arrays hold a zero baseline.
    pub fn new(auto_len: usize, fft_len: usize) -> (r: Self)
        requires
            auto_len >= 1,
            fft_len >= 1,
        ensures
            r.wf(),
            r.auto_view() == Seq::new(auto_len as nat, |i: int| 0i64),
            r.fft_view() == Seq::new(fft_len as nat, |i: int| 0i64),
    {
        let auto_buf = vec![0i64; auto_len];
        let fft_buf = vec![0i64; fft_len];
        proof {
            assert(auto_buf@ =~= Seq::new(auto_len as nat, |i: int| 0i64));
            assert(fft_buf@ =~= Seq::new(fft_len as nat, |i: int| 0i64));
        }
        RenderLoop { auto_buf, fft_buf }
    }

    /// One render tick: drains both handoffs into the local arrays.
    pub fn tick(
        &mut self,
        coeff_in: &mut RingHandoff<i64>,
        spectrum_in: &mut RingHandoff<i64>,
    )
        requires
            old(self).wf(),
            old(coeff_in).wf(),
            old(spectrum_in).wf(),
        ensures
            final(self).wf(),
            final(coeff_in).wf(),
            final(spectrum_in).wf(),
            final(coeff_in).spec_capacity() == old(coeff_in).spec_capacity(),
            final(spectrum_in).spec_capacity() == old(spectrum_in).spec_capacity(),
            final(coeff_in)@.len() == 0,
            final(spectrum_in)@.len() == 0,
            final(self).auto_view() == scatter_upto(
                old(self).auto_view(),
                old(coeff_in)@,
                old(coeff_in)@.len() as int,
            ),
            final(self).fft_view() == scatter_upto(
                old(self).fft_view(),
                old(spectrum_in)@,
                old(spectrum_in)@.len() as int,
            ),
            old(coeff_in)@.len() == 0 ==> final(self).auto_view() == old(self).auto_view(),
            old(spectrum_in)@.len() == 0 ==> final(self).fft_view() == old(self).fft_view(),
    {
        drain_into(coeff_in, &mut self.auto_buf);
        drain_into(spectrum_in, &mut self.fft_buf);
    }

    /// The autocorrelation frame most recently assembled.
    pub fn auto_frame(&self) -> (v: &Vec<i64>)
        ensures
            v@ == self.auto_view(),
    {
        &self.auto_buf
    }

    /// The spectrum frame most recently assembled.
    pub fn fft_frame(&self) -> (v: &Vec<i64>)
        ensures
            v@ == self.fft_view(),
    {
        &self.fft_buf
    }
}

} // verus!
