use vstd::arithmetic::div_mod::{lemma_fundamental_div_mod, lemma_mod_bound};
use vstd::prelude::*;

verus! {

/// One coordinate into the oversampled sinc bank.
///
/// The bank holds `factor` kernels, one per fractional sub-position between
/// two input samples. A tap therefore names an input sample (`index`) and a
/// kernel of the bank (`subindex`); the driver convolves that kernel with
/// the history slice that starts at `index`.
#[derive(Clone, Copy, Debug, PartialEq, Eq, Structural)]
pub struct Tap {
    /// Index of the input sample the tap is anchored on, relative to the
    /// start of the current chunk. Negative during the initial warm-up.
    pub index: isize,
    /// Which of the `factor` oversampled sub-positions the tap sits on.
    pub subindex: usize,
}

impl Tap {
    /// The tap's position on the oversampled grid: with `factor` kernels
    /// per input sample, tap `(n, k)` sits at grid point `n·factor + k`.
    pub open spec fn grid(self, factor: int) -> int {
        self.index * factor + self.subindex
    }

    /// The subindex names one of the bank's `factor` kernels.
    pub open spec fn wf(self, factor: int) -> bool {
        self.subindex < factor
    }
}

/// On a grid of `factor` sub-positions per input sample, a well-formed tap
/// is determined by its grid position: no two distinct taps share one.
pub proof fn lemma_tap_grid_unique(a: Tap, b: Tap, factor: int)
    requires
        1 <= factor,
        a.wf(factor),
        b.wf(factor),
        a.grid(factor) == b.grid(factor),
    ensures
        a == b,
{
    assert(a.index == b.index && a.subindex == b.subindex) by (nonlinear_arith)
        requires
            1 <= factor,
            0 <= a.subindex < factor,
            0 <= b.subindex < factor,
            a.index * factor + a.subindex == b.index * factor + b.subindex,
    ;
}

/// A well-formed tap whose grid position lies between two whole input
/// samples has its `index` between those samples. With the cursor bounds of
/// the driver loop this is what keeps every convolution base
/// `index + 2·sinc_len` inside `[0, history_len − sinc_len]`.
pub proof fn lemma_tap_index_bounded(t: Tap, factor: int, lo: int, hi: int)
    requires
        1 <= factor,
        t.wf(factor),
        lo * factor <= t.grid(factor),
        t.grid(factor) < (hi + 1) * factor,
    ensures
        lo <= t.index <= hi,
{
    assert(lo <= t.index <= hi) by (nonlinear_arith)
        requires
            1 <= factor,
            0 <= t.subindex < factor,
            lo * factor <= t.index * factor + t.subindex,
            t.index * factor + t.subindex < (hi + 1) * factor,
    ;
}

/// The indexing invariant of the driver loops. A driver reads the history
/// at base `t.index + 2·sinc_len` and takes `sinc_len` samples from
/// there; as long as the cursor keeps the tap's grid position between
/// `−2·sinc_len` and `chunk − sinc_len + 1` input samples, that whole
/// read lies inside a history buffer of `chunk + 2·sinc_len` samples.
pub proof fn lemma_tap_base_in_history(
    t: Tap,
    factor: int,
    sinc_len: int,
    chunk: int,
    hist_len: int,
)
    requires
        1 <= factor,
        0 <= sinc_len,
        t.wf(factor),
        hist_len == chunk + 2 * sinc_len,
        -(2 * sinc_len) * factor <= t.grid(factor),
        t.grid(factor) < (chunk - sinc_len + 1) * factor,
    ensures
        0 <= t.index + 2 * sinc_len,
        t.index + 2 * sinc_len <= hist_len - sinc_len,
{
    lemma_tap_index_bounded(t, factor, -(2 * sinc_len), chunk - sinc_len);
}

/// The unique well-formed tap that sits on grid point `p`: the cursor
/// position `idx·factor`, floored onto the grid, mapped back to an input
/// sample and a kernel of the bank.
pub fn tap_of_grid(p: isize, factor: usize) -> (t: Tap)
    requires
        1 <= factor,
    ensures
        t.wf(factor as int),
        t.grid(factor as int) == p,
        p >= 0 ==> 0 <= t.index <= p,
        p < 0 ==> p <= t.index < 0,
{
    if p >= 0 {
        let pu = p as usize;
        let q = pu / factor;
        let r = pu % factor;
        proof {
            lemma_fundamental_div_mod(pu as int, factor as int);
            lemma_mod_bound(pu as int, factor as int);
            assert((q as int) * (factor as int) <= pu as int && (q as int) * (factor as int) + (
            r as int) == pu as int) by (nonlinear_arith)
                requires
                    1 <= factor as int,
                    0 <= q as int,
                    pu as int == (factor as int) * (q as int) + r as int,
                    0 <= r as int,
            ;
        }
        Tap { index: q as isize, subindex: r }
    } else {
        // write p as −m − 1 with m >= 0; this avoids overflow even at the
        // far end of isize and keeps the division on unsigned values
        let m = (-(p + 1)) as usize;
        let q = m / factor;
        let r = m % factor;
        proof {
            lemma_fundamental_div_mod(m as int, factor as int);
            lemma_mod_bound(m as int, factor as int);
            assert((q as int) * (factor as int) <= m as int && (-(q as int) - 1) * (
            factor as int) + (factor as int - 1 - r as int) == -(m as int) - 1) by (
            nonlinear_arith)
                requires
                    1 <= factor as int,
                    0 <= q as int,
                    m as int == (factor as int) * (q as int) + r as int,
                    0 <= r as int,
            ;
        }
        Tap { index: -(q as isize) - 1, subindex: factor - 1 - r }
    }
}

/// The tap for a cursor rounded to the nearest sub-position. Rounding may
/// land on sub-position `factor` itself; that is the same grid point as
/// sub-position `0` of the next input sample, and the carry keeps the
/// subindex inside the bank.
pub fn nearest_tap(index: isize, rounded: usize, factor: usize) -> (t: Tap)
    requires
        1 <= factor,
        rounded <= factor,
        rounded == factor ==> index < isize::MAX,
    ensures
        t.wf(factor as int),
        t.grid(factor as int) == index * factor + rounded,
{
    if rounded == factor {
        let t = Tap { index: index + 1, subindex: 0 };
        proof {
            assert((index + 1) * factor == index * factor + factor) by (nonlinear_arith);
        }
        t
    } else {
        Tap { index, subindex: rounded }
    }
}

/// The tap one sub-position after `t`, carrying into the next input sample
/// when `t` sits on the bank's last kernel.
pub fn next_tap(t: Tap, factor: usize) -> (u: Tap)
    requires
        1 <= factor,
        t.wf(factor as int),
        t.subindex + 1 == factor ==> t.index < isize::MAX,
    ensures
        u.wf(factor as int),
        u.grid(factor as int) == t.grid(factor as int) + 1,
        t.index <= u.index <= t.index + 1,
{
    if t.subindex + 1 == factor {
        let u = Tap { index: t.index + 1, subindex: 0 };
        proof {
            assert((t.index + 1) * factor == t.index * factor + factor) by (nonlinear_arith);
        }
        u
    } else {
        Tap { index: t.index, subindex: t.subindex + 1 }
    }
}

/// The tap one sub-position before `t`, borrowing from the previous input
/// sample when `t` sits on the bank's first kernel.
pub fn prev_tap(t: Tap, factor: usize) -> (u: Tap)
    requires
        1 <= factor,
        t.wf(factor as int),
        t.subindex == 0 ==> t.index > isize::MIN,
    ensures
        u.wf(factor as int),
        u.grid(factor as int) == t.grid(factor as int) - 1,
        t.index - 1 <= u.index <= t.index,
{
    if t.subindex == 0 {
        let u = Tap { index: t.index - 1, subindex: factor - 1 };
        proof {
            assert((t.index - 1) * factor == t.index * factor - factor) by (nonlinear_arith);
        }
        u
    } else {
        Tap { index: t.index, subindex: t.subindex - 1 }
    }
}

/// The two taps bracketing a fractional cursor position for linear
/// interpolation: the tap at grid point `p` (the cursor floored onto the
/// grid) and the next one, at `p + 1`.
pub fn nearest_taps_2(p: isize, factor: usize) -> (ts: Vec<Tap>)
    requires
        1 <= factor,
        p < isize::MAX,
    ensures
        ts@.len() == 2,
        forall|j: int| 0 <= j < 2 ==> (#[trigger] ts@[j]).wf(factor as int),
        forall|j: int| 0 <= j < 2 ==> (#[trigger] ts@[j]).grid(factor as int) == p + j,
{
    let t0 = tap_of_grid(p, factor);
    let t1 = next_tap(t0, factor);
    let ts = vec![t0, t1];
    ts
}

/// The four successive taps surrounding a fractional cursor position for
/// cubic interpolation: with `p` the cursor's grid point (the cursor
/// floored onto the grid), the taps at `p − 1`, `p`, `p + 1` and `p + 2`,
/// through which the cubic is fitted at abstract x = −1, 0, 1, 2.
pub fn nearest_taps_4(p: isize, factor: usize) -> (ts: Vec<Tap>)
    requires
        1 <= factor,
        isize::MIN < p,
        p + 2 <= isize::MAX,
    ensures
        ts@.len() == 4,
        forall|j: int| 0 <= j < 4 ==> (#[trigger] ts@[j]).wf(factor as int),
        forall|j: int| 0 <= j < 4 ==> (#[trigger] ts@[j]).grid(factor as int) == p + j - 1,
{
    let t0 = tap_of_grid(p, factor);
    let before = prev_tap(t0, factor);
    let t1 = next_tap(t0, factor);
    let t2 = next_tap(t1, factor);
    let ts = vec![before, t0, t1, t2];
    ts
}

} // verus!
