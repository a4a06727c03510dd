use vstd::prelude::*;

verus! {

/// Why an input chunk's shape was rejected. The drivers run both checks
/// before touching any buffer, so a rejected chunk leaves a driver
/// unchanged.
#[derive(Clone, Copy, Debug, PartialEq, Eq, Structural)]
pub enum ShapeError {
    /// The chunk does not have one waveform per channel of the driver.
    WrongChannelCount,
    /// A non-empty waveform does not have the expected number of frames.
    WrongFrameCount,
}

/// The indices of the non-empty channels of a chunk whose per-channel
/// lengths are `lens`, in rising order. An empty channel is skipped: it
/// takes no part in resampling and produces an empty output.
pub open spec fn active_of(lens: Seq<usize>) -> Seq<usize>
    decreases lens.len(),
{
    if lens.len() == 0 {
        Seq::empty()
    } else if lens.last() == 0 {
        active_of(lens.drop_last())
    } else {
        active_of(lens.drop_last()).push((lens.len() - 1) as usize)
    }
}

/// Whether every channel of the chunk is either empty or exactly
/// `expected` frames long.
pub open spec fn shape_ok(lens: Seq<usize>, expected: usize) -> bool {
    forall|i: int| 0 <= i < lens.len() ==> lens[i] == 0 || lens[i] == expected
}

/// A channel is active exactly when it is non-empty. In particular an
/// empty channel is never resampled, and whether one channel is active
/// does not depend on any other channel. The active list stays inside the
/// chunk and rises strictly, so each channel appears at most once.
pub proof fn lemma_active_of_membership(lens: Seq<usize>)
    requires
        lens.len() <= usize::MAX,
    ensures
        forall|c: usize|
            #[trigger] active_of(lens).contains(c) <==> c < lens.len() && lens[c as int] != 0,
        forall|j: int| 0 <= j < active_of(lens).len() ==> #[trigger] active_of(lens)[j] < lens.len(),
        forall|j1: int, j2: int|
            0 <= j1 < j2 < active_of(lens).len() ==> active_of(lens)[j1] < active_of(lens)[j2],
    decreases lens.len(),
{
    if lens.len() == 0 {
        assert(forall|c: usize| !(#[trigger] active_of(lens).contains(c))) by {
            assert(active_of(lens).len() == 0);
        }
    } else {
        let front = lens.drop_last();
        lemma_active_of_membership(front);
        let af = active_of(front);
        let a = active_of(lens);
        assert(forall|c: usize| af.contains(c) ==> #[trigger] a.contains(c)) by {
            assert forall|c: usize| af.contains(c) implies #[trigger] a.contains(c) by {
                let j = choose|j: int| 0 <= j < af.len() && af[j] == c;
                assert(a[j] == c);
            }
        }
        if lens.last() != 0 {
            assert(a == af.push((lens.len() - 1) as usize));
            assert(a.contains((lens.len() - 1) as usize)) by {
                assert(a[a.len() - 1] == (lens.len() - 1) as usize);
            }
            assert forall|c: usize| #[trigger] a.contains(c) implies c < lens.len()
                && lens[c as int] != 0 by {
                let j = choose|j: int| 0 <= j < a.len() && a[j] == c;
                if j < a.len() - 1 {
                    assert(af[j] == c);
                    assert(af.contains(c));
                } else {
                    assert(c == (lens.len() - 1) as usize);
                    assert(lens[c as int] == lens.last());
                }
            }
            assert forall|c: usize| c < lens.len() && lens[c as int] != 0 implies #[trigger] a
                .contains(c) by {
                if c < lens.len() - 1 {
                    assert(front[c as int] == lens[c as int]);
                    assert(af.contains(c));
                } else {
                    assert(a[a.len() - 1] == c);
                }
            }
            assert forall|j1: int, j2: int| 0 <= j1 < j2 < a.len() implies a[j1] < a[j2] by {
                if j2 < a.len() - 1 {
                    assert(a[j1] == af[j1] && a[j2] == af[j2]);
                } else {
                    assert(a[j1] == af[j1]);
                    assert(af[j1] < front.len());
                }
            }
        } else {
            assert(a == af);
            assert forall|c: usize| #[trigger] a.contains(c) implies c < lens.len()
                && lens[c as int] != 0 by {
                assert(af.contains(c));
                assert(front[c as int] == lens[c as int]);
            }
            assert forall|c: usize| c < lens.len() && lens[c as int] != 0 implies #[trigger] a
                .contains(c) by {
                assert(c != lens.len() - 1);
                assert(front[c as int] == lens[c as int]);
                assert(af.contains(c));
            }
        }
    }
}

/// A waveform of `len` slots, all holding `fill`.
fn filled_wave<T: Copy>(len: usize, fill: T) -> (wave: Vec<T>)
    ensures
        wave@.len() == len,
        forall|i: int| 0 <= i < len ==> wave@[i] == fill,
{
    let mut wave: Vec<T> = Vec::new();
    let mut i: usize = 0;
    while i < len
        invariant
            i <= len,
            wave@.len() == i,
            forall|k: int| 0 <= k < i ==> wave@[k] == fill,
        decreases len - i,
    {
        wave.push(fill);
        i += 1;
    }
    wave
}

/// Allocate the per-channel output waveforms for one chunk: every active
/// channel gets `len` slots holding `fill`, and every other channel gets
/// an empty waveform — a skipped channel produces an empty output.
pub fn allocate_outputs<T: Copy>(channels: usize, active: &Vec<usize>, len: usize, fill: T) -> (out:
    Vec<Vec<T>>)
    requires
        forall|j: int| 0 <= j < active@.len() ==> #[trigger] active@[j] < channels,
    ensures
        out@.len() == channels,
        forall|j: int|
            0 <= j < active@.len() ==> (#[trigger] out@[active@[j] as int])@.len() == len,
        forall|j: int, i: int|
            0 <= j < active@.len() && 0 <= i < len ==> #[trigger] out@[active@[j] as int]@[i]
                == fill,
        forall|c: int|
            0 <= c < channels && !active@.contains(c as usize) ==> (#[trigger] out@[c])@.len()
                == 0,
{
    let mut out: Vec<Vec<T>> = Vec::new();
    let mut c: usize = 0;
    while c < channels
        invariant
            c <= channels,
            out@.len() == c,
            forall|i: int| 0 <= i < c ==> (#[trigger] out@[i])@.len() == 0,
        decreases channels - c,
    {
        out.push(Vec::new());
        c += 1;
    }
    let mut j: usize = 0;
    while j < active.len()
        invariant
            j <= active@.len(),
            out@.len() == channels,
            forall|jj: int| 0 <= jj < active@.len() ==> #[trigger] active@[jj] < channels,
            forall|jj: int|
                0 <= jj < j ==> (#[trigger] out@[active@[jj] as int])@.len() == len,
            forall|jj: int, i: int|
                0 <= jj < j && 0 <= i < len ==> #[trigger] out@[active@[jj] as int]@[i] == fill,
            forall|c: int|
                0 <= c < channels && !active@.take(j as int).contains(c as usize) ==> (
                #[trigger] out@[c])@.len() == 0,
        decreases active@.len() - j,
    {
        let chan = active[j];
        let wave = filled_wave(len, fill);
        out[chan] = wave;
        proof {
            assert forall|c: int|
                0 <= c < channels && !active@.take(j + 1 as int).contains(
                    c as usize,
                ) implies (#[trigger] out@[c])@.len() == 0 by {
                assert(!active@.take(j as int).contains(c as usize)) by {
                    if active@.take(j as int).contains(c as usize) {
                        let w = choose|w: int|
                            0 <= w < j && active@.take(j as int)[w] == c as usize;
                        assert(active@.take(j + 1 as int)[w] == c as usize);
                    }
                }
                assert(c != chan as int) by {
                    if c == chan as int {
                        assert(active@.take(j + 1 as int)[j as int] == c as usize);
                    }
                }
            }
        }
        j += 1;
    }
    proof {
        assert(active@.take(active@.len() as int) =~= active@);
    }
    out
}

/// A waveform cut to at most `n` frames: its first `n` frames when it is
/// longer than that, all of it otherwise.
pub open spec fn truncated<T>(w: Seq<T>, n: int) -> Seq<T> {
    if 0 <= n && n <= w.len() {
        w.subrange(0, n)
    } else {
        w
    }
}

/// Cut every active channel's output back to the `n` frames actually
/// produced, leaving every other channel untouched. The fixed-input
/// driver emits a variable number of frames per chunk and trims its
/// allocation with this once the frame count is known.
pub fn truncate_outputs<T>(out: &mut Vec<Vec<T>>, active: &Vec<usize>, n: usize)
    requires
        forall|j: int| 0 <= j < active@.len() ==> #[trigger] active@[j] < old(out)@.len(),
    ensures
        final(out)@.len() == old(out)@.len(),
        forall|j: int|
            0 <= j < active@.len() ==> (#[trigger] final(out)@[active@[j] as int])@ == truncated(
                old(out)@[active@[j] as int]@, n as int),
        forall|c: int|
            0 <= c < old(out)@.len() && !active@.contains(c as usize) ==> (#[trigger] final(out)@[c])
                == old(out)@[c],
{
    let mut j: usize = 0;
    while j < active.len()
        invariant
            j <= active@.len(),
            out@.len() == old(out)@.len(),
            forall|jj: int| 0 <= jj < active@.len() ==> #[trigger] active@[jj] < out@.len(),
            forall|jj: int|
                0 <= jj < j ==> (#[trigger] out@[active@[jj] as int])@ == truncated(
                    old(out)@[active@[jj] as int]@,
                    n as int,
                ),
            forall|c: int|
                0 <= c < out@.len() && !active@.take(j as int).contains(c as usize) ==> (
                #[trigger] out@[c]) == old(out)@[c],
        decreases active@.len() - j,
    {
        let c = active[j];
        let ghost before = out@[c as int]@;
        let w = &mut out[c];
        w.truncate(n);
        proof {
            assert(out@[c as int]@ == truncated(old(out)@[c as int]@, n as int)) by {
                if active@.take(j as int).contains(c) {
                    // the channel was already cut on an earlier pass:
                    // cutting again changes nothing
                    assert(before == truncated(old(out)@[c as int]@, n as int));
                    if n <= before.len() {
                        assert(before.subrange(0, n as int) =~= before);
                    }
                } else {
                    assert(before == old(out)@[c as int]@);
                }
            }
            assert forall|cc: int|
                0 <= cc < out@.len() && !active@.take(j + 1 as int).contains(
                    cc as usize,
                ) implies (#[trigger] out@[cc]) == old(out)@[cc] by {
                assert(!active@.take(j as int).contains(cc as usize)) by {
                    if active@.take(j as int).contains(cc as usize) {
                        let w = choose|w: int|
                            0 <= w < j && active@.take(j as int)[w] == cc as usize;
                        assert(active@.take(j + 1 as int)[w] == cc as usize);
                    }
                }
                assert(cc != c as int) by {
                    if cc == c as int {
                        assert(active@.take(j + 1 as int)[j as int] == cc as usize);
                    }
                }
            }
        }
        j += 1;
    }
    proof {
        assert(active@.take(active@.len() as int) =~= active@);
    }
}

/// Check the shape of an input chunk against the driver's channel count
/// and expected frame count, and list the channels that take part.
///
/// `lens` holds the length of each channel's waveform. The channel count
/// is checked first; then every non-empty channel must be exactly
/// `expected` frames long. On success the result lists the non-empty
/// channels in rising order.
pub fn active_channels(channels: usize, expected: usize, lens: &Vec<usize>) -> (r: Result<
    Vec<usize>,
    ShapeError,
>)
    ensures
        lens@.len() != channels ==> r == Result::<Vec<usize>, ShapeError>::Err(
            ShapeError::WrongChannelCount,
        ),
        lens@.len() == channels && !shape_ok(lens@, expected) ==> r == Result::<
            Vec<usize>,
            ShapeError,
        >::Err(ShapeError::WrongFrameCount),
        lens@.len() == channels && shape_ok(lens@, expected) ==> r is Ok && r->Ok_0@
            == active_of(lens@),
{
    if lens.len() != channels {
        return Err(ShapeError::WrongChannelCount);
    }
    let mut active: Vec<usize> = Vec::new();
    let mut c: usize = 0;
    while c < lens.len()
        invariant
            lens@.len() == channels,
            c <= lens@.len(),
            forall|i: int| 0 <= i < c ==> lens@[i] == 0 || lens@[i] == expected,
            active@ == active_of(lens@.take(c as int)),
        decreases lens@.len() - c,
    {
        let l = lens[c];
        proof {
            assert(lens@.take(c + 1 as int).drop_last() =~= lens@.take(c as int));
            assert(lens@.take(c + 1 as int).last() == lens@[c as int]);
        }
        if l != 0 {
            if l != expected {
                return Err(ShapeError::WrongFrameCount);
            }
            active.push(c);
        }
        c += 1;
    }
    proof {
        assert(lens@.take(lens@.len() as int) =~= lens@);
    }
    Ok(active)
}

} // verus!
