use vstd::prelude::*;

verus! {

/// The rolling history after `k` steps of the in-place shift that copies
/// `s[i + offset]` into `s[i]` for `i` rising from `0`. When
/// `offset >= k` every step reads a sample the shift has not touched yet,
/// so the first `k` slots end up holding `s[offset .. offset + k]`.
pub open spec fn shifted_prefix<T>(s: Seq<T>, offset: int, k: int) -> Seq<T>
    decreases k,
{
    if k <= 0 {
        s
    } else {
        let t = shifted_prefix(s, offset, k - 1);
        t.update(k - 1, t[k - 1 + offset])
    }
}

/// Slide the tail of the rolling history to its front: copy the `count`
/// samples that start at `offset` onto the first `count` slots, one by one
/// from the lowest index up, leaving everything from `count` on unchanged.
///
/// The drivers call this once per chunk with `offset` the number of input
/// samples consumed and `count` twice the kernel length, so that the next
/// chunk keeps enough past context for every convolution.
pub fn shift_to_front<T: Copy>(wave: &mut Vec<T>, offset: usize, count: usize)
    requires
        count + offset <= old(wave).len(),
    ensures
        final(wave)@.len() == old(wave)@.len(),
        final(wave)@ == shifted_prefix(old(wave)@, offset as int, count as int),
        forall|i: int| count <= i < final(wave)@.len() ==> final(wave)@[i] == old(wave)@[i],
        offset >= count ==> forall|i: int|
            0 <= i < count ==> final(wave)@[i] == old(wave)@[i + offset],
{
    let mut i: usize = 0;
    while i < count
        invariant
            i <= count,
            count + offset <= usize::MAX,
            count + offset <= wave@.len(),
            wave@.len() == old(wave)@.len(),
            wave@ == shifted_prefix(old(wave)@, offset as int, i as int),
            forall|j: int| i <= j < wave@.len() ==> wave@[j] == old(wave)@[j],
            offset >= count ==> forall|j: int|
                0 <= j < i ==> wave@[j] == old(wave)@[j + offset],
        decreases count - i,
    {
        let v = wave[i + offset];
        wave[i] = v;
        i += 1;
    }
}

/// Write all of `src` into `wave` starting at slot `at`, leaving every
/// other slot unchanged. The drivers use this to append a fresh input
/// chunk behind the `2·sinc_len` samples of kept history.
pub fn write_slice_at<T: Copy>(wave: &mut Vec<T>, src: &Vec<T>, at: usize)
    requires
        at + src.len() <= old(wave).len(),
    ensures
        final(wave)@.len() == old(wave)@.len(),
        forall|i: int| 0 <= i < src@.len() ==> final(wave)@[at + i] == src@[i],
        forall|i: int| 0 <= i < at ==> final(wave)@[i] == old(wave)@[i],
        forall|i: int|
            at + src@.len() <= i < final(wave)@.len() ==> final(wave)@[i] == old(wave)@[i],
{
    let mut i: usize = 0;
    while i < src.len()
        invariant
            i <= src@.len(),
            at + src@.len() <= usize::MAX,
            at + src@.len() <= wave@.len(),
            wave@.len() == old(wave)@.len(),
            forall|j: int| 0 <= j < i ==> wave@[at + j] == src@[j],
            forall|j: int| 0 <= j < at ==> wave@[j] == old(wave)@[j],
            forall|j: int| at + i <= j < wave@.len() ==> wave@[j] == old(wave)@[j],
        decreases src@.len() - i,
    {
        let v = src[i];
        wave[at + i] = v;
        i += 1;
    }
}

} // verus!
