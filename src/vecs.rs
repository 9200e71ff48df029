//! Copying runs of entries between vectors.
use vstd::prelude::*;

verus! {

/// Concatenation of the sequences of `xs`, in order.
pub open spec fn concat_all<T>(xs: Seq<Seq<T>>) -> Seq<T>
    decreases xs.len(),
{
    if xs.len() == 0 {
        Seq::empty()
    } else {
        concat_all(xs.drop_last()) + xs.last()
    }
}

/// Appending one more sequence appends its entries.
pub proof fn lemma_concat_push<T>(xs: Seq<Seq<T>>, x: Seq<T>)
    ensures
        concat_all(xs.push(x)) == concat_all(xs) + x,
{
    assert(xs.push(x).drop_last() =~= xs);
}

/// Appends `src[lo..hi]` to `dst`.
pub fn extend_range<T: Copy>(dst: &mut Vec<T>, src: &Vec<T>, lo: usize, hi: usize)
    requires
        lo <= hi <= src@.len(),
    ensures
        final(dst)@ == old(dst)@ + src@.subrange(lo as int, hi as int),
{
    let ghost start = dst@;
    let mut i: usize = lo;
    while i < hi
        invariant
            lo <= i <= hi <= src@.len(),
            dst@ == start + src@.subrange(lo as int, i as int),
        decreases hi - i,
    {
        dst.push(src[i]);
        assert(src@.subrange(lo as int, i + 1) =~= src@.subrange(lo as int, i as int).push(src@[i as int]));
        i = i + 1;
    }
}

/// A copy of `src`.
pub fn copy_of<T: Copy>(src: &Vec<T>) -> (r: Vec<T>)
    ensures
        r@ == src@,
{
    let mut r: Vec<T> = Vec::new();
    extend_range(&mut r, src, 0, src.len());
    assert(src@.subrange(0, src@.len() as int) =~= src@);
    assert(r@ =~= src@);
    r
}

/// Whether two masks are equal.
pub fn same_mask(a: &Vec<bool>, b: &Vec<bool>) -> (r: bool)
    ensures
        r == (a@ == b@),
{
    if a.len() != b.len() {
        return false;
    }
    let mut i: usize = 0;
    while i < a.len()
        invariant
            a@.len() == b@.len(),
            i <= a@.len(),
            forall|j: int| 0 <= j < i ==> a@[j] == b@[j],
        decreases a@.len() - i,
    {
        if a[i] != b[i] {
            return false;
        }
        i = i + 1;
    }
    assert(a@ =~= b@);
    true
}

} // verus!
