//! Validity masks over the raw measurement channels.
use vstd::prelude::*;

verus! {

/// Number of `true` entries of `m`.
pub open spec fn count_true(m: Seq<bool>) -> nat
    decreases m.len(),
{
    if m.len() == 0 {
        0
    } else {
        count_true(m.drop_last()) + if m.last() {
            1nat
        } else {
            0nat
        }
    }
}

/// Position, among the selected entries, of raw channel `i`: the number of
/// `true` entries of `m` before `i`.
pub open spec fn rank(m: Seq<bool>, i: int) -> nat {
    count_true(m.take(i))
}

/// The entries of `d` at the positions where `m` is `true`, in order.
pub open spec fn masked<T>(d: Seq<T>, m: Seq<bool>) -> Seq<T>
    decreases m.len(),
{
    if m.len() == 0 {
        Seq::empty()
    } else {
        let rest = masked(d, m.drop_last());
        if m.last() {
            rest.push(d[m.len() - 1])
        } else {
            rest
        }
    }
}

proof fn lemma_take_step(m: Seq<bool>, i: int)
    requires
        0 <= i < m.len(),
    ensures
        m.take(i + 1).drop_last() == m.take(i),
        m.take(i + 1).last() == m[i],
        m.take(i + 1).len() == i + 1,
{
    assert(m.take(i + 1).drop_last() =~= m.take(i));
}

/// The selected entries are as many as the `true` entries of the mask.
pub proof fn lemma_masked_len<T>(d: Seq<T>, m: Seq<bool>)
    ensures
        masked(d, m).len() == count_true(m),
    decreases m.len(),
{
    if m.len() > 0 {
        lemma_masked_len(d, m.drop_last());
    }
}

/// Counting over a prefix never gives more than counting over a longer one.
pub proof fn lemma_count_prefix(m: Seq<bool>, i: int, j: int)
    requires
        0 <= i <= j <= m.len(),
    ensures
        count_true(m.take(i)) <= count_true(m.take(j)),
    decreases j - i,
{
    if i < j {
        lemma_take_step(m, j - 1);
        lemma_count_prefix(m, i, j - 1);
    }
}

/// The full prefix of a mask is the mask itself.
pub proof fn lemma_take_full(m: Seq<bool>)
    ensures
        m.take(m.len() as int) == m,
{
    assert(m.take(m.len() as int) =~= m);
}

/// Raw channel `i`, when selected, lands at position `rank(m, i)`.
pub proof fn lemma_masked_index<T>(d: Seq<T>, m: Seq<bool>, i: int)
    requires
        0 <= i < m.len(),
        m[i],
    ensures
        rank(m, i) < count_true(m),
        masked(d, m)[rank(m, i) as int] == d[i],
    decreases m.len(),
{
    lemma_masked_len(d, m);
    if i == m.len() - 1 {
        assert(m.take(i) =~= m.drop_last());
        lemma_masked_len(d, m.drop_last());
    } else {
        let p = m.drop_last();
        assert(p[i] == m[i]);
        assert(p.take(i) =~= m.take(i));
        lemma_masked_index(d, p, i);
    }
}

/// Entries at positions where the mask is `false` do not reach the selection.
pub proof fn lemma_masking_invariance<T>(d1: Seq<T>, d2: Seq<T>, m: Seq<bool>)
    requires
        forall|i: int| 0 <= i < m.len() && m[i] ==> d1[i] == d2[i],
    ensures
        masked(d1, m) == masked(d2, m),
    decreases m.len(),
{
    if m.len() > 0 {
        let p = m.drop_last();
        assert forall|i: int| 0 <= i < p.len() && p[i] implies d1[i] == d2[i] by {
            assert(m[i] == p[i]);
        }
        lemma_masking_invariance(d1, d2, p);
    }
}

/// Number of `true` entries of a mask.
pub fn count_selected(m: &Vec<bool>) -> (n: usize)
    ensures
        n == count_true(m@),
{
    let mut n: usize = 0;
    let mut i: usize = 0;
    while i < m.len()
        invariant
            i <= m@.len(),
            n == count_true(m@.take(i as int)),
            n <= i,
        decreases m@.len() - i,
    {
        proof {
            lemma_take_step(m@, i as int);
        }
        if m[i] {
            n = n + 1;
        }
        i = i + 1;
    }
    proof {
        lemma_take_full(m@);
    }
    n
}

/// The entries of `d` at the positions where `m` is `true`, in order.
pub fn gather<T: Copy>(d: &Vec<T>, m: &Vec<bool>) -> (r: Vec<T>)
    requires
        m@.len() <= d@.len(),
    ensures
        r@ == masked(d@, m@),
{
    let mut r: Vec<T> = Vec::new();
    let mut i: usize = 0;
    while i < m.len()
        invariant
            i <= m@.len(),
            m@.len() <= d@.len(),
            r@ == masked(d@, m@.take(i as int)),
        decreases m@.len() - i,
    {
        proof {
            lemma_take_step(m@, i as int);
        }
        if m[i] {
            r.push(d[i]);
        }
        i = i + 1;
    }
    proof {
        lemma_take_full(m@);
    }
    r
}

/// `after` is `before` where `m` is `false` (or past its end), and, at each
/// selected channel `i`, a result of `combine` on `before[i]` and the value of
/// `y` at the channel's rank.
pub open spec fn scatter_added<T, F: Fn(T, T) -> T>(
    combine: F,
    before: Seq<T>,
    m: Seq<bool>,
    y: Seq<T>,
    after: Seq<T>,
) -> bool {
    &&& after.len() == before.len()
    &&& forall|i: int|
        0 <= i < before.len() ==> if i < m.len() && m[i] {
            combine.ensures((before[i], y[rank(m, i) as int]), #[trigger] after[i])
        } else {
            after[i] == before[i]
        }
}

/// Adds the values of `y`, in order, into the entries of `buf` at the
/// positions where `m` is `true`.
pub fn scatter_add<T: Copy, F: Fn(T, T) -> T>(buf: &mut Vec<T>, m: &Vec<bool>, y: &Vec<T>, combine: &F)
    requires
        m@.len() <= old(buf)@.len(),
        y@.len() == count_true(m@),
        forall|a: T, b: T| combine.requires((a, b)),
    ensures
        scatter_added(*combine, old(buf)@, m@, y@, final(buf)@),
{
    let ghost before = buf@;
    let n_y = y.len();
    let mut k: usize = 0;
    let mut i: usize = 0;
    while i < m.len()
        invariant
            i <= m@.len(),
            m@.len() <= before.len(),
            buf@.len() == before.len(),
            y@.len() == count_true(m@),
            n_y == y@.len(),
            k == rank(m@, i as int),
            forall|a: T, b: T| combine.requires((a, b)),
            forall|j: int|
                0 <= j < i ==> if m@[j] {
                    combine.ensures((before[j], y@[rank(m@, j) as int]), #[trigger] buf@[j])
                } else {
                    buf@[j] == before[j]
                },
            forall|j: int| i <= j < before.len() ==> #[trigger] buf@[j] == before[j],
        decreases m@.len() - i,
    {
        proof {
            lemma_take_step(m@, i as int);
            lemma_count_prefix(m@, i as int + 1, m@.len() as int);
            lemma_take_full(m@);
            assert(count_true(m@.take(i as int + 1)) == count_true(m@.take(i as int)) + if m@[i as int] {
                1nat
            } else {
                0nat
            });
        }
        if m[i] {
            assert(k < n_y);
            let v = combine(buf[i], y[k]);
            buf.set(i, v);
            k = k + 1;
        }
        i = i + 1;
    }
}

} // verus!
