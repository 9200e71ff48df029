//! Joint reconstruction over two command spaces, and the split of its
//! estimates back into the two spaces.
use vstd::prelude::*;

use crate::calib::{Calib, CalibView, Mode, Quantity};
use crate::channels::SplitEstimate;
use crate::error::{MergeError, ReconError};
use crate::mask::masked;
use crate::reconstructor::{Reconstructor, ReconstructorView};
use crate::vecs::{concat_all, copy_of, extend_range, lemma_concat_push, same_mask};

verus! {

/// Quantity that the columns of a calibration tagged `m` stand for; a joint
/// tag stands for no single quantity.
pub open spec fn quantity_of(m: Mode) -> Quantity {
    match m {
        Mode::Single(q) => q,
        Mode::Joint(_, _) => Quantity::Unspecified,
    }
}

/// The joint calibration of a segment: the columns of `a` followed by those
/// of `b`, over `a`'s mask.
pub open spec fn joint_calib<T>(a: CalibView<T>, b: CalibView<T>) -> CalibView<T> {
    CalibView {
        poke: a.poke + b.poke,
        n_rows: a.n_rows,
        n_cols: a.n_cols + b.n_cols,
        mask: a.mask,
        mode: Mode::Joint(quantity_of(a.mode), quantity_of(b.mode)),
    }
}

/// The two calibrations of a segment can be merged.
pub open spec fn compatible<T>(a: CalibView<T>, b: CalibView<T>) -> bool {
    a.n_rows == b.n_rows && a.mask == b.mask
}

/// The first `splits[s].0` entries of each segment's estimate, in segment order.
pub open spec fn first_parts<T>(ys: Seq<Seq<T>>, splits: Seq<(usize, usize)>) -> Seq<T> {
    concat_all(Seq::new(ys.len(), |s: int| ys[s].take(splits[s].0 as int)))
}

/// The entries after the first `splits[s].0` of each segment's estimate, in
/// segment order.
pub open spec fn second_parts<T>(ys: Seq<Seq<T>>, splits: Seq<(usize, usize)>) -> Seq<T> {
    concat_all(Seq::new(ys.len(), |s: int| ys[s].skip(splits[s].0 as int)))
}

/// Mathematical content of a [`MergeReconstructor`].
pub struct MergeView<T> {
    pub recon: ReconstructorView<T>,
    /// Per segment, the columns of the first and of the second space.
    pub splits: Seq<(usize, usize)>,
    /// The last measurement vector read; empty before the first read.
    pub data: Seq<T>,
    pub estimate_a: Seq<T>,
    pub estimate_b: Seq<T>,
}

impl<T> MergeView<T> {
    pub open spec fn wf(self) -> bool {
        &&& self.recon.wf()
        &&& self.splits.len() == self.recon.calibs.len()
        &&& forall|s: int|
            0 <= s < self.splits.len() ==> (#[trigger] self.splits[s]).0 + self.splits[s].1
                == self.recon.calibs[s].n_cols
        &&& self.data.len() == 0 || self.data.len() == self.recon.n_channels
    }
}

/// A reconstructor whose columns join two command spaces, with the split of
/// each segment's columns between them and the latest split estimates.
pub struct MergeReconstructor<T> {
    recon: Reconstructor<T>,
    splits: Vec<(usize, usize)>,
    data: Vec<T>,
    estimate_a: Vec<T>,
    estimate_b: Vec<T>,
}

impl<T> View for MergeReconstructor<T> {
    type V = MergeView<T>;

    closed spec fn view(&self) -> MergeView<T> {
        MergeView {
            recon: self.recon@,
            splits: self.splits@,
            data: self.data@,
            estimate_a: self.estimate_a@,
            estimate_b: self.estimate_b@,
        }
    }
}

fn quantity(m: Mode) -> (r: Quantity)
    ensures
        r == quantity_of(m),
{
    match m {
        Mode::Single(q) => q,
        Mode::Joint(_, _) => Quantity::Unspecified,
    }
}

/// Joins the calibrations of segment `segment`: `b`'s columns after `a`'s.
fn merge_calib<T: Copy>(a: &Calib<T>, b: &Calib<T>, segment: usize) -> (r: Result<
    Calib<T>,
    MergeError,
>)
    requires
        a.wf(),
        b.wf(),
        a@.n_cols + b@.n_cols <= usize::MAX,
    ensures
        a@.n_rows <= usize::MAX,
        b@.n_rows <= usize::MAX,
        r.is_ok() <==> compatible(a@, b@),
        r matches Ok(c) ==> c.wf() && c@ == joint_calib(a@, b@),
        a@.n_rows != b@.n_rows ==> r == Err::<Calib<T>, MergeError>(
            MergeError::DimensionMismatch {
                segment,
                rows_a: a@.n_rows as usize,
                rows_b: b@.n_rows as usize,
            },
        ),
        a@.n_rows == b@.n_rows && a@.mask != b@.mask ==> r == Err::<Calib<T>, MergeError>(
            MergeError::MaskMismatch { segment },
        ),
{
    let rows_a = a.n_rows();
    let rows_b = b.n_rows();
    if rows_a != rows_b {
        return Err(MergeError::DimensionMismatch { segment, rows_a, rows_b });
    }
    if !same_mask(a.mask(), b.mask()) {
        return Err(MergeError::MaskMismatch { segment });
    }
    let mut poke = copy_of(a.poke());
    extend_range(&mut poke, b.poke(), 0, b.poke().len());
    assert(b@.poke.subrange(0, b@.poke.len() as int) =~= b@.poke);
    let n_cols = a.n_cols() + b.n_cols();
    proof {
        assert(poke@.len() == a@.n_rows * (a@.n_cols + b@.n_cols)) by (nonlinear_arith)
            requires
                poke@.len() == a@.poke.len() + b@.poke.len(),
                a@.poke.len() == a@.n_rows * a@.n_cols,
                b@.poke.len() == b@.n_rows * b@.n_cols,
                a@.n_rows == b@.n_rows,
        ;
    }
    let mode = Mode::Joint(quantity(a.mode()), quantity(b.mode()));
    match Calib::new(poke, n_cols, copy_of(a.mask()), mode) {
        Ok(c) => Ok(c),
        Err(e) => Err(MergeError::Recon(e)),
    }
}

impl<T: Copy> MergeReconstructor<T> {
    pub open spec fn wf(&self) -> bool {
        self@.wf()
    }

    /// Builds the joint reconstructor of two reconstructors over the same
    /// segments: per segment, the columns of `b` follow those of `a` over
    /// their common mask. Its inverses are still to be set. Fails at the
    /// first segment whose two calibrations do not have the same rows
    /// (dimension mismatch) or the same mask.
    pub fn new(a: &Reconstructor<T>, b: &Reconstructor<T>) -> (r: Result<Self, MergeError>)
        requires
            a.wf(),
            b.wf(),
            forall|s: int|
                0 <= s < a@.calibs.len() && s < b@.calibs.len() ==> (#[trigger] a@.calibs[s]).n_cols
                    + b@.calibs[s].n_cols <= usize::MAX,
        ensures
            r.is_ok() <==> a@.calibs.len() == b@.calibs.len() && forall|s: int|
                0 <= s < a@.calibs.len() ==> compatible(
                    #[trigger] a@.calibs[s],
                    b@.calibs[s],
                ),
            a@.calibs.len() != b@.calibs.len() ==> r == Err::<Self, MergeError>(
                MergeError::SegmentCount {
                    a: a@.calibs.len() as usize,
                    b: b@.calibs.len() as usize,
                },
            ),
            match r {
                Ok(m) => {
                    &&& m.wf()
                    &&& m@.recon.calibs.len() == a@.calibs.len()
                    &&& forall|s: int|
                        0 <= s < a@.calibs.len() ==> #[trigger] m@.recon.calibs[s] == joint_calib(
                            a@.calibs[s],
                            b@.calibs[s],
                        )
                    &&& forall|s: int|
                        0 <= s < a@.calibs.len() ==> #[trigger] m@.splits[s] == (
                            a@.calibs[s].n_cols as usize,
                            b@.calibs[s].n_cols as usize,
                        )
                    &&& a@.calibs.len() > 0 ==> m@.recon.n_channels == a@.n_channels
                    &&& m@.recon.pinvs.len() == 0
                    &&& m@.data.len() == 0
                    &&& m@.estimate_a.len() == 0
                    &&& m@.estimate_b.len() == 0
                },
                Err(MergeError::DimensionMismatch { segment, rows_a, rows_b }) => {
                    &&& segment < a@.calibs.len()
                    &&& a@.calibs.len() == b@.calibs.len()
                    &&& forall|t: int|
                        0 <= t < segment ==> compatible(#[trigger] a@.calibs[t], b@.calibs[t])
                    &&& rows_a == a@.calibs[segment as int].n_rows
                    &&& rows_b == b@.calibs[segment as int].n_rows
                    &&& rows_a != rows_b
                },
                Err(MergeError::MaskMismatch { segment }) => {
                    &&& segment < a@.calibs.len()
                    &&& a@.calibs.len() == b@.calibs.len()
                    &&& forall|t: int|
                        0 <= t < segment ==> compatible(#[trigger] a@.calibs[t], b@.calibs[t])
                    &&& a@.calibs[segment as int].n_rows == b@.calibs[segment as int].n_rows
                    &&& a@.calibs[segment as int].mask != b@.calibs[segment as int].mask
                },
                Err(e) => e == MergeError::SegmentCount {
                    a: a@.calibs.len() as usize,
                    b: b@.calibs.len() as usize,
                },
            },
    {
        let n = a.n_segments();
        if b.n_segments() != n {
            return Err(MergeError::SegmentCount { a: n, b: b.n_segments() });
        }
        let mut calibs: Vec<Calib<T>> = Vec::new();
        let mut splits: Vec<(usize, usize)> = Vec::new();
        let mut s: usize = 0;
        while s < n
            invariant
                a.wf(),
                b.wf(),
                n == a@.calibs.len() == b@.calibs.len(),
                s <= n,
                forall|t: int|
                    0 <= t < n ==> (#[trigger] a@.calibs[t]).n_cols + b@.calibs[t].n_cols
                        <= usize::MAX,
                calibs@.len() == s,
                splits@.len() == s,
                forall|t: int| 0 <= t < s ==> compatible(#[trigger] a@.calibs[t], b@.calibs[t]),
                forall|t: int|
                    0 <= t < s ==> (#[trigger] calibs@[t]).wf() && calibs@[t]@ == joint_calib(
                        a@.calibs[t],
                        b@.calibs[t],
                    ),
                forall|t: int|
                    0 <= t < s ==> #[trigger] splits@[t] == (
                        a@.calibs[t].n_cols as usize,
                        b@.calibs[t].n_cols as usize,
                    ),
            decreases n - s,
        {
            let ca = a.calib(s);
            let cb = b.calib(s);
            assert(ca@.wf() && cb@.wf());
            let c = match merge_calib(ca, cb, s) {
                Ok(c) => c,
                Err(e) => {
                    proof {
                        assert(ca@ == a@.calibs[s as int]);
                        assert(cb@ == b@.calibs[s as int]);
                        assert(!compatible(ca@, cb@));
                    }
                    return Err(e);
                },
            };
            splits.push((ca.n_cols(), cb.n_cols()));
            calibs.push(c);
            s = s + 1;
        }
        let ghost joint = calibs@;
        let recon = match Reconstructor::new(calibs) {
            Ok(r) => r,
            Err(e) => {
                proof {
                    assert(forall|t: int|
                        0 <= t < n ==> (#[trigger] joint[t])@.mask.len() == joint[0]@.mask.len());
                }
                return Err(MergeError::Recon(e));
            },
        };
        proof {
            assert forall|t: int| 0 <= t < n implies #[trigger] recon@.calibs[t] == joint_calib(
                a@.calibs[t],
                b@.calibs[t],
            ) by {
                assert(recon@.calibs[t] == joint[t]@);
            }
            if n > 0 {
                assert(recon@.calibs[0] == joint[0]@);
            }
            assert forall|t: int| 0 <= t < splits@.len() implies (#[trigger] splits@[t]).0
                + splits@[t].1 == recon@.calibs[t].n_cols by {
                assert(recon@.calibs[t] == joint_calib(a@.calibs[t], b@.calibs[t]));
            }
        }
        Ok(MergeReconstructor {
            recon,
            splits,
            data: Vec::new(),
            estimate_a: Vec::new(),
            estimate_b: Vec::new(),
        })
    }

    /// Builds a reconstructor over one command space with the same
    /// bookkeeping: each segment keeps its poke matrix and mask, its mode
    /// becomes unspecified and all its columns go to the first space. Its
    /// inverses are still to be set.
    pub fn single(a: &Reconstructor<T>) -> (r: Result<Self, MergeError>)
        requires
            a.wf(),
        ensures
            r matches Ok(m) && {
                &&& m.wf()
                &&& m@.recon.calibs.len() == a@.calibs.len()
                &&& forall|s: int|
                    0 <= s < a@.calibs.len() ==> #[trigger] m@.recon.calibs[s] == (CalibView {
                        mode: Mode::Single(Quantity::Unspecified),
                        ..a@.calibs[s]
                    })
                &&& forall|s: int|
                    0 <= s < a@.calibs.len() ==> (#[trigger] m@.splits[s]).0 == a@.calibs[s].n_cols
                        && m@.splits[s].1 == 0
                &&& a@.calibs.len() > 0 ==> m@.recon.n_channels == a@.n_channels
                &&& m@.recon.pinvs.len() == 0
                &&& m@.data.len() == 0
                &&& m@.estimate_a.len() == 0
                &&& m@.estimate_b.len() == 0
            },
    {
        let n = a.n_segments();
        let mut calibs: Vec<Calib<T>> = Vec::new();
        let mut splits: Vec<(usize, usize)> = Vec::new();
        let mut s: usize = 0;
        while s < n
            invariant
                a.wf(),
                n == a@.calibs.len(),
                s <= n,
                calibs@.len() == s,
                splits@.len() == s,
                forall|t: int|
                    0 <= t < s ==> (#[trigger] calibs@[t]).wf() && calibs@[t]@ == (CalibView {
                        mode: Mode::Single(Quantity::Unspecified),
                        ..a@.calibs[t]
                    }),
                forall|t: int|
                    0 <= t < s ==> (#[trigger] splits@[t]).0 == a@.calibs[t].n_cols
                        && splits@[t].1 == 0,
            decreases n - s,
        {
            let ca = a.calib(s);
            assert(ca@.wf());
            let c = ca.with_mode(Mode::Single(Quantity::Unspecified));
            splits.push((ca.n_cols(), 0));
            calibs.push(c);
            s = s + 1;
        }
        let ghost copied = calibs@;
        let recon = match Reconstructor::new(calibs) {
            Ok(r) => r,
            Err(e) => {
                proof {
                    assert(forall|t: int|
                        0 <= t < n ==> (#[trigger] copied[t])@.mask.len() == copied[0]@.mask.len());
                }
                return Err(MergeError::Recon(e));
            },
        };
        proof {
            assert forall|t: int| 0 <= t < n implies #[trigger] recon@.calibs[t] == (CalibView {
                mode: Mode::Single(Quantity::Unspecified),
                ..a@.calibs[t]
            }) by {
                assert(recon@.calibs[t] == copied[t]@);
            }
            if n > 0 {
                assert(recon@.calibs[0] == copied[0]@);
            }
        }
        Ok(
            MergeReconstructor {
                recon,
                splits,
                data: Vec::new(),
                estimate_a: Vec::new(),
                estimate_b: Vec::new(),
            },
        )
    }
}

/// In a joint calibration, column `j` of the first calibration is column
/// `j`, and column `j` of the second one is column `n_a + j`, `n_a` being the
/// first calibration's column count.
pub proof fn lemma_joint_columns<T>(a: CalibView<T>, b: CalibView<T>)
    requires
        a.wf(),
        b.wf(),
        compatible(a, b),
    ensures
        joint_calib(a, b).wf(),
        forall|j: int, r: int|
            0 <= j < a.n_cols && 0 <= r < a.n_rows ==> #[trigger] joint_calib(a, b).poke[j * a.n_rows
                + r] == a.poke[j * a.n_rows + r],
        forall|j: int, r: int|
            0 <= j < b.n_cols && 0 <= r < a.n_rows ==> #[trigger] joint_calib(a, b).poke[(a.n_cols + j)
                * a.n_rows + r] == b.poke[j * a.n_rows + r],
{
    let c = joint_calib(a, b);
    assert(c.poke.len() == c.n_rows * c.n_cols) by (nonlinear_arith)
        requires
            c.poke.len() == a.poke.len() + b.poke.len(),
            a.poke.len() == a.n_rows * a.n_cols,
            b.poke.len() == a.n_rows * b.n_cols,
            c.n_rows == a.n_rows,
            c.n_cols == a.n_cols + b.n_cols,
    ;
    assert forall|j: int, r: int| 0 <= j < a.n_cols && 0 <= r < a.n_rows implies #[trigger] c.poke[j
        * a.n_rows + r] == a.poke[j * a.n_rows + r] by {
        let k = j * a.n_rows + r;
        assert(k < a.n_rows * a.n_cols) by (nonlinear_arith)
            requires
                k == j * a.n_rows + r,
                0 <= j < a.n_cols,
                0 <= r < a.n_rows,
        ;
        assert(0 <= k) by (nonlinear_arith)
            requires
                k == j * a.n_rows + r,
                0 <= j,
                0 <= r,
        ;
        assert(c.poke[k] == a.poke[k]);
    }
    assert forall|j: int, r: int| 0 <= j < b.n_cols && 0 <= r < a.n_rows implies #[trigger] c.poke[(
    a.n_cols + j) * a.n_rows + r] == b.poke[j * a.n_rows + r] by {
        assert((a.n_cols + j) * a.n_rows + r == a.n_cols * a.n_rows + (j * a.n_rows + r))
            by (nonlinear_arith);
        let k = j * a.n_rows + r;
        assert(k < a.n_rows * b.n_cols) by (nonlinear_arith)
            requires
                k == j * a.n_rows + r,
                0 <= j < b.n_cols,
                0 <= r < a.n_rows,
        ;
        assert(0 <= k) by (nonlinear_arith)
            requires
                k == j * a.n_rows + r,
                0 <= j,
                0 <= r,
        ;
        assert(a.n_cols * a.n_rows == a.n_rows * a.n_cols) by (nonlinear_arith);
        assert(c.poke[a.poke.len() + k] == b.poke[k]);
    }
}

/// Splitting joint estimates gives back the two parts they were made of:
/// when each segment's estimate is its first-space part followed by its
/// second-space part, the first split estimate is the concatenation of the
/// first parts and the second one that of the second parts, in segment order.
pub proof fn lemma_split_recovers_parts<T>(
    ys: Seq<Seq<T>>,
    splits: Seq<(usize, usize)>,
    parts_a: Seq<Seq<T>>,
    parts_b: Seq<Seq<T>>,
)
    requires
        ys.len() == splits.len() == parts_a.len() == parts_b.len(),
        forall|s: int| 0 <= s < ys.len() ==> (#[trigger] parts_a[s]).len() == splits[s].0,
        forall|s: int| 0 <= s < ys.len() ==> #[trigger] ys[s] == parts_a[s] + parts_b[s],
    ensures
        first_parts(ys, splits) == concat_all(parts_a),
        second_parts(ys, splits) == concat_all(parts_b),
{
    let fa = Seq::new(ys.len(), |s: int| ys[s].take(splits[s].0 as int));
    let fb = Seq::new(ys.len(), |s: int| ys[s].skip(splits[s].0 as int));
    assert forall|s: int| 0 <= s < ys.len() implies fa[s] == parts_a[s] && fb[s] == parts_b[s] by {
        assert(ys[s] == parts_a[s] + parts_b[s]);
        assert(ys[s].take(splits[s].0 as int) =~= parts_a[s]);
        assert(ys[s].skip(splits[s].0 as int) =~= parts_b[s]);
    }
    assert(fa =~= parts_a);
    assert(fb =~= parts_b);
}

proof fn lemma_parts_step<T>(ys: Seq<Seq<T>>, splits: Seq<(usize, usize)>, s: int)
    requires
        0 <= s < ys.len(),
    ensures
        first_parts(ys.take(s + 1), splits) == first_parts(ys.take(s), splits) + ys[s].take(
            splits[s].0 as int,
        ),
        second_parts(ys.take(s + 1), splits) == second_parts(ys.take(s), splits) + ys[s].skip(
            splits[s].0 as int,
        ),
{
    let p = ys.take(s + 1);
    let q = ys.take(s);
    let fa1 = Seq::new(p.len(), |t: int| p[t].take(splits[t].0 as int));
    let fa0 = Seq::new(q.len(), |t: int| q[t].take(splits[t].0 as int));
    assert(fa1 =~= fa0.push(ys[s].take(splits[s].0 as int)));
    lemma_concat_push(fa0, ys[s].take(splits[s].0 as int));
    let fb1 = Seq::new(p.len(), |t: int| p[t].skip(splits[t].0 as int));
    let fb0 = Seq::new(q.len(), |t: int| q[t].skip(splits[t].0 as int));
    assert(fb1 =~= fb0.push(ys[s].skip(splits[s].0 as int)));
    lemma_concat_push(fb0, ys[s].skip(splits[s].0 as int));
}

impl<T: Copy> MergeReconstructor<T> {
    /// The joint reconstructor.
    pub fn recon(&self) -> (r: &Reconstructor<T>)
        ensures
            r@ == self@.recon,
    {
        &self.recon
    }

    /// Columns of the first and of the second space of segment `s`.
    pub fn split(&self, s: usize) -> (r: (usize, usize))
        requires
            s < self@.splits.len(),
        ensures
            r == self@.splits[s as int],
    {
        self.splits[s]
    }

    /// Replaces each poke-matrix entry of segment `s` by a result of `f` on
    /// it (a normalization); everything else stays.
    pub fn rescale_calib<F: Fn(T) -> T>(&mut self, s: usize, f: &F)
        requires
            old(self).wf(),
            s < old(self)@.recon.calibs.len(),
            forall|x: T| f.requires((x,)),
        ensures
            final(self).wf(),
            final(self)@.splits == old(self)@.splits,
            final(self)@.data == old(self)@.data,
            final(self)@.estimate_a == old(self)@.estimate_a,
            final(self)@.estimate_b == old(self)@.estimate_b,
            final(self)@.recon.n_channels == old(self)@.recon.n_channels,
            final(self)@.recon.pinvs == old(self)@.recon.pinvs,
            final(self)@.recon.calibs.len() == old(self)@.recon.calibs.len(),
            forall|t: int|
                0 <= t < old(self)@.recon.calibs.len() && t != s ==> final(self)@.recon.calibs[t]
                    == old(self)@.recon.calibs[t],
            ({
                let (a, b) = (old(self)@.recon.calibs[s as int], final(self)@.recon.calibs[s as int]);
                &&& b.n_rows == a.n_rows
                &&& b.n_cols == a.n_cols
                &&& b.mask == a.mask
                &&& b.mode == a.mode
                &&& b.poke.len() == a.poke.len()
                &&& forall|k: int|
                    0 <= k < a.poke.len() ==> f.ensures((a.poke[k],), #[trigger] b.poke[k])
            }),
    {
        self.recon.rescale_calib(s, f);
    }

    /// Sets the joint pseudo-inverses (see [`Reconstructor::set_inverses`]).
    pub fn set_inverses(&mut self, pinvs: Vec<Vec<T>>) -> (r: Result<(), MergeError>)
        requires
            old(self).wf(),
        ensures
            final(self).wf(),
            final(self)@.splits == old(self)@.splits,
            final(self)@.data == old(self)@.data,
            final(self)@.estimate_a == old(self)@.estimate_a,
            final(self)@.estimate_b == old(self)@.estimate_b,
            final(self)@.recon.calibs == old(self)@.recon.calibs,
            final(self)@.recon.n_channels == old(self)@.recon.n_channels,
            r.is_ok() <==> pinvs@.len() == old(self)@.recon.calibs.len() && forall|s: int|
                0 <= s < pinvs@.len() ==> (#[trigger] pinvs@[s])@.len()
                    == old(self)@.recon.calibs[s].n_cols * old(self)@.recon.calibs[s].n_rows,
            r.is_ok() ==> final(self)@.recon.pinvs == pinvs@.map_values(|p: Vec<T>| p@),
            r.is_err() ==> final(self)@ == old(self)@,
    {
        match self.recon.set_inverses(pinvs) {
            Ok(()) => Ok(()),
            Err(e) => Err(MergeError::Recon(e)),
        }
    }

    /// Maps the inverse of segment `s` back to physical units: its first-space
    /// rows go through `fa`, its second-space rows through `fb`.
    pub fn rescale_inverse<F: Fn(T) -> T, G: Fn(T) -> T>(&mut self, s: usize, fa: &F, fb: &G)
        requires
            old(self).wf(),
            old(self)@.recon.inverted(),
            s < old(self)@.recon.calibs.len(),
            forall|x: T| fa.requires((x,)),
            forall|x: T| fb.requires((x,)),
        ensures
            final(self).wf(),
            final(self)@.splits == old(self)@.splits,
            final(self)@.data == old(self)@.data,
            final(self)@.estimate_a == old(self)@.estimate_a,
            final(self)@.estimate_b == old(self)@.estimate_b,
            final(self)@.recon.calibs == old(self)@.recon.calibs,
            final(self)@.recon.n_channels == old(self)@.recon.n_channels,
            final(self)@.recon.pinvs.len() == old(self)@.recon.pinvs.len(),
            forall|t: int|
                0 <= t < old(self)@.recon.pinvs.len() && t != s ==> final(self)@.recon.pinvs[t]
                    == old(self)@.recon.pinvs[t],
            final(self)@.recon.pinvs[s as int].len() == old(self)@.recon.pinvs[s as int].len(),
            forall|k: int|
                0 <= k < old(self)@.recon.pinvs[s as int].len() ==> if old(self)@.recon.inverse_row(
                    s as int,
                    k,
                ) < old(self)@.splits[s as int].0 {
                    fa.ensures(
                        (old(self)@.recon.pinvs[s as int][k],),
                        #[trigger] final(self)@.recon.pinvs[s as int][k],
                    )
                } else {
                    fb.ensures(
                        (old(self)@.recon.pinvs[s as int][k],),
                        final(self)@.recon.pinvs[s as int][k],
                    )
                },
    {
        let n_a = self.splits[s].0;
        self.recon.rescale_inverse(s, n_a, fa, fb);
    }

    /// Stores the latest measurement vector. Fails, leaving everything
    /// unchanged, unless it covers the raw channels of the masks.
    pub fn read(&mut self, data: Vec<T>) -> (r: Result<(), MergeError>)
        requires
            old(self).wf(),
        ensures
            final(self).wf(),
            r.is_ok() <==> data@.len() == old(self)@.recon.n_channels,
            r.is_ok() ==> final(self)@ == (MergeView { data: data@, ..old(self)@ }),
            r.is_err() ==> final(self)@ == old(self)@ && r == Err::<(), MergeError>(
                MergeError::Recon(
                    ReconError::DataLength {
                        expected: old(self)@.recon.n_channels as usize,
                        found: data@.len() as usize,
                    },
                ),
            ),
    {
        let expected = self.recon.n_channels();
        if data.len() != expected {
            return Err(MergeError::Recon(ReconError::DataLength { expected, found: data.len() }));
        }
        self.data = data;
        Ok(())
    }

    /// For each segment, in order, the entries of the latest measurement
    /// vector that its mask selects. Fails before the first read, unless the
    /// masks are empty.
    pub fn segment_inputs(&self) -> (r: Result<Vec<Vec<T>>, MergeError>)
        requires
            self.wf(),
        ensures
            r.is_ok() <==> self@.data.len() == self@.recon.n_channels,
            r matches Ok(xs) ==> {
                &&& xs@.len() == self@.recon.calibs.len()
                &&& forall|s: int|
                    0 <= s < xs@.len() ==> (#[trigger] xs@[s])@ == masked(
                        self@.data,
                        self@.recon.calibs[s].mask,
                    )
            },
            r.is_err() ==> r == Err::<Vec<Vec<T>>, MergeError>(
                MergeError::Recon(
                    ReconError::DataLength {
                        expected: self@.recon.n_channels as usize,
                        found: self@.data.len() as usize,
                    },
                ),
            ),
    {
        let expected = self.recon.n_channels();
        if self.data.len() != expected {
            return Err(
                MergeError::Recon(ReconError::DataLength { expected, found: self.data.len() }),
            );
        }
        Ok(self.recon.segment_inputs(&self.data))
    }

    /// Stores the split of the segments' joint estimates: the first split
    /// estimate gathers, in segment order, each estimate's first-space
    /// entries, the second one the remaining entries. Fails, leaving
    /// everything unchanged, unless there is one estimate per segment with
    /// one entry per joint column; the first wrong one is reported.
    pub fn store_estimates(&mut self, ys: &Vec<Vec<T>>) -> (r: Result<(), MergeError>)
        requires
            old(self).wf(),
        ensures
            final(self).wf(),
            r.is_ok() <==> ys@.len() == old(self)@.recon.calibs.len() && forall|s: int|
                0 <= s < ys@.len() ==> (#[trigger] ys@[s])@.len()
                    == old(self)@.recon.calibs[s].n_cols,
            r.is_ok() ==> final(self)@ == (MergeView {
                estimate_a: first_parts(ys@.map_values(|y: Vec<T>| y@), old(self)@.splits),
                estimate_b: second_parts(ys@.map_values(|y: Vec<T>| y@), old(self)@.splits),
                ..old(self)@
            }),
            r.is_err() ==> final(self)@ == old(self)@,
            ys@.len() != old(self)@.recon.calibs.len() ==> r == Err::<(), MergeError>(
                MergeError::Recon(
                    ReconError::DataLength {
                        expected: old(self)@.recon.calibs.len() as usize,
                        found: ys@.len() as usize,
                    },
                ),
            ),
            match r {
                Err(MergeError::Recon(ReconError::SegmentLength { segment, expected, found })) => {
                    &&& ys@.len() == old(self)@.recon.calibs.len()
                    &&& segment < ys@.len()
                    &&& forall|t: int|
                        0 <= t < segment ==> (#[trigger] ys@[t])@.len()
                            == old(self)@.recon.calibs[t].n_cols
                    &&& expected == old(self)@.recon.calibs[segment as int].n_cols
                    &&& found == ys@[segment as int]@.len()
                    &&& found != expected
                },
                _ => true,
            },
    {
        let n = self.recon.n_segments();
        if ys.len() != n {
            return Err(MergeError::Recon(ReconError::DataLength { expected: n, found: ys.len() }));
        }
        let ghost yss = ys@.map_values(|y: Vec<T>| y@);
        let mut ea: Vec<T> = Vec::new();
        let mut eb: Vec<T> = Vec::new();
        let mut s: usize = 0;
        while s < n
            invariant
                self.wf(),
                n == self@.recon.calibs.len() == ys@.len(),
                yss == ys@.map_values(|y: Vec<T>| y@),
                s <= n,
                forall|t: int| 0 <= t < s ==> (#[trigger] ys@[t])@.len() == self@.recon.calibs[t].n_cols,
                ea@ == first_parts(yss.take(s as int), self@.splits),
                eb@ == second_parts(yss.take(s as int), self@.splits),
            decreases n - s,
        {
            let expected = self.recon.calib(s).n_cols();
            let found = ys[s].len();
            if found != expected {
                return Err(
                    MergeError::Recon(ReconError::SegmentLength { segment: s, expected, found }),
                );
            }
            let n_a = self.splits[s].0;
            assert(self@.splits[s as int].0 + self@.splits[s as int].1 == self@.recon.calibs[s as int].n_cols);
            proof {
                lemma_parts_step(yss, self@.splits, s as int);
                assert(yss[s as int] == ys@[s as int]@);
                assert(ys@[s as int]@.subrange(0, n_a as int) =~= yss[s as int].take(n_a as int));
                assert(ys@[s as int]@.subrange(n_a as int, found as int) =~= yss[s as int].skip(n_a as int));
            }
            extend_range(&mut ea, &ys[s], 0, n_a);
            extend_range(&mut eb, &ys[s], n_a, found);
            s = s + 1;
        }
        assert(yss.take(n as int) =~= yss);
        self.estimate_a = ea;
        self.estimate_b = eb;
        Ok(())
    }

    /// The split estimate `which`.
    pub fn write_split(&self, which: SplitEstimate) -> (r: &Vec<T>)
        ensures
            which == SplitEstimate::First ==> r@ == self@.estimate_a,
            which == SplitEstimate::Second ==> r@ == self@.estimate_b,
    {
        match which {
            SplitEstimate::First => &self.estimate_a,
            SplitEstimate::Second => &self.estimate_b,
        }
    }

    /// Split estimate `index`: 0 for the first space, 1 for the second one;
    /// any other index is an error.
    pub fn write(&self, index: usize) -> (r: Result<&Vec<T>, MergeError>)
        ensures
            index == 0 ==> (r matches Ok(v) && v@ == self@.estimate_a),
            index == 1 ==> (r matches Ok(v) && v@ == self@.estimate_b),
            index > 1 ==> (r == Err::<&Vec<T>, MergeError>(MergeError::UndefinedSplit { index })),
    {
        if index == 0 {
            Ok(&self.estimate_a)
        } else if index == 1 {
            Ok(&self.estimate_b)
        } else {
            Err(MergeError::UndefinedSplit { index })
        }
    }
}

} // verus!
