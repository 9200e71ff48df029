//! Projection of sampled surface shapes onto per-segment modal bases, with
//! every segment's coefficients padded to one fixed width.
use vstd::prelude::*;

use crate::error::ReconError;
use crate::vecs::{concat_all, extend_range, lemma_concat_push};

verus! {

/// Sample points of all segments.
pub open spec fn total_samples(shapes: Seq<(usize, usize)>) -> nat
    decreases shapes.len(),
{
    if shapes.len() == 0 {
        0
    } else {
        total_samples(shapes.drop_last()) + shapes.last().0 as nat
    }
}

/// First sample of segment `i` in the concatenated samples.
pub open spec fn sample_offset(shapes: Seq<(usize, usize)>, i: int) -> nat {
    total_samples(shapes.take(i))
}

/// `c` followed by zeros up to `width` entries.
pub open spec fn padded<T>(c: Seq<T>, width: nat, zero: T) -> Seq<T> {
    c + Seq::new((width - c.len()) as nat, |j: int| zero)
}

/// The padded coefficients of all segments, concatenated in order.
pub open spec fn padded_all<T>(coefs: Seq<Seq<T>>, width: nat, zero: T) -> Seq<T> {
    concat_all(Seq::new(coefs.len(), |i: int| padded(coefs[i], width, zero)))
}

/// Concatenating pieces of one length `w` puts entry `j` of piece `i` at
/// `i * w + j`.
pub proof fn lemma_concat_uniform<T>(xs: Seq<Seq<T>>, w: nat)
    requires
        forall|i: int| 0 <= i < xs.len() ==> (#[trigger] xs[i]).len() == w,
    ensures
        concat_all(xs).len() == xs.len() * w,
        forall|i: int, j: int|
            0 <= i < xs.len() && 0 <= j < w ==> concat_all(xs)[i * w + j] == #[trigger] xs[i][j],
    decreases xs.len(),
{
    if xs.len() > 0 {
        let p = xs.drop_last();
        let n = xs.len() - 1;
        lemma_concat_uniform(p, w);
        assert(concat_all(xs) == concat_all(p) + xs.last());
        assert(concat_all(xs).len() == xs.len() * w) by (nonlinear_arith)
            requires
                concat_all(xs).len() == concat_all(p).len() + w,
                concat_all(p).len() == n * w,
                xs.len() == n + 1,
        ;
        assert forall|i: int, j: int| 0 <= i < xs.len() && 0 <= j < w implies concat_all(xs)[i * w
            + j] == #[trigger] xs[i][j] by {
            if i < n {
                assert(i * w + j < n * w) by (nonlinear_arith)
                    requires
                        i < n,
                        j < w,
                ;
                assert(p[i] == xs[i]);
            } else {
                assert(i * w + j - n * w == j) by (nonlinear_arith)
                    requires
                        i == n,
                ;
            }
        }
    }
}

proof fn lemma_samples_prefix(shapes: Seq<(usize, usize)>, i: int, j: int)
    requires
        0 <= i <= j <= shapes.len(),
    ensures
        total_samples(shapes.take(i)) <= total_samples(shapes.take(j)),
    decreases j - i,
{
    if i < j {
        assert(shapes.take(j).drop_last() =~= shapes.take(j - 1));
        lemma_samples_prefix(shapes, i, j - 1);
    }
}

proof fn lemma_padded_step<T>(coefs: Seq<Seq<T>>, width: nat, zero: T, i: int)
    requires
        0 <= i < coefs.len(),
    ensures
        padded_all(coefs.take(i + 1), width, zero) == padded_all(coefs.take(i), width, zero) + padded(
            coefs[i],
            width,
            zero,
        ),
{
    let p = coefs.take(i + 1);
    let q = coefs.take(i);
    let a = Seq::new(p.len(), |t: int| padded(p[t], width, zero));
    let b = Seq::new(q.len(), |t: int| padded(q[t], width, zero));
    assert(a =~= b.push(padded(coefs[i], width, zero)));
    lemma_concat_push(b, padded(coefs[i], width, zero));
}

/// Every segment's chunk of the output is exactly `width` long: its
/// coefficients, then zeros from its mode count on, whatever the inputs.
pub proof fn lemma_zero_padding<T>(coefs: Seq<Seq<T>>, width: nat, zero: T)
    requires
        forall|i: int| 0 <= i < coefs.len() ==> (#[trigger] coefs[i]).len() <= width,
    ensures
        padded_all(coefs, width, zero).len() == coefs.len() * width,
        forall|i: int, j: int|
            0 <= i < coefs.len() && coefs[i].len() <= j < width ==> #[trigger] padded_all(
                coefs,
                width,
                zero,
            )[i * width + j] == zero,
        forall|i: int, j: int|
            0 <= i < coefs.len() && 0 <= j < coefs[i].len() ==> #[trigger] padded_all(
                coefs,
                width,
                zero,
            )[i * width + j] == coefs[i][j],
{
    let xs = Seq::new(coefs.len(), |i: int| padded(coefs[i], width, zero));
    lemma_concat_uniform(xs, width);
    assert forall|i: int, j: int| 0 <= i < coefs.len() && 0 <= j < width implies #[trigger] padded_all(
        coefs,
        width,
        zero,
    )[i * width + j] == if j < coefs[i].len() {
        coefs[i][j]
    } else {
        zero
    } by {
        assert(concat_all(xs)[i * width + j] == xs[i][j]);
    }
}

/// Mathematical content of an [`M1BendingModes`].
pub struct M1BendingModesView<T> {
    /// Per segment, its sample points and its modes.
    pub shapes: Seq<(usize, usize)>,
    /// Per segment, its basis (samples × modes), column after column.
    pub bases: Seq<Seq<T>>,
    /// Coefficients per segment in the output, the largest mode count.
    pub width: nat,
    pub zero: T,
    /// The last surface samples read; empty before the first read.
    pub surfaces: Seq<T>,
    /// The latest padded coefficients; empty before the first update.
    pub coefs: Seq<T>,
}

impl<T> M1BendingModesView<T> {
    pub open spec fn wf(self) -> bool {
        &&& self.shapes.len() == self.bases.len()
        &&& forall|i: int|
            0 <= i < self.shapes.len() ==> (#[trigger] self.bases[i]).len() == self.shapes[i].0
                * self.shapes[i].1 && self.shapes[i].1 <= self.width
        &&& total_samples(self.shapes) <= usize::MAX
        &&& self.shapes.len() * self.width <= usize::MAX
        &&& self.surfaces.len() == 0 || self.surfaces.len() == total_samples(self.shapes)
        &&& self.coefs.len() == 0 || self.zero_padded()
    }

    /// The coefficients hold one chunk of `width` entries per segment, and
    /// a segment's entries past its mode count are `zero`.
    pub open spec fn zero_padded(self) -> bool {
        &&& self.coefs.len() == self.shapes.len() * self.width
        &&& forall|i: int, j: int|
            0 <= i < self.shapes.len() && self.shapes[i].1 <= j < self.width ==> #[trigger] self.coefs[i
                * self.width + j] == self.zero
    }
}

/// Modal projector of a segmented mirror: per segment, an orthonormal modal
/// basis, and the output width shared by all segments.
pub struct M1BendingModes<T> {
    shapes: Vec<(usize, usize)>,
    bases: Vec<Vec<T>>,
    width: usize,
    zero: T,
    surfaces: Vec<T>,
    coefs: Vec<T>,
}

impl<T> View for M1BendingModes<T> {
    type V = M1BendingModesView<T>;

    closed spec fn view(&self) -> M1BendingModesView<T> {
        M1BendingModesView {
            shapes: self.shapes@,
            bases: self.bases@.map_values(|b: Vec<T>| b@),
            width: self.width as nat,
            zero: self.zero,
            surfaces: self.surfaces@,
            coefs: self.coefs@,
        }
    }
}

impl<T: Copy> M1BendingModes<T> {
    pub open spec fn wf(&self) -> bool {
        self@.wf()
    }

    /// Projector onto `bases`, one per segment, each given column after
    /// column with the (samples, modes) shape of `shapes`, padding with
    /// `zero` to `width` coefficients per segment. Fails on a count of shapes
    /// other than of bases, at the first basis that does not hold samples ×
    /// modes entries, and at the first one with more modes than `width`.
    pub fn new(bases: Vec<Vec<T>>, shapes: Vec<(usize, usize)>, width: usize, zero: T) -> (r:
        Result<Self, ReconError>)
        requires
            total_samples(shapes@) <= usize::MAX,
            shapes@.len() * width <= usize::MAX,
        ensures
            r.is_ok() <==> shapes@.len() == bases@.len() && forall|i: int|
                0 <= i < shapes@.len() ==> (#[trigger] bases@[i])@.len() == shapes@[i].0
                    * shapes@[i].1 && shapes@[i].1 <= width,
            r matches Ok(m) ==> {
                &&& m.wf()
                &&& m@.shapes == shapes@
                &&& m@.bases == bases@.map_values(|b: Vec<T>| b@)
                &&& m@.width == width
                &&& m@.zero == zero
                &&& m@.surfaces.len() == 0
                &&& m@.coefs.len() == 0
            },
            shapes@.len() != bases@.len() ==> r == Err::<Self, ReconError>(
                ReconError::DataLength {
                    expected: shapes@.len() as usize,
                    found: bases@.len() as usize,
                },
            ),
    {
        let n = shapes.len();
        if bases.len() != n {
            return Err(ReconError::DataLength { expected: n, found: bases.len() });
        }
        let mut i: usize = 0;
        while i < n
            invariant
                n == shapes@.len() == bases@.len(),
                i <= n,
                forall|t: int|
                    0 <= t < i ==> (#[trigger] bases@[t])@.len() == shapes@[t].0 * shapes@[t].1
                        && shapes@[t].1 <= width,
            decreases n - i,
        {
            let (samples, modes) = shapes[i];
            let found = bases[i].len();
            if modes > width {
                return Err(ReconError::ModeCount { segment: i, width });
            }
            let ok = if modes == 0 {
                found == 0
            } else {
                found % modes == 0 && found / modes == samples
            };
            proof {
                if modes > 0 {
                    if ok {
                        assert(found == samples * modes) by (nonlinear_arith)
                            requires
                                modes > 0,
                                found % modes == 0,
                                found / modes == samples,
                        ;
                    } else {
                        assert(found != samples * modes) by (nonlinear_arith)
                            requires
                                modes > 0,
                                !(found % modes == 0 && found / modes == samples),
                        ;
                    }
                } else {
                    assert(samples * modes == 0) by (nonlinear_arith)
                        requires
                            modes == 0,
                    ;
                }
            }
            if !ok {
                return Err(ReconError::BasisShape { segment: i, samples, modes, found });
            }
            assert(found == samples * modes);
            assert(bases@[i as int]@.len() == shapes@[i as int].0 * shapes@[i as int].1);
            assert(shapes@[i as int].1 <= width);
            assert forall|t: int| 0 <= t < i + 1 implies (#[trigger] bases@[t])@.len() == shapes@[t].0
                * shapes@[t].1 && shapes@[t].1 <= width by {
                if t == i {
                    assert(bases@[t]@.len() == shapes@[t].0 * shapes@[t].1);
                }
            }
            i = i + 1;
        }
        let m = M1BendingModes {
            shapes,
            bases,
            width,
            zero,
            surfaces: Vec::new(),
            coefs: Vec::new(),
        };
        Ok(m)
    }
}

impl<T: Copy> M1BendingModes<T> {
    /// Number of segments.
    pub fn n_segments(&self) -> (r: usize)
        ensures
            r == self@.shapes.len(),
    {
        self.shapes.len()
    }

    /// Sample points and modes of segment `i`.
    pub fn shape(&self, i: usize) -> (r: (usize, usize))
        requires
            i < self@.shapes.len(),
        ensures
            r == self@.shapes[i as int],
    {
        self.shapes[i]
    }

    /// Basis of segment `i`, column after column.
    pub fn basis(&self, i: usize) -> (r: &Vec<T>)
        requires
            self.wf(),
            i < self@.shapes.len(),
        ensures
            r@ == self@.bases[i as int],
    {
        &self.bases[i]
    }

    /// Sample points of all segments.
    pub fn n_samples(&self) -> (r: usize)
        requires
            self.wf(),
        ensures
            r == total_samples(self@.shapes),
    {
        let n = self.shapes.len();
        let mut total: usize = 0;
        let mut i: usize = 0;
        while i < n
            invariant
                self.wf(),
                n == self@.shapes.len(),
                i <= n,
                total == sample_offset(self@.shapes, i as int),
            decreases n - i,
        {
            proof {
                assert(self@.shapes.take(i + 1).drop_last() =~= self@.shapes.take(i as int));
                lemma_samples_prefix(self@.shapes, i + 1, n as int);
                assert(self@.shapes.take(n as int) =~= self@.shapes);
            }
            total = total + self.shapes[i].0;
            i = i + 1;
        }
        assert(self@.shapes.take(n as int) =~= self@.shapes);
        total
    }

    /// Stores the surface samples of all segments, concatenated in segment
    /// order. Fails, leaving everything unchanged, on any other length.
    pub fn read(&mut self, surfaces: Vec<T>) -> (r: Result<(), ReconError>)
        requires
            old(self).wf(),
        ensures
            final(self).wf(),
            r.is_ok() <==> surfaces@.len() == total_samples(old(self)@.shapes),
            r.is_ok() ==> final(self)@ == (M1BendingModesView { surfaces: surfaces@, ..old(self)@ }),
            r.is_err() ==> final(self)@ == old(self)@ && r == Err::<(), ReconError>(
                ReconError::DataLength {
                    expected: total_samples(old(self)@.shapes) as usize,
                    found: surfaces@.len() as usize,
                },
            ),
    {
        let total = self.n_samples();
        if surfaces.len() != total {
            return Err(ReconError::DataLength { expected: total, found: surfaces.len() });
        }
        self.surfaces = surfaces;
        Ok(())
    }

    /// For each segment, in order, its slice of the surface samples: as many
    /// entries as it has sample points. Fails before the first read, unless
    /// there are no sample points.
    pub fn segment_samples(&self) -> (r: Result<Vec<Vec<T>>, ReconError>)
        requires
            self.wf(),
        ensures
            r.is_ok() <==> self@.surfaces.len() == total_samples(self@.shapes),
            r matches Ok(xs) ==> {
                &&& xs@.len() == self@.shapes.len()
                &&& forall|i: int|
                    0 <= i < xs@.len() ==> (#[trigger] xs@[i])@ == self@.surfaces.subrange(
                        sample_offset(self@.shapes, i) as int,
                        sample_offset(self@.shapes, i) + self@.shapes[i].0,
                    )
            },
            r.is_err() ==> r == Err::<Vec<Vec<T>>, ReconError>(
                ReconError::DataLength {
                    expected: total_samples(self@.shapes) as usize,
                    found: self@.surfaces.len() as usize,
                },
            ),
    {
        let total = self.n_samples();
        if self.surfaces.len() != total {
            return Err(ReconError::DataLength { expected: total, found: self.surfaces.len() });
        }
        let n = self.shapes.len();
        let mut r: Vec<Vec<T>> = Vec::new();
        let mut offset: usize = 0;
        let mut i: usize = 0;
        while i < n
            invariant
                self.wf(),
                n == self@.shapes.len(),
                self@.surfaces.len() == total_samples(self@.shapes),
                i <= n,
                offset == sample_offset(self@.shapes, i as int),
                r@.len() == i,
                forall|t: int|
                    0 <= t < i ==> (#[trigger] r@[t])@ == self@.surfaces.subrange(
                        sample_offset(self@.shapes, t) as int,
                        sample_offset(self@.shapes, t) + self@.shapes[t].0,
                    ),
            decreases n - i,
        {
            proof {
                assert(self@.shapes.take(i + 1).drop_last() =~= self@.shapes.take(i as int));
                lemma_samples_prefix(self@.shapes, i + 1, n as int);
                assert(self@.shapes.take(n as int) =~= self@.shapes);
            }
            let ns = self.shapes[i].0;
            let mut x: Vec<T> = Vec::new();
            extend_range(&mut x, &self.surfaces, offset, offset + ns);
            assert(x@ =~= self@.surfaces.subrange(offset as int, offset + ns));
            r.push(x);
            offset = offset + ns;
            i = i + 1;
        }
        Ok(r)
    }

    /// Stores the coefficients of all segments: each segment's coefficients
    /// (one per mode) followed by zeros up to the output width, concatenated
    /// in segment order. Fails, leaving everything unchanged, unless there
    /// is one vector per segment with one entry per mode.
    pub fn store_coefficients(&mut self, coefs: &Vec<Vec<T>>) -> (r: Result<(), ReconError>)
        requires
            old(self).wf(),
        ensures
            final(self).wf(),
            r.is_ok() <==> coefs@.len() == old(self)@.shapes.len() && forall|i: int|
                0 <= i < coefs@.len() ==> (#[trigger] coefs@[i])@.len() == old(self)@.shapes[i].1,
            r.is_err() ==> final(self)@ == old(self)@,
            r.is_ok() ==> final(self)@ == (M1BendingModesView {
                coefs: padded_all(
                    coefs@.map_values(|c: Vec<T>| c@),
                    old(self)@.width,
                    old(self)@.zero,
                ),
                ..old(self)@
            }),
            r.is_ok() ==> forall|i: int, j: int|
                0 <= i < coefs@.len() && 0 <= j < old(self)@.shapes[i].1
                    ==> #[trigger] final(self)@.coefs[i * old(self)@.width + j] == coefs@[i]@[j],
            r.is_ok() ==> final(self)@.zero_padded(),
    {
        let n = self.shapes.len();
        if coefs.len() != n {
            return Err(ReconError::DataLength { expected: n, found: coefs.len() });
        }
        let mut i: usize = 0;
        while i < n
            invariant
                self.wf(),
                n == self@.shapes.len() == coefs@.len(),
                i <= n,
                forall|t: int| 0 <= t < i ==> (#[trigger] coefs@[t])@.len() == self@.shapes[t].1,
            decreases n - i,
        {
            let expected = self.shapes[i].1;
            let found = coefs[i].len();
            if found != expected {
                return Err(ReconError::SegmentLength { segment: i, expected, found });
            }
            i = i + 1;
        }
        let ghost cv = coefs@.map_values(|c: Vec<T>| c@);
        let width = self.width;
        let zero = self.zero;
        let mut out: Vec<T> = Vec::new();
        let mut i: usize = 0;
        while i < n
            invariant
                self.wf(),
                width == self@.width,
                zero == self@.zero,
                n == self@.shapes.len() == coefs@.len(),
                cv == coefs@.map_values(|c: Vec<T>| c@),
                forall|t: int| 0 <= t < n ==> (#[trigger] coefs@[t])@.len() == self@.shapes[t].1,
                i <= n,
                out@ == padded_all(cv.take(i as int), width as nat, zero),
                out@.len() == i * width,
            decreases n - i,
        {
            let na = self.shapes[i].1;
            assert(cv[i as int] == coefs@[i as int]@);
            assert(self@.bases[i as int].len() == self@.shapes[i as int].0 * self@.shapes[i as int].1);
            proof {
                lemma_padded_step(cv, width as nat, zero, i as int);
                assert((i + 1) * width <= n * width) by (nonlinear_arith)
                    requires
                        i < n,
                ;
                assert((i + 1) * width == i * width + width) by (nonlinear_arith);
            }
            let ghost start = out@;
            extend_range(&mut out, &coefs[i], 0, na);
            let mut j: usize = na;
            while j < width
                invariant
                    na <= j <= width,
                    out@ == start + cv[i as int] + Seq::new((j - na) as nat, |k: int| zero),
                decreases width - j,
            {
                out.push(zero);
                j = j + 1;
                assert(out@ =~= start + cv[i as int] + Seq::new((j - na) as nat, |k: int| zero));
            }
            assert(coefs@[i as int]@.subrange(0, na as int) =~= cv[i as int]);
            assert(out@ =~= start + padded(cv[i as int], width as nat, zero));
            i = i + 1;
        }
        proof {
            assert(cv.take(n as int) =~= cv);
            assert forall|t: int| 0 <= t < cv.len() implies (#[trigger] cv[t]).len() <= width by {
                assert(cv[t] == coefs@[t]@);
                assert(self@.bases[t].len() == self@.shapes[t].0 * self@.shapes[t].1);
            }
            lemma_zero_padding(cv, width as nat, zero);
        }
        self.coefs = out;
        Ok(())
    }

    /// The latest padded coefficients.
    pub fn write(&self) -> (r: &Vec<T>)
        ensures
            r@ == self@.coefs,
    {
        &self.coefs
    }
}

} // verus!
