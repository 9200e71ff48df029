//! One segment's calibration: poke matrix, validity mask and mode tag.
use vstd::prelude::*;

use crate::error::ReconError;
use crate::mask::{count_selected, count_true};
use crate::vecs::copy_of;

verus! {

/// Physical quantity that the columns of a poke matrix stand for.
#[derive(Clone, Copy, Debug, PartialEq, Eq, Structural)]
pub enum Quantity {
    /// No particular quantity.
    Unspecified,
    /// Rigid-body motions of the segment.
    RigidBodyMotions,
    /// Modal coefficients of the segment's surface.
    Modes,
}

/// Bookkeeping tag of a calibration's columns.
#[derive(Clone, Copy, Debug, PartialEq, Eq, Structural)]
pub enum Mode {
    /// All columns stand for one quantity.
    Single(Quantity),
    /// The columns of a first quantity followed by those of a second one.
    Joint(Quantity, Quantity),
}

/// Mathematical content of a [`Calib`].
pub struct CalibView<T> {
    /// Entries of the poke matrix, column after column.
    pub poke: Seq<T>,
    pub n_rows: nat,
    pub n_cols: nat,
    pub mask: Seq<bool>,
    pub mode: Mode,
}

impl<T> CalibView<T> {
    /// The rows are the selected channels and the poke matrix is full.
    pub open spec fn wf(self) -> bool {
        &&& self.n_rows == count_true(self.mask)
        &&& self.poke.len() == self.n_rows * self.n_cols
    }
}

/// A segment's calibration: a poke matrix stored column after column, whose
/// rows are the raw channels selected by `mask`.
pub struct Calib<T> {
    poke: Vec<T>,
    n_rows: usize,
    n_cols: usize,
    mask: Vec<bool>,
    mode: Mode,
}

impl<T> View for Calib<T> {
    type V = CalibView<T>;

    closed spec fn view(&self) -> CalibView<T> {
        CalibView {
            poke: self.poke@,
            n_rows: self.n_rows as nat,
            n_cols: self.n_cols as nat,
            mask: self.mask@,
            mode: self.mode,
        }
    }
}

impl<T: Copy> Calib<T> {
    /// Well-formedness of the calibration.
    pub open spec fn wf(&self) -> bool {
        self@.wf()
    }

    /// Builds a calibration from a poke matrix given column after column.
    /// Fails unless the matrix holds (selected channels) × `n_cols` entries.
    pub fn new(poke: Vec<T>, n_cols: usize, mask: Vec<bool>, mode: Mode) -> (r: Result<
        Calib<T>,
        ReconError,
    >)
        ensures
            match r {
                Ok(c) => {
                    &&& c.wf()
                    &&& c@.poke == poke@
                    &&& c@.n_cols == n_cols
                    &&& c@.mask == mask@
                    &&& c@.mode == mode
                },
                Err(e) => e == ReconError::PokeShape {
                    rows: count_true(mask@) as usize,
                    cols: n_cols,
                    found: poke@.len() as usize,
                },
            },
            r.is_ok() <==> poke@.len() == count_true(mask@) * n_cols,
    {
        let n_rows = count_selected(&mask);
        let len = poke.len();
        if n_cols == 0 {
            if len == 0 {
                return Ok(Calib { poke, n_rows, n_cols, mask, mode });
            }
            return Err(ReconError::PokeShape { rows: n_rows, cols: n_cols, found: len });
        }
        if len % n_cols != 0 || len / n_cols != n_rows {
            proof {
                assert(len != n_rows * n_cols) by (nonlinear_arith)
                    requires
                        n_cols > 0,
                        len % n_cols != 0 || len / n_cols != n_rows,
                ;
            }
            return Err(ReconError::PokeShape { rows: n_rows, cols: n_cols, found: len });
        }
        proof {
            assert(len == n_rows * n_cols) by (nonlinear_arith)
                requires
                    n_cols > 0,
                    len % n_cols == 0,
                    len / n_cols == n_rows,
            ;
        }
        Ok(Calib { poke, n_rows, n_cols, mask, mode })
    }

    /// Number of rows: the channels that the mask selects.
    pub fn n_rows(&self) -> (r: usize)
        ensures
            r == self@.n_rows,
    {
        self.n_rows
    }

    /// Number of columns: the degrees of freedom of the segment.
    pub fn n_cols(&self) -> (r: usize)
        ensures
            r == self@.n_cols,
    {
        self.n_cols
    }

    /// Entries of the poke matrix, column after column.
    pub fn poke(&self) -> (r: &Vec<T>)
        ensures
            r@ == self@.poke,
    {
        &self.poke
    }

    /// The validity mask over the raw channels.
    pub fn mask(&self) -> (r: &Vec<bool>)
        ensures
            r@ == self@.mask,
    {
        &self.mask
    }

    /// Replaces each entry of the poke matrix by a result of `f` on it (a
    /// normalization, for instance); the shape, mask and mode stay.
    pub fn rescale<F: Fn(T) -> T>(&mut self, f: &F)
        requires
            forall|x: T| f.requires((x,)),
        ensures
            final(self)@.n_rows == old(self)@.n_rows,
            final(self)@.n_cols == old(self)@.n_cols,
            final(self)@.mask == old(self)@.mask,
            final(self)@.mode == old(self)@.mode,
            final(self)@.poke.len() == old(self)@.poke.len(),
            forall|k: int|
                0 <= k < old(self)@.poke.len() ==> f.ensures(
                    (old(self)@.poke[k],),
                    #[trigger] final(self)@.poke[k],
                ),
    {
        let ghost before = self.poke@;
        let mut k: usize = 0;
        while k < self.poke.len()
            invariant
                k <= self.poke@.len(),
                self.poke@.len() == before.len(),
                self.n_rows == old(self).n_rows,
                self.n_cols == old(self).n_cols,
                self.mask == old(self).mask,
                self.mode == old(self).mode,
                forall|x: T| f.requires((x,)),
                forall|j: int| 0 <= j < k ==> f.ensures((before[j],), #[trigger] self.poke@[j]),
                forall|j: int| k <= j < before.len() ==> #[trigger] self.poke@[j] == before[j],
            decreases before.len() - k,
        {
            let v = f(self.poke[k]);
            self.poke.set(k, v);
            k = k + 1;
        }
    }

    /// A copy of the calibration under another mode tag.
    pub fn with_mode(&self, mode: Mode) -> (r: Calib<T>)
        requires
            self.wf(),
        ensures
            r.wf(),
            r@ == (CalibView { mode, ..self@ }),
    {
        Calib {
            poke: copy_of(&self.poke),
            n_rows: self.n_rows,
            n_cols: self.n_cols,
            mask: copy_of(&self.mask),
            mode,
        }
    }

    /// The mode tag of the columns.
    pub fn mode(&self) -> (r: Mode)
        ensures
            r == self@.mode,
    {
        self.mode
    }
}

} // verus!
