//! Ordered per-segment calibrations and their pseudo-inverses.
use vstd::prelude::*;

use crate::calib::{Calib, CalibView};
use crate::error::ReconError;
use crate::mask::{gather, masked};

verus! {

/// Mathematical content of a [`Reconstructor`].
pub struct ReconstructorView<T> {
    /// The segments' calibrations, in segment order.
    pub calibs: Seq<CalibView<T>>,
    /// The segments' pseudo-inverses, column after column; empty until they
    /// are set.
    pub pinvs: Seq<Seq<T>>,
    /// Raw measurement channels, the length of every mask.
    pub n_channels: nat,
}

impl<T> ReconstructorView<T> {
    pub open spec fn wf(self) -> bool {
        &&& forall|s: int|
            0 <= s < self.calibs.len() ==> (#[trigger] self.calibs[s]).wf()
                && self.calibs[s].mask.len() == self.n_channels
        &&& self.pinvs.len() == 0 || self.pinvs.len() == self.calibs.len()
        &&& forall|s: int|
            0 <= s < self.pinvs.len() ==> (#[trigger] self.pinvs[s]).len() == self.calibs[s].n_cols
                * self.calibs[s].n_rows
    }

    /// The pseudo-inverses have been set.
    pub open spec fn inverted(self) -> bool {
        self.pinvs.len() == self.calibs.len()
    }

    /// Row `k % n_cols` of segment `s`'s inverse holds entry `k`: the rows of
    /// the inverse are the segment's degrees of freedom.
    pub open spec fn inverse_row(self, s: int, k: int) -> int {
        k % (self.calibs[s].n_cols as int)
    }
}

/// Calibrations of all segments, in a fixed order, with their pseudo-inverses.
/// Every mask covers the same raw channels.
pub struct Reconstructor<T> {
    calibs: Vec<Calib<T>>,
    pinvs: Vec<Vec<T>>,
    n_channels: usize,
}

impl<T> View for Reconstructor<T> {
    type V = ReconstructorView<T>;

    closed spec fn view(&self) -> ReconstructorView<T> {
        ReconstructorView {
            calibs: self.calibs@.map_values(|c: Calib<T>| c@),
            pinvs: self.pinvs@.map_values(|p: Vec<T>| p@),
            n_channels: self.n_channels as nat,
        }
    }
}

/// Number of singular values that a pseudo-inverse keeps: those above the
/// tolerance (`n_significant`), at most `cap`.
pub open spec fn retained(n_significant: nat, cap: nat) -> nat {
    if cap < n_significant {
        cap
    } else {
        n_significant
    }
}

/// Number of singular values that a pseudo-inverse keeps, of the
/// `n_significant` ones above the tolerance, under the rank cap `cap`.
pub fn retained_rank(n_significant: usize, cap: usize) -> (r: usize)
    ensures
        r == retained(n_significant as nat, cap as nat),
{
    if cap < n_significant {
        cap
    } else {
        n_significant
    }
}

/// Lowering the rank cap never keeps more singular values.
pub proof fn lemma_truncation_monotone(n_significant: nat, k1: nat, k2: nat)
    requires
        k1 <= k2,
    ensures
        retained(n_significant, k1) <= retained(n_significant, k2),
        retained(n_significant, k1) <= k1,
        retained(n_significant, k2) <= n_significant,
{
}

/// The masks of the segments, in order.
pub open spec fn masks_of<T>(r: ReconstructorView<T>) -> Seq<Seq<bool>> {
    Seq::new(r.calibs.len(), |s: int| r.calibs[s].mask)
}

/// Measurement vectors that agree wherever some segment's mask is `true`
/// give every segment the same inputs: channels outside the masks never
/// reach an estimate.
pub proof fn lemma_inputs_ignore_unmasked<T>(r: ReconstructorView<T>, d1: Seq<T>, d2: Seq<T>)
    requires
        forall|s: int, i: int|
            0 <= s < r.calibs.len() && 0 <= i < r.calibs[s].mask.len() && #[trigger] r.calibs[s].mask[i]
                ==> d1[i] == d2[i],
    ensures
        forall|s: int|
            0 <= s < r.calibs.len() ==> masked(d1, #[trigger] r.calibs[s].mask) == masked(
                d2,
                r.calibs[s].mask,
            ),
{
    assert forall|s: int| 0 <= s < r.calibs.len() implies masked(d1, #[trigger] r.calibs[s].mask)
        == masked(d2, r.calibs[s].mask) by {
        crate::mask::lemma_masking_invariance(d1, d2, r.calibs[s].mask);
    }
}

impl<T: Copy> Reconstructor<T> {
    pub open spec fn wf(&self) -> bool {
        self@.wf()
    }

    /// Collects the calibrations, in order, with no inverse yet. Fails at the
    /// first segment whose mask does not cover as many raw channels as the
    /// first segment's.
    pub fn new(calibs: Vec<Calib<T>>) -> (r: Result<Reconstructor<T>, ReconError>)
        requires
            forall|s: int| 0 <= s < calibs@.len() ==> (#[trigger] calibs@[s]).wf(),
        ensures
            r.is_ok() <==> forall|s: int|
                0 <= s < calibs@.len() ==> (#[trigger] calibs@[s])@.mask.len()
                    == calibs@[0]@.mask.len(),
            match r {
                Ok(rec) => {
                    &&& rec.wf()
                    &&& rec@.calibs == calibs@.map_values(|c: Calib<T>| c@)
                    &&& rec@.pinvs.len() == 0
                    &&& calibs@.len() > 0 ==> rec@.n_channels == calibs@[0]@.mask.len()
                },
                Err(e) => match e {
                    ReconError::MaskLength { segment, expected, found } => {
                        &&& 0 < segment < calibs@.len()
                        &&& expected == calibs@[0]@.mask.len()
                        &&& found == calibs@[segment as int]@.mask.len()
                        &&& found != expected
                    },
                    _ => false,
                },
            },
    {
        let n_channels: usize = if calibs.len() > 0 {
            calibs[0].mask().len()
        } else {
            0
        };
        let mut s: usize = 0;
        while s < calibs.len()
            invariant
                s <= calibs@.len(),
                calibs@.len() > 0 ==> n_channels == calibs@[0]@.mask.len(),
                forall|t: int| 0 <= t < s ==> (#[trigger] calibs@[t])@.mask.len() == n_channels,
            decreases calibs@.len() - s,
        {
            let found = calibs[s].mask().len();
            if found != n_channels {
                return Err(ReconError::MaskLength { segment: s, expected: n_channels, found });
            }
            s = s + 1;
        }
        let rec = Reconstructor { calibs, pinvs: Vec::new(), n_channels };
        assert(rec@.calibs =~= rec.calibs@.map_values(|c: Calib<T>| c@));
        assert(rec@.pinvs =~= Seq::<Seq<T>>::empty());
        Ok(rec)
    }
}

/// Replaces each entry `k` of `p` by a result of `fa` where its row
/// `k % n` is below `split`, and of `fb` elsewhere.
fn map_rows<T: Copy, F: Fn(T) -> T, G: Fn(T) -> T>(
    p: &mut Vec<T>,
    n: usize,
    split: usize,
    fa: &F,
    fb: &G,
)
    requires
        n > 0,
        forall|x: T| fa.requires((x,)),
        forall|x: T| fb.requires((x,)),
    ensures
        final(p)@.len() == old(p)@.len(),
        forall|k: int|
            0 <= k < old(p)@.len() ==> if k % (n as int) < split {
                fa.ensures((old(p)@[k],), #[trigger] final(p)@[k])
            } else {
                fb.ensures((old(p)@[k],), final(p)@[k])
            },
{
    let ghost before = p@;
    let ghost mut q: int = 0;
    let mut row: usize = 0;
    let mut k: usize = 0;
    while k < p.len()
        invariant
            n > 0,
            k <= p@.len(),
            p@.len() == before.len(),
            row < n,
            k == q * n + row,
            forall|x: T| fa.requires((x,)),
            forall|x: T| fb.requires((x,)),
            forall|j: int|
                0 <= j < k ==> if j % (n as int) < split {
                    fa.ensures((before[j],), #[trigger] p@[j])
                } else {
                    fb.ensures((before[j],), p@[j])
                },
            forall|j: int| k <= j < before.len() ==> #[trigger] p@[j] == before[j],
        decreases before.len() - k,
    {
        proof {
            vstd::arithmetic::div_mod::lemma_fundamental_div_mod_converse(k as int, n as int, q, row as int);
        }
        let v = if row < split {
            fa(p[k])
        } else {
            fb(p[k])
        };
        p.set(k, v);
        k = k + 1;
        if row + 1 == n {
            row = 0;
            proof {
                q = q + 1;
                assert(k == q * n + row) by (nonlinear_arith)
                    requires
                        k == (q - 1) * n + (n - 1) + 1,
                        row == 0,
                ;
            }
        } else {
            row = row + 1;
        }
    }
}

impl<T: Copy> Reconstructor<T> {
    /// Number of segments.
    pub fn n_segments(&self) -> (r: usize)
        ensures
            r == self@.calibs.len(),
    {
        self.calibs.len()
    }

    /// Raw measurement channels that every mask covers.
    pub fn n_channels(&self) -> (r: usize)
        ensures
            r == self@.n_channels,
    {
        self.n_channels
    }

    /// Calibration of segment `s`.
    pub fn calib(&self, s: usize) -> (r: &Calib<T>)
        requires
            s < self@.calibs.len(),
        ensures
            r@ == self@.calibs[s as int],
    {
        &self.calibs[s]
    }

    /// Whether the pseudo-inverses have been set.
    pub fn is_inverted(&self) -> (r: bool)
        requires
            self.wf(),
        ensures
            r == self@.inverted(),
    {
        self.pinvs.len() == self.calibs.len()
    }

    /// Pseudo-inverse of segment `s`, column after column.
    pub fn pinv(&self, s: usize) -> (r: &Vec<T>)
        requires
            s < self@.pinvs.len(),
        ensures
            r@ == self@.pinvs[s as int],
    {
        &self.pinvs[s]
    }

    /// Sets the pseudo-inverses, one per segment, each with as many rows as
    /// its segment has columns and as many columns as it has rows. Fails,
    /// leaving the reconstructor unchanged, on a count or a shape that
    /// disagrees; the first segment in order is reported.
    pub fn set_inverses(&mut self, pinvs: Vec<Vec<T>>) -> (r: Result<(), ReconError>)
        requires
            old(self).wf(),
        ensures
            final(self).wf(),
            final(self)@.calibs == old(self)@.calibs,
            final(self)@.n_channels == old(self)@.n_channels,
            r.is_ok() <==> pinvs@.len() == old(self)@.calibs.len() && forall|s: int|
                0 <= s < pinvs@.len() ==> (#[trigger] pinvs@[s])@.len() == old(self)@.calibs[s].n_cols
                    * old(self)@.calibs[s].n_rows,
            r.is_ok() ==> final(self)@.pinvs == pinvs@.map_values(|p: Vec<T>| p@),
            r.is_err() ==> final(self)@ == old(self)@,
            r == Err::<(), ReconError>(ReconError::InverseCount {
                expected: old(self)@.calibs.len() as usize,
                found: pinvs@.len() as usize,
            }) <== pinvs@.len() != old(self)@.calibs.len(),
            match r {
                Err(ReconError::InverseShape { segment, expected, found }) => {
                    &&& segment < pinvs@.len()
                    &&& expected == old(self)@.calibs[segment as int].n_cols * old(
                        self,
                    )@.calibs[segment as int].n_rows
                    &&& found == pinvs@[segment as int]@.len()
                    &&& found != expected
                },
                Err(e) => e == ReconError::InverseCount {
                    expected: old(self)@.calibs.len() as usize,
                    found: pinvs@.len() as usize,
                },
                Ok(_) => true,
            },
    {
        let n = self.calibs.len();
        if pinvs.len() != n {
            return Err(ReconError::InverseCount { expected: n, found: pinvs.len() });
        }
        let mut s: usize = 0;
        while s < n
            invariant
                self.wf(),
                n == self@.calibs.len(),
                pinvs@.len() == n,
                s <= n,
                forall|t: int|
                    0 <= t < s ==> (#[trigger] pinvs@[t])@.len() == self@.calibs[t].n_cols
                        * self@.calibs[t].n_rows,
            decreases n - s,
        {
            let c = &self.calibs[s];
            assert(c@ == self@.calibs[s as int]);
            let expected = c.poke().len();
            proof {
                assert(c@.wf());
                assert(c@.n_cols * c@.n_rows == c@.n_rows * c@.n_cols) by (nonlinear_arith);
            }
            let found = pinvs[s].len();
            if found != expected {
                return Err(ReconError::InverseShape { segment: s, expected, found });
            }
            s = s + 1;
        }
        self.pinvs = pinvs;
        Ok(())
    }

    /// Checks that there is one rank cap per segment.
    pub fn check_ranks(&self, ranks: &Vec<usize>) -> (r: Result<(), ReconError>)
        ensures
            r.is_ok() <==> ranks@.len() == self@.calibs.len(),
            r.is_err() ==> r == Err::<(), ReconError>(ReconError::RankCount {
                expected: self@.calibs.len() as usize,
                found: ranks@.len() as usize,
            }),
    {
        if ranks.len() == self.calibs.len() {
            Ok(())
        } else {
            Err(ReconError::RankCount { expected: self.calibs.len(), found: ranks.len() })
        }
    }

    /// For each segment, in order, the entries of `data` that its mask
    /// selects: the right-hand sides of the segments' inverse problems.
    pub fn segment_inputs(&self, data: &Vec<T>) -> (r: Vec<Vec<T>>)
        requires
            self.wf(),
            data@.len() == self@.n_channels,
        ensures
            r@.len() == self@.calibs.len(),
            forall|s: int|
                0 <= s < r@.len() ==> (#[trigger] r@[s])@ == masked(data@, self@.calibs[s].mask),
    {
        let mut r: Vec<Vec<T>> = Vec::new();
        let mut s: usize = 0;
        while s < self.calibs.len()
            invariant
                self.wf(),
                data@.len() == self@.n_channels,
                s <= self@.calibs.len(),
                r@.len() == s,
                forall|t: int|
                    0 <= t < s ==> (#[trigger] r@[t])@ == masked(data@, self@.calibs[t].mask),
            decreases self@.calibs.len() - s,
        {
            let c = &self.calibs[s];
            assert(c@ == self@.calibs[s as int]);
            r.push(gather(data, c.mask()));
            s = s + 1;
        }
        r
    }

    /// Replaces each poke-matrix entry of segment `s` by a result of `f` on
    /// it; everything else stays.
    pub fn rescale_calib<F: Fn(T) -> T>(&mut self, s: usize, f: &F)
        requires
            old(self).wf(),
            s < old(self)@.calibs.len(),
            forall|x: T| f.requires((x,)),
        ensures
            final(self).wf(),
            final(self)@.n_channels == old(self)@.n_channels,
            final(self)@.pinvs == old(self)@.pinvs,
            final(self)@.calibs.len() == old(self)@.calibs.len(),
            forall|t: int|
                0 <= t < old(self)@.calibs.len() && t != s ==> final(self)@.calibs[t] == old(
                    self,
                )@.calibs[t],
            ({
                let (a, b) = (old(self)@.calibs[s as int], final(self)@.calibs[s as int]);
                &&& b.n_rows == a.n_rows
                &&& b.n_cols == a.n_cols
                &&& b.mask == a.mask
                &&& b.mode == a.mode
                &&& b.poke.len() == a.poke.len()
                &&& forall|k: int|
                    0 <= k < a.poke.len() ==> f.ensures((a.poke[k],), #[trigger] b.poke[k])
            }),
    {
        let mut c = self.calibs.remove(s);
        c.rescale(f);
        self.calibs.insert(s, c);
        assert(self@.calibs =~= old(self)@.calibs.update(s as int, c@));
    }

    /// Scales the rows of segment `s`'s inverse: entries of the first `n_a`
    /// rows go through `fa`, the others through `fb` (a left multiplication
    /// by a diagonal matrix).
    pub fn rescale_inverse<F: Fn(T) -> T, G: Fn(T) -> T>(
        &mut self,
        s: usize,
        n_a: usize,
        fa: &F,
        fb: &G,
    )
        requires
            old(self).wf(),
            old(self)@.inverted(),
            s < old(self)@.calibs.len(),
            forall|x: T| fa.requires((x,)),
            forall|x: T| fb.requires((x,)),
        ensures
            final(self).wf(),
            final(self)@.calibs == old(self)@.calibs,
            final(self)@.n_channels == old(self)@.n_channels,
            final(self)@.pinvs.len() == old(self)@.pinvs.len(),
            forall|t: int|
                0 <= t < old(self)@.pinvs.len() && t != s ==> final(self)@.pinvs[t] == old(
                    self,
                )@.pinvs[t],
            final(self)@.pinvs[s as int].len() == old(self)@.pinvs[s as int].len(),
            forall|k: int|
                0 <= k < old(self)@.pinvs[s as int].len() ==> if old(self)@.inverse_row(s as int, k)
                    < n_a {
                    fa.ensures(
                        (old(self)@.pinvs[s as int][k],),
                        #[trigger] final(self)@.pinvs[s as int][k],
                    )
                } else {
                    fb.ensures((old(self)@.pinvs[s as int][k],), final(self)@.pinvs[s as int][k])
                },
    {
        let n = self.calibs[s].n_cols();
        let mut p = self.pinvs.remove(s);
        assert(p@ == old(self)@.pinvs[s as int]);
        if n > 0 {
            map_rows(&mut p, n, n_a, fa, fb);
        } else {
            proof {
                let c = old(self)@.calibs[s as int];
                assert(c.n_cols * c.n_rows == 0) by (nonlinear_arith)
                    requires
                        c.n_cols == 0,
                ;
            }
        }
        self.pinvs.insert(s, p);
        assert(self@.pinvs =~= old(self)@.pinvs.update(s as int, p@));
        assert(self@.calibs == old(self)@.calibs);
        assert forall|t: int| 0 <= t < self@.pinvs.len() implies (#[trigger] self@.pinvs[t]).len()
            == self@.calibs[t].n_cols * self@.calibs[t].n_rows by {
            assert(old(self)@.pinvs[t].len() == old(self)@.calibs[t].n_cols
                * old(self)@.calibs[t].n_rows);
            if t != s {
                assert(self@.pinvs[t] == old(self)@.pinvs[t]);
            }
        }
    }
}

} // verus!
