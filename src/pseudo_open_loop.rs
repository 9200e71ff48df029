//! Synthetic sensor data from commands, through the un-inverted poke
//! matrices, for open-loop testing.
use vstd::prelude::*;

use crate::error::ReconError;
use crate::mask::{rank, scatter_add, scatter_added};
use crate::reconstructor::{masks_of, Reconstructor, ReconstructorView};

verus! {

/// Commands per segment in a command vector: the six rigid-body motions.
pub const COMMAND_CHUNK: usize = 6;

/// `chain` lists the buffer before the first segment's values are added,
/// then after each segment's, in segment order; each addition is a result of
/// `combine`.
pub open spec fn is_chain<T, F: Fn(T, T) -> T>(
    combine: F,
    chain: Seq<Seq<T>>,
    masks: Seq<Seq<bool>>,
    ys: Seq<Seq<T>>,
) -> bool {
    &&& chain.len() == ys.len() + 1
    &&& forall|s: int|
        0 <= s < ys.len() ==> scatter_added(combine, chain[s], masks[s], #[trigger] ys[s], chain[s + 1])
}

/// `after` is `before` with the synthetic values `ys` of every segment, in
/// segment order, added at the channels that the segment's mask selects:
/// each addition is a result of `combine`.
pub open spec fn accumulated<T, F: Fn(T, T) -> T>(
    combine: F,
    before: Seq<T>,
    masks: Seq<Seq<bool>>,
    ys: Seq<Seq<T>>,
    after: Seq<T>,
) -> bool {
    exists|chain: Seq<Seq<T>>|
        #[trigger] is_chain(combine, chain, masks, ys) && chain[0] == before && chain.last() == after
}

/// Per-channel sums of `x` and `y` under `plus`, for a mask and its values.
pub open spec fn added_at<T>(plus: spec_fn(T, T) -> T, x: Seq<T>, m: Seq<bool>, y: Seq<T>) -> Seq<T> {
    Seq::new(
        x.len(),
        |i: int|
            if i < m.len() && m[i] {
                plus(x[i], y[rank(m, i) as int])
            } else {
                x[i]
            },
    )
}

/// Accumulation of `ys` into `x` under an exact addition `plus`.
pub open spec fn sum_into<T>(
    plus: spec_fn(T, T) -> T,
    x: Seq<T>,
    masks: Seq<Seq<bool>>,
    ys: Seq<Seq<T>>,
) -> Seq<T>
    decreases ys.len(),
{
    if ys.len() == 0 {
        x
    } else {
        added_at(plus, sum_into(plus, x, masks, ys.drop_last()), masks[ys.len() - 1], ys.last())
    }
}

proof fn lemma_chain_is_sum<T, F: Fn(T, T) -> T>(
    combine: F,
    plus: spec_fn(T, T) -> T,
    chain: Seq<Seq<T>>,
    masks: Seq<Seq<bool>>,
    ys: Seq<Seq<T>>,
    k: int,
)
    requires
        forall|a: T, b: T, c: T| combine.ensures((a, b), c) ==> c == plus(a, b),
        is_chain(combine, chain, masks, ys),
        0 <= k <= ys.len(),
    ensures
        chain[k] == sum_into(plus, chain[0], masks, ys.take(k)),
    decreases k,
{
    if k > 0 {
        lemma_chain_is_sum(combine, plus, chain, masks, ys, k - 1);
        let t = ys.take(k);
        assert(t.drop_last() =~= ys.take(k - 1));
        let before = chain[k - 1];
        let after = chain[k];
        let m = masks[k - 1];
        let y = ys[k - 1];
        assert(scatter_added(combine, before, m, y, after));
        assert forall|i: int| 0 <= i < after.len() implies after[i] == added_at(plus, before, m, y)[i] by {
            if i < m.len() && m[i] {
                assert(combine.ensures((before[i], y[rank(m, i) as int]), after[i]));
            }
        }
        assert(after =~= added_at(plus, before, m, y));
    } else {
        assert(ys.take(0) =~= Seq::<Seq<T>>::empty());
    }
}

proof fn lemma_accumulated_is_sum<T, F: Fn(T, T) -> T>(
    combine: F,
    plus: spec_fn(T, T) -> T,
    before: Seq<T>,
    masks: Seq<Seq<bool>>,
    ys: Seq<Seq<T>>,
    after: Seq<T>,
)
    requires
        forall|a: T, b: T, c: T| combine.ensures((a, b), c) ==> c == plus(a, b),
        accumulated(combine, before, masks, ys, after),
    ensures
        after == sum_into(plus, before, masks, ys),
{
    let chain = choose|chain: Seq<Seq<T>>|
        #[trigger] is_chain(combine, chain, masks, ys) && chain[0] == before && chain.last() == after;
    lemma_chain_is_sum(combine, plus, chain, masks, ys, ys.len() as int);
    assert(ys.take(ys.len() as int) =~= ys);
}

proof fn lemma_sum_len<T>(
    plus: spec_fn(T, T) -> T,
    x: Seq<T>,
    masks: Seq<Seq<bool>>,
    ys: Seq<Seq<T>>,
)
    ensures
        sum_into(plus, x, masks, ys).len() == x.len(),
    decreases ys.len(),
{
    if ys.len() > 0 {
        lemma_sum_len(plus, x, masks, ys.drop_last());
    }
}

proof fn lemma_sum_splits<T>(
    plus: spec_fn(T, T) -> T,
    zero: T,
    x: Seq<T>,
    masks: Seq<Seq<bool>>,
    ys: Seq<Seq<T>>,
)
    requires
        forall|a: T| #[trigger] plus(zero, a) == a,
        forall|a: T| #[trigger] plus(a, zero) == a,
        forall|a: T, b: T, c: T| #[trigger] plus(plus(a, b), c) == plus(a, plus(b, c)),
    ensures
        sum_into(plus, x, masks, ys).len() == x.len(),
        forall|i: int|
            0 <= i < x.len() ==> #[trigger] sum_into(plus, x, masks, ys)[i] == plus(
                x[i],
                sum_into(plus, Seq::new(x.len(), |j: int| zero), masks, ys)[i],
            ),
    decreases ys.len(),
{
    let z = Seq::new(x.len(), |j: int| zero);
    if ys.len() > 0 {
        lemma_sum_splits(plus, zero, x, masks, ys.drop_last());
        let m = masks[ys.len() - 1];
        let y = ys.last();
        let px = sum_into(plus, x, masks, ys.drop_last());
        let pz = sum_into(plus, z, masks, ys.drop_last());
        lemma_sum_len(plus, x, masks, ys);
        lemma_sum_len(plus, z, masks, ys);
        lemma_sum_len(plus, x, masks, ys.drop_last());
        lemma_sum_len(plus, z, masks, ys.drop_last());
        assert(sum_into(plus, x, masks, ys) == added_at(plus, px, m, y));
        assert(sum_into(plus, z, masks, ys) == added_at(plus, pz, m, y));
        assert forall|i: int| 0 <= i < x.len() implies #[trigger] sum_into(plus, x, masks, ys)[i]
            == plus(x[i], sum_into(plus, z, masks, ys)[i]) by {
            assert(px[i] == plus(x[i], pz[i]));
            if i < m.len() && m[i] {
                assert(plus(plus(x[i], pz[i]), y[rank(m, i) as int]) == plus(
                    x[i],
                    plus(pz[i], y[rank(m, i) as int]),
                ));
            }
        }
    }
}

/// Accumulation is additive: starting from a buffer of zeros, accumulating
/// the synthetic values of a first command and then those of a second one
/// leaves, at every channel, the sum of the buffers that each command
/// accumulates alone — for any `combine` that is an exact, associative
/// addition `plus` with identity `zero`.
pub proof fn lemma_accumulation_additive<T, F: Fn(T, T) -> T>(
    combine: F,
    plus: spec_fn(T, T) -> T,
    zero: T,
    n: nat,
    masks: Seq<Seq<bool>>,
    ys1: Seq<Seq<T>>,
    ys2: Seq<Seq<T>>,
    first: Seq<T>,
    both: Seq<T>,
    alone1: Seq<T>,
    alone2: Seq<T>,
)
    requires
        forall|a: T, b: T, c: T| combine.ensures((a, b), c) ==> c == plus(a, b),
        forall|a: T| #[trigger] plus(zero, a) == a,
        forall|a: T| #[trigger] plus(a, zero) == a,
        forall|a: T, b: T, c: T| #[trigger] plus(plus(a, b), c) == plus(a, plus(b, c)),
        accumulated(combine, Seq::new(n, |i: int| zero), masks, ys1, first),
        accumulated(combine, first, masks, ys2, both),
        accumulated(combine, Seq::new(n, |i: int| zero), masks, ys1, alone1),
        accumulated(combine, Seq::new(n, |i: int| zero), masks, ys2, alone2),
    ensures
        both.len() == n,
        forall|i: int| 0 <= i < n ==> #[trigger] both[i] == plus(alone1[i], alone2[i]),
{
    let z = Seq::new(n, |i: int| zero);
    lemma_accumulated_is_sum(combine, plus, z, masks, ys1, first);
    lemma_accumulated_is_sum(combine, plus, first, masks, ys2, both);
    lemma_accumulated_is_sum(combine, plus, z, masks, ys1, alone1);
    lemma_accumulated_is_sum(combine, plus, z, masks, ys2, alone2);
    lemma_sum_splits(plus, zero, z, masks, ys1);
    lemma_sum_splits(plus, zero, first, masks, ys2);
    assert(Seq::new(first.len(), |j: int| zero) =~= z);
}

/// Mathematical content of a [`PseudoOpenLoop`].
pub struct PseudoOpenLoopView<T> {
    pub recon: ReconstructorView<T>,
    /// The last command vector read; empty before the first read.
    pub cmd: Seq<T>,
    /// The synthetic sensor data, one entry per raw channel.
    pub slopes: Seq<T>,
}

impl<T> PseudoOpenLoopView<T> {
    pub open spec fn wf(self) -> bool {
        &&& self.recon.wf()
        &&& forall|s: int|
            0 <= s < self.recon.calibs.len() ==> (#[trigger] self.recon.calibs[s]).n_cols
                <= COMMAND_CHUNK
        &&& self.slopes.len() == self.recon.n_channels
        &&& self.cmd.len() == 0 || self.cmd.len() == COMMAND_CHUNK * self.recon.calibs.len()
    }

    /// Commands of segment `s`: the first columns-many entries of its chunk.
    pub open spec fn segment_command(self, s: int) -> Seq<T> {
        self.cmd.subrange(
            COMMAND_CHUNK * s,
            COMMAND_CHUNK * s + self.recon.calibs[s].n_cols as int,
        )
    }
}

/// Emulates a sensor: adds, for a command vector, what the poke matrices
/// predict into a buffer of synthetic sensor data.
pub struct PseudoOpenLoop<T> {
    recon: Reconstructor<T>,
    cmd: Vec<T>,
    slopes: Vec<T>,
}

impl<T> View for PseudoOpenLoop<T> {
    type V = PseudoOpenLoopView<T>;

    closed spec fn view(&self) -> PseudoOpenLoopView<T> {
        PseudoOpenLoopView { recon: self.recon@, cmd: self.cmd@, slopes: self.slopes@ }
    }
}

impl<T: Copy> PseudoOpenLoop<T> {
    pub open spec fn wf(&self) -> bool {
        self@.wf()
    }

    /// Emulator of the reconstructor's calibrations, with every synthetic
    /// channel at `zero`. Fails at the first segment with more columns than
    /// a command chunk holds.
    pub fn new(recon: Reconstructor<T>, zero: T) -> (r: Result<Self, ReconError>)
        requires
            recon.wf(),
        ensures
            r.is_ok() <==> forall|s: int|
                0 <= s < recon@.calibs.len() ==> (#[trigger] recon@.calibs[s]).n_cols
                    <= COMMAND_CHUNK,
            r matches Ok(p) ==> {
                &&& p.wf()
                &&& p@.recon == recon@
                &&& p@.cmd.len() == 0
                &&& p@.slopes == Seq::new(recon@.n_channels, |i: int| zero)
            },
            match r {
                Err(ReconError::CommandWidth { segment, width }) => {
                    &&& segment < recon@.calibs.len()
                    &&& width == recon@.calibs[segment as int].n_cols
                    &&& width > COMMAND_CHUNK
                },
                Err(_) => false,
                Ok(_) => true,
            },
    {
        let n = recon.n_segments();
        let mut s: usize = 0;
        while s < n
            invariant
                recon.wf(),
                n == recon@.calibs.len(),
                s <= n,
                forall|t: int| 0 <= t < s ==> (#[trigger] recon@.calibs[t]).n_cols <= COMMAND_CHUNK,
            decreases n - s,
        {
            let width = recon.calib(s).n_cols();
            if width > COMMAND_CHUNK {
                return Err(ReconError::CommandWidth { segment: s, width });
            }
            s = s + 1;
        }
        let len = recon.n_channels();
        let mut slopes: Vec<T> = Vec::new();
        let mut i: usize = 0;
        while i < len
            invariant
                i <= len,
                slopes@ == Seq::new(i as nat, |j: int| zero),
            decreases len - i,
        {
            slopes.push(zero);
            i = i + 1;
            assert(slopes@ =~= Seq::new(i as nat, |j: int| zero));
        }
        Ok(PseudoOpenLoop { recon, cmd: Vec::new(), slopes })
    }

    /// The emulated reconstructor.
    pub fn recon(&self) -> (r: &Reconstructor<T>)
        ensures
            r@ == self@.recon,
    {
        &self.recon
    }

    /// Stores the command vector: one chunk of six commands per segment.
    /// Fails, leaving everything unchanged, on any other length.
    pub fn read_command(&mut self, cmd: Vec<T>) -> (r: Result<(), ReconError>)
        requires
            old(self).wf(),
        ensures
            final(self).wf(),
            r.is_ok() <==> cmd@.len() == COMMAND_CHUNK * old(self)@.recon.calibs.len(),
            r.is_ok() ==> final(self)@ == (PseudoOpenLoopView { cmd: cmd@, ..old(self)@ }),
            r.is_err() ==> final(self)@ == old(self)@,
            r.is_err() ==> r == Err::<(), ReconError>(
                ReconError::CommandLength {
                    segments: old(self)@.recon.calibs.len() as usize,
                    found: cmd@.len() as usize,
                },
            ),
    {
        let n = self.recon.n_segments();
        let len = cmd.len();
        if len % COMMAND_CHUNK != 0 || len / COMMAND_CHUNK != n {
            return Err(ReconError::CommandLength { segments: n, found: len });
        }
        self.cmd = cmd;
        Ok(())
    }

    /// Replaces the synthetic sensor data by externally supplied data, one
    /// entry per raw channel. Fails, leaving everything unchanged, on any
    /// other length.
    pub fn read_sensor_data(&mut self, data: Vec<T>) -> (r: Result<(), ReconError>)
        requires
            old(self).wf(),
        ensures
            final(self).wf(),
            r.is_ok() <==> data@.len() == old(self)@.recon.n_channels,
            r.is_ok() ==> final(self)@ == (PseudoOpenLoopView { slopes: data@, ..old(self)@ }),
            r.is_err() ==> final(self)@ == old(self)@ && r == Err::<(), ReconError>(
                ReconError::DataLength {
                    expected: old(self)@.recon.n_channels as usize,
                    found: data@.len() as usize,
                },
            ),
    {
        let expected = self.recon.n_channels();
        if data.len() != expected {
            return Err(ReconError::DataLength { expected, found: data.len() });
        }
        self.slopes = data;
        Ok(())
    }

    /// For each segment, in order, its commands: the first columns-many
    /// entries of its chunk of the command vector. Fails before the first
    /// command is read, unless there is no segment.
    pub fn segment_commands(&self) -> (r: Result<Vec<Vec<T>>, ReconError>)
        requires
            self.wf(),
        ensures
            r.is_ok() <==> self@.cmd.len() == COMMAND_CHUNK * self@.recon.calibs.len(),
            r matches Ok(cs) ==> {
                &&& cs@.len() == self@.recon.calibs.len()
                &&& forall|s: int|
                    0 <= s < cs@.len() ==> (#[trigger] cs@[s])@ == self@.segment_command(s)
            },
            r.is_err() ==> r == Err::<Vec<Vec<T>>, ReconError>(
                ReconError::CommandLength { segments: self@.recon.calibs.len() as usize, found: 0 },
            ),
    {
        let n = self.recon.n_segments();
        if self.cmd.len() == 0 && n > 0 {
            return Err(ReconError::CommandLength { segments: n, found: 0 });
        }
        let clen = self.cmd.len();
        let mut r: Vec<Vec<T>> = Vec::new();
        let mut s: usize = 0;
        while s < n
            invariant
                self.wf(),
                n == self@.recon.calibs.len(),
                clen == self@.cmd.len() == COMMAND_CHUNK * n,
                s <= n,
                r@.len() == s,
                forall|t: int| 0 <= t < s ==> (#[trigger] r@[t])@ == self@.segment_command(t),
            decreases n - s,
        {
            let width = self.recon.calib(s).n_cols();
            assert(width <= COMMAND_CHUNK);
            assert(COMMAND_CHUNK * s + COMMAND_CHUNK <= COMMAND_CHUNK * n) by (nonlinear_arith)
                requires
                    s < n,
            ;
            let lo = COMMAND_CHUNK * s;
            let mut c: Vec<T> = Vec::new();
            crate::vecs::extend_range(&mut c, &self.cmd, lo, lo + width);
            assert(c@ =~= self@.segment_command(s as int));
            r.push(c);
            s = s + 1;
        }
        Ok(r)
    }

    /// Adds each segment's synthetic measurements (its poke matrix times its
    /// commands, one value per selected channel) into the synthetic sensor
    /// data at the channels its mask selects, through `combine`. Nothing is
    /// cleared first. Fails, leaving everything unchanged, unless there is
    /// one vector per segment with one value per selected channel.
    pub fn accumulate<F: Fn(T, T) -> T>(&mut self, ys: &Vec<Vec<T>>, combine: &F) -> (r: Result<
        (),
        ReconError,
    >)
        requires
            old(self).wf(),
            forall|a: T, b: T| combine.requires((a, b)),
        ensures
            final(self).wf(),
            r.is_ok() <==> ys@.len() == old(self)@.recon.calibs.len() && forall|s: int|
                0 <= s < ys@.len() ==> (#[trigger] ys@[s])@.len()
                    == old(self)@.recon.calibs[s].n_rows,
            r.is_err() ==> final(self)@ == old(self)@,
            r.is_ok() ==> {
                &&& final(self)@.recon == old(self)@.recon
                &&& final(self)@.cmd == old(self)@.cmd
                &&& accumulated(
                    *combine,
                    old(self)@.slopes,
                    masks_of(old(self)@.recon),
                    ys@.map_values(|y: Vec<T>| y@),
                    final(self)@.slopes,
                )
            },
    {
        let n = self.recon.n_segments();
        if ys.len() != n {
            return Err(ReconError::DataLength { expected: n, found: ys.len() });
        }
        let mut s: usize = 0;
        while s < n
            invariant
                self.wf(),
                n == self@.recon.calibs.len() == ys@.len(),
                s <= n,
                forall|t: int| 0 <= t < s ==> (#[trigger] ys@[t])@.len() == self@.recon.calibs[t].n_rows,
            decreases n - s,
        {
            let expected = self.recon.calib(s).n_rows();
            let found = ys[s].len();
            if found != expected {
                return Err(ReconError::SegmentLength { segment: s, expected, found });
            }
            s = s + 1;
        }
        let ghost yss = ys@.map_values(|y: Vec<T>| y@);
        let ghost masks = masks_of(self@.recon);
        let ghost mut chain: Seq<Seq<T>> = seq![self.slopes@];
        let mut s: usize = 0;
        while s < n
            invariant
                self.wf(),
                self@.recon == old(self)@.recon,
                self@.cmd == old(self)@.cmd,
                n == self@.recon.calibs.len() == ys@.len(),
                yss == ys@.map_values(|y: Vec<T>| y@),
                masks == masks_of(self@.recon),
                forall|t: int| 0 <= t < n ==> (#[trigger] ys@[t])@.len() == self@.recon.calibs[t].n_rows,
                forall|a: T, b: T| combine.requires((a, b)),
                s <= n,
                is_chain(*combine, chain, masks, yss.take(s as int)),
                chain[0] == old(self)@.slopes,
                chain.last() == self@.slopes,
            decreases n - s,
        {
            let c = self.recon.calib(s);
            assert(c@.wf());
            assert(yss[s as int] == ys@[s as int]@);
            let ghost before = self.slopes@;
            scatter_add(&mut self.slopes, c.mask(), &ys[s], combine);
            proof {
                let ys_next = yss.take(s as int + 1);
                assert(ys_next.take(s as int) =~= yss.take(s as int));
                let chain_next = chain.push(self.slopes@);
                assert forall|t: int| 0 <= t < ys_next.len() implies scatter_added(
                    *combine,
                    chain_next[t],
                    masks[t],
                    #[trigger] ys_next[t],
                    chain_next[t + 1],
                ) by {
                    if t < s {
                        assert(yss.take(s as int)[t] == ys_next[t]);
                    }
                }
                chain = chain_next;
            }
            s = s + 1;
        }
        assert(yss.take(n as int) =~= yss);
        Ok(())
    }

    /// The synthetic sensor data.
    pub fn write(&self) -> (r: &Vec<T>)
        ensures
            r@ == self@.slopes,
    {
        &self.slopes
    }
}

} // verus!
