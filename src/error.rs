//! Configuration and programming errors reported by the engine.
use vstd::prelude::*;

verus! {

/// A calibration, an inverse or a runtime buffer whose shape does not fit.
#[derive(Clone, Copy, Debug, PartialEq, Eq, Structural)]
pub enum ReconError {
    /// A poke matrix does not hold rows × columns entries, its rows being
    /// the `true` entries of its mask.
    PokeShape { rows: usize, cols: usize, found: usize },
    /// The masks of two segments do not cover the same raw channels.
    MaskLength { segment: usize, expected: usize, found: usize },
    /// As many inverses as segments are needed.
    InverseCount { expected: usize, found: usize },
    /// An inverse is not shaped as the transpose of its poke matrix.
    InverseShape { segment: usize, expected: usize, found: usize },
    /// One rank cap per segment is needed.
    RankCount { expected: usize, found: usize },
    /// A runtime vector whose length disagrees with the segment layout.
    DataLength { expected: usize, found: usize },
    /// A command vector that is not one chunk of commands per segment.
    CommandLength { segments: usize, found: usize },
    /// A per-segment vector whose length disagrees with that segment.
    SegmentLength { segment: usize, expected: usize, found: usize },
    /// A segment takes more commands than a command chunk holds.
    CommandWidth { segment: usize, width: usize },
    /// A modal basis that does not hold samples × modes entries.
    BasisShape { segment: usize, samples: usize, modes: usize, found: usize },
    /// A modal basis with more modes than the output width.
    ModeCount { segment: usize, width: usize },
}

/// Errors of the joint (merged) reconstructor.
#[derive(Clone, Copy, Debug, PartialEq, Eq, Structural)]
pub enum MergeError {
    /// The two reconstructors do not have the same number of segments.
    SegmentCount { a: usize, b: usize },
    /// The two poke matrices of a segment do not have the same rows.
    DimensionMismatch { segment: usize, rows_a: usize, rows_b: usize },
    /// The two masks of a segment do not select the same channels.
    MaskMismatch { segment: usize },
    /// Only split estimates 0 (first space) and 1 (second space) exist.
    UndefinedSplit { index: usize },
    /// A shape error of the underlying reconstructor.
    Recon(ReconError),
}

} // verus!
