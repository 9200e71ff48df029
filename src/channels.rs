//! Identifiers of the data that the components exchange, and of the scope
//! channels that display them.
use vstd::prelude::*;

verus! {

/// Rigid-body motions of M2 as estimated from the SH48 sensor.
#[derive(Clone, Copy, Debug, PartialEq, Eq, Structural)]
pub enum M2RBMasSH48 {
    /// The six rigid-body motions of each M2 segment.
    RigidBodyMotions,
}

/// Mount motion as estimated from the sensors.
#[derive(Clone, Copy, Debug, PartialEq, Eq, Structural)]
pub enum MountEstimate {
    /// Mount axes, as the mount encoders read them.
    Encoders,
}

/// Sensor data synthesized by a pseudo open loop.
#[derive(Clone, Copy, Debug, PartialEq, Eq, Structural)]
pub enum PseudoSensorData {
    /// Sensor slopes, one per raw channel.
    Slopes,
}

/// One of the two split estimates of a joint reconstructor.
#[derive(Clone, Copy, Debug, PartialEq, Eq, Structural)]
pub enum SplitEstimate {
    /// The estimate in the first command space, index 0.
    First,
    /// The estimate in the second command space, index 1.
    Second,
}

impl SplitEstimate {
    /// Index of the split estimate.
    pub fn index(&self) -> (r: usize)
        ensures
            r == (match self {
                SplitEstimate::First => 0usize,
                SplitEstimate::Second => 1usize,
            }),
    {
        match self {
            SplitEstimate::First => 0,
            SplitEstimate::Second => 1,
        }
    }

    /// Split estimate of index `i`, if any: only 0 and 1 exist.
    pub fn from_index(i: usize) -> (r: Option<SplitEstimate>)
        ensures
            i == 0 ==> r == Some(SplitEstimate::First),
            i == 1 ==> r == Some(SplitEstimate::Second),
            i > 1 ==> r.is_none(),
    {
        if i == 0 {
            Some(SplitEstimate::First)
        } else if i == 1 {
            Some(SplitEstimate::Second)
        } else {
            None
        }
    }
}

/// Port of the M1 segment piston scope, in nanometers.
pub const M1_SEGMENT_PISTON_PORT: u16 = 5001;

/// Port of the M2 segment piston scope, in nanometers.
pub const M2_SEGMENT_PISTON_PORT: u16 = 5002;

/// Port of the M1 segment tip-tilt scope, in milli-arcseconds.
pub const M1_SEGMENT_TIP_TILT_PORT: u16 = 5003;

/// Port of the M2 segment tip-tilt scope, in milli-arcseconds.
pub const M2_SEGMENT_TIP_TILT_PORT: u16 = 5004;

/// Segment piston due to M1, in nanometers.
#[derive(Clone, Copy, Debug, PartialEq, Eq, Structural)]
pub enum M1SegmentPiston {
    /// Values in nanometers.
    Nanometers,
}

/// Segment piston due to M2, in nanometers.
#[derive(Clone, Copy, Debug, PartialEq, Eq, Structural)]
pub enum M2SegmentPiston {
    /// Values in nanometers.
    Nanometers,
}

/// Segment tip-tilt due to M1, in milli-arcseconds.
#[derive(Clone, Copy, Debug, PartialEq, Eq, Structural)]
pub enum M1SegmentTipTilt {
    /// Values in milli-arcseconds.
    MilliArcseconds,
}

/// Segment tip-tilt due to M2, in milli-arcseconds.
#[derive(Clone, Copy, Debug, PartialEq, Eq, Structural)]
pub enum M2SegmentTipTilt {
    /// Values in milli-arcseconds.
    MilliArcseconds,
}

/// Scopes of the on-axis optical quality.
#[derive(Clone, Copy, Debug, PartialEq, Eq, Structural)]
pub enum OnAxisScopes {
    /// Wavefront error rms, overall and per segment, in nanometers.
    WfeRms,
    /// Segment piston, in nanometers.
    SegmentPiston,
    /// Tip-tilt, overall and per segment, in milli-arcseconds.
    TipTilt,
}

/// Scopes of the optical effect of M1.
#[derive(Clone, Copy, Debug, PartialEq, Eq, Structural)]
pub enum M1Scopes {
    /// The [`M1SegmentPiston`] channel.
    Piston,
    /// The [`M1SegmentTipTilt`] channel.
    TipTilt,
}

/// Scopes of the optical effect of M2.
#[derive(Clone, Copy, Debug, PartialEq, Eq, Structural)]
pub enum M2Scopes {
    /// The [`M2SegmentPiston`] channel.
    Piston,
    /// The [`M2SegmentTipTilt`] channel.
    TipTilt,
}

/// Scopes of the mount.
#[derive(Clone, Copy, Debug, PartialEq, Eq, Structural)]
pub enum MountScopes {
    /// Average of the mount encoders, in milli-arcseconds.
    AverageMountEncoders,
}

impl M1Scopes {
    /// Port that the scope's data is served on.
    pub fn port(&self) -> (r: u16)
        ensures
            r == (match self {
                M1Scopes::Piston => M1_SEGMENT_PISTON_PORT,
                M1Scopes::TipTilt => M1_SEGMENT_TIP_TILT_PORT,
            }),
    {
        match self {
            M1Scopes::Piston => M1_SEGMENT_PISTON_PORT,
            M1Scopes::TipTilt => M1_SEGMENT_TIP_TILT_PORT,
        }
    }
}

impl M2Scopes {
    /// Port that the scope's data is served on.
    pub fn port(&self) -> (r: u16)
        ensures
            r == (match self {
                M2Scopes::Piston => M2_SEGMENT_PISTON_PORT,
                M2Scopes::TipTilt => M2_SEGMENT_TIP_TILT_PORT,
            }),
    {
        match self {
            M2Scopes::Piston => M2_SEGMENT_PISTON_PORT,
            M2Scopes::TipTilt => M2_SEGMENT_TIP_TILT_PORT,
        }
    }
}

} // verus!
