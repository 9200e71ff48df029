//! Segment-wise calibration and reconstruction engine for a segmented mirror.
//!
//! The values that flow through the engine are of a type `T` chosen by the
//! caller. The engine decides, and proves, where each of them goes: which
//! raw channels a segment's mask selects, how joint estimates split between
//! two command spaces, where synthetic measurements accumulate, how modal
//! coefficients are padded. The dense products and pseudo-inverses on those
//! values are the caller's, made between the steps that the components
//! expose (`segment_inputs` then `store_estimates`, `segment_commands` then
//! `accumulate`, `segment_samples` then `store_coefficients`).
pub mod calib;
pub mod channels;
pub mod error;
pub mod m1_bending_modes;
pub mod mask;
pub mod merge;
pub mod pseudo_open_loop;
pub mod reconstructor;
pub mod vecs;

pub use channels::PseudoSensorData;
pub use pseudo_open_loop::PseudoOpenLoop;
