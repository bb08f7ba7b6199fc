//! A grid raycaster in integer arithmetic.
//!
//! Lengths are integers in a unit of the caller's choice (a finer unit gives
//! finer hit points). Angles are integers in thousandths of a degree.
//! Cosines and sines are fixed-point values scaled by `TRIG_ONE`; the caller
//! supplies them, so that nothing here depends on how they were computed.

pub mod fixed;
pub mod angle;
pub mod grid;
pub mod march;
pub mod raycast;
pub mod sweep;
pub mod reach;
pub mod accuracy;
pub mod projector;
pub mod player;
pub mod frame;
pub mod minimap;
