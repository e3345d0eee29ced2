//! An n-body gravity simulation core: a bootstrap state machine that gates
//! simulation start on asynchronously loaded body definitions, and a
//! two-phase kinetics engine (velocity accumulation, then position
//! integration) over an arena of bodies.
//!
//! All quantities are fixed-point integers; the caller chooses the scale.

pub mod kinetics;
pub mod laws;
pub mod math;
pub mod planet;
pub mod vec3;
