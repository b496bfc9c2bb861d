//! Digital-waveguide simulation of a horn-shaped acoustic resonator.
//!
//! A configuration (horn length, throat/mouth radius, flare curvature,
//! damping, throat-transition coupling, crossover frequency, output gain)
//! is translated into a per-segment acoustic impedance profile, junction
//! reflection coefficients and filter coefficients. A per-sample engine
//! then propagates forward/backward traveling waves through the horn,
//! applies boundary filters at throat and mouth, and recombines the
//! transmitted high band with a delay-compensated low-band bypass.
//!
//! All signal values and physical quantities are Q16.16 fixed-point
//! numbers carried in `i64`, so that every arithmetic step has an exact
//! integer-level specification. Saturation replaces overflow: output is
//! always bounded, and no operation in the hot path can fail.
//!
//! [`context::Context`] is the parameter-driven engine: it caches a
//! configuration, recomputes the profile only on drift beyond per-field
//! tolerances, and processes interleaved blocks in place.
//! [`horn::HornResonatorPlus`] is the setter-driven variant, whose
//! reflection and filter coefficients are supplied directly.
//! [`waveguide::process_waveguide`] is the bare scattering pass over
//! one pair of wave buffers.

pub mod fixed;
pub mod fxmath;
pub mod params;
pub mod waveguide;
pub mod context;
pub mod horn;

pub use fixed::Fx;
