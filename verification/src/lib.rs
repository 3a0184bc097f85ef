//! Host-side core of a frame-pipelined gravitational N-body simulator.
//!
//! The GPU does the heavy lifting (mass rasterization, force evaluation and
//! rendering run as device programs); this crate owns the logic that decides
//! what the device is asked to do and proves it correct:
//!
//! - the per-frame scheduling protocol: which submission waits on which
//!   semaphore, how frame slots rotate, and how the bootstrap frame avoids
//!   waiting on signals that were never sent;
//! - the geometry of the multi-resolution mass-field pyramid;
//! - a reference model of mass accumulation, downsampling and the
//!   velocity/position update, in fixed-point arithmetic, with its
//!   conservation and symmetry laws;
//! - the surface rebuild protocol and its idempotence.

pub mod field;
pub mod gravity;
pub mod lifecycle;
pub mod params;
pub mod particle;
pub mod pyramid;
pub mod scheduler;
pub mod sim;
pub mod sums;
pub mod symmetry;
