//! Core logic of a Monte Carlo renderer: the cycle-synchronised work
//! scheduler that drives the rendering threads, the per-pixel statistical
//! accumulators and the film grid they form, the scene's emissive-object
//! bookkeeping, and the discrete decision rules of the bidirectional path
//! tracer.
//!
//! The floating-point geometry and shading kernels that surround this core
//! live outside the library; everything here is verified.

pub mod accum;
pub mod bdpt;
pub mod image;
pub mod manager;
pub mod renderer;
pub mod scene;
pub mod util;
