//! Transport of per-entity outline parameters across the simulation/render
//! boundary of a staged renderer.
//!
//! Each frame, simulation entities carrying animation or deformation
//! parameters are extracted into render-side, GPU-shaped uniform records,
//! packed into one dynamically indexed uniform buffer with stride-aligned
//! per-entity slots, and published together with a frame-tagged bind group;
//! per-draw binding then looks up the entity's dynamic offset and records a
//! set-bind-group command.  Floating-point parameter values travel as the
//! bit patterns of 32-bit IEEE-754 words: the pipeline copies and packs
//! them, it never does arithmetic on them.

pub mod uniform;
pub mod store;
pub mod extract;
pub mod prepare;
pub mod bind;
pub mod binder;
pub mod frame;
