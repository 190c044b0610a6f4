//! Procedural pixel-buffer generation for a host-controlled raster surface.
//!
//! The library renders a full `width x height` RGBA frame per call, either as
//! an animated plaid driven by a triangular wave over the pixel coordinates
//! and a frame counter, or as a flat fill of a fixed colour. Two storage
//! layouts are offered: four interleaved bytes per pixel, or one packed
//! 32-bit word per pixel. Every fill is a pure function of its inputs; the
//! exact contents of the produced buffer are pinned down by the spec-level
//! models in [`model`].

pub mod kernel;
pub mod model;
pub mod pattern;
pub mod solid;
pub mod laws;
