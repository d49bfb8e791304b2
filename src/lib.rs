//! A declarative diagram-construction kernel: shapes with named anchor
//! points, multi-segment paths with cursor tracking, and arrow routing.
//!
//! Coordinates are fixed-point numbers (see [`scalar`]), so that every
//! geometric statement below is exact and checked by the verifier.

pub mod anchor;
pub mod arrow;
pub mod attributes;
pub mod elements;
pub mod keys;
pub mod path;
pub mod scalar;
pub mod style;
pub mod text;
pub mod trig;

pub use scalar::{Scalar, Vector2};
