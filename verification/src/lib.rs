//! Morphing of vector-path outlines.
//!
//! The crate interpolates one path (an ordered sequence of drawing commands)
//! toward a target path, point by point, and reports when every point of the
//! result lies within a caller-chosen margin of its target.  Paths of unequal
//! command counts are reconciled by padding the shorter side before the
//! pointwise interpolation, so a polygon can grow or shrink its vertex count
//! while it morphs.
//!
//! Coordinates are fixed-point integers: the host picks a scale (say 256
//! sub-units per drawing unit) and converts once at its edge.  The
//! interpolation factor is a rational in `[0, 1]`, and convergence is judged
//! by squared Euclidean distance, so every computation here is exact.

pub mod laws;
pub mod lerp;
pub mod path;
pub mod point;
