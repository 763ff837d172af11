//! Watertightness checking for triangle meshes.
//!
//! A triangulated surface is watertight when every probe ray cast from just
//! outside a face crosses the surface an even number of times. This crate
//! holds the decision core of that check: the total order and exact equality
//! on coordinate vectors, the binary STL layout, sorting of intersection
//! points along a ray, detection of duplicated (degenerate) hits, the
//! bounded perturbation-retry cascade, and the per-triangle parity verdict.
//!
//! Coordinates are carried as the 32-bit patterns of IEEE-754 single
//! precision values. Floating-point arithmetic itself (vector algebra and
//! the ray/triangle hit test) lives with the caller, which hands the raw
//! candidate hit lists to [`intersections`] and [`checker`].

pub mod checker;
pub mod errors;
pub mod intersections;
pub mod scalar;
pub mod stl;
pub mod triangle;
pub mod vector;
