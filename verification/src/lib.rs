//! A CPU ray tracer: scenes of spheres, planes, cubes and cylinders with
//! materials, patterns and point lights; a camera that casts rays through a
//! canvas; and the shading of what the rays hit, with shadows, reflection
//! and refraction.
//!
//! # The scalar
//!
//! The matrices, and everything built on them, are generic over the scalar
//! `T`. The four operators and the comparisons are those of `std::ops` and
//! `std::cmp`; the constants come from `From<i8>`; square roots and the like
//! come from [`primitives::scalar::Elementary`], which the user of the
//! library implements for the number type of their choice.
//!
//! A contract speaks of a scalar through the spec functions that vstd
//! attaches to the operators (`add_spec`, `is_lt`, ...):
//!
//! - what a function *needs* is that its operators can be applied: either
//!   they are total (`total_add` and the like, as the operators of floating
//!   point numbers are), or they are specified and no step goes beyond what
//!   they allow (no overflow of a machine integer);
//! - what a function *returns* is stated where the operators are specified
//!   (`obeys_add_spec` and the like). For a number type whose operators
//!   vstd leaves open, a contract then fixes the shape of the result, that
//!   the function returns at all, and nothing of the values.
//!
//! Of the elementary functions nothing is assumed. Where a result depends on
//! one, the contract names it as "what `sqrt` returned" and states the rest.
//!
//! # The modules
//!
//! - [`utils`]: type-level numbers, clamping, line wrapping, numbers as text;
//! - [`primitives`]: matrices, vectors, transformations, rays, colours, the
//!   canvas;
//! - [`shapes`]: shapes, intersections, and what shading needs to know of a
//!   hit;
//! - [`shading`]: materials, patterns, lights;
//! - [`scenes`]: the world and the camera.
#![allow(dead_code)]
#![allow(unused_imports)]

pub mod primitives;
pub mod scenes;
pub mod shading;
pub mod shapes;
pub mod utils;
