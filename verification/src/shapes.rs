//! Shapes and what a ray has in common with them.
pub mod cube;
pub mod cylinder;
pub mod intersection;
pub mod plane;
pub mod precomp;
pub mod prelude;
pub mod render;
pub mod sphere;

pub use intersection::{Intersection, Intersections};
pub use precomp::PreComp;
pub use prelude::{Placement, Shape, ShapeKind};
