//! Materials, patterns and lights.
pub mod builtin_materials;
pub mod builtin_patterns;
pub mod lights;
pub mod material;
pub mod pattern;

pub use crate::primitives::pixel::Color;
pub use lights::PointLight;
pub use material::Material;
pub use pattern::Pattern;
