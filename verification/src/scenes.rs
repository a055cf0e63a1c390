//! Scenes and the camera that looks at them.
pub mod camera;
pub mod world;

pub use camera::Camera;
pub use world::World;
