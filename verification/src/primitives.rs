//! Linear algebra and the other building blocks of a scene.
pub mod approx_eq;
pub mod canvas;
pub mod matrix;
pub mod pixel;
pub mod ray;
pub mod scalar;
pub mod tmatrix;
pub mod transformation_matrices;
pub mod vector;
