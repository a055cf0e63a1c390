//! Matrices whose dimensions are types.
pub mod amath;
pub mod arithmetic;
pub mod iter;
pub mod laws;
pub mod prelude;
pub mod text;

pub use prelude::Matrix;
