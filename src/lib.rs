//! Fixed-shape dense matrices stored column-major, with generic arithmetic and the
//! packaging around a dense linear-algebra backend: argument validation, pivot sizing,
//! status classification and the compact LU layout.

pub mod backend;
pub mod factorizations;
pub mod matrix;
pub mod regular;
pub mod solve;

pub use matrix::general::GeneralMatrix;
pub use matrix::AsMatrix;
