//! A verified wrapper for dense, row-major grids of double-precision
//! numbers.
//!
//! A `Matrix` owns its storage outright and carries its shape beside it,
//! so every element access is bounds-checked against the shape given at
//! allocation time, a multiply is checked for conformable shapes, and
//! double release is impossible by construction (the storage has exactly
//! one owner and no handle ever leaves the wrapper).
//!
//! Element values are carried as IEEE-754 bit patterns (`u64`): the
//! shape, bounds, storage and layout logic is verified, while the
//! floating-point arithmetic itself stays behind trusted wrappers around
//! a software IEEE-754 implementation.

pub mod scalar;
pub mod matrix;
pub mod render;

pub use matrix::Matrix;
pub use matrix::MatrixError;
