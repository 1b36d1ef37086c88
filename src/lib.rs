//! Sampled functions of one variable on a one-dimensional grid, with
//! element-wise arithmetic and first-derivative approximations by finite
//! differences.
//!
//! The library is generic over the sample type `T`. The arithmetic on samples
//! (a sum, a difference quotient, a grid point's coordinate) is handed in as a
//! closure, and every contract states the result in terms of what that closure
//! returns. What the library itself decides, and proves, is the structure
//! around it: how many points a grid has, which samples are paired, which
//! neighbours each derivative value is taken from.
pub mod grid;
pub mod numerical_differentiation_algorithms;
