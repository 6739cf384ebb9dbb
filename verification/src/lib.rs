//! Verified decision logic for a small numerical-methods toolkit.
//!
//! Floating-point evaluation itself cannot be verified, so this library
//! holds the exact, discrete parts of the toolkit: the Euclidean
//! greatest-common-divisor helper, the coefficient rule of composite
//! Simpson quadrature, the quadrant sign correction of the CORDIC
//! rotation algorithm, and the digit-level decision behind decimal
//! rounding.

pub mod arithmetic;
pub mod cordic;
pub mod integration;
