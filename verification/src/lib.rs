//! Arbitrary-precision naturals with a declared, stable limb count.
pub mod biguint;
pub mod bitwise;
pub mod bytes;
pub mod cios;
pub mod division;
pub mod encoding;
pub mod fixed_width;
pub mod laws;
pub mod limbs;
pub mod model;
pub mod numeric;
pub mod ops;
pub mod positional;
pub mod rows;
pub mod text;

pub use biguint::BigUint;
pub use fixed_width::FixedWidthBigUint;
