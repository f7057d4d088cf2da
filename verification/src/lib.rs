//! The Data Encryption Standard on a single 64-bit block.
//!
//! A block and a key are `u64` values; a field narrower than 64 bits sits
//! right-aligned in its register with the bits above it clear. The cipher is
//! stated as spec functions in [`model`], computed by the functions of
//! [`encrypt`], and its laws are proved in [`laws`].

pub mod binary_pads;
pub mod bits;
pub mod permutation_tables;
pub mod model;
pub mod encrypt;
pub mod logging;
pub mod laws;
pub mod hex;
