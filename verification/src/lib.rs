//! Derivation of arbitrary-bit-length random integers from camera sensor
//! noise.
//!
//! The crate contains the computational core of a hardware-noise random
//! number source: sizing how many frames a capture device must deliver for a
//! requested bit length, mixing consecutive equal-shaped pixel buffers into a
//! bitstream of `'0'`/`'1'` characters, trimming that stream, and converting
//! it into an unbounded-precision unsigned integer rendered in decimal.
//! Frame acquisition itself (device selection, stream lifecycle, decoding) is
//! left to the caller, which hands the core a batch of equal-length byte
//! buffers.

pub mod bignum;
pub mod bits;
pub mod errors;
pub mod estimator;
pub mod mixer;
pub mod pipeline;
pub mod planner;
