//! A set of unsigned integers kept as a vector of bits: the value `i` is a
//! member exactly when bit `i` of the backing [`vob::Vob`] is set.

pub mod bits;
pub mod laws;
pub mod sob;
pub mod storage;

pub use sob::Sob;
