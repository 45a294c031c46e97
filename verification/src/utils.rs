//! Conventions of the retrieval scheme: rounding constants, vectors and
//! matrices modulo 2^32, and the little-endian bit and byte codecs.
pub mod format;
pub mod lwe;
pub mod matrices;
