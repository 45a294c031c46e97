//! The calls that leave this library.
//!
//! Each item here states what an outside function does and is believed, not
//! proved. The verified modules rest on these statements and on nothing else
//! that is unproved.
pub mod digest;
pub mod oprf;
pub mod random;
pub mod text;
pub mod wire;
