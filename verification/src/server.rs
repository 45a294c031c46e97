//! What the server decides before it serves: its configuration, and how it
//! prepares its buckets.
pub mod configs;
pub mod frodopir;
