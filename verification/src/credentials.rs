//! The credential lookup: what a client and a server run on top of the
//! retrieval scheme to tell whether a credential is in a leak.
pub mod api;
pub mod errors;
pub mod keyword;
pub mod rpc;
pub mod utils;
