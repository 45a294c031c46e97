//! Private lookup of leaked credentials.
//!
//! A server holds a database of hashed credentials. A client learns whether
//! its own credential is in that database without showing the server which
//! row it asks for. The row is fetched with a lattice-based private
//! information retrieval scheme over the integers modulo 2^32; an oblivious
//! pseudorandom function over P-256 keys the hashes that the rows hold.
//!
//! The modules, leaves first:
//! - [`trusted`]: the calls into other crates, each with what is believed of it.
//! - [`errors`]: what the retrieval scheme reports.
//! - [`numbers`]: numbers as decimal text.
//! - [`utils`]: bit and byte codecs, vectors modulo 2^32, rounding constants.
//! - [`wire`]: the wire form of queries and responses.
//! - [`db`]: the database matrix and the parameters derived from it.
//! - [`api`]: shards, query parameters, queries and responses.
//! - [`correctness`]: why a response decodes to the row that was asked for.
//! - [`credentials`]: the credential lookup on top of the retrieval scheme: keyword
//!   tables, bucket routing, the messages and what client and server do with them.
//! - [`server`], [`client`], [`cli`]: what the programs decide from their
//!   environment, configuration and command line.
pub mod api;
pub mod credentials;
pub mod cli;
pub mod client;
pub mod correctness;
pub mod db;
pub mod errors;
pub mod numbers;
pub mod server;
pub mod trusted;
pub mod utils;
pub mod wire;
