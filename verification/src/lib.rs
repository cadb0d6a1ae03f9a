//! Bootstrap logic for a remote binary-cache upload session.
//!
//! The library resolves credentials for a metadata server and a cache server
//! from a netrc-style credential file, derives the caller's cache namespace
//! from the metadata server's response, negotiates the cache configuration,
//! and plans a long-lived push session.  All decisions are made here, on
//! plain values; the surrounding program performs the file and network I/O
//! and feeds each response back in.

pub mod bootstrap;
pub mod enqueue;
pub mod error;
pub mod json;
pub mod netrc;
pub mod text;
pub mod uuid;
