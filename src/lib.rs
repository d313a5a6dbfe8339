//! A search for vanity X25519 key pairs: keys whose public half, written in
//! standard Base64, starts or ends with a chosen literal.
pub mod config;
pub mod coordination;
pub mod encoding;
pub mod keygen;
pub mod lines;
pub mod magnitude;
pub mod pattern;
pub mod search;
