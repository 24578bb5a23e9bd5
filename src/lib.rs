//! A small HTTP/1.1 message model: request parsing and response
//! serialisation, with contracts over the character and byte sequences
//! involved.
pub mod error;
pub mod http;
pub mod laws;
pub mod text;
