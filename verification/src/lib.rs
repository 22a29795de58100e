//! An in-memory store for a set of unique strings, together with the
//! line-oriented request/response protocol that drives it: a decoder that
//! turns one raw request into method, path and optional body, a dispatcher
//! that maps (method, path) onto the store's operations, and an encoder that
//! builds the complete wire-format reply.

pub mod decode;
pub mod dispatch;
pub mod encode;
pub mod laws;
pub mod records;
pub mod store;
pub mod text;
