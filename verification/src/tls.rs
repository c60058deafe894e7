//! TLS: automatic certificates and their storage.
pub mod auto;
pub mod stores;
