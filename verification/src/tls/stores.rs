//! Where certificates are kept.
pub mod files;
