//! Automatic TLS through ACME challenges, coordinated in a cluster.
pub mod acme;
pub mod challenges;
pub mod cluster;
pub mod consensus;
pub mod discovery;
pub mod session;
