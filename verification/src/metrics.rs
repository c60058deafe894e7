//! Exposing the load balancer's metrics over HTTP.
pub mod endpoint;
