//! What the load balancer does around its WebAssembly plugins.
pub mod acceptor;
pub mod action;
pub mod loader;
pub mod middleware;
