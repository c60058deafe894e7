//! Small helpers of the load balancer.
pub mod webserver;
