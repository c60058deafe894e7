//! Rule matching, request rewriting and helper logic of the tunneload
//! load balancer, with machine-checked contracts.
#![allow(unused_imports)]

pub mod text;
pub mod tls;
pub mod util;
pub mod encoding;
pub mod http;
pub mod http_head;
pub mod metrics;
pub mod plugins;
pub mod rules;
pub mod shared;
pub mod websockets;
