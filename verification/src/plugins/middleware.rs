//! Middleware plugins.
pub mod exec_env;
