//! Routing rules: matchers, their parser, services and actions.
pub mod action;
pub mod matcher;
pub mod middleware;
pub mod middleware_list;
pub mod parser;
pub mod rule;
pub mod rule_list;
pub mod service;
