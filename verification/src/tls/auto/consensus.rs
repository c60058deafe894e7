//! The replicated state of the ACME challenges: the entries of the log and
//! the state machine that applies them.
use vstd::prelude::*;

pub mod network;
pub mod state_machine;

verus! {

/// What an entry of the log asks for.
#[derive(Debug)]
pub enum Action {
    /// The certificate of the domain is missing.
    MissingCert,
    /// The data that proves the ownership of the domain: pairs of token and
    /// key.
    VerifyingData(Vec<(String, String)>),
    /// The challenge of the domain failed.
    Failed,
    /// The challenge of the domain is done.
    Finish,
}

/// An entry of the log: an action for a domain.
#[derive(Debug)]
pub struct Request {
    /// The domain.
    pub domain_name: String,
    /// The action.
    pub action: Action,
}

/// The answer to an applied entry.
#[derive(Debug)]
pub struct Response {}

} // verus!
