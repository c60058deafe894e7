//! The requests that the nodes of the cluster agree on.
use vstd::prelude::*;

pub mod network;
pub mod storage;

verus! {

/// A single action of a cluster request.
#[derive(Debug)]
pub enum ClusterAction {
    /// The certificate of the domain is missing, and the leader should
    /// start to get one.
    MissingCert,
    /// Data that proves the ownership of the domain: pairs of token and key.
    AddVerifyingData(Vec<(String, String)>),
    /// The verifying data of the domain is no longer in use.
    RemoveVerifyingData,
}

/// A request to perform an action in the cluster.
#[derive(Debug)]
pub struct ClusterRequest {
    domain: String,
    action: ClusterAction,
}

impl ClusterRequest {
    /// The domain of the request.
    pub closed spec fn spec_domain(&self) -> Seq<char> {
        self.domain@
    }

    /// The action of the request.
    pub closed spec fn spec_action(&self) -> ClusterAction {
        self.action
    }

    /// Creates the request for an action on a domain.
    pub fn new(domain: String, action: ClusterAction) -> (res: Self)
        ensures
            res.spec_domain() == domain@,
            res.spec_action() == action,
    {
        Self { domain, action }
    }
}

/// The answer of the cluster.
#[derive(Debug)]
pub struct ClusterResponse {}

/// The errors of the log storage.
#[derive(Debug)]
pub enum StorageError {
    /// The log does not hold the entry it should.
    InconsistentLogs,
}

} // verus!
