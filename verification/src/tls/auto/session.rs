//! The decisions of the process that obtains a certificate.
use vstd::prelude::*;

use crate::tls::auto::acme::PendingTLS;

verus! {

/// What a node does first with a request for a certificate.
#[derive(Debug, PartialEq, Eq, Structural)]
pub enum FirstStep {
    /// Go on and obtain the certificate.
    Proceed,
    /// Tell the cluster that the certificate is missing, then stop.
    NotifyCluster,
    /// Stop.
    Stop,
}

/// What a node does first with a request for a certificate: only the
/// leader goes on; any other node tells the cluster that the certificate is
/// missing, and only for a request that may be announced, then stops.
pub fn first_step(is_leader: bool, propagate: bool) -> (res: FirstStep)
    ensures
        res == if is_leader {
            FirstStep::Proceed
        } else if propagate {
            FirstStep::NotifyCluster
        } else {
            FirstStep::Stop
        },
{
    if !is_leader {
        if !propagate {
            return FirstStep::Stop;
        }
        return FirstStep::NotifyCluster;
    }
    FirstStep::Proceed
}

/// The data that proves the ownership of a domain: the token and key of
/// each pending challenge, in order.
pub fn verify_parts(pending: &Vec<PendingTLS>) -> (res: Vec<(String, String)>)
    ensures
        res@.len() == pending@.len(),
        forall|i: int|
            0 <= i < pending@.len() ==> (#[trigger] res@[i]).0@ == pending@[i].spec_token() && res@[i].1@
                == pending@[i].spec_key(),
{
    let mut parts: Vec<(String, String)> = Vec::new();
    let mut i: usize = 0;
    while i < pending.len()
        invariant
            0 <= i <= pending@.len(),
            parts@.len() == i,
            forall|j: int|
                0 <= j < i ==> (#[trigger] parts@[j]).0@ == pending@[j].spec_token() && parts@[j].1@
                    == pending@[j].spec_key(),
        decreases pending@.len() - i,
    {
        let p = &pending[i];
        parts.push((p.token().to_owned(), p.key().to_owned()));
        i = i + 1;
    }
    parts
}

/// What came of a step of obtaining a certificate once the node goes on.
#[derive(Debug, PartialEq, Eq, Structural)]
pub enum CertEvent {
    /// Whether the ACME account could be had.
    Account(bool),
    /// Whether the order and its challenges could be made.
    Order(bool),
    /// Whether the order became ready after the challenges were validated.
    Ready(bool),
    /// Whether the order became valid after it was finalized.
    Valid(bool),
    /// Whether the cluster was told that the challenge is finished.
    Announced(bool),
}

/// What the node does next when obtaining a certificate.
#[derive(Debug, PartialEq, Eq, Structural)]
pub enum CertAction {
    /// Make the order for the domain and its challenges.
    CreateOrder,
    /// Write the challenges' data to the cluster, start their validation
    /// and wait for the order to become ready.
    PublishAndValidate,
    /// Finalize the order with a new key and wait for it to become valid.
    Finalize,
    /// Tell the cluster that the challenge is finished.
    AnnounceFinished,
    /// Store the certificates of the order.
    StoreCertificates,
    /// Tell the cluster that the certificate failed, then stop.
    WriteFailedCert,
    /// Stop.
    Stop,
}

/// The next action for each outcome: a missing account or order, or a
/// failed announcement, stops; an order that does not become ready or
/// valid is written off as failed; otherwise the procedure goes on to the
/// next step.
pub open spec fn cert_action_of(event: CertEvent) -> CertAction {
    match event {
        CertEvent::Account(ok) => if ok {
            CertAction::CreateOrder
        } else {
            CertAction::Stop
        },
        CertEvent::Order(ok) => if ok {
            CertAction::PublishAndValidate
        } else {
            CertAction::Stop
        },
        CertEvent::Ready(ok) => if ok {
            CertAction::Finalize
        } else {
            CertAction::WriteFailedCert
        },
        CertEvent::Valid(ok) => if ok {
            CertAction::AnnounceFinished
        } else {
            CertAction::WriteFailedCert
        },
        CertEvent::Announced(ok) => if ok {
            CertAction::StoreCertificates
        } else {
            CertAction::Stop
        },
    }
}

/// Decides the next step of obtaining a certificate from what the last
/// one gave.
pub fn cert_step(event: CertEvent) -> (res: CertAction)
    ensures
        res == cert_action_of(event),
{
    match event {
        CertEvent::Account(ok) => if ok {
            CertAction::CreateOrder
        } else {
            CertAction::Stop
        },
        CertEvent::Order(ok) => if ok {
            CertAction::PublishAndValidate
        } else {
            CertAction::Stop
        },
        CertEvent::Ready(ok) => if ok {
            CertAction::Finalize
        } else {
            CertAction::WriteFailedCert
        },
        CertEvent::Valid(ok) => if ok {
            CertAction::AnnounceFinished
        } else {
            CertAction::WriteFailedCert
        },
        CertEvent::Announced(ok) => if ok {
            CertAction::StoreCertificates
        } else {
            CertAction::Stop
        },
    }
}

} // verus!
