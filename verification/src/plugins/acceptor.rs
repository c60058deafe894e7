//! Acceptor plugins: the queue of messages that a plugin hands to the
//! load balancer.
use vstd::prelude::*;

use std::sync::mpsc::Receiver;

verus! {

#[verifier::external_type_specification]
#[verifier::external_body]
#[verifier::reject_recursive_types(T)]
pub struct ExReceiver<T>(Receiver<T>);

/// A message from an acceptor plugin: the id of a connection and data.
#[derive(Debug)]
pub struct AcceptorMessage {
    /// The id of the connection.
    pub id: i32,
    /// The data.
    pub data: Vec<u8>,
}

/// Takes a message from the channel if one is waiting.
///
/// Trusted: calls `Receiver::try_recv`, turning its error into `None`.
/// What it returns depends on what other threads have sent so far, so no
/// clause states it.
#[verifier::external_body]
fn channel_try_recv(rx: &Receiver<AcceptorMessage>) -> (res: Option<AcceptorMessage>) {
    rx.try_recv().ok()
}

/// What `try_recv` does: a message set aside by `peek` is handed out first,
/// and nothing stays set aside.
pub open spec fn try_recv_outcome(
    before: Option<AcceptorMessage>,
    after: Option<AcceptorMessage>,
    res: Option<AcceptorMessage>,
) -> bool {
    &&& after is None
    &&& before is Some ==> res == before
}

/// What `peek` does: a message set aside stays so and is shown; otherwise
/// the message taken from the channel, if any, is set aside and shown.
pub open spec fn peek_outcome(
    before: Option<AcceptorMessage>,
    after: Option<AcceptorMessage>,
    res: Option<AcceptorMessage>,
) -> bool {
    &&& after == res
    &&& before is Some ==> after == before
}

/// The receiving end of the queue of an acceptor plugin, which can look at
/// the next message without taking it.
pub struct AcceptorQueueReceiver {
    rx: Receiver<AcceptorMessage>,
    peeked: Option<AcceptorMessage>,
}

impl AcceptorQueueReceiver {
    /// The message set aside by `peek`, if any.
    pub closed spec fn spec_peeked(&self) -> Option<AcceptorMessage> {
        self.peeked
    }

    /// The channel that the queue reads from.
    pub closed spec fn spec_rx(&self) -> Receiver<AcceptorMessage> {
        self.rx
    }

    /// Creates the queue over the channel, with nothing set aside.
    pub fn new(rx: Receiver<AcceptorMessage>) -> (res: Self)
        ensures
            res.spec_rx() == rx,
            res.spec_peeked() is None,
    {
        Self { rx, peeked: None }
    }

    /// Takes the next message: the one set aside by `peek`, else one from
    /// the channel if one is waiting.
    pub fn try_recv(&mut self) -> (res: Option<AcceptorMessage>)
        ensures
            final(self).spec_rx() == old(self).spec_rx(),
            try_recv_outcome(old(self).spec_peeked(), final(self).spec_peeked(), res),
    {
        if self.peeked.is_some() {
            return self.peeked.take();
        }
        channel_try_recv(&self.rx)
    }

    /// Shows the next message without taking it.
    pub fn peek(&mut self) -> (res: Option<&AcceptorMessage>)
        ensures
            final(self).spec_rx() == old(self).spec_rx(),
            peek_outcome(
                old(self).spec_peeked(),
                final(self).spec_peeked(),
                match res {
                    Some(m) => Some(*m),
                    None => None,
                },
            ),
    {
        if self.peeked.is_none() {
            self.peeked = channel_try_recv(&self.rx);
        }
        self.peeked.as_ref()
    }
}

/// A message that `peek` showed is the one that the next `try_recv` hands
/// out: after a `peek` that showed `shown`, going from `q1` to `q2`, a
/// `try_recv` from `q2` returns `shown`.
pub proof fn lemma_peek_then_try_recv(
    q1: Option<AcceptorMessage>,
    q2: Option<AcceptorMessage>,
    q3: Option<AcceptorMessage>,
    shown: Option<AcceptorMessage>,
    received: Option<AcceptorMessage>,
)
    requires
        peek_outcome(q1, q2, shown),
        try_recv_outcome(q2, q3, received),
        shown is Some,
    ensures
        received == shown,
        q3 is None,
{
}

/// The dashboard entry of a plugin acceptor.
pub struct PluginDashboard {}

impl PluginDashboard {
    /// The kind of entry.
    pub fn get_type(&self) -> (res: &'static str)
        ensures
            res@ == "Plugin"@,
    {
        "Plugin"
    }
}

} // verus!
