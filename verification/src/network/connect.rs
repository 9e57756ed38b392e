//! From an address to a client.

use super::client::Client;
use super::message::NodeId;
use vstd::prelude::*;

verus! {

/// Where the way to a client stands. Each variant says what is done and waited for.
#[derive(Debug)]
pub enum Handshake<A> {
    /// The peer at the address is connected to, in the name of the node.
    Connecting {
        /// The address of the peer.
        addr: A,
        /// The identity of the node.
        node_id: NodeId,
    },
    /// The connection has to be ready for a request.
    AwaitReady,
    /// The peer's block events are subscribed to, and the connection has to be ready for
    /// another request.
    SubscribeToBlocks,
    /// The peer's gossip is subscribed to, and both subscriptions have to be accepted.
    SubscribeToGossip,
}

/// What came of it.
#[derive(Debug)]
pub enum HandshakeEvent<G> {
    /// The connection stands, or not.
    Connected(Result<(), ()>),
    /// The connection is ready for a request, or has failed.
    Ready(Result<(), ()>),
    /// Both subscriptions are accepted, or one has failed.
    Subscribed {
        /// The identity that the peer gave with the block events, and the one that it
        /// gave with the gossip.
        node_ids: Result<(NodeId, NodeId), ()>,
        /// The logger that is to tell of the peer.
        logger: G,
    },
}

/// What follows from it.
#[derive(Debug)]
pub enum HandshakeStep<A, G> {
    /// There is more to do.
    Pending(Handshake<A>),
    /// There is a client, or there will be none.
    Done(Result<Client<G>, ()>),
}

/// What a [`HandshakeStep`] amounts to.
pub enum Outcome<A, G> {
    /// There is more to do.
    Pending(Handshake<A>),
    /// There is a client of the peer, with the logger.
    Connected(NodeId, G),
    /// There will be no client.
    Failed,
}

impl<A, G> HandshakeStep<A, G> {
    /// What the step amounts to.
    pub open spec fn outcome(self) -> Outcome<A, G> {
        match self {
            HandshakeStep::Pending(handshake) => Outcome::Pending(handshake),
            HandshakeStep::Done(Ok(client)) => Outcome::Connected(client.node_id(), client.log()),
            HandshakeStep::Done(Err(_)) => Outcome::Failed,
        }
    }
}

impl<A> Handshake<A> {
    /// The event is one that is waited for.
    pub open spec fn accepts_spec<G>(self, event: HandshakeEvent<G>) -> bool {
        match self {
            Handshake::Connecting { .. } => event is Connected,
            Handshake::AwaitReady => event is Ready,
            Handshake::SubscribeToBlocks => event is Ready,
            Handshake::SubscribeToGossip => event is Subscribed,
        }
    }

    /// What follows from an event. Any failure is the end, and so is a peer that gives
    /// two identities. Where all goes well, the four stages come one after the other.
    pub open spec fn step<G>(self, event: HandshakeEvent<G>) -> Outcome<A, G> {
        if !event.ok() {
            Outcome::Failed
        } else {
            match self {
                Handshake::Connecting { .. } => Outcome::Pending(Handshake::AwaitReady),
                Handshake::AwaitReady => Outcome::Pending(Handshake::SubscribeToBlocks),
                Handshake::SubscribeToBlocks => Outcome::Pending(Handshake::SubscribeToGossip),
                Handshake::SubscribeToGossip => Outcome::Connected(event.peer(), event->logger),
            }
        }
    }

    /// Whether the event is one that is waited for.
    pub fn accepts<G>(&self, event: &HandshakeEvent<G>) -> (res: bool)
        ensures
            res == self.accepts_spec(*event),
            *self is Connecting ==> res == (*event is Connected),
            *self is AwaitReady || *self is SubscribeToBlocks ==> res == (*event is Ready),
            *self is SubscribeToGossip ==> res == (*event is Subscribed),
    {
        match (self, event) {
            (Handshake::Connecting { .. }, HandshakeEvent::Connected(_)) => true,
            (Handshake::AwaitReady, HandshakeEvent::Ready(_)) => true,
            (Handshake::SubscribeToBlocks, HandshakeEvent::Ready(_)) => true,
            (Handshake::SubscribeToGossip, HandshakeEvent::Subscribed { .. }) => true,
            _ => false,
        }
    }

    /// Goes on after an event.
    pub fn resume<G>(self, event: HandshakeEvent<G>) -> (res: HandshakeStep<A, G>)
        requires
            self.accepts_spec(event),
        ensures
            res.outcome() == self.step(event),
            event == HandshakeEvent::<G>::Connected(Ok(())) ==> res == HandshakeStep::<
                A,
                G,
            >::Pending(Handshake::AwaitReady),
            event == HandshakeEvent::<G>::Ready(Ok(())) && self is AwaitReady ==> res
                == HandshakeStep::<A, G>::Pending(Handshake::SubscribeToBlocks),
            event == HandshakeEvent::<G>::Ready(Ok(())) && self is SubscribeToBlocks ==> res
                == HandshakeStep::<A, G>::Pending(Handshake::SubscribeToGossip),
            event == HandshakeEvent::<G>::Connected(Err(())) || event == HandshakeEvent::<
                G,
            >::Ready(Err(())) ==> res == HandshakeStep::<A, G>::Done(Err(())),
            event matches HandshakeEvent::Subscribed { node_ids, logger } ==> match node_ids {
                Ok((block_id, gossip_id)) => if block_id == gossip_id {
                    res matches HandshakeStep::Done(Ok(client)) && client.node_id() == block_id
                        && client.log() == logger
                } else {
                    res == HandshakeStep::<A, G>::Done(Err(()))
                },
                Err(_) => res == HandshakeStep::<A, G>::Done(Err(())),
            },
    {
        match (self, event) {
            (Handshake::Connecting { .. }, HandshakeEvent::Connected(Ok(_))) => {
                HandshakeStep::Pending(Handshake::AwaitReady)
            },
            (Handshake::AwaitReady, HandshakeEvent::Ready(Ok(_))) => {
                HandshakeStep::Pending(Handshake::SubscribeToBlocks)
            },
            (Handshake::SubscribeToBlocks, HandshakeEvent::Ready(Ok(_))) => {
                HandshakeStep::Pending(Handshake::SubscribeToGossip)
            },
            (Handshake::SubscribeToGossip, HandshakeEvent::Subscribed { node_ids, logger }) => {
                match node_ids {
                    Ok((node_id, node_id_1)) => HandshakeStep::Done(
                        Client::subscribe(logger, node_id, node_id_1),
                    ),
                    Err(_) => HandshakeStep::Done(Err(())),
                }
            },
            _ => HandshakeStep::Done(Err(())),
        }
    }
}

impl<G> HandshakeEvent<G> {
    /// All has gone well: nothing has failed, and the peer has one identity.
    pub open spec fn ok(self) -> bool {
        match self {
            HandshakeEvent::Connected(res) => res is Ok,
            HandshakeEvent::Ready(res) => res is Ok,
            HandshakeEvent::Subscribed { node_ids, logger: _ } => node_ids is Ok
                && node_ids->Ok_0.0 == node_ids->Ok_0.1,
        }
    }

    /// The identity that the peer gave.
    pub open spec fn peer(self) -> NodeId {
        self->node_ids->Ok_0.0
    }
}

/// Begins to connect to the peer at an address, in the name of the node.
pub fn connect<A>(addr: A, node_id: NodeId) -> (res: Handshake<A>)
    ensures
        res == (Handshake::Connecting { addr, node_id }),
{
    Handshake::Connecting { addr, node_id }
}

} // verus!
