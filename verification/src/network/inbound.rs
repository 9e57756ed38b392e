//! Taking in what a peer sends on request.

use super::message::{BlockMsg, Payload};
use vstd::prelude::*;

verus! {

/// Where the taking in of a peer's answer stands.
#[derive(Clone, Copy, Debug, PartialEq, Eq, Structural)]
pub enum Inbound {
    /// The peer has been asked.
    Requested,
    /// The peer may send another thing.
    Receiving,
    /// The node has been given what the peer sent last.
    Submitted,
}

/// What happens to it.
#[derive(Debug)]
pub enum InboundEvent<C> {
    /// The peer begins to answer, or refuses.
    Opened(Result<(), ()>),
    /// The peer sends something, or has sent all, or fails.
    Received(Result<Option<Payload<C>>, ()>),
    /// The node has taken what it was given, or has rejected it.
    Processed(Result<(), ()>),
}

/// What follows from it.
#[derive(Debug)]
pub enum InboundStep<C> {
    /// The message, if there is one, is given to the node.
    Continue {
        /// What the node is given.
        submit: Option<BlockMsg<C>>,
        /// Where it goes on.
        next: Inbound,
    },
    /// It is over, well or not.
    Finish(Result<(), ()>),
}

impl<C> InboundEvent<C> {
    /// Something has failed or was rejected.
    pub open spec fn failed(self) -> bool {
        match self {
            InboundEvent::Opened(res) => res is Err,
            InboundEvent::Received(res) => res is Err,
            InboundEvent::Processed(res) => res is Err,
        }
    }

    /// The peer has sent all.
    pub open spec fn complete(self) -> bool {
        match self {
            InboundEvent::Received(Ok(None)) => true,
            _ => false,
        }
    }

    /// What the node is to be given, if the peer sent something.
    pub open spec fn message(self) -> Option<BlockMsg<C>> {
        match self {
            InboundEvent::Received(Ok(Some(payload))) => Some(BlockMsg::of(payload)),
            _ => None,
        }
    }
}

impl Inbound {
    /// The event is one that is waited for.
    pub open spec fn accepts_spec<C>(self, event: InboundEvent<C>) -> bool {
        match self {
            Inbound::Requested => event is Opened,
            Inbound::Receiving => event is Received,
            Inbound::Submitted => event is Processed,
        }
    }

    /// What follows from an event: the things that the peer sends are given to the node
    /// one at a time, until the peer has sent all or something fails.
    pub open spec fn step<C>(self, event: InboundEvent<C>) -> InboundStep<C> {
        if event.failed() {
            InboundStep::Finish(Err(()))
        } else if event.complete() {
            InboundStep::Finish(Ok(()))
        } else {
            InboundStep::Continue {
                submit: event.message(),
                next: if event.message() is Some {
                    Inbound::Submitted
                } else {
                    Inbound::Receiving
                },
            }
        }
    }

    /// The peer has been asked.
    pub fn new() -> (res: Self)
        ensures
            res == Inbound::Requested,
    {
        Inbound::Requested
    }

    /// Whether the event is one that is waited for.
    pub fn accepts<C>(&self, event: &InboundEvent<C>) -> (res: bool)
        ensures
            res == self.accepts_spec(*event),
            *self == Inbound::Requested ==> res == (*event is Opened),
            *self == Inbound::Receiving ==> res == (*event is Received),
            *self == Inbound::Submitted ==> res == (*event is Processed),
    {
        match (self, event) {
            (Inbound::Requested, InboundEvent::Opened(_)) => true,
            (Inbound::Receiving, InboundEvent::Received(_)) => true,
            (Inbound::Submitted, InboundEvent::Processed(_)) => true,
            _ => false,
        }
    }

    /// Goes on after an event.
    pub fn resume<C>(self, event: InboundEvent<C>) -> (res: InboundStep<C>)
        requires
            self.accepts_spec(event),
        ensures
            res == self.step(event),
            event == InboundEvent::<C>::Opened(Ok(())) || event == InboundEvent::<C>::Processed(
                Ok(()),
            ) ==> res == (InboundStep::<C>::Continue { submit: None, next: Inbound::Receiving }),
            event matches InboundEvent::Received(Ok(Some(Payload::Block(block)))) ==> res == (
            InboundStep::<C>::Continue {
                submit: Some(BlockMsg::NetworkBlock(block)),
                next: Inbound::Submitted,
            }),
            event matches InboundEvent::Received(Ok(Some(Payload::Headers(headers)))) ==> res == (
            InboundStep::<C>::Continue {
                submit: Some(BlockMsg::ChainHeaders(headers)),
                next: Inbound::Submitted,
            }),
            event == InboundEvent::<C>::Received(Ok(None)) ==> res == InboundStep::<C>::Finish(
                Ok(()),
            ),
            event == InboundEvent::<C>::Opened(Err(())) || event == InboundEvent::<C>::Received(
                Err(()),
            ) || event == InboundEvent::<C>::Processed(Err(())) ==> res == InboundStep::<C>::Finish(
                Err(()),
            ),
    {
        match event {
            InboundEvent::Opened(opened) => match opened {
                Ok(_) => InboundStep::Continue { submit: None, next: Inbound::Receiving },
                Err(_) => InboundStep::Finish(Err(())),
            },
            InboundEvent::Received(received) => match received {
                Ok(Some(payload)) => InboundStep::Continue {
                    submit: Some(BlockMsg::from_payload(payload)),
                    next: Inbound::Submitted,
                },
                Ok(None) => InboundStep::Finish(Ok(())),
                Err(_) => InboundStep::Finish(Err(())),
            },
            InboundEvent::Processed(processed) => match processed {
                Ok(_) => InboundStep::Continue { submit: None, next: Inbound::Receiving },
                Err(_) => InboundStep::Finish(Err(())),
            },
        }
    }
}

} // verus!
