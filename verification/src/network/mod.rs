//! The client side of a connection to a peer.
//!
//! [`connect`] leads to a [`Client`]. The client decides what each event on the
//! connection is answered with, and an [`Inbound`] what is done with the blocks or
//! headers that the peer sends on request.

mod client;
mod connect;
mod inbound;
pub mod laws;
mod message;

pub use client::{Async, Client, PollEvent, PollState, PollStep, Source};
pub use connect::{connect, Handshake, HandshakeEvent, HandshakeStep, Outcome};
pub use inbound::{Inbound, InboundEvent, InboundStep};
pub use message::{
    BlockEvent, BlockMsg, ChainPullRequest, ClientMsg, Command, NodeId, Payload, PullRequest, Upload,
};
