//! What a client hears, asks for and passes on.

use crate::block::{Block, Header, HeaderHash};
use vstd::prelude::*;

verus! {

/// The identity of a peer.
#[derive(Clone, Copy, Debug, PartialEq, Eq, Structural)]
pub struct NodeId(pub u128);

/// A request for the part of a chain that comes after blocks which the asking side
/// has.
#[derive(Debug)]
pub struct ChainPullRequest {
    /// Blocks that the asking side has, from which the part may begin.
    pub from: Vec<HeaderHash>,
    /// The last block of the part.
    pub to: HeaderHash,
}

/// What the peer tells or asks about blocks.
#[derive(Debug)]
pub enum BlockEvent {
    /// The peer has a new block.
    Announce(Header),
    /// The peer wants these blocks.
    Solicit(Vec<HeaderHash>),
    /// The peer lacks a part of the chain.
    Missing(ChainPullRequest),
}

/// What the node is asked to read out of its storage for a peer.
#[derive(Debug)]
pub enum ClientMsg {
    /// The blocks with these identifiers.
    GetBlocks(Vec<HeaderHash>),
    /// The headers from one of the first to the second.
    GetHeadersRange(Vec<HeaderHash>, HeaderHash),
    /// The blocks from one of these to the last of the main branch.
    PullBlocksToTip(Vec<HeaderHash>),
}

/// How the node's answer goes to the peer.
#[derive(Clone, Copy, Debug, PartialEq, Eq, Structural)]
pub enum Upload {
    /// As blocks.
    UploadBlocks,
    /// As headers.
    PushHeaders,
}

/// What the peer is asked for.
#[derive(Debug)]
pub enum PullRequest {
    /// The blocks with these identifiers.
    GetBlocks(Vec<HeaderHash>),
    /// The blocks from one of these to the last of the peer's main branch.
    PullBlocksToTip(Vec<HeaderHash>),
    /// The headers from one of the first to the second.
    PullHeaders(Vec<HeaderHash>, HeaderHash),
}

/// What has to be done about an event.
#[derive(Debug)]
pub enum Command {
    /// Have the node consider a block that the peer announced.
    ProcessAnnouncement {
        /// The header of the block.
        header: Header,
        /// The peer.
        node_id: NodeId,
    },
    /// Send the message to the node, and its answer to the peer.
    Serve {
        /// The message.
        msg: ClientMsg,
        /// How the answer is sent.
        upload: Upload,
    },
    /// Ask the peer, and take in what it sends.
    Pull(PullRequest),
}

impl Command {
    /// What each event of the peer is answered with.
    pub open spec fn answer(node_id: NodeId, event: BlockEvent) -> Command {
        match event {
            BlockEvent::Announce(header) => Command::ProcessAnnouncement { header, node_id },
            BlockEvent::Solicit(block_ids) => Command::Serve {
                msg: ClientMsg::GetBlocks(block_ids),
                upload: Upload::UploadBlocks,
            },
            BlockEvent::Missing(req) => Command::Serve {
                msg: ClientMsg::PullBlocksToTip(req.from),
                upload: Upload::UploadBlocks,
            },
        }
    }
}

/// What the peer sends in answer to a [`PullRequest`].
#[derive(Debug)]
pub enum Payload<C> {
    /// A block.
    Block(Block<C>),
    /// Some headers.
    Headers(Vec<Header>),
}

/// What the node is asked to take into its chain.
#[derive(Debug)]
pub enum BlockMsg<C> {
    /// A block from the network.
    NetworkBlock(Block<C>),
    /// Headers of a chain.
    ChainHeaders(Vec<Header>),
}

impl<C> BlockMsg<C> {
    /// The message that each thing the peer sends is passed on as.
    pub open spec fn of(payload: Payload<C>) -> BlockMsg<C> {
        match payload {
            Payload::Block(block) => BlockMsg::NetworkBlock(block),
            Payload::Headers(headers) => BlockMsg::ChainHeaders(headers),
        }
    }

    /// The message that a thing the peer sent is passed on as.
    pub fn from_payload(payload: Payload<C>) -> (res: Self)
        ensures
            res == BlockMsg::of(payload),
            payload matches Payload::Block(block) ==> res == BlockMsg::<C>::NetworkBlock(block),
            payload matches Payload::Headers(headers) ==> res == BlockMsg::<C>::ChainHeaders(
                headers,
            ),
    {
        match payload {
            Payload::Block(block) => BlockMsg::NetworkBlock(block),
            Payload::Headers(headers) => BlockMsg::ChainHeaders(headers),
        }
    }
}

} // verus!
