//! The client of a peer, and its round of polls.

use super::message::{
    BlockEvent, ChainPullRequest, ClientMsg, Command, NodeId, PullRequest, Upload,
};
use crate::block::HeaderHash;
use vstd::prelude::*;

verus! {

/// What a poll comes back with.
#[derive(Debug)]
pub enum Async<T> {
    /// A value.
    Ready(T),
    /// Nothing yet.
    NotReady,
}

/// What a client polls.
#[derive(Clone, Copy, Debug, PartialEq, Eq, Structural)]
pub enum Source {
    /// The connection: whether it can take another request.
    Service,
    /// The events of the peer.
    BlockEvents,
    /// The blocks that the node wants from the peer.
    Solicitations,
    /// The parts of the chain that the node wants from the peer.
    ChainPulls,
}

/// Where a client is in its round of polls.
#[derive(Clone, Copy, Debug, PartialEq, Eq, Structural)]
pub struct PollState {
    /// What is polled next.
    pub source: Source,
    /// Whether something has come up in this round.
    pub streams_ready: bool,
}

/// What came of the poll of a source. A stream that gives `None` has ended.
#[derive(Debug)]
pub enum PollEvent {
    /// The connection can take a request, cannot yet, or has failed.
    Service(Result<Async<()>, ()>),
    /// An event of the peer, or the failure to receive one.
    BlockEvents(Result<Async<Option<BlockEvent>>, ()>),
    /// Blocks that the node wants.
    Solicitations(Async<Option<Vec<HeaderHash>>>),
    /// A part of the chain that the node wants.
    ChainPulls(Async<Option<ChainPullRequest>>),
}

/// What follows from a poll.
#[derive(Debug)]
pub enum PollStep {
    /// The command, if there is one, is carried out, and the round goes on.
    Continue {
        /// What has to be done.
        command: Option<Command>,
        /// Where the round goes on.
        next: PollState,
    },
    /// The client comes to rest: for good, or until something is ready again.
    Return(Result<Async<()>, ()>),
}

impl PollEvent {
    /// The source that the event is from.
    pub open spec fn source(self) -> Source {
        match self {
            PollEvent::Service(_) => Source::Service,
            PollEvent::BlockEvents(_) => Source::BlockEvents,
            PollEvent::Solicitations(_) => Source::Solicitations,
            PollEvent::ChainPulls(_) => Source::ChainPulls,
        }
    }

    /// The command that the event calls for, if it brings anything.
    pub open spec fn command(self, node_id: NodeId) -> Option<Command> {
        match self {
            PollEvent::BlockEvents(Ok(Async::Ready(Some(event)))) => Some(
                Command::answer(node_id, event),
            ),
            PollEvent::Solicitations(Async::Ready(Some(block_ids))) => Some(
                Command::Pull(PullRequest::GetBlocks(block_ids)),
            ),
            PollEvent::ChainPulls(Async::Ready(Some(req))) => Some(
                Command::Pull(PullRequest::PullBlocksToTip(req.from)),
            ),
            _ => None,
        }
    }

    /// The connection or the stream of events has failed.
    pub open spec fn failed(self) -> bool {
        match self {
            PollEvent::Service(Err(_)) => true,
            PollEvent::BlockEvents(Err(_)) => true,
            _ => false,
        }
    }

    /// A stream has ended.
    pub open spec fn ended(self) -> bool {
        match self {
            PollEvent::BlockEvents(Ok(Async::Ready(None))) => true,
            PollEvent::Solicitations(Async::Ready(None)) => true,
            PollEvent::ChainPulls(Async::Ready(None)) => true,
            _ => false,
        }
    }

    /// The source has nothing yet.
    pub open spec fn idle(self) -> bool {
        match self {
            PollEvent::Service(Ok(Async::NotReady)) => true,
            PollEvent::BlockEvents(Ok(Async::NotReady)) => true,
            PollEvent::Solicitations(Async::NotReady) => true,
            PollEvent::ChainPulls(Async::NotReady) => true,
            _ => false,
        }
    }

    /// The source that the event is from.
    pub fn origin(&self) -> (res: Source)
        ensures
            res == self.source(),
            res == Source::Service <==> *self is Service,
            res == Source::BlockEvents <==> *self is BlockEvents,
            res == Source::Solicitations <==> *self is Solicitations,
            res == Source::ChainPulls <==> *self is ChainPulls,
    {
        match self {
            PollEvent::Service(_) => Source::Service,
            PollEvent::BlockEvents(_) => Source::BlockEvents,
            PollEvent::Solicitations(_) => Source::Solicitations,
            PollEvent::ChainPulls(_) => Source::ChainPulls,
        }
    }
}

impl PollState {
    /// The beginning of a round.
    pub open spec fn start() -> PollState {
        PollState { source: Source::Service, streams_ready: false }
    }

    /// What follows from an event. A failure ends the client, and so does the end of a
    /// stream. Where the connection cannot take a request, or a whole round of streams
    /// has brought nothing, the client rests. Else the round goes on, and after the last
    /// source another one begins.
    pub open spec fn step(self, node_id: NodeId, event: PollEvent) -> PollStep {
        let streams_ready = self.streams_ready || event.command(node_id) is Some;
        if event.failed() {
            PollStep::Return(Err(()))
        } else if event.ended() {
            PollStep::Return(Ok(Async::Ready(())))
        } else if self.source == Source::Service && event.idle() || self.source
            == Source::ChainPulls && !streams_ready {
            PollStep::Return(Ok(Async::NotReady))
        } else {
            PollStep::Continue {
                command: event.command(node_id),
                next: match self.source {
                    Source::Service => PollState {
                        source: Source::BlockEvents,
                        streams_ready: false,
                    },
                    Source::BlockEvents => PollState {
                        source: Source::Solicitations,
                        streams_ready,
                    },
                    Source::Solicitations => PollState {
                        source: Source::ChainPulls,
                        streams_ready,
                    },
                    Source::ChainPulls => PollState::start(),
                },
            }
        }
    }

    /// The beginning of a round.
    pub fn new() -> (res: Self)
        ensures
            res == PollState::start(),
            res.source == Source::Service,
            !res.streams_ready,
    {
        PollState { source: Source::Service, streams_ready: false }
    }
}

/// The client of a connected peer.
#[must_use]
#[derive(Debug)]
pub struct Client<G> {
    remote_node_id: NodeId,
    logger: G,
}

impl<G> Client<G> {
    /// The identity of the peer.
    pub closed spec fn node_id(&self) -> NodeId {
        self.remote_node_id
    }

    /// The logger that tells of the peer.
    pub closed spec fn log(&self) -> G {
        self.logger
    }

    /// The identity of the peer.
    pub fn remote_node_id(&self) -> (res: NodeId)
        ensures
            res == self.node_id(),
    {
        self.remote_node_id
    }

    /// The logger that tells of the peer.
    pub fn logger(&self) -> (res: &G)
        ensures
            *res == self.log(),
    {
        &self.logger
    }

    /// The client of a peer that accepted both subscriptions: the peer has to have the
    /// same identity in both.
    pub(crate) fn subscribe(logger: G, block_node_id: NodeId, gossip_node_id: NodeId) -> (res:
        Result<Self, ()>)
        ensures
            block_node_id == gossip_node_id ==> res is Ok && res->Ok_0.node_id() == block_node_id
                && res->Ok_0.log() == logger,
            block_node_id != gossip_node_id ==> res == Err::<Self, ()>(()),
    {
        if block_node_id != gossip_node_id {
            return Err(());
        }
        Ok(Client { remote_node_id: block_node_id, logger })
    }

    /// What an event of the peer is answered with.
    pub fn process_block_event(&self, event: BlockEvent) -> (res: Command)
        ensures
            res == Command::answer(self.node_id(), event),
            event matches BlockEvent::Announce(header) ==> res == (Command::ProcessAnnouncement {
                header,
                node_id: self.node_id(),
            }),
            event matches BlockEvent::Solicit(block_ids) ==> res == (Command::Serve {
                msg: ClientMsg::GetBlocks(block_ids),
                upload: Upload::UploadBlocks,
            }),
            event matches BlockEvent::Missing(req) ==> res == (Command::Serve {
                msg: ClientMsg::PullBlocksToTip(req.from),
                upload: Upload::UploadBlocks,
            }),
    {
        match event {
            BlockEvent::Announce(header) => Command::ProcessAnnouncement {
                header,
                node_id: self.remote_node_id,
            },
            BlockEvent::Solicit(block_ids) => Command::Serve {
                msg: ClientMsg::GetBlocks(block_ids),
                upload: Upload::UploadBlocks,
            },
            BlockEvent::Missing(req) => self.push_missing_blocks(req),
        }
    }

    /// How the peer would be sent the headers that it lacks. Its events are answered
    /// with blocks instead as long as the node cannot pull a chain in two stages.
    pub fn push_missing_headers(&self, req: ChainPullRequest) -> (res: Command)
        ensures
            res == (Command::Serve {
                msg: ClientMsg::GetHeadersRange(req.from, req.to),
                upload: Upload::PushHeaders,
            }),
    {
        Command::Serve {
            msg: ClientMsg::GetHeadersRange(req.from, req.to),
            upload: Upload::PushHeaders,
        }
    }

    /// How the peer is sent the blocks that it lacks.
    pub fn push_missing_blocks(&self, req: ChainPullRequest) -> (res: Command)
        ensures
            res == (Command::Serve {
                msg: ClientMsg::PullBlocksToTip(req.from),
                upload: Upload::UploadBlocks,
            }),
    {
        Command::Serve {
            msg: ClientMsg::PullBlocksToTip(req.from),
            upload: Upload::UploadBlocks,
        }
    }

    /// How the peer would be asked for the headers that the node wants. It is asked for
    /// blocks instead as long as the node cannot pull a chain in two stages.
    pub fn pull_headers(&self, req: ChainPullRequest) -> (res: Command)
        ensures
            res == Command::Pull(PullRequest::PullHeaders(req.from, req.to)),
    {
        Command::Pull(PullRequest::PullHeaders(req.from, req.to))
    }

    /// How the peer is asked for the part of the chain that the node wants.
    pub fn pull_blocks_to_tip(&self, req: ChainPullRequest) -> (res: Command)
        ensures
            res == Command::Pull(PullRequest::PullBlocksToTip(req.from)),
    {
        Command::Pull(PullRequest::PullBlocksToTip(req.from))
    }

    /// How the peer is asked for blocks that the node wants.
    pub fn solicit_blocks(&self, block_ids: Vec<HeaderHash>) -> (res: Command)
        ensures
            res == Command::Pull(PullRequest::GetBlocks(block_ids)),
    {
        Command::Pull(PullRequest::GetBlocks(block_ids))
    }

    /// Goes on with a round of polls after the poll of one source.
    pub fn poll(&self, state: PollState, event: PollEvent) -> (res: PollStep)
        requires
            event.source() == state.source,
        ensures
            res == state.step(self.node_id(), event),
            event == PollEvent::Service(Ok(Async::Ready(()))) ==> res == (PollStep::Continue {
                command: None,
                next: PollState { source: Source::BlockEvents, streams_ready: false },
            }),
            event == PollEvent::Service(Ok(Async::NotReady)) ==> res == PollStep::Return(
                Ok(Async::NotReady),
            ),
            event == PollEvent::Service(Err(())) ==> res == PollStep::Return(Err(())),
            event == PollEvent::BlockEvents(Err(())) ==> res == PollStep::Return(Err(())),
            event == PollEvent::BlockEvents(Ok(Async::Ready(None))) ==> res == PollStep::Return(
                Ok(Async::Ready(())),
            ),
            event == PollEvent::BlockEvents(Ok(Async::NotReady)) ==> res == (PollStep::Continue {
                command: None,
                next: PollState {
                    source: Source::Solicitations,
                    streams_ready: state.streams_ready,
                },
            }),
            event matches PollEvent::BlockEvents(Ok(Async::Ready(Some(BlockEvent::Announce(header)))))
                ==> res == (PollStep::Continue {
                command: Some(Command::ProcessAnnouncement { header, node_id: self.node_id() }),
                next: PollState { source: Source::Solicitations, streams_ready: true },
            }),
            event matches PollEvent::BlockEvents(
                Ok(Async::Ready(Some(BlockEvent::Solicit(block_ids)))),
            ) ==> res == (PollStep::Continue {
                command: Some(
                    Command::Serve {
                        msg: ClientMsg::GetBlocks(block_ids),
                        upload: Upload::UploadBlocks,
                    },
                ),
                next: PollState { source: Source::Solicitations, streams_ready: true },
            }),
            event matches PollEvent::BlockEvents(Ok(Async::Ready(Some(BlockEvent::Missing(req)))))
                ==> res == (PollStep::Continue {
                command: Some(
                    Command::Serve {
                        msg: ClientMsg::PullBlocksToTip(req.from),
                        upload: Upload::UploadBlocks,
                    },
                ),
                next: PollState { source: Source::Solicitations, streams_ready: true },
            }),
            event == PollEvent::Solicitations(Async::Ready(None)) ==> res == PollStep::Return(
                Ok(Async::Ready(())),
            ),
            event == PollEvent::Solicitations(Async::NotReady) ==> res == (PollStep::Continue {
                command: None,
                next: PollState {
                    source: Source::ChainPulls,
                    streams_ready: state.streams_ready,
                },
            }),
            event matches PollEvent::Solicitations(Async::Ready(Some(block_ids))) ==> res == (
            PollStep::Continue {
                command: Some(Command::Pull(PullRequest::GetBlocks(block_ids))),
                next: PollState { source: Source::ChainPulls, streams_ready: true },
            }),
            event == PollEvent::ChainPulls(Async::Ready(None)) ==> res == PollStep::Return(
                Ok(Async::Ready(())),
            ),
            event == PollEvent::ChainPulls(Async::NotReady) && !state.streams_ready ==> res
                == PollStep::Return(Ok(Async::NotReady)),
            event == PollEvent::ChainPulls(Async::NotReady) && state.streams_ready ==> res == (
            PollStep::Continue {
                command: None,
                next: PollState { source: Source::Service, streams_ready: false },
            }),
            event matches PollEvent::ChainPulls(Async::Ready(Some(req))) ==> res == (
            PollStep::Continue {
                command: Some(Command::Pull(PullRequest::PullBlocksToTip(req.from))),
                next: PollState { source: Source::Service, streams_ready: false },
            }),
    {
        let mut streams_ready: bool = state.streams_ready;
        let mut command: Option<Command> = None;
        match event {
            PollEvent::Service(polled) => match polled {
                Err(_) => PollStep::Return(Err(())),
                Ok(Async::NotReady) => PollStep::Return(Ok(Async::NotReady)),
                Ok(Async::Ready(_)) => PollStep::Continue {
                    command: None,
                    next: PollState { source: Source::BlockEvents, streams_ready: false },
                },
            },
            PollEvent::BlockEvents(polled) => {
                match polled {
                    Err(_) => {
                        return PollStep::Return(Err(()));
                    },
                    Ok(Async::NotReady) => {},
                    Ok(Async::Ready(None)) => {
                        return PollStep::Return(Ok(Async::Ready(())));
                    },
                    Ok(Async::Ready(Some(event))) => {
                        streams_ready = true;
                        command = Some(self.process_block_event(event));
                    },
                }
                PollStep::Continue {
                    command,
                    next: PollState { source: Source::Solicitations, streams_ready },
                }
            },
            PollEvent::Solicitations(polled) => {
                match polled {
                    Async::NotReady => {},
                    Async::Ready(None) => {
                        return PollStep::Return(Ok(Async::Ready(())));
                    },
                    Async::Ready(Some(block_ids)) => {
                        streams_ready = true;
                        command = Some(self.solicit_blocks(block_ids));
                    },
                }
                PollStep::Continue {
                    command,
                    next: PollState { source: Source::ChainPulls, streams_ready },
                }
            },
            PollEvent::ChainPulls(polled) => {
                match polled {
                    Async::NotReady => {},
                    Async::Ready(None) => {
                        return PollStep::Return(Ok(Async::Ready(())));
                    },
                    Async::Ready(Some(req)) => {
                        streams_ready = true;
                        command = Some(self.pull_blocks_to_tip(req));
                    },
                }
                if !streams_ready {
                    return PollStep::Return(Ok(Async::NotReady));
                }
                PollStep::Continue { command, next: PollState::new() }
            },
        }
    }
}

} // verus!
