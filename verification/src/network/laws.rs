//! What holds of a client whatever the peer does.

use super::client::{Async, PollEvent, PollState, PollStep, Source};
use super::connect::{Handshake, HandshakeEvent, Outcome};
use super::inbound::{Inbound, InboundEvent, InboundStep};
use super::message::{
    BlockEvent, BlockMsg, ChainPullRequest, ClientMsg, Command, NodeId, Payload, PullRequest, Upload,
};
use crate::block::{Block, Header, HeaderHash};
use vstd::prelude::*;

verus! {

impl PollState {
    /// What a number of polls, one after the other, lead to.
    pub open spec fn run(self, node_id: NodeId, events: Seq<PollEvent>) -> PollStep
        decreases events.len(),
    {
        if events.len() == 0 {
            PollStep::Continue { command: None, next: self }
        } else {
            match self.run(node_id, events.drop_last()) {
                PollStep::Continue { command: _, next } => next.step(node_id, events.last()),
                done => done,
            }
        }
    }

    /// Each of the events comes from the source that is polled when it comes.
    pub open spec fn run_accepts(self, node_id: NodeId, events: Seq<PollEvent>) -> bool
        decreases events.len(),
    {
        events.len() == 0 || {
            &&& self.run_accepts(node_id, events.drop_last())
            &&& match self.run(node_id, events.drop_last()) {
                PollStep::Continue { command: _, next } => events.last().source() == next.source,
                PollStep::Return(_) => false,
            }
        }
    }

    /// The commands that the client gave on the way.
    pub open spec fn commands(self, node_id: NodeId, events: Seq<PollEvent>) -> Seq<Command>
        decreases events.len(),
    {
        if events.len() == 0 {
            Seq::empty()
        } else {
            let earlier = self.commands(node_id, events.drop_last());
            match self.run(node_id, events) {
                PollStep::Continue { command: Some(command), next: _ } => earlier.push(command),
                _ => earlier,
            }
        }
    }
}

/// Whatever header a peer announces, the node considers that header as one of that peer.
/// Whatever blocks a peer wants, the node reads out those blocks; and whatever part of the
/// chain it lacks, the node reads out its main branch from the blocks that the peer has.
/// What is read out is sent as blocks.
pub proof fn law_peer_is_answered_with_what_it_asks_for(
    node_id: NodeId,
    header: Header,
    block_ids: Vec<HeaderHash>,
    req: ChainPullRequest,
)
    ensures
        Command::answer(node_id, BlockEvent::Announce(header)) == (Command::ProcessAnnouncement {
            header,
            node_id,
        }),
        Command::answer(node_id, BlockEvent::Solicit(block_ids)) == (Command::Serve {
            msg: ClientMsg::GetBlocks(block_ids),
            upload: Upload::UploadBlocks,
        }),
        Command::answer(node_id, BlockEvent::Missing(req)) == (Command::Serve {
            msg: ClientMsg::PullBlocksToTip(req.from),
            upload: Upload::UploadBlocks,
        }),
{
}

/// Different wishes of a peer get different answers: from the answer it can be told
/// which header was announced, which blocks were wanted, or from where the chain was
/// lacking.
pub proof fn law_answer_tells_the_event(node_id: NodeId, one: BlockEvent, other: BlockEvent)
    requires
        Command::answer(node_id, one) == Command::answer(node_id, other),
    ensures
        match one {
            BlockEvent::Announce(header) => other == BlockEvent::Announce(header),
            BlockEvent::Solicit(block_ids) => other == BlockEvent::Solicit(block_ids),
            BlockEvent::Missing(req) => other is Missing && other->Missing_0.from == req.from,
        },
{
}

/// In whatever round, blocks that the node wants are asked for by their identifiers, and
/// a part of the chain that it wants is asked for from the blocks that it has up to the
/// peer's tip. Either way something has come up in the round.
pub proof fn law_wishes_of_the_node_go_to_the_peer(
    node_id: NodeId,
    streams_ready: bool,
    block_ids: Vec<HeaderHash>,
    req: ChainPullRequest,
)
    ensures
        (PollState { source: Source::Solicitations, streams_ready }).step(
            node_id,
            PollEvent::Solicitations(Async::Ready(Some(block_ids))),
        ) == (PollStep::Continue {
            command: Some(Command::Pull(PullRequest::GetBlocks(block_ids))),
            next: PollState { source: Source::ChainPulls, streams_ready: true },
        }),
        (PollState { source: Source::ChainPulls, streams_ready }).step(
            node_id,
            PollEvent::ChainPulls(Async::Ready(Some(req))),
        ) == (PollStep::Continue {
            command: Some(Command::Pull(PullRequest::PullBlocksToTip(req.from))),
            next: PollState { source: Source::Service, streams_ready: false },
        }),
{
}

/// The commands that the events call for, in their order.
pub open spec fn called_for(node_id: NodeId, events: Seq<PollEvent>) -> Seq<Command>
    decreases events.len(),
{
    if events.len() == 0 {
        Seq::empty()
    } else {
        let earlier = called_for(node_id, events.drop_last());
        match events.last() {
            PollEvent::BlockEvents(Ok(Async::Ready(Some(BlockEvent::Announce(header))))) =>
                earlier.push(Command::ProcessAnnouncement { header, node_id }),
            PollEvent::BlockEvents(Ok(Async::Ready(Some(BlockEvent::Solicit(block_ids))))) =>
                earlier.push(
                Command::Serve {
                    msg: ClientMsg::GetBlocks(block_ids),
                    upload: Upload::UploadBlocks,
                },
            ),
            PollEvent::BlockEvents(Ok(Async::Ready(Some(BlockEvent::Missing(req))))) =>
                earlier.push(
                Command::Serve {
                    msg: ClientMsg::PullBlocksToTip(req.from),
                    upload: Upload::UploadBlocks,
                },
            ),
            PollEvent::Solicitations(Async::Ready(Some(block_ids))) => earlier.push(
                Command::Pull(PullRequest::GetBlocks(block_ids)),
            ),
            PollEvent::ChainPulls(Async::Ready(Some(req))) => earlier.push(
                Command::Pull(PullRequest::PullBlocksToTip(req.from)),
            ),
            _ => earlier,
        }
    }
}

/// Everything that a poll brings is acted on, once, in the order in which it comes, and
/// nothing else is done.
pub proof fn law_every_event_is_acted_on(node_id: NodeId, events: Seq<PollEvent>)
    requires
        PollState::start().run_accepts(node_id, events),
    ensures
        PollState::start().commands(node_id, events) == called_for(node_id, events),
    decreases events.len(),
{
    if events.len() > 0 {
        law_every_event_is_acted_on(node_id, events.drop_last());
    }
}

/// One of the streams has given something.
pub open spec fn brings(event: PollEvent) -> bool {
    match event {
        PollEvent::BlockEvents(Ok(Async::Ready(Some(_)))) => true,
        PollEvent::Solicitations(Async::Ready(Some(_))) => true,
        PollEvent::ChainPulls(Async::Ready(Some(_))) => true,
        _ => false,
    }
}

/// The connection and the three streams are polled in turn, round after round, and a
/// client remembers of a round whether one of the streams has given something.
pub proof fn law_sources_are_polled_in_turn(node_id: NodeId, events: Seq<PollEvent>)
    requires
        PollState::start().run_accepts(node_id, events),
    ensures
        forall|i: int|
            0 <= i < events.len() ==> {
                &&& (#[trigger] events[i]) is Service <==> i % 4 == 0
                &&& events[i] is BlockEvents <==> i % 4 == 1
                &&& events[i] is Solicitations <==> i % 4 == 2
                &&& events[i] is ChainPulls <==> i % 4 == 3
            },
        PollState::start().run(node_id, events) matches PollStep::Continue { command: _, next }
            ==> {
            let n = events.len();
            &&& n % 4 == 0 ==> next == (PollState { source: Source::Service, streams_ready: false })
            &&& n % 4 == 1 ==> next == (PollState {
                source: Source::BlockEvents,
                streams_ready: false,
            })
            &&& n % 4 == 2 ==> next == (PollState {
                source: Source::Solicitations,
                streams_ready: brings(events[n - 1]),
            })
            &&& n % 4 == 3 ==> next == (PollState {
                source: Source::ChainPulls,
                streams_ready: brings(events[n - 2]) || brings(events[n - 1]),
            })
        },
    decreases events.len(),
{
    if events.len() > 0 {
        let earlier = events.drop_last();
        law_sources_are_polled_in_turn(node_id, earlier);
        assert forall|i: int| 0 <= i < events.len() implies {
            &&& (#[trigger] events[i]) is Service <==> i % 4 == 0
            &&& events[i] is BlockEvents <==> i % 4 == 1
            &&& events[i] is Solicitations <==> i % 4 == 2
            &&& events[i] is ChainPulls <==> i % 4 == 3
        } by {
            if i < earlier.len() {
                assert(earlier[i] == events[i]);
            }
        }
        if earlier.len() > 0 {
            assert(earlier[earlier.len() - 1] == events[events.len() - 2]);
        }
    }
}

/// After a poll the client rests exactly if the connection could not take a request, or
/// the third stream of a round had nothing and neither had the other two. It goes on
/// exactly if none of that is so, no stream has ended and nothing has failed.
pub proof fn law_client_rests_or_goes_on(node_id: NodeId, events: Seq<PollEvent>)
    requires
        events.len() > 0,
        PollState::start().run_accepts(node_id, events),
    ensures
        ({
            let n = events.len();
            let step = PollState::start().run(node_id, events);
            let rests = events.last() == PollEvent::Service(Ok(Async::NotReady)) || {
                &&& n >= 4
                &&& events.last() == PollEvent::ChainPulls(Async::NotReady)
                &&& events[n - 2] == PollEvent::Solicitations(Async::NotReady)
                &&& events[n - 3] == PollEvent::BlockEvents(Ok(Async::NotReady))
            };
            let ends = events.last() == PollEvent::BlockEvents(Ok(Async::Ready(None)))
                || events.last() == PollEvent::Solicitations(Async::Ready(None)) || events.last()
                == PollEvent::ChainPulls(Async::Ready(None));
            let fails = match events.last() {
                PollEvent::Service(Err(_)) => true,
                PollEvent::BlockEvents(Err(_)) => true,
                _ => false,
            };
            &&& step == PollStep::Return(Ok(Async::NotReady)) <==> rests
            &&& step == PollStep::Return(Ok(Async::Ready(()))) <==> ends
            &&& (step is Return && step->Return_0 is Err) <==> fails
            &&& step is Continue <==> !rests && !ends && !fails
        }),
{
    let n = events.len();
    let earlier = events.drop_last();
    law_sources_are_polled_in_turn(node_id, events);
    law_sources_are_polled_in_turn(node_id, earlier);
    if n >= 3 && events.last() is ChainPulls {
        assert(earlier[n - 2] == events[n - 2]);
        assert(earlier[n - 3] == events[n - 3]);
        lemma_not_over(node_id, earlier, n - 2);
        lemma_not_over(node_id, earlier, n - 3);
    }
}

/// As long as a client goes on, no stream has ended and nothing has failed.
proof fn lemma_not_over(node_id: NodeId, events: Seq<PollEvent>, i: int)
    requires
        PollState::start().run_accepts(node_id, events),
        PollState::start().run(node_id, events) is Continue,
        0 <= i < events.len(),
    ensures
        events[i] != PollEvent::BlockEvents(Ok(Async::Ready(None))),
        events[i] != PollEvent::Solicitations(Async::Ready(None)),
        !(events[i] matches PollEvent::BlockEvents(Err(_))),
    decreases events.len(),
{
    if i < events.len() - 1 {
        assert(events.drop_last()[i] == events[i]);
        lemma_not_over(node_id, events.drop_last(), i);
    }
}

/// What a client in the middle of a round has seen of the round.
spec fn seen(state: PollState, events: Seq<PollEvent>) -> bool {
    let n = events.len();
    match state.source {
        Source::Service => true,
        Source::BlockEvents => !state.streams_ready,
        Source::Solicitations => n >= 1 && (!state.streams_ready ==> events[n - 1].idle()
            && events[n - 1].source() == Source::BlockEvents),
        Source::ChainPulls => n >= 2 && (!state.streams_ready ==> {
            &&& events[n - 1].idle() && events[n - 1].source() == Source::Solicitations
            &&& events[n - 2].idle() && events[n - 2].source() == Source::BlockEvents
        }),
    }
}

proof fn lemma_seen(node_id: NodeId, events: Seq<PollEvent>)
    requires
        PollState::start().run_accepts(node_id, events),
        PollState::start().run(node_id, events) is Continue,
    ensures
        seen(PollState::start().run(node_id, events)->next, events),
    decreases events.len(),
{
    if events.len() > 0 {
        lemma_seen(node_id, events.drop_last());
    }
}

/// A client rests only if it has to: the connection could not take a request, or each
/// of the three streams was polled in the last round and had nothing.
pub proof fn law_client_rests_only_when_nothing_is_ready(node_id: NodeId, events: Seq<PollEvent>)
    requires
        PollState::start().run_accepts(node_id, events),
        PollState::start().run(node_id, events) == PollStep::Return(Ok(Async::NotReady)),
    ensures
        events.len() > 0,
        events.last().idle(),
        events.last().source() == Source::Service || {
            let n = events.len();
            &&& n >= 3
            &&& events[n - 1].source() == Source::ChainPulls
            &&& events[n - 2].idle() && events[n - 2].source() == Source::Solicitations
            &&& events[n - 3].idle() && events[n - 3].source() == Source::BlockEvents
        },
{
    let earlier = events.drop_last();
    lemma_seen(node_id, earlier);
    let n = events.len();
    let state = PollState::start().run(node_id, earlier)->next;
    assert(earlier.len() == n - 1);
    if state.source == Source::ChainPulls {
        assert(earlier[n - 2] == events[n - 2]);
        assert(earlier[n - 3] == events[n - 3]);
    }
}

/// A client ends well exactly when a stream ends, and badly exactly when the connection
/// or the stream of events fails.
pub proof fn law_client_ends_with_its_streams(node_id: NodeId, events: Seq<PollEvent>)
    requires
        events.len() > 0,
        PollState::start().run_accepts(node_id, events),
    ensures
        PollState::start().run(node_id, events) == PollStep::Return(Ok(Async::Ready(())))
            <==> events.last().ended(),
        PollState::start().run(node_id, events) == PollStep::Return(Err(()))
            <==> events.last().failed(),
{
}

impl<A> Handshake<A> {
    /// What a number of events, one after the other, lead to.
    pub open spec fn run<G>(self, events: Seq<HandshakeEvent<G>>) -> Outcome<A, G>
        decreases events.len(),
    {
        if events.len() == 0 {
            Outcome::Pending(self)
        } else {
            match self.run(events.drop_last()) {
                Outcome::Pending(handshake) => handshake.step(events.last()),
                done => done,
            }
        }
    }

    /// Each of the events is one that is waited for when it comes.
    pub open spec fn run_accepts<G>(self, events: Seq<HandshakeEvent<G>>) -> bool
        decreases events.len(),
    {
        events.len() == 0 || {
            &&& self.run_accepts(events.drop_last())
            &&& match self.run(events.drop_last()) {
                Outcome::Pending(handshake) => handshake.accepts_spec(events.last()),
                _ => false,
            }
        }
    }

    /// The stage that is reached when a number of events have gone well.
    spec fn stage(addr: A, node_id: NodeId, count: nat) -> Handshake<A> {
        if count == 0 {
            Handshake::Connecting { addr, node_id }
        } else if count == 1 {
            Handshake::AwaitReady
        } else if count == 2 {
            Handshake::SubscribeToBlocks
        } else {
            Handshake::SubscribeToGossip
        }
    }

    proof fn lemma_stages<G>(addr: A, node_id: NodeId, events: Seq<HandshakeEvent<G>>)
        requires
            (Handshake::Connecting { addr, node_id }).run_accepts(events),
        ensures
            events.len() <= 4,
            match (Handshake::Connecting { addr, node_id }).run(events) {
                Outcome::Pending(handshake) => {
                    &&& events.len() < 4
                    &&& handshake == Self::stage(addr, node_id, events.len())
                    &&& forall|i: int| 0 <= i < events.len() ==> (#[trigger] events[i]).ok()
                },
                Outcome::Connected(peer, logger) => {
                    &&& events.len() == 4
                    &&& forall|i: int| 0 <= i < 4 ==> (#[trigger] events[i]).ok()
                    &&& events[3].peer() == peer
                    &&& events[3]->logger == logger
                },
                Outcome::Failed => events.len() > 0 && !events.last().ok(),
            },
        decreases events.len(),
    {
        if events.len() > 0 {
            let earlier = events.drop_last();
            Self::lemma_stages(addr, node_id, earlier);
            assert forall|i: int|
                0 <= i < events.len() && events.last().ok() implies (#[trigger] events[i]).ok() by {
                if i < events.len() - 1 {
                    assert(earlier[i] == events[i]);
                }
            }
        }
    }
}

/// There is a client exactly after four events that all went well: the connection, its
/// readiness for each of two requests, and two subscriptions in which the peer gave one
/// identity. That identity is the client's. After any event that did not go well there
/// is none.
pub proof fn law_client_has_the_identity_of_the_peer<A, G>(
    addr: A,
    node_id: NodeId,
    events: Seq<HandshakeEvent<G>>,
)
    requires
        events.len() > 0,
        (Handshake::Connecting { addr, node_id }).run_accepts(events),
    ensures
        ({
            let outcome = (Handshake::Connecting { addr, node_id }).run(events);
            &&& outcome is Failed <==> !events.last().ok()
            &&& outcome is Connected <==> events.len() == 4 && events.last().ok()
            &&& outcome matches Outcome::Connected(peer, logger) ==> {
                &&& events.last() matches HandshakeEvent::Subscribed { node_ids, logger: given }
                    && node_ids == Ok::<(NodeId, NodeId), ()>((peer, peer)) && given == logger
                &&& forall|i: int| 0 <= i < 4 ==> (#[trigger] events[i]).ok()
            }
        }),
{
    Handshake::lemma_stages(addr, node_id, events);
    Handshake::lemma_stages(addr, node_id, events.drop_last());
}

/// The stages of a handshake come in one order, and each event decides alone whether it
/// goes on. After a connection that stands, readiness is waited for; when ready, block
/// events are subscribed to; when ready again, gossip is subscribed to; and when both
/// subscriptions are accepted with one identity, there is a client of that identity. A
/// connection that fails, a readiness that fails, a subscription that fails and two
/// different identities each are the end.
pub proof fn law_handshake_goes_stage_by_stage<A, G>(
    addr: A,
    node_id: NodeId,
    ids: (NodeId, NodeId),
    logger: G,
)
    ensures
        ({
            let connecting = Handshake::Connecting { addr, node_id };
            let ready = Handshake::<A>::AwaitReady;
            let blocks = Handshake::<A>::SubscribeToBlocks;
            let gossip = Handshake::<A>::SubscribeToGossip;
            let accepted = HandshakeEvent::<G>::Subscribed { node_ids: Ok(ids), logger };
            let refused = HandshakeEvent::<G>::Subscribed { node_ids: Err(()), logger };
            &&& connecting.step(HandshakeEvent::<G>::Connected(Ok(()))) == Outcome::<
                A,
                G,
            >::Pending(ready)
            &&& ready.step(HandshakeEvent::<G>::Ready(Ok(()))) == Outcome::<A, G>::Pending(blocks)
            &&& blocks.step(HandshakeEvent::<G>::Ready(Ok(()))) == Outcome::<A, G>::Pending(gossip)
            &&& ids.0 == ids.1 ==> gossip.step(accepted) == Outcome::<A, G>::Connected(
                ids.0,
                logger,
            )
            &&& ids.0 != ids.1 ==> gossip.step(accepted) == Outcome::<A, G>::Failed
            &&& connecting.step(HandshakeEvent::<G>::Connected(Err(()))) == Outcome::<A, G>::Failed
            &&& ready.step(HandshakeEvent::<G>::Ready(Err(()))) == Outcome::<A, G>::Failed
            &&& blocks.step(HandshakeEvent::<G>::Ready(Err(()))) == Outcome::<A, G>::Failed
            &&& gossip.step(refused) == Outcome::<A, G>::Failed
        }),
{
}

/// After a number of events there is a client exactly if they are, in this order, a
/// connection that stands, two readinesses and two accepted subscriptions in which the
/// peer gave one identity; and the client has that identity and the logger that came with
/// it.
pub proof fn law_client_comes_of_one_sequence<A, G>(
    addr: A,
    node_id: NodeId,
    events: Seq<HandshakeEvent<G>>,
    peer: NodeId,
    logger: G,
)
    requires
        (Handshake::Connecting { addr, node_id }).run_accepts(events),
    ensures
        (Handshake::Connecting { addr, node_id }).run(events) == Outcome::<A, G>::Connected(
            peer,
            logger,
        ) <==> {
            &&& events.len() == 4
            &&& events[0] matches HandshakeEvent::Connected(Ok(_))
            &&& events[1] matches HandshakeEvent::Ready(Ok(_))
            &&& events[2] matches HandshakeEvent::Ready(Ok(_))
            &&& events[3] == (HandshakeEvent::<G>::Subscribed {
                node_ids: Ok((peer, peer)),
                logger,
            })
        },
{
    reveal_with_fuel(Handshake::run, 5);
    reveal_with_fuel(Handshake::run_accepts, 5);
    Handshake::lemma_stages(addr, node_id, events);
    if events.len() == 4 {
        assert(events.drop_last() =~= events.take(3));
        assert(events.take(3).drop_last() =~= events.take(2));
        assert(events.take(2).drop_last() =~= events.take(1));
        assert(events.take(1).drop_last() =~= events.take(0));
        assert(events.take(3).last() == events[2]);
        assert(events.take(2).last() == events[1]);
        assert(events.take(1).last() == events[0]);
    }
}

impl Inbound {
    /// What a number of events, one after the other, lead to.
    pub open spec fn run<C>(self, events: Seq<InboundEvent<C>>) -> InboundStep<C>
        decreases events.len(),
    {
        if events.len() == 0 {
            InboundStep::Continue { submit: None, next: self }
        } else {
            match self.run(events.drop_last()) {
                InboundStep::Continue { submit: _, next } => next.step(events.last()),
                done => done,
            }
        }
    }

    /// Each of the events is one that is waited for when it comes.
    pub open spec fn run_accepts<C>(self, events: Seq<InboundEvent<C>>) -> bool
        decreases events.len(),
    {
        events.len() == 0 || {
            &&& self.run_accepts(events.drop_last())
            &&& match self.run(events.drop_last()) {
                InboundStep::Continue { submit: _, next } => next.accepts_spec(events.last()),
                InboundStep::Finish(_) => false,
            }
        }
    }

    /// What the node was given on the way.
    pub open spec fn submitted<C>(self, events: Seq<InboundEvent<C>>) -> Seq<BlockMsg<C>>
        decreases events.len(),
    {
        if events.len() == 0 {
            Seq::empty()
        } else {
            let earlier = self.submitted(events.drop_last());
            match self.run(events) {
                InboundStep::Continue { submit: Some(msg), next: _ } => earlier.push(msg),
                _ => earlier,
            }
        }
    }
}

/// What the peer sent, as the messages that it is passed on as.
pub open spec fn received<C>(events: Seq<InboundEvent<C>>) -> Seq<BlockMsg<C>>
    decreases events.len(),
{
    if events.len() == 0 {
        Seq::empty()
    } else {
        let earlier = received(events.drop_last());
        match events.last() {
            InboundEvent::Received(Ok(Some(Payload::Block(block)))) => earlier.push(
                BlockMsg::NetworkBlock(block),
            ),
            InboundEvent::Received(Ok(Some(Payload::Headers(headers)))) => earlier.push(
                BlockMsg::ChainHeaders(headers),
            ),
            _ => earlier,
        }
    }
}

/// Whatever block the peer sends, the node is given that block; and whatever headers it
/// sends, the node is given those headers. The node has to take them before anything else
/// is received.
pub proof fn law_node_is_given_what_the_peer_sends<C>(block: Block<C>, headers: Vec<Header>)
    ensures
        Inbound::Receiving.step(InboundEvent::<C>::Received(Ok(Some(Payload::Block(block))))) == (
        InboundStep::<C>::Continue {
            submit: Some(BlockMsg::NetworkBlock(block)),
            next: Inbound::Submitted,
        }),
        Inbound::Receiving.step(InboundEvent::<C>::Received(Ok(Some(Payload::Headers(headers)))))
            == (InboundStep::<C>::Continue {
            submit: Some(BlockMsg::ChainHeaders(headers)),
            next: Inbound::Submitted,
        }),
{
}

/// The taking in goes on until the peer has sent all or something fails, and no longer:
/// it ends well exactly if the last event is the end of what the peer sends, and badly
/// exactly if the last event is a refusal, a failure or a rejection. The events alternate:
/// first the peer begins to answer, and the node is waited for exactly after it was given
/// something.
pub proof fn law_taking_in_ends_with_the_answer<C>(events: Seq<InboundEvent<C>>)
    requires
        events.len() > 0,
        Inbound::Requested.run_accepts(events),
    ensures
        Inbound::Requested.run(events) == InboundStep::<C>::Finish(Ok(())) <==> events.last()
            == InboundEvent::<C>::Received(Ok(None)),
        Inbound::Requested.run(events) == InboundStep::<C>::Finish(Err(())) <==> {
            ||| events.last() matches InboundEvent::Opened(Err(_))
            ||| events.last() matches InboundEvent::Received(Err(_))
            ||| events.last() matches InboundEvent::Processed(Err(_))
        },
        events.last() is Opened <==> events.len() == 1,
        events.last() is Processed <==> events.len() > 1 && events[events.len()
            - 2] is Received,
        Inbound::Requested.run(events) matches InboundStep::Continue { submit: _, next }
            ==> next == if events.last() is Received {
            Inbound::Submitted
        } else {
            Inbound::Receiving
        },
    decreases events.len(),
{
    let earlier = events.drop_last();
    if earlier.len() > 0 {
        law_taking_in_ends_with_the_answer(earlier);
        assert(earlier.last() == events[events.len() - 2]);
    }
}

/// Everything that the peer sends is given to the node, once and in the order in which
/// it comes; and where the taking in ends well, the peer has sent all, and nothing on
/// the way has failed or was rejected.
pub proof fn law_everything_received_is_submitted<C>(events: Seq<InboundEvent<C>>)
    requires
        Inbound::Requested.run_accepts(events),
    ensures
        Inbound::Requested.submitted(events) == received(events),
        Inbound::Requested.run(events) == InboundStep::<C>::Finish(Ok(())) ==> {
            &&& events.len() > 0
            &&& events.last().complete()
            &&& forall|i: int| 0 <= i < events.len() ==> !(#[trigger] events[i]).failed()
        },
        Inbound::Requested.run(events) is Continue ==> forall|i: int|
            0 <= i < events.len() ==> !(#[trigger] events[i]).failed(),
    decreases events.len(),
{
    if events.len() > 0 {
        let earlier = events.drop_last();
        law_everything_received_is_submitted(earlier);
        assert forall|i: int|
            0 <= i < events.len() && !events.last().failed() implies !(
        #[trigger] events[i]).failed() by {
            if i < events.len() - 1 {
                assert(earlier[i] == events[i]);
            }
        }
    }
}

/// The node is given the next thing only after it has taken the one before.
pub proof fn law_one_submission_at_a_time<C>(events: Seq<InboundEvent<C>>, i: int)
    requires
        Inbound::Requested.run_accepts(events),
        0 <= i < events.len() - 1,
        events[i] matches InboundEvent::Received(Ok(Some(_))),
    ensures
        events[i + 1] is Processed,
    decreases events.len(),
{
    let earlier = events.drop_last();
    if i < earlier.len() - 1 {
        assert(earlier[i] == events[i]);
        assert(earlier[i + 1] == events[i + 1]);
        law_one_submission_at_a_time(earlier, i);
    } else {
        assert(earlier.last() == events[i]);
    }
}

} // verus!
