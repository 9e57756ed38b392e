use jormungandr::block::{Block, BlockDate, ChainLength, Header, HeaderHash};
use jormungandr::network::{
    connect, Async, BlockEvent, BlockMsg, ChainPullRequest, Client, ClientMsg, Command, Handshake,
    HandshakeEvent, HandshakeStep, Inbound, InboundEvent, InboundStep, NodeId, Payload, PollEvent,
    PollState, PollStep, PullRequest, Source, Upload,
};
use std::sync::Arc;

fn id(low: u128) -> HeaderHash {
    HeaderHash { high: 0, low }
}

fn header(own: u128) -> Header {
    Header {
        hash: id(own),
        parent_hash: id(own - 1),
        block_date: BlockDate { epoch: 0, slot_id: 1 },
        chain_length: ChainLength(1),
    }
}

fn request() -> ChainPullRequest {
    ChainPullRequest {
        from: vec![id(1), id(2)],
        to: id(9),
    }
}

fn finish(block: u128, gossip: u128) -> HandshakeEvent<&'static str> {
    HandshakeEvent::Subscribed {
        node_ids: Ok((NodeId(block), NodeId(gossip))),
        logger: "log",
    }
}

fn handshake(
    events: Vec<HandshakeEvent<&'static str>>,
) -> HandshakeStep<&'static str, &'static str> {
    let mut step = HandshakeStep::Pending(connect("peer:3000", NodeId(1)));
    for event in events {
        step = match step {
            HandshakeStep::Pending(handshake) => {
                assert!(handshake.accepts(&event));
                handshake.resume(event)
            }
            HandshakeStep::Done(_) => panic!("an event after the end"),
        };
    }
    step
}

fn client() -> Client<&'static str> {
    let events = vec![
        HandshakeEvent::Connected(Ok(())),
        HandshakeEvent::Ready(Ok(())),
        HandshakeEvent::Ready(Ok(())),
        finish(42, 42),
    ];
    match handshake(events) {
        HandshakeStep::Done(Ok(client)) => client,
        other => panic!("{:?}", other),
    }
}

fn go_on(step: PollStep) -> (Option<Command>, PollState) {
    match step {
        PollStep::Continue { command, next } => (command, next),
        other => panic!("{:?}", other),
    }
}

#[test]
fn a_client_has_the_identity_that_the_peer_gave_twice() {
    let client = client();
    assert_eq!(client.remote_node_id(), NodeId(42));
    assert_eq!(*client.logger(), "log");
}

#[test]
fn the_way_to_a_client_has_four_stages() {
    let first = connect("peer:3000", NodeId(1));
    assert!(matches!(
        first,
        Handshake::Connecting { addr: "peer:3000", node_id: NodeId(1) }
    ));
    assert!(!first.accepts(&finish(1, 1)));
    let step: HandshakeStep<_, &'static str> = first.resume(HandshakeEvent::Connected(Ok(())));
    let second = match step {
        HandshakeStep::Pending(handshake) => handshake,
        other => panic!("{:?}", other),
    };
    assert!(matches!(second, Handshake::AwaitReady));
    let step: HandshakeStep<_, &'static str> = second.resume(HandshakeEvent::Ready(Ok(())));
    let third = match step {
        HandshakeStep::Pending(handshake) => handshake,
        other => panic!("{:?}", other),
    };
    assert!(matches!(third, Handshake::SubscribeToBlocks));
    let step: HandshakeStep<_, &'static str> = third.resume(HandshakeEvent::Ready(Ok(())));
    assert!(matches!(
        step,
        HandshakeStep::Pending(Handshake::SubscribeToGossip)
    ));
}

#[test]
fn any_failure_on_the_way_is_the_end() {
    assert!(matches!(
        handshake(vec![HandshakeEvent::Connected(Err(()))]),
        HandshakeStep::Done(Err(()))
    ));
    assert!(matches!(
        handshake(vec![HandshakeEvent::Connected(Ok(())), HandshakeEvent::Ready(Err(()))]),
        HandshakeStep::Done(Err(()))
    ));
    let ready = || {
        vec![
            HandshakeEvent::Connected(Ok(())),
            HandshakeEvent::Ready(Ok(())),
            HandshakeEvent::Ready(Ok(())),
        ]
    };
    let mut events = ready();
    events.push(HandshakeEvent::Subscribed { node_ids: Err(()), logger: "log" });
    assert!(matches!(handshake(events), HandshakeStep::Done(Err(()))));
    let mut events = ready();
    events.push(finish(42, 43));
    assert!(matches!(handshake(events), HandshakeStep::Done(Err(()))));
}

#[test]
fn each_event_of_the_peer_has_its_answer() {
    let client = client();
    assert!(matches!(
        client.process_block_event(BlockEvent::Announce(header(5))),
        Command::ProcessAnnouncement { header: h, node_id: NodeId(42) } if h == header(5)
    ));
    assert!(matches!(
        client.process_block_event(BlockEvent::Solicit(vec![id(3)])),
        Command::Serve { msg: ClientMsg::GetBlocks(ids), upload: Upload::UploadBlocks }
            if ids == vec![id(3)]
    ));
    assert!(matches!(
        client.process_block_event(BlockEvent::Missing(request())),
        Command::Serve { msg: ClientMsg::PullBlocksToTip(from), upload: Upload::UploadBlocks }
            if from == vec![id(1), id(2)]
    ));
    assert!(matches!(
        client.push_missing_headers(request()),
        Command::Serve { msg: ClientMsg::GetHeadersRange(from, to), upload: Upload::PushHeaders }
            if from == vec![id(1), id(2)] && to == id(9)
    ));
    assert!(matches!(
        client.push_missing_blocks(request()),
        Command::Serve { msg: ClientMsg::PullBlocksToTip(from), upload: Upload::UploadBlocks }
            if from == vec![id(1), id(2)]
    ));
    assert!(matches!(
        client.pull_headers(request()),
        Command::Pull(PullRequest::PullHeaders(from, to))
            if from == vec![id(1), id(2)] && to == id(9)
    ));
    assert!(matches!(
        client.pull_blocks_to_tip(request()),
        Command::Pull(PullRequest::PullBlocksToTip(from)) if from == vec![id(1), id(2)]
    ));
    assert!(matches!(
        client.solicit_blocks(vec![id(8)]),
        Command::Pull(PullRequest::GetBlocks(ids)) if ids == vec![id(8)]
    ));
}

#[test]
fn a_round_that_brings_nothing_puts_the_client_to_rest() {
    let client = client();
    let state = PollState::new();
    assert_eq!(state.source, Source::Service);
    let (command, state) = go_on(client.poll(state, PollEvent::Service(Ok(Async::Ready(())))));
    assert!(command.is_none());
    let (command, state) =
        go_on(client.poll(state, PollEvent::BlockEvents(Ok(Async::NotReady))));
    assert!(command.is_none());
    let (command, state) = go_on(client.poll(state, PollEvent::Solicitations(Async::NotReady)));
    assert!(command.is_none());
    assert_eq!(
        state,
        PollState { source: Source::ChainPulls, streams_ready: false }
    );
    let event = PollEvent::ChainPulls(Async::NotReady);
    assert_eq!(event.origin(), Source::ChainPulls);
    assert!(matches!(
        client.poll(state, event),
        PollStep::Return(Ok(Async::NotReady))
    ));
}

#[test]
fn a_connection_that_is_busy_puts_the_client_to_rest() {
    assert!(matches!(
        client().poll(PollState::new(), PollEvent::Service(Ok(Async::NotReady))),
        PollStep::Return(Ok(Async::NotReady))
    ));
}

#[test]
fn whatever_comes_up_in_a_round_is_acted_on_and_another_round_begins() {
    for ready in 1..8u8 {
        let client = client();
        let mut commands = 0;
        let mut expected = 0;
        let (_, state) =
            go_on(client.poll(PollState::new(), PollEvent::Service(Ok(Async::Ready(())))));
        let event = if ready & 1 != 0 {
            expected += 1;
            Async::Ready(Some(BlockEvent::Announce(header(5))))
        } else {
            Async::NotReady
        };
        let (command, state) = go_on(client.poll(state, PollEvent::BlockEvents(Ok(event))));
        commands += command.iter().count();
        let event = if ready & 2 != 0 {
            expected += 1;
            Async::Ready(Some(vec![id(3)]))
        } else {
            Async::NotReady
        };
        let (command, state) = go_on(client.poll(state, PollEvent::Solicitations(event)));
        commands += command.iter().count();
        let event = if ready & 4 != 0 {
            expected += 1;
            Async::Ready(Some(request()))
        } else {
            Async::NotReady
        };
        let (command, state) = go_on(client.poll(state, PollEvent::ChainPulls(event)));
        commands += command.iter().count();
        assert_eq!(state, PollState::new());
        assert_eq!(commands, expected);
    }
}

#[test]
fn a_stream_that_ends_is_the_end_of_the_client() {
    let client = client();
    let at = |source| PollState { source, streams_ready: true };
    assert!(matches!(
        client.poll(at(Source::BlockEvents), PollEvent::BlockEvents(Ok(Async::Ready(None)))),
        PollStep::Return(Ok(Async::Ready(())))
    ));
    assert!(matches!(
        client.poll(at(Source::Solicitations), PollEvent::Solicitations(Async::Ready(None))),
        PollStep::Return(Ok(Async::Ready(())))
    ));
    assert!(matches!(
        client.poll(at(Source::ChainPulls), PollEvent::ChainPulls(Async::Ready(None))),
        PollStep::Return(Ok(Async::Ready(())))
    ));
    assert!(matches!(
        client.poll(at(Source::Service), PollEvent::Service(Err(()))),
        PollStep::Return(Err(()))
    ));
    assert!(matches!(
        client.poll(at(Source::BlockEvents), PollEvent::BlockEvents(Err(()))),
        PollStep::Return(Err(()))
    ));
}

#[test]
fn what_the_peer_sends_is_submitted_one_at_a_time() {
    let state = Inbound::new();
    let opened: InboundEvent<&'static str> = InboundEvent::Opened(Ok(()));
    assert!(state.accepts(&opened));
    let state = match state.resume(opened) {
        InboundStep::Continue { submit: None, next } => next,
        other => panic!("{:?}", other),
    };
    assert_eq!(state, Inbound::Receiving);
    let sent = Block { header: header(5), body: Arc::new("five") };
    let state = match state.resume(InboundEvent::Received(Ok(Some(Payload::Block(sent))))) {
        InboundStep::Continue { submit: Some(BlockMsg::NetworkBlock(b)), next } => {
            assert_eq!(b.header, header(5));
            assert_eq!(*b.body, "five");
            next
        }
        other => panic!("{:?}", other),
    };
    assert_eq!(state, Inbound::Submitted);
    let early: InboundEvent<&'static str> = InboundEvent::Received(Ok(None));
    assert!(!state.accepts(&early));
    let taken: InboundEvent<&'static str> = InboundEvent::Processed(Ok(()));
    let state = match state.resume(taken) {
        InboundStep::Continue { submit: None, next } => next,
        other => panic!("{:?}", other),
    };
    let headers: InboundEvent<&'static str> =
        InboundEvent::Received(Ok(Some(Payload::Headers(vec![header(6), header(7)]))));
    match state.resume(headers) {
        InboundStep::Continue { submit: Some(BlockMsg::ChainHeaders(hs)), next: Inbound::Submitted } => {
            assert_eq!(hs, vec![header(6), header(7)]);
        }
        other => panic!("{:?}", other),
    }
    assert!(matches!(
        state.resume(early),
        InboundStep::Finish(Ok(()))
    ));
}

#[test]
fn a_failure_ends_the_taking_in() {
    let refused: InboundEvent<()> = InboundEvent::Opened(Err(()));
    assert!(matches!(
        Inbound::Requested.resume(refused),
        InboundStep::Finish(Err(()))
    ));
    let broken: InboundEvent<()> = InboundEvent::Received(Err(()));
    assert!(matches!(
        Inbound::Receiving.resume(broken),
        InboundStep::Finish(Err(()))
    ));
    let rejected: InboundEvent<()> = InboundEvent::Processed(Err(()));
    assert!(matches!(
        Inbound::Submitted.resume(rejected),
        InboundStep::Finish(Err(()))
    ));
}
