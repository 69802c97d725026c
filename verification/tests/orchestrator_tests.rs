//! Event dispatch, gossip envelopes and the service lifecycle.

use fuel_node_core::orchestrator::{
    block_response, step, Action, BlockBroadcast, ConsensusBroadcast, FuelP2PEvent, GossipData,
    GossipsubBroadcastRequest, GossipsubMessage, GossipsubMessageAcceptance, LoopEvent,
    OutboundResponse, P2pRequestEvent, RequestMessage, TransactionBroadcast,
};
use fuel_node_core::service_state::{
    repark, set_running, start_transition, stop_transition, ServiceState, StartOutcome,
};

#[test]
fn gossiped_transaction_is_forwarded_with_its_provenance() {
    // One gossip arrival yields exactly one enveloped transaction,
    // keeping the peer id and message id it arrived with.
    let r = step(LoopEvent::P2p(Some(FuelP2PEvent::GossipsubMessage {
        message: GossipsubMessage::NewTx(vec![1, 2, 3]),
        message_id: vec![9, 9],
        peer_id: vec![7],
    })));
    assert!(!r.stop);
    assert_eq!(
        r.action,
        Action::ForwardTransaction(GossipData {
            data: Some(TransactionBroadcast::NewTransaction(vec![1, 2, 3])),
            peer_id: vec![7],
            message_id: vec![9, 9],
        })
    );
}

#[test]
fn gossiped_block_and_vote_are_fanned_out_by_kind() {
    let r = step(LoopEvent::P2p(Some(FuelP2PEvent::GossipsubMessage {
        message: GossipsubMessage::NewBlock(vec![4]),
        message_id: vec![1],
        peer_id: vec![2],
    })));
    assert_eq!(
        r.action,
        Action::ForwardBlock(GossipData {
            data: Some(BlockBroadcast::NewBlock(vec![4])),
            peer_id: vec![2],
            message_id: vec![1],
        })
    );
    let r = step(LoopEvent::P2p(Some(FuelP2PEvent::GossipsubMessage {
        message: GossipsubMessage::ConsensusVote(vec![5]),
        message_id: vec![1],
        peer_id: vec![2],
    })));
    assert_eq!(
        r.action,
        Action::ForwardConsensus(GossipData {
            data: Some(ConsensusBroadcast::NewVote(vec![5])),
            peer_id: vec![2],
            message_id: vec![1],
        })
    );
}

#[test]
fn peer_block_request_spawns_a_fetch() {
    let r = step(LoopEvent::P2p(Some(FuelP2PEvent::RequestMessage {
        request_message: RequestMessage::RequestBlock(11),
        request_id: 77,
    })));
    assert!(!r.stop);
    assert_eq!(r.action, Action::FetchBlock { height: 11, request_id: 77 });
}

#[test]
fn finished_response_is_sent_back_under_its_request_id() {
    let r = step(LoopEvent::OutboundResponse(Some(Some((
        OutboundResponse::ResponseBlock(vec![8]),
        77,
    )))));
    assert_eq!(
        r.action,
        Action::SendResponse { request_id: 77, response: OutboundResponse::ResponseBlock(vec![8]) }
    );
    let r = step(LoopEvent::OutboundResponse(Some(None)));
    assert_eq!(r.action, Action::Idle);
    assert!(!r.stop);
}

#[test]
fn component_requests_drive_the_network() {
    let r = step(LoopEvent::Request(Some(P2pRequestEvent::RequestBlock { height: 5 })));
    assert_eq!(r.action, Action::SendRequest { height: 5 });
    let r = step(LoopEvent::Request(Some(P2pRequestEvent::BroadcastNewTransaction {
        transaction: vec![1],
    })));
    assert_eq!(r.action, Action::Publish(GossipsubBroadcastRequest::NewTx(vec![1])));
    let r = step(LoopEvent::Request(Some(P2pRequestEvent::BroadcastNewBlock { block: vec![2] })));
    assert_eq!(r.action, Action::Publish(GossipsubBroadcastRequest::NewBlock(vec![2])));
    let r = step(LoopEvent::Request(Some(P2pRequestEvent::BroadcastConsensusVote {
        vote: vec![3],
    })));
    assert_eq!(r.action, Action::Publish(GossipsubBroadcastRequest::ConsensusVote(vec![3])));
}

#[test]
fn gossip_report_keeps_the_envelope_provenance() {
    let mut envelope = GossipData::new(TransactionBroadcast::NewTransaction(vec![1]), vec![7], vec![9]);
    let r = step(LoopEvent::Request(Some(P2pRequestEvent::GossipsubMessageReport {
        message_id: envelope.message_id(),
        peer_id: envelope.peer_id(),
        acceptance: GossipsubMessageAcceptance::Reject,
    })));
    assert_eq!(
        r.action,
        Action::Report {
            message_id: vec![9],
            peer_id: vec![7],
            acceptance: GossipsubMessageAcceptance::Reject,
        }
    );
    // Reporting reads the provenance without consuming the payload.
    assert_eq!(
        envelope.take_data(),
        Some(TransactionBroadcast::NewTransaction(vec![1]))
    );
}

#[test]
fn only_stop_ends_the_loop() {
    let r = step(LoopEvent::Request(Some(P2pRequestEvent::Stop)));
    assert!(r.stop);
    assert_eq!(r.action, Action::Idle);
    assert!(!step(LoopEvent::Request(None)).stop);
    assert!(!step(LoopEvent::P2p(None)).stop);
    assert!(!step(LoopEvent::OutboundResponse(None)).stop);
}

#[test]
fn block_lookup_outcome_is_wrapped_for_the_response_queue() {
    assert_eq!(
        block_response(Some(vec![1, 2]), 5),
        Some((OutboundResponse::ResponseBlock(vec![1, 2]), 5))
    );
    assert_eq!(block_response(None, 5), None);
}

#[test]
fn take_data_yields_some_then_none() {
    let mut g = GossipData::new(42u32, vec![1, 2], vec![3]);
    assert_eq!(g.take_data(), Some(42));
    assert_eq!(g.take_data(), None);
    // Provenance survives the extraction.
    assert_eq!(g.peer_id(), vec![1, 2]);
    assert_eq!(g.message_id(), vec![3]);
}

#[test]
fn lifecycle_start_stop_restart() {
    // Mirrors the service round trip: start, duplicate start fails,
    // stop yields the handle, stop while idle yields nothing, and a
    // reparked orchestrator starts again.
    let (state, outcome) = start_transition(ServiceState::<u32, u64>::Idle(7));
    assert_eq!(outcome, StartOutcome::Launch(7));
    let state = set_running(state, 100u64);
    assert_eq!(state, ServiceState::Running(100));

    let (state, outcome) = start_transition(state);
    assert_eq!(outcome, StartOutcome::AlreadyStarted);
    assert_eq!(state, ServiceState::Running(100));

    let (state, handle) = stop_transition(state);
    assert_eq!(handle, Some(100));
    let state = repark(state, 7);
    assert_eq!(state, ServiceState::Idle(7));

    let (state, handle) = stop_transition(ServiceState::<u32, u64>::Idle(7));
    assert_eq!(handle, None);
    assert_eq!(state, ServiceState::Idle(7));

    let (_, outcome) = start_transition(state);
    assert_eq!(outcome, StartOutcome::Launch(7));
}

#[test]
fn start_while_stopping_fails() {
    let (state, outcome) = start_transition(ServiceState::<u32, u64>::Empty);
    assert_eq!(outcome, StartOutcome::StartingWhileStopping);
    assert_eq!(state, ServiceState::Empty);
}
