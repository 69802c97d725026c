//! The decision core of the network orchestrator.
//!
//! The orchestrator multiplexes three event sources — the internal
//! outbound-response queue, the peer-to-peer service, and the request
//! channel from other node components — and decides, for each event, one
//! action and whether the loop stops. That decision is [`step`], a pure
//! function verified against [`step_spec`]; the surrounding event loop,
//! the channels and the peer-to-peer service itself are asynchronous I/O
//! and live outside the library.
//!
//! Payloads, peer ids and message ids are carried as opaque bytes.

use vstd::prelude::*;

verus! {

/// A gossip payload attached to the provenance it arrived with. The
/// payload is single-consume: [`GossipData::take_data`] hands it out
/// once and leaves `None` behind.
#[derive(Clone, PartialEq, Eq, Debug)]
pub struct GossipData<T> {
    pub data: Option<T>,
    pub peer_id: Vec<u8>,
    pub message_id: Vec<u8>,
}

/// A `GossipData` after its payload was taken.
pub open spec fn taken<T>(g: GossipData<T>) -> GossipData<T> {
    GossipData { data: None, peer_id: g.peer_id, message_id: g.message_id }
}

impl<T> GossipData<T> {
    /// Wrap a payload with the peer id and message id it arrived with.
    pub fn new(value: T, peer_id: Vec<u8>, message_id: Vec<u8>) -> (r: GossipData<T>)
        ensures
            r.data == Some(value),
            r.peer_id@ == peer_id@,
            r.message_id@ == message_id@,
    {
        GossipData { data: Some(value), peer_id, message_id }
    }

    /// Extract the payload; afterwards the envelope holds none, so a
    /// second extraction yields `None`.
    pub fn take_data(&mut self) -> (r: Option<T>)
        ensures
            r == old(self).data,
            *final(self) == taken(*old(self)),
    {
        self.data.take()
    }

    /// The gossip message id this payload arrived under.
    pub fn message_id(&self) -> (r: Vec<u8>)
        ensures
            r@ == self.message_id@,
    {
        copy_bytes(&self.message_id)
    }

    /// The peer that relayed this payload.
    pub fn peer_id(&self) -> (r: Vec<u8>)
        ensures
            r@ == self.peer_id@,
    {
        copy_bytes(&self.peer_id)
    }
}

/// A byte-for-byte copy.
fn copy_bytes(b: &Vec<u8>) -> (r: Vec<u8>)
    ensures
        r@ == b@,
{
    let mut out: Vec<u8> = Vec::new();
    let n = b.len();
    let mut i: usize = 0;
    while i < n
        invariant
            n == b@.len(),
            i <= n,
            out@ == b@.take(i as int),
        decreases n - i,
    {
        out.push(b[i]);
        proof {
            assert(out@ =~= b@.take(i + 1));
        }
        i += 1;
    }
    proof {
        assert(b@.take(n as int) =~= b@);
    }
    out
}

/// The payload is handed out once: extracting from an envelope whose
/// payload was already taken yields nothing.
pub proof fn lemma_take_data_once<T>(g: GossipData<T>)
    ensures
        taken(g).data is None,
        taken(taken(g)) == taken(g),
{
}

/// A gossip message arriving from the network.
#[derive(Clone, PartialEq, Eq, Debug)]
pub enum GossipsubMessage {
    NewTx(Vec<u8>),
    NewBlock(Vec<u8>),
    ConsensusVote(Vec<u8>),
}

/// A gossip message this node asks the network to publish.
#[derive(Clone, PartialEq, Eq, Debug)]
pub enum GossipsubBroadcastRequest {
    NewTx(Vec<u8>),
    NewBlock(Vec<u8>),
    ConsensusVote(Vec<u8>),
}

/// A transaction announcement forwarded to the transaction pool.
#[derive(Clone, PartialEq, Eq, Debug)]
pub enum TransactionBroadcast {
    NewTransaction(Vec<u8>),
}

/// A block announcement forwarded to the block importer.
#[derive(Clone, PartialEq, Eq, Debug)]
pub enum BlockBroadcast {
    NewBlock(Vec<u8>),
}

/// A consensus vote forwarded to the consensus component.
#[derive(Clone, PartialEq, Eq, Debug)]
pub enum ConsensusBroadcast {
    NewVote(Vec<u8>),
}

/// The verdict a component reached on a gossiped message.
#[derive(Clone, PartialEq, Eq, Debug)]
pub enum GossipsubMessageAcceptance {
    Accept,
    Reject,
    Ignore,
}

/// A request arriving from a peer.
#[derive(Clone, PartialEq, Eq, Debug)]
pub enum RequestMessage {
    RequestBlock(u32),
}

/// A response sent back to a peer, keyed by its request id.
#[derive(Clone, PartialEq, Eq, Debug)]
pub enum OutboundResponse {
    ResponseBlock(Vec<u8>),
}

/// An event of the peer-to-peer service.
#[derive(Clone, PartialEq, Eq, Debug)]
pub enum FuelP2PEvent {
    GossipsubMessage { message: GossipsubMessage, message_id: Vec<u8>, peer_id: Vec<u8> },
    RequestMessage { request_message: RequestMessage, request_id: u64 },
}

/// A request from another node component. For a gossip report the
/// message id and peer id are the envelope's provenance bytes.
#[derive(Clone, PartialEq, Eq, Debug)]
pub enum P2pRequestEvent {
    RequestBlock { height: u32 },
    BroadcastNewBlock { block: Vec<u8> },
    BroadcastNewTransaction { transaction: Vec<u8> },
    BroadcastConsensusVote { vote: Vec<u8> },
    GossipsubMessageReport {
        message_id: Vec<u8>,
        peer_id: Vec<u8>,
        acceptance: GossipsubMessageAcceptance,
    },
    Stop,
}

/// One arrival of the multiplex: which source fired, and what it
/// yielded (`None` where the source closed or yielded nothing usable).
#[derive(Clone, PartialEq, Eq, Debug)]
pub enum LoopEvent {
    OutboundResponse(Option<Option<(OutboundResponse, u64)>>),
    P2p(Option<FuelP2PEvent>),
    Request(Option<P2pRequestEvent>),
}

/// What the loop does with one event.
#[derive(Clone, PartialEq, Eq, Debug)]
pub enum Action {
    /// Forward a finished response to the peer that asked.
    SendResponse { request_id: u64, response: OutboundResponse },
    /// Hand a gossiped transaction to the transaction broadcast channel.
    ForwardTransaction(GossipData<TransactionBroadcast>),
    /// Hand a gossiped block to the block channel.
    ForwardBlock(GossipData<BlockBroadcast>),
    /// Hand a gossiped vote to the consensus channel.
    ForwardConsensus(GossipData<ConsensusBroadcast>),
    /// Look the block up in the database on a detached task and queue
    /// the outcome on the outbound-response queue.
    FetchBlock { height: u32, request_id: u64 },
    /// Ask a peer for a block.
    SendRequest { height: u32 },
    /// Publish a broadcast to the network.
    Publish(GossipsubBroadcastRequest),
    /// Report a validation verdict for a gossiped message.
    Report { message_id: Vec<u8>, peer_id: Vec<u8>, acceptance: GossipsubMessageAcceptance },
    /// Nothing to do for this event.
    Idle,
}

/// One decision: the action to perform and whether the loop ends.
#[derive(Clone, PartialEq, Eq, Debug)]
pub struct StepResult {
    pub action: Action,
    pub stop: bool,
}

/// The decision the orchestrator takes on each event: gossip is wrapped
/// in an envelope carrying its provenance and fanned out by kind; a peer
/// request spawns a block fetch; component requests drive the
/// peer-to-peer service; only `Stop` ends the loop.
pub open spec fn step_spec(event: LoopEvent) -> StepResult {
    match event {
        LoopEvent::OutboundResponse(r) => match r {
            Some(Some((response, request_id))) => StepResult {
                action: Action::SendResponse { request_id, response },
                stop: false,
            },
            _ => StepResult { action: Action::Idle, stop: false },
        },
        LoopEvent::P2p(ev) => match ev {
            Some(FuelP2PEvent::GossipsubMessage { message, message_id, peer_id }) => match message {
                GossipsubMessage::NewTx(tx) => StepResult {
                    action: Action::ForwardTransaction(
                        GossipData {
                            data: Some(TransactionBroadcast::NewTransaction(tx)),
                            peer_id,
                            message_id,
                        },
                    ),
                    stop: false,
                },
                GossipsubMessage::NewBlock(block) => StepResult {
                    action: Action::ForwardBlock(
                        GossipData {
                            data: Some(BlockBroadcast::NewBlock(block)),
                            peer_id,
                            message_id,
                        },
                    ),
                    stop: false,
                },
                GossipsubMessage::ConsensusVote(vote) => StepResult {
                    action: Action::ForwardConsensus(
                        GossipData {
                            data: Some(ConsensusBroadcast::NewVote(vote)),
                            peer_id,
                            message_id,
                        },
                    ),
                    stop: false,
                },
            },
            Some(FuelP2PEvent::RequestMessage { request_message, request_id }) => match request_message {
                RequestMessage::RequestBlock(height) => StepResult {
                    action: Action::FetchBlock { height, request_id },
                    stop: false,
                },
            },
            None => StepResult { action: Action::Idle, stop: false },
        },
        LoopEvent::Request(ev) => match ev {
            Some(P2pRequestEvent::RequestBlock { height }) => StepResult {
                action: Action::SendRequest { height },
                stop: false,
            },
            Some(P2pRequestEvent::BroadcastNewBlock { block }) => StepResult {
                action: Action::Publish(GossipsubBroadcastRequest::NewBlock(block)),
                stop: false,
            },
            Some(P2pRequestEvent::BroadcastNewTransaction { transaction }) => StepResult {
                action: Action::Publish(GossipsubBroadcastRequest::NewTx(transaction)),
                stop: false,
            },
            Some(P2pRequestEvent::BroadcastConsensusVote { vote }) => StepResult {
                action: Action::Publish(GossipsubBroadcastRequest::ConsensusVote(vote)),
                stop: false,
            },
            Some(P2pRequestEvent::GossipsubMessageReport { message_id, peer_id, acceptance }) => StepResult {
                action: Action::Report { message_id, peer_id, acceptance },
                stop: false,
            },
            Some(P2pRequestEvent::Stop) => StepResult { action: Action::Idle, stop: true },
            None => StepResult { action: Action::Idle, stop: false },
        },
    }
}

/// Decide what to do with one multiplexed event.
pub fn step(event: LoopEvent) -> (r: StepResult)
    ensures
        r == step_spec(event),
{
    match event {
        LoopEvent::OutboundResponse(r) => match r {
            Some(Some((response, request_id))) => StepResult {
                action: Action::SendResponse { request_id, response },
                stop: false,
            },
            _ => StepResult { action: Action::Idle, stop: false },
        },
        LoopEvent::P2p(ev) => match ev {
            Some(FuelP2PEvent::GossipsubMessage { message, message_id, peer_id }) => match message {
                GossipsubMessage::NewTx(tx) => StepResult {
                    action: Action::ForwardTransaction(
                        GossipData {
                            data: Some(TransactionBroadcast::NewTransaction(tx)),
                            peer_id,
                            message_id,
                        },
                    ),
                    stop: false,
                },
                GossipsubMessage::NewBlock(block) => StepResult {
                    action: Action::ForwardBlock(
                        GossipData {
                            data: Some(BlockBroadcast::NewBlock(block)),
                            peer_id,
                            message_id,
                        },
                    ),
                    stop: false,
                },
                GossipsubMessage::ConsensusVote(vote) => StepResult {
                    action: Action::ForwardConsensus(
                        GossipData {
                            data: Some(ConsensusBroadcast::NewVote(vote)),
                            peer_id,
                            message_id,
                        },
                    ),
                    stop: false,
                },
            },
            Some(FuelP2PEvent::RequestMessage { request_message, request_id }) => match request_message {
                RequestMessage::RequestBlock(height) => StepResult {
                    action: Action::FetchBlock { height, request_id },
                    stop: false,
                },
            },
            None => StepResult { action: Action::Idle, stop: false },
        },
        LoopEvent::Request(ev) => match ev {
            Some(P2pRequestEvent::RequestBlock { height }) => StepResult {
                action: Action::SendRequest { height },
                stop: false,
            },
            Some(P2pRequestEvent::BroadcastNewBlock { block }) => StepResult {
                action: Action::Publish(GossipsubBroadcastRequest::NewBlock(block)),
                stop: false,
            },
            Some(P2pRequestEvent::BroadcastNewTransaction { transaction }) => StepResult {
                action: Action::Publish(GossipsubBroadcastRequest::NewTx(transaction)),
                stop: false,
            },
            Some(P2pRequestEvent::BroadcastConsensusVote { vote }) => StepResult {
                action: Action::Publish(GossipsubBroadcastRequest::ConsensusVote(vote)),
                stop: false,
            },
            Some(P2pRequestEvent::GossipsubMessageReport { message_id, peer_id, acceptance }) => StepResult {
                action: Action::Report { message_id, peer_id, acceptance },
                stop: false,
            },
            Some(P2pRequestEvent::Stop) => StepResult { action: Action::Idle, stop: true },
            None => StepResult { action: Action::Idle, stop: false },
        },
    }
}

/// What a finished block lookup puts on the outbound-response queue: a
/// found block becomes a response under the request id, a missed lookup
/// an empty marker.
pub open spec fn block_response_spec(block: Option<Vec<u8>>, request_id: u64) -> Option<
    (OutboundResponse, u64),
> {
    match block {
        Some(b) => Some((OutboundResponse::ResponseBlock(b), request_id)),
        None => None,
    }
}

/// Wrap the outcome of a block lookup for the outbound-response queue.
pub fn block_response(block: Option<Vec<u8>>, request_id: u64) -> (r: Option<
    (OutboundResponse, u64),
>)
    ensures
        r == block_response_spec(block, request_id),
{
    match block {
        Some(b) => Some((OutboundResponse::ResponseBlock(b), request_id)),
        None => None,
    }
}

/// A gossiped transaction is forwarded exactly once, in an envelope
/// that keeps its provenance: the peer id and message id it arrived
/// with, and the payload itself.
pub proof fn lemma_gossip_tx_forwarded(tx: Vec<u8>, message_id: Vec<u8>, peer_id: Vec<u8>)
    ensures
        ({
            let r = step_spec(
                LoopEvent::P2p(
                    Some(
                        FuelP2PEvent::GossipsubMessage {
                            message: GossipsubMessage::NewTx(tx),
                            message_id,
                            peer_id,
                        },
                    ),
                ),
            );
            &&& !r.stop
            &&& r.action == Action::ForwardTransaction(
                GossipData {
                    data: Some(TransactionBroadcast::NewTransaction(tx)),
                    peer_id,
                    message_id,
                },
            )
        }),
{
}

/// Only the `Stop` request ends the loop; every other event leaves it
/// running.
pub proof fn lemma_stop_only_on_stop(event: LoopEvent)
    ensures
        step_spec(event).stop <==> event == LoopEvent::Request(Some(P2pRequestEvent::Stop)),
{
}

} // verus!
