//! The messages that nodes exchange: gossip published to every node, and the
//! request/response protocols of the exchange and of commit histories.

use vstd::prelude::*;
use crate::primitives::{Address, PeerId, Signature};
use crate::storage::{Bid, Commit, Query, QueryId, Trade};

verus! {

/// The request/response protocol of a trade's exchange.
#[derive(Debug, Clone, Copy)]
pub struct ExchangeProtocol;

/// The request/response protocol of commit histories.
#[derive(Debug, Clone, Copy)]
pub struct CommitProtocol;

impl ExchangeProtocol {
    /// The protocol's name on the wire.
    pub fn protocol_name(&self) -> (name: &'static str)
        ensures
            name@ == "/dse/exchange/0.1"@,
    {
        "/dse/exchange/0.1"
    }
}

impl CommitProtocol {
    /// The protocol's name on the wire.
    pub fn protocol_name(&self) -> (name: &'static str)
        ensures
            name@ == "/dse/commit/0.1"@,
    {
        "/dse/commit/0.1"
    }
}

/// Requests of the exchange protocol.
#[derive(Debug, Clone)]
pub enum ExchangeRequest {
    /// Provider sends start commit procedure to Requester along with the
    /// trade.
    StartCommit { trade: Trade },
    /// Requester sends T1 commitment to Provider
    T1RequesterCommit { trade_id: u32, commit: Commit },
    /// Provider sends T1 commitment to Requester
    T1ProviderCommit { trade_id: u32, commit: Commit },
    /// Requester sends T2 commitment to Provider
    T2RequesterCommit { trade_id: u32, commit: Commit },
    /// Provider acknowledges to Requester that the T2 commit is valid
    T2CommitValid { trade_id: u32 },
    /// Requester sends the invalidating signature for commits to Provider
    InvalidatingSignature { trade_id: u32, invalidating_signature: Signature },
}

/// Responses of the exchange protocol.
#[derive(Debug, Clone, Copy, PartialEq, Eq, Structural)]
pub enum ExchangeResponse {
    /// Acknowledges the request
    Ack,
    /// Bad request
    Bad,
}

/// Requests of the commit-history protocol.
#[derive(Debug, Clone)]
pub enum CommitRequest {
    WantHistory { wallet_address: Address },
    Update { wallet_address: Address, commits: Vec<Commit>, last_batch: bool },
}

/// Responses of the commit-history protocol.
#[derive(Debug, Clone, Copy, PartialEq, Eq, Structural)]
pub enum CommitResponse {
    /// Acknowledges the request
    Ack,
    /// Bad request
    Bad,
}

/// Messages published over gossip.
#[derive(Debug, Clone)]
pub enum GossipsubMessage {
    NewQuery(Query),
    Commit { commit: Commit, trade_id: u32 },
    InvalidatingSignature {
        trade_id: u32,
        provider_wallet: Address,
        requester_wallet: Address,
        invalidating_signature: Signature,
    },
}

/// Gossip topics, one per kind of message.
#[derive(Debug, Clone, Copy, PartialEq, Eq, Structural)]
pub enum GossipsubTopic {
    Query,
    Commit,
    InvalidatingSignature,
}

/// The topic a message is published on.
pub open spec fn topic_of(message: GossipsubMessage) -> GossipsubTopic {
    match message {
        GossipsubMessage::NewQuery(_) => GossipsubTopic::Query,
        GossipsubMessage::Commit { .. } => GossipsubTopic::Commit,
        GossipsubMessage::InvalidatingSignature { .. } => GossipsubTopic::InvalidatingSignature,
    }
}

impl GossipsubTopic {
    /// The topic a message is published on.
    pub fn from_message(message: &GossipsubMessage) -> (topic: GossipsubTopic)
        ensures
            topic == topic_of(*message),
    {
        match message {
            GossipsubMessage::NewQuery(_) => GossipsubTopic::Query,
            GossipsubMessage::Commit { .. } => GossipsubTopic::Commit,
            GossipsubMessage::InvalidatingSignature { .. } => GossipsubTopic::InvalidatingSignature,
        }
    }

    /// The topic's name.
    pub fn name(&self) -> (name: &'static str)
        ensures
            *self == GossipsubTopic::Query ==> name@ == "Query"@,
            *self == GossipsubTopic::Commit ==> name@ == "Commit"@,
            *self == GossipsubTopic::InvalidatingSignature ==> name@ == "InvalidatingSignature"@,
    {
        match self {
            GossipsubTopic::Query => "Query",
            GossipsubTopic::Commit => "Commit",
            GossipsubTopic::InvalidatingSignature => "InvalidatingSignature",
        }
    }
}

impl GossipsubMessage {
    /// The topic this message is published on.
    pub fn topic(&self) -> (topic: GossipsubTopic)
        ensures
            topic == topic_of(*self),
    {
        GossipsubTopic::from_message(self)
    }
}

/// What the network hands the indexer.
#[derive(Debug, Clone)]
pub enum NetworkEvent {
    GossipsubMessageRecv(GossipsubMessage),
    ExchangeRequest { sender_peer_id: PeerId, request: ExchangeRequest },
    CommitRequest { sender_peer_id: PeerId, request: CommitRequest },
}


/// The request/response protocol of the marketplace's direct messages.
#[derive(Debug, Clone, Copy)]
pub struct DseMessageProtocol;

impl DseMessageProtocol {
    /// The protocol's name on the wire.
    pub fn protocol_name(&self) -> (name: &'static str)
        ensures
            name@ == "/dse-message/1"@,
    {
        "/dse-message/1"
    }
}

/// Requests a node sends about queries and bids.
#[derive(Debug, Clone)]
pub enum IndexerRequest {
    /// Place bid for a query
    PlaceBid(Bid),
    /// Accept a bid for a query
    AcceptBid(QueryId),
    /// Start commit procedure
    StartCommit(QueryId),
}

/// Acknowledgements of the requests about queries and bids.
#[derive(Debug, Clone, Copy, PartialEq, Eq, Structural)]
pub enum IndexerResponse {
    /// Ack that bid was received
    AckBid(QueryId),
    /// Ack that bid acceptance was received
    AckAcceptBid(QueryId),
    /// Ack that start commit was received
    AckStartCommit(QueryId),
}


/// Direct messages a node sends to a peer.
#[derive(Debug, Clone)]
pub enum DseMessageRequest {
    /// Requests related to queries and bids
    Indexer(IndexerRequest),
    /// Requests related to commit histories
    Commit(CommitRequest),
}

/// Answers to direct messages.
#[derive(Debug, Clone, Copy, PartialEq, Eq, Structural)]
pub enum DseMessageResponse {
    /// Responses related to queries and bids
    Indexer(IndexerResponse),
    /// Responses related to commit histories
    Commit(CommitResponse),
}


/// Whether a bootstrap of the routing table is over, given how many of its
/// steps remain (`None` where a failure does not tell): it is over once
/// none remain, or when a failure does not say how many do.
pub fn bootstrap_finished(num_remaining: Option<u32>) -> (r: bool)
    ensures
        r == (num_remaining is None || num_remaining == Some(0u32)),
{
    match num_remaining {
        Some(n) => n == 0,
        None => true,
    }
}

} // verus!
