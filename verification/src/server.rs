//! The decisions behind the node's local API: what to check in the store
//! before asking a peer, and what to record once the peer has acknowledged.

use vstd::prelude::*;
use crate::network::{GossipsubMessage, IndexerRequest};
use crate::primitives::{Address, Multiaddr, PeerId};
use crate::storage::{
    Bid, BidData, Query, QueryData, QueryId, Storage, StorageView, Trade, TradeStatus, TradeView,
    be32, query_id_for, stored_bid, stored_trade,
};

verus! {

/// Messages a local client posts to the node.
#[derive(Debug, Clone)]
pub enum ReceivedMessage {
    /// place a bid on a query received
    PlaceBid { bid: BidData },
    /// publish a new query
    NewQuery { query: QueryData },
    /// accept a bid received for a query
    AcceptBid { query_id: QueryId, provider_id: PeerId },
    /// start the commit procedure of a trade
    StartCommit { query_id: QueryId },
}

/// Messages the node pushes to its local clients.
#[derive(Debug, Clone)]
pub enum SendWssMessage {
    /// notify client of received bid
    ReceivedBid { bid: Bid, query_id: QueryId },
    /// notify client of received query
    ReceivedQuery { query: Query },
    /// notify client of bid acceptance
    ReceivedBidAcceptance { query_id: QueryId },
}

/// The HTTP status a post is answered with.
#[derive(Debug, Clone, Copy, PartialEq, Eq, Structural)]
pub enum PostStatus {
    Success,
    InternalServerError,
}

/// The status of a post whose work succeeded or not.
pub open spec fn status_for(succeeded: bool) -> PostStatus {
    if succeeded {
        PostStatus::Success
    } else {
        PostStatus::InternalServerError
    }
}

fn status_of(succeeded: bool) -> (s: PostStatus)
    ensures
        s == status_for(succeeded),
{
    if succeeded {
        PostStatus::Success
    } else {
        PostStatus::InternalServerError
    }
}

/// The gossip message publishing a new query of this node, whose id is
/// derived from the node's peer id and the count of queries it published
/// before; the count goes up by one.
pub fn new_query_message(
    storage: &mut Storage,
    data: QueryData,
    requester_id: PeerId,
    requester_addr: Multiaddr,
    wallet_address: Address,
) -> (m: GossipsubMessage)
    ensures
        m matches GossipsubMessage::NewQuery(q) && q.id == query_id_for(requester_id@, old(storage)@.query_count)
            && q.data == data && q.requester_id == requester_id && q.requester_addr == requester_addr
            && q.requester_wallet_address == wallet_address,
        final(storage)@ == (StorageView {
            query_count: if old(storage)@.query_count == u64::MAX {
                0
            } else {
                (old(storage)@.query_count + 1) as u64
            },
            ..old(storage)@
        }),
        final(storage).wf() == old(storage).wf(),
{
    let count = storage.next_query_count();
    GossipsubMessage::NewQuery(Query::from_data(data, requester_id, requester_addr, wallet_address, count))
}

/// The answer to posting a new query, once publishing it succeeded or not.
pub fn new_query_done(published: bool) -> (s: PostStatus)
    ensures
        s == status_for(published),
{
    status_of(published)
}

/// Placing a bid needs the query it is for to have been received; then the
/// bid goes to the query's requester.
pub fn place_bid_request(storage: &Storage, bid: &Bid) -> (r: Option<(Query, PeerId, IndexerRequest)>)
    requires
        storage.wf(),
    ensures
        match r {
            Some((q, peer, request)) => storage@.queries_received.contains_key(be32(bid.query_id)) && q@
                == storage@.queries_received[be32(bid.query_id)]@ && peer@ == q.requester_id@
                && (request matches IndexerRequest::PlaceBid(b) && b@ == bid@),
            None => !storage@.queries_received.contains_key(be32(bid.query_id)),
        },
{
    match storage.find_query_received_by_query_id(&bid.query_id) {
        Ok(query) => {
            let peer = query.requester_id.duplicate();
            Some((query, peer, IndexerRequest::PlaceBid(bid.duplicate())))
        },
        Err(_) => None,
    }
}

/// Once the requester has answered a placed bid: an acknowledged bid is
/// recorded as sent for its query.
pub fn place_bid_done(storage: &mut Storage, bid: Bid, query: Query, acknowledged: bool) -> (s: PostStatus)
    requires
        old(storage).wf(),
    ensures
        final(storage).wf(),
        s == status_for(acknowledged),
        acknowledged ==> final(storage)@ == (StorageView {
            bids_sent: old(storage)@.bids_sent.insert(be32(query.id), bid),
            ..old(storage)@
        }),
        !acknowledged ==> final(storage)@ == old(storage)@,
{
    if acknowledged {
        storage.add_bid_sent_for_query(bid, query);
    }
    status_of(acknowledged)
}

/// Accepting a bid needs a bid received from that provider naming the
/// query, and the query sent; then the acceptance goes to the bid's
/// provider.
pub fn accept_bid_request(storage: &Storage, query_id: QueryId, provider_id: &PeerId) -> (r: Option<(Query, Bid, PeerId, IndexerRequest)>)
    requires
        storage.wf(),
    ensures
        match r {
            Some((q, b, peer, request)) => stored_bid(storage@, query_id, provider_id@) is Some && b@
                == stored_bid(storage@, query_id, provider_id@)->0@
                && storage@.queries_sent.contains_key(be32(query_id)) && q@
                == storage@.queries_sent[be32(query_id)]@ && peer@ == b.provider_id@
                && request == IndexerRequest::AcceptBid(query_id),
            None => stored_bid(storage@, query_id, provider_id@) is None || !storage@.queries_sent.contains_key(
                be32(query_id),
            ),
        },
{
    match storage.find_bid_received(&query_id, provider_id) {
        Ok(bid) => match storage.find_query_sent_by_query_id(&query_id) {
            Ok(query) => {
                let peer = bid.provider_id.duplicate();
                Some((query, bid, peer, IndexerRequest::AcceptBid(query_id)))
            },
            Err(_) => None,
        },
        Err(_) => None,
    }
}

/// Once the provider has answered an acceptance: an acknowledged one
/// starts a trade in which this node is the requester.
pub fn accept_bid_done(storage: &mut Storage, query: Query, bid: Bid, acknowledged: bool) -> (s: PostStatus)
    requires
        old(storage).wf(),
    ensures
        final(storage).wf(),
        s == status_for(acknowledged),
        acknowledged ==> final(storage)@ == (StorageView {
            active_trades: old(storage)@.active_trades.insert(
                be32(query.id),
                Trade { query, bid, status: TradeStatus::WaitingStartCommit, query_id: query.id, is_requester: true },
            ),
            ..old(storage)@
        }),
        !acknowledged ==> final(storage)@ == old(storage)@,
{
    if acknowledged {
        storage.add_new_trade(query, bid, true);
    }
    status_of(acknowledged)
}

/// Starting the commit procedure needs the query received and a trade for
/// it in which this node provides to that query's requester, waiting for
/// this node to start; then the start goes to the requester.
pub fn start_commit_request(storage: &Storage, query_id: QueryId, self_id: &PeerId) -> (r: Option<(Trade, PeerId, IndexerRequest)>)
    requires
        storage.wf(),
    ensures
        match r {
            Some((t, peer, request)) => storage@.queries_received.contains_key(be32(query_id))
                && stored_trade(
                storage@,
                query_id,
                self_id@,
                storage@.queries_received[be32(query_id)].requester_id@,
            ) is Some && t@ == stored_trade(
                storage@,
                query_id,
                self_id@,
                storage@.queries_received[be32(query_id)].requester_id@,
            )->0@ && t.status == TradeStatus::PSendStartCommit && peer@ == t.query.requester_id@
                && request == IndexerRequest::StartCommit(query_id),
            None => !storage@.queries_received.contains_key(be32(query_id)) || stored_trade(
                storage@,
                query_id,
                self_id@,
                storage@.queries_received[be32(query_id)].requester_id@,
            ) is None || stored_trade(
                storage@,
                query_id,
                self_id@,
                storage@.queries_received[be32(query_id)].requester_id@,
            )->0.status != TradeStatus::PSendStartCommit,
        },
{
    match storage.find_query_received_by_query_id(&query_id) {
        Ok(query) => match storage.find_active_trade(&query_id, self_id, &query.requester_id) {
            Ok(trade) => {
                if trade.status == TradeStatus::PSendStartCommit {
                    let peer = trade.query.requester_id.duplicate();
                    Some((trade, peer, IndexerRequest::StartCommit(query_id)))
                } else {
                    None
                }
            },
            Err(_) => None,
        },
        Err(_) => None,
    }
}

/// Once the requester has answered the start: an acknowledged start moves
/// the trade to waiting for the requester's first commitment and writes it
/// back to the store.
pub fn start_commit_done(storage: &mut Storage, trade: Trade, acknowledged: bool) -> (s: PostStatus)
    requires
        old(storage).wf(),
    ensures
        final(storage).wf(),
        s == status_for(acknowledged),
        acknowledged ==> crate::commit_procedure::trade_written_back(
            *old(storage),
            *final(storage),
            TradeView { status: TradeStatus::WaitingRT1Commit, ..trade@ },
        ),
        !acknowledged ==> final(storage)@ == old(storage)@,
{
    if acknowledged {
        let mut trade = trade;
        trade.update_status(TradeStatus::WaitingRT1Commit);
        crate::commit_procedure::write_back(storage, &trade);
    }
    status_of(acknowledged)
}

} // verus!
