use dse::network::{GossipsubMessage, IndexerRequest};
use dse::primitives::{Address, Multiaddr, PeerId, Uint256};
use dse::server::{
    accept_bid_done, accept_bid_request, new_query_done, new_query_message, place_bid_done, place_bid_request,
    start_commit_done, start_commit_request, PostStatus,
};
use dse::storage::{Bid, BidData, Query, QueryData, Storage, TradeStatus};

fn peer(b: u8) -> PeerId {
    PeerId { bytes: vec![b, 0, b] }
}

fn query(id: u32, requester: u8) -> Query {
    Query::from_data(
        QueryData { query_string: "rust".to_string() },
        peer(requester),
        Multiaddr { bytes: vec![requester] },
        Address { bytes: [requester; 20] },
        0,
    )
    .with_id(id)
}

trait WithId {
    fn with_id(self, id: u32) -> Self;
}

impl WithId for Query {
    fn with_id(mut self, id: u32) -> Self {
        self.id = id;
        self
    }
}

fn bid(query_id: u32, provider: u8) -> Bid {
    Bid::from_data(
        BidData { query_id, charge: Uint256::from_u64(4) },
        peer(provider),
        Multiaddr { bytes: vec![provider] },
        Address { bytes: [provider; 20] },
    )
}

fn expected_query_id(peer: &PeerId, count: u64) -> u32 {
    let mut seed = peer.bytes.clone();
    seed.extend_from_slice(&count.to_le_bytes());
    let digest = ethers::utils::keccak256(&seed);
    u32::from_be_bytes([digest[0], digest[1], digest[2], digest[3]])
}

#[test]
fn new_query_id_hashes_peer_and_count() {
    let mut s = Storage::new();
    let first = match new_query_message(&mut s, QueryData { query_string: "x".to_string() }, peer(1), Multiaddr { bytes: vec![1] }, Address { bytes: [1; 20] }) {
        GossipsubMessage::NewQuery(q) => {
            assert_eq!(q.id, expected_query_id(&peer(1), 0));
            assert_eq!(q.requester_id, peer(1));
            q.id
        },
        _ => panic!("expected a new query"),
    };
    let second = match new_query_message(&mut s, QueryData { query_string: "x".to_string() }, peer(1), Multiaddr { bytes: vec![1] }, Address { bytes: [1; 20] }) {
        GossipsubMessage::NewQuery(q) => {
            assert_eq!(q.id, expected_query_id(&peer(1), 1));
            q.id
        },
        _ => panic!("expected a new query"),
    };
    assert_ne!(first, second);
    assert_eq!(s.next_query_count(), 2);
    assert_eq!(new_query_done(true), PostStatus::Success);
    assert_eq!(new_query_done(false), PostStatus::InternalServerError);
}

#[test]
fn query_id_depends_on_requester() {
    assert_eq!(dse::storage::query_id(&peer(1), 7), expected_query_id(&peer(1), 7));
    assert_ne!(dse::storage::query_id(&peer(1), 7), dse::storage::query_id(&peer(2), 7));
}

#[test]
fn bid_needs_received_query() {
    let mut s = Storage::new();
    assert!(place_bid_request(&s, &bid(5, 2)).is_none());
    s.add_query_received(query(5, 1));
    let (q, to, request) = place_bid_request(&s, &bid(5, 2)).unwrap();
    assert_eq!(to, peer(1));
    assert!(matches!(request, IndexerRequest::PlaceBid(b) if b == bid(5, 2)));
    assert_eq!(place_bid_done(&mut s, bid(5, 2), q.clone(), false), PostStatus::InternalServerError);
    assert!(s.find_bid_sent_by_query_id(&5).is_err());
    assert_eq!(place_bid_done(&mut s, bid(5, 2), q, true), PostStatus::Success);
    assert_eq!(s.find_bid_sent_by_query_id(&5), Ok(bid(5, 2)));
}

#[test]
fn acceptance_needs_bid_and_query_then_starts_requester_trade() {
    let mut s = Storage::new();
    assert!(accept_bid_request(&s, 5, &peer(2)).is_none());
    s.add_bid_received_for_query(&5, bid(5, 2));
    assert!(accept_bid_request(&s, 5, &peer(2)).is_none());
    s.add_query_sent(query(5, 1));
    let (q, b, to, request) = accept_bid_request(&s, 5, &peer(2)).unwrap();
    assert_eq!(to, peer(2));
    assert!(matches!(request, IndexerRequest::AcceptBid(5)));
    assert_eq!(accept_bid_done(&mut s, q, b, true), PostStatus::Success);
    let t = s.find_active_trade(&5, &peer(2), &peer(1)).unwrap();
    assert!(t.is_requester);
    assert_eq!(t.status, TradeStatus::WaitingStartCommit);
}

#[test]
fn start_commit_needs_provider_trade_waiting_to_start() {
    let mut s = Storage::new();
    let me = peer(2);
    assert!(start_commit_request(&s, 5, &me).is_none());
    s.add_query_received(query(5, 1));
    assert!(start_commit_request(&s, 5, &me).is_none());
    s.add_new_trade(query(5, 1), bid(5, 2), false);
    let (t, to, request) = start_commit_request(&s, 5, &me).unwrap();
    assert_eq!(to, peer(1));
    assert!(matches!(request, IndexerRequest::StartCommit(5)));
    assert_eq!(start_commit_done(&mut s, t, true), PostStatus::Success);
    assert_eq!(s.find_active_trade(&5, &me, &peer(1)).unwrap().status, TradeStatus::WaitingRT1Commit);
    // no longer waiting to start
    assert!(start_commit_request(&s, 5, &me).is_none());
}
