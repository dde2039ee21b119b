use dse::network::bootstrap_finished;
use dse::handler::handle_received_query;
use dse::network::{
    CommitProtocol, DseMessageProtocol, DseMessageRequest, DseMessageResponse, ExchangeProtocol, GossipsubMessage,
    GossipsubTopic, IndexerRequest, IndexerResponse,
};
use dse::primitives::{Address, Multiaddr, PeerId, Signature, Uint256};
use dse::storage::{Commit, CommitType, Query, QueryData};
use dse::subscription::{Request, Response, Subscription};

fn query() -> Query {
    Query {
        id: 1,
        data: QueryData { query_string: String::new() },
        requester_addr: Multiaddr { bytes: vec![] },
        requester_id: PeerId { bytes: vec![] },
        requester_wallet_address: Address { bytes: [0; 20] },
    }
}

#[test]
fn topics_follow_messages() {
    let commit = Commit {
        index: 0,
        epoch: 0,
        u: 0,
        c_type: CommitType::T2,
        i_address: Address { bytes: [0; 20] },
        r_address: Address { bytes: [0; 20] },
        signature: None,
        wallet_address: Address { bytes: [0; 20] },
    };
    let sig = Signature { r: Uint256::zero(), s: Uint256::zero(), v: 27 };
    assert_eq!(GossipsubMessage::NewQuery(query()).topic(), GossipsubTopic::Query);
    assert_eq!(GossipsubMessage::Commit { commit, trade_id: 1 }.topic(), GossipsubTopic::Commit);
    let inv = GossipsubMessage::InvalidatingSignature {
        trade_id: 1,
        provider_wallet: Address { bytes: [1; 20] },
        requester_wallet: Address { bytes: [2; 20] },
        invalidating_signature: sig,
    };
    assert_eq!(GossipsubTopic::from_message(&inv), GossipsubTopic::InvalidatingSignature);
    assert_eq!(GossipsubTopic::Query.name(), "Query");
    assert_eq!(GossipsubTopic::Commit.name(), "Commit");
    assert_eq!(GossipsubTopic::InvalidatingSignature.name(), "InvalidatingSignature");
}

#[test]
fn protocol_names() {
    assert_eq!(ExchangeProtocol.protocol_name(), "/dse/exchange/0.1");
    assert_eq!(CommitProtocol.protocol_name(), "/dse/commit/0.1");
    assert_eq!(DseMessageProtocol.protocol_name(), "/dse-message/1");
}

#[test]
fn subscription_ids_and_answers() {
    let mut sub = Subscription::new();
    let peer = PeerId { bytes: vec![3] };
    let (id1, send) = sub.start(Request::DseRequest { peer_id: peer.clone(), message: DseMessageRequest::Indexer(IndexerRequest::AcceptBid(4)) });
    assert_eq!(id1, 1);
    assert!(matches!(send, Some((p, DseMessageRequest::Indexer(IndexerRequest::AcceptBid(4)))) if p == peer));
    let (id2, send) = sub.start(Request::DhtGet);
    assert_eq!(id2, 2);
    assert!(send.is_none());
    let ok = Subscription::response_for(id1, Some(DseMessageResponse::Indexer(IndexerResponse::AckAcceptBid(4))));
    assert_eq!(ok.id, 1);
    assert!(matches!(ok.response, Response::DseRequest(DseMessageResponse::Indexer(IndexerResponse::AckAcceptBid(4)))));
    let failed = Subscription::response_for(id2, None);
    assert!(matches!(failed.response, Response::Error(ref m) if m == "failed!"));
}

#[test]
fn received_query_is_forwarded_unchanged() {
    assert_eq!(handle_received_query(query()), query());
    // a duplicate is forwarded again
    assert_eq!(handle_received_query(query()), query());
}

#[test]
fn bootstrap_ends_when_nothing_remains() {
    assert!(bootstrap_finished(Some(0)));
    assert!(!bootstrap_finished(Some(2)));
    assert!(bootstrap_finished(None));
}
