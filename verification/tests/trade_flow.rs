use dse::indexer::Indexer;
use dse::network::NetworkEvent;
use dse::commit_procedure::{CommitProcedure, CommitProcedureEvent};
use dse::network::ExchangeRequest;
use dse::primitives::{Address, Multiaddr, PeerId, Uint256};
use dse::storage::{Bid, Query, QueryData, Storage, StorageError, Trade, TradeStatus};

fn peer(b: u8) -> PeerId {
    PeerId { bytes: vec![b, b, b] }
}

fn addr(b: u8) -> Multiaddr {
    Multiaddr { bytes: vec![b] }
}

fn query(id: u32, requester: u8) -> Query {
    Query {
        id,
        data: QueryData { query_string: format!("query {}", id) },
        requester_addr: addr(requester),
        requester_id: peer(requester),
        requester_wallet_address: Address { bytes: [requester; 20] },
    }
}

fn bid(query_id: u32, provider: u8, charge: u64) -> Bid {
    Bid {
        query_id,
        provider_addr: addr(provider),
        provider_id: peer(provider),
        provider_wallet_address: Address { bytes: [provider; 20] },
        charge: Uint256::from_u64(charge),
    }
}

#[test]
fn new_trade_starts_by_role() {
    let mut s = Storage::new();
    s.add_new_trade(query(5, 1), bid(5, 2, 10), true);
    s.add_new_trade(query(6, 1), bid(6, 2, 10), false);
    let t5 = s.find_active_trade(&5, &peer(2), &peer(1)).unwrap();
    let t6 = s.find_active_trade(&6, &peer(2), &peer(1)).unwrap();
    assert_eq!(t5.status, TradeStatus::WaitingStartCommit);
    assert!(t5.is_requester);
    assert_eq!(t6.status, TradeStatus::PSendStartCommit);
    assert!(!t6.is_requester);
}

#[test]
fn update_of_unknown_trade_is_refused() {
    let mut s = Storage::new();
    let t = Trade {
        query: query(9, 1),
        bid: bid(9, 2, 4),
        status: TradeStatus::RSendT1Commit,
        query_id: 9,
        is_requester: true,
    };
    assert_eq!(s.update_active_trade(t), Err(StorageError::NotFound));
    assert!(s.get_active_trades().is_empty());
}

#[test]
fn provider_path_through_commit_procedure() {
    let mut s = Storage::new();
    s.add_new_trade(query(3, 1), bid(3, 2, 8), false);
    let mut t = s.find_active_trade(&3, &peer(2), &peer(1)).unwrap();
    t.update_status(TradeStatus::WaitingRT1Commit);
    s.update_active_trade(t.clone()).unwrap();

    let mut p = CommitProcedure::new(t);
    p.update_trade_processing_status(&mut s);
    assert_eq!(p.trade.status, TradeStatus::ProcessingRT1Commit);
    p.update_trade_send_status(&mut s);
    assert_eq!(p.trade.status, TradeStatus::PSendT1Commit);
    assert_eq!(s.find_active_trade(&3, &peer(2), &peer(1)).unwrap().status, TradeStatus::PSendT1Commit);

    let (to, request) = p.send_request();
    assert_eq!(to, peer(1));
    assert!(matches!(request, ExchangeRequest::T1ProviderCommit { trade_id: 3, .. }));
    let event = p.send_finished(&mut s, true);
    assert_eq!(event, CommitProcedureEvent::SendSuccess { trade_id: 3 });
    assert_eq!(s.find_active_trade(&3, &peer(2), &peer(1)).unwrap().status, TradeStatus::WaitingRT2Commit);
}

#[test]
fn requester_path_through_commit_procedure() {
    let mut s = Storage::new();
    s.add_new_trade(query(4, 1), bid(4, 2, 8), true);
    let mut t = s.find_active_trade(&4, &peer(2), &peer(1)).unwrap();
    t.update_status(TradeStatus::RSendT1Commit);
    s.update_active_trade(t.clone()).unwrap();
    let mut p = CommitProcedure::new(t);

    // receiving or verifying does nothing to a trade that has to send
    p.update_trade_processing_status(&mut s);
    p.update_trade_send_status(&mut s);
    assert_eq!(p.trade.status, TradeStatus::RSendT1Commit);

    let (to, request) = p.send_request();
    assert_eq!(to, peer(2));
    assert!(matches!(request, ExchangeRequest::T1RequesterCommit { trade_id: 4, .. }));
    assert_eq!(p.send_finished(&mut s, false), CommitProcedureEvent::SendFailed { trade_id: 4 });
    assert_eq!(p.trade.status, TradeStatus::RSendT1Commit);
    assert_eq!(p.send_finished(&mut s, true), CommitProcedureEvent::SendSuccess { trade_id: 4 });
    assert_eq!(p.trade.status, TradeStatus::WaitingPT1Commit);
    assert!(p.find_commitment().is_none());

    p.update_trade_processing_status(&mut s);
    assert_eq!(p.trade.status, TradeStatus::ProcessingPT1Commit);
    p.update_trade_send_status(&mut s);
    assert_eq!(p.trade.status, TradeStatus::RSendT2Commit);
    assert!(matches!(p.send_request(), (_, ExchangeRequest::T2RequesterCommit { trade_id: 4, .. })));
    p.send_finished(&mut s, true);
    assert_eq!(p.trade.status, TradeStatus::WaitingForService);
    assert_eq!(s.find_active_trade(&4, &peer(2), &peer(1)).unwrap().status, TradeStatus::WaitingForService);
}

#[test]
fn commitment_follows_send_status() {
    let mut s = Storage::new();
    s.add_new_trade(query(4, 1), bid(4, 2, 8), true);
    let mut t = s.find_active_trade(&4, &peer(2), &peer(1)).unwrap();
    assert!(CommitProcedure::new(t.clone()).find_commitment().is_none());
    for (status, c_type) in [
        (TradeStatus::RSendT1Commit, dse::storage::CommitType::T1),
        (TradeStatus::PSendT1Commit, dse::storage::CommitType::T1),
        (TradeStatus::RSendT2Commit, dse::storage::CommitType::T2),
    ] {
        t.update_status(status);
        let c = CommitProcedure::new(t.clone()).find_commitment().unwrap();
        assert_eq!((c.index, c.epoch, c.u), (0, 0, 0));
        assert_eq!(c.c_type, c_type);
        assert!(c.signature.is_none());
        assert_eq!(c.wallet_address, Address { bytes: [0; 20] });
    }
    for status in [TradeStatus::WaitingPT1Commit, TradeStatus::WaitingForService, TradeStatus::PFulfillService] {
        t.update_status(status);
        assert!(CommitProcedure::new(t.clone()).find_commitment().is_none());
    }
}

#[test]
fn status_update_of_trade_not_in_store_leaves_store_alone() {
    let mut s = Storage::new();
    let t = Trade {
        query: query(9, 1),
        bid: bid(9, 2, 4),
        status: TradeStatus::WaitingRT1Commit,
        query_id: 9,
        is_requester: false,
    };
    let mut p = CommitProcedure::new(t);
    p.update_trade_processing_status(&mut s);
    assert_eq!(p.trade.status, TradeStatus::ProcessingRT1Commit);
    assert!(s.get_active_trades().is_empty());
}

#[test]
fn started_trade_is_sent_on_next_tick() {
    let mut s = Storage::new();
    let mut ix = Indexer::new();
    let t = Trade { query: query(2, 1), bid: bid(2, 3, 5), status: TradeStatus::WaitingStartCommit, query_id: 2, is_requester: true };
    ix.handle_network_event(&mut s, NetworkEvent::ExchangeRequest { sender_peer_id: peer(3), request: ExchangeRequest::StartCommit { trade: t } });
    let picked = ix.select_trades_to_send(s.get_active_trades());
    assert_eq!(picked.len(), 1);
    assert_eq!(picked[0].query_id, 2);
    assert_eq!(picked[0].status, TradeStatus::RSendT1Commit);
}
