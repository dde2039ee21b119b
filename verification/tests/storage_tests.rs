use dse::primitives::{Address, Multiaddr, PeerId, Uint256};
use dse::storage::{Bid, Commit, CommitType, Query, QueryData, Storage, StorageError, Trade, TradeStatus, query_key};

fn peer(b: &[u8]) -> PeerId {
    PeerId { bytes: b.to_vec() }
}

fn query(id: u32, requester: &[u8]) -> Query {
    Query {
        id,
        data: QueryData { query_string: format!("q{}", id) },
        requester_addr: Multiaddr { bytes: vec![7] },
        requester_id: peer(requester),
        requester_wallet_address: Address { bytes: [1; 20] },
    }
}

fn bid(query_id: u32, provider: &[u8], charge: u64) -> Bid {
    Bid {
        query_id,
        provider_addr: Multiaddr { bytes: vec![8] },
        provider_id: peer(provider),
        provider_wallet_address: Address { bytes: [2; 20] },
        charge: Uint256::from_u64(charge),
    }
}

fn commit(index: u32, wallet: u8) -> Commit {
    Commit {
        index,
        epoch: 1,
        u: 0,
        c_type: CommitType::T1,
        i_address: Address { bytes: [0; 20] },
        r_address: Address { bytes: [0; 20] },
        signature: None,
        wallet_address: Address { bytes: [wallet; 20] },
    }
}

#[test]
fn query_key_is_big_endian() {
    assert_eq!(query_key(0x01020304), vec![1, 2, 3, 4]);
    assert_eq!(query_key(0), vec![0, 0, 0, 0]);
}

#[test]
fn query_sent_is_read_back() {
    let mut s = Storage::new();
    s.add_query_sent(query(4, b"a"));
    assert_eq!(s.find_query_sent_by_query_id(&4), Ok(query(4, b"a")));
    assert_eq!(s.find_query_sent_by_query_id(&5), Err(StorageError::NotFound));
    assert_eq!(s.find_query_received_by_query_id(&4), Err(StorageError::NotFound));
}

#[test]
fn query_with_same_id_replaces() {
    let mut s = Storage::new();
    s.add_query_received(query(4, b"a"));
    s.add_query_received(query(4, b"b"));
    assert_eq!(s.get_all_queries_recv(), vec![query(4, b"b")]);
}

#[test]
fn sent_query_with_same_id_is_not_overwritten() {
    let mut s = Storage::new();
    s.add_query_sent(query(4, b"a"));
    s.add_query_sent(query(4, b"b"));
    assert_eq!(s.get_all_queries_sent(), vec![query(4, b"a")]);
}

#[test]
fn queries_come_back_in_id_order() {
    let mut s = Storage::new();
    s.add_query_sent(query(300, b"a"));
    s.add_query_sent(query(2, b"a"));
    s.add_query_sent(query(70000, b"a"));
    s.add_query_sent(query(1, b"a"));
    let ids: Vec<u32> = s.get_all_queries_sent().iter().map(|q| q.id).collect();
    assert_eq!(ids, vec![1, 2, 300, 70000]);
}

#[test]
fn bids_received_grouped_by_query_in_bidder_order() {
    let mut s = Storage::new();
    s.add_bid_received_for_query(&3, bid(3, b"zz", 1));
    s.add_bid_received_for_query(&3, bid(3, b"ab", 2));
    s.add_bid_received_for_query(&4, bid(4, b"aa", 3));
    s.add_bid_received_for_query(&3, bid(3, b"a", 4));
    let providers: Vec<Vec<u8>> =
        s.find_all_bids_recv_by_query_id(&3).iter().map(|b| b.provider_id.bytes.clone()).collect();
    assert_eq!(providers, vec![b"a".to_vec(), b"ab".to_vec(), b"zz".to_vec()]);
    assert_eq!(s.find_all_bids_recv_by_query_id(&4).len(), 1);
    assert!(s.find_all_bids_recv_by_query_id(&5).is_empty());
}

#[test]
fn second_bid_of_same_bidder_replaces_first() {
    let mut s = Storage::new();
    s.add_bid_received_for_query(&3, bid(3, b"p", 1));
    s.add_bid_received_for_query(&3, bid(3, b"p", 9));
    let bids = s.find_all_bids_recv_by_query_id(&3);
    assert_eq!(bids, vec![bid(3, b"p", 9)]);
}

#[test]
fn bid_received_must_name_the_query() {
    let mut s = Storage::new();
    // stored for query 3, but the bid itself names query 4
    s.add_bid_received_for_query(&3, bid(4, b"p", 1));
    assert_eq!(s.find_bid_received(&3, &peer(b"p")), Err(StorageError::NotFound));
    assert_eq!(s.find_bid_received(&4, &peer(b"p")), Err(StorageError::NotFound));
    s.add_bid_received_for_query(&3, bid(3, b"q", 5));
    assert_eq!(s.find_bid_received(&3, &peer(b"q")), Ok(bid(3, b"q", 5)));
}

#[test]
fn bid_sent_is_found_by_query_id() {
    let mut s = Storage::new();
    s.add_bid_sent_for_query(bid(6, b"me", 3), query(6, b"r"));
    assert_eq!(s.find_bid_sent_by_query_id(&6), Ok(bid(6, b"me", 3)));
    assert_eq!(s.find_bid_sent_by_query_id(&7), Err(StorageError::NotFound));
}

#[test]
fn active_trade_lookup_needs_all_three_ids() {
    let mut s = Storage::new();
    s.add_new_trade(query(1, b"r"), bid(1, b"p", 2), true);
    assert!(s.find_active_trade(&1, &peer(b"p"), &peer(b"r")).is_ok());
    assert_eq!(s.find_active_trade(&1, &peer(b"x"), &peer(b"r")), Err(StorageError::NotFound));
    assert_eq!(s.find_active_trade(&1, &peer(b"p"), &peer(b"x")), Err(StorageError::NotFound));
    assert_eq!(s.find_active_trade(&2, &peer(b"p"), &peer(b"r")), Err(StorageError::NotFound));
}

#[test]
fn update_existing_trade_replaces_it() {
    let mut s = Storage::new();
    s.add_new_trade(query(1, b"r"), bid(1, b"p", 2), false);
    let mut t = s.find_active_trade(&1, &peer(b"p"), &peer(b"r")).unwrap();
    t.update_status(TradeStatus::WaitingRT1Commit);
    assert_eq!(s.update_active_trade(t), Ok(()));
    let trades = s.get_active_trades();
    assert_eq!(trades.len(), 1);
    assert_eq!(trades[0].status, TradeStatus::WaitingRT1Commit);
}

#[test]
fn trade_lookup_by_id_and_direct_add() {
    let mut s = Storage::new();
    let t = Trade {
        query: query(11, b"r"),
        bid: bid(11, b"p", 2),
        status: TradeStatus::RSendT1Commit,
        query_id: 11,
        is_requester: true,
    };
    assert_eq!(s.find_active_trade_by_id(&11), Err(StorageError::NotFound));
    s.add_active_trade(&t);
    assert_eq!(s.find_active_trade_by_id(&11), Ok(t));
}

#[test]
fn client_ids_start_at_one_and_count_up() {
    let mut s = Storage::new();
    assert_eq!(s.next_client_id(), 1);
    assert_eq!(s.next_client_id(), 2);
    assert_eq!(s.next_client_id(), 3);
}

#[test]
fn commit_history_grows_by_appending() {
    let mut s = Storage::new();
    let w = Address { bytes: [5; 20] };
    assert!(s.find_commit_history(&w).is_none());
    s.add_commits_to_commit_history(&w, vec![commit(1, 5)]);
    s.add_commits_to_commit_history(&w, vec![commit(2, 5), commit(3, 5)]);
    let h = s.find_commit_history(&w).unwrap();
    assert_eq!(h.wallet_address, w);
    let indexes: Vec<u32> = h.commits.iter().map(|c| c.index).collect();
    assert_eq!(indexes, vec![1, 2, 3]);
}

#[test]
fn wallets_of_interest() {
    let mut s = Storage::new();
    let w = Address { bytes: [5; 20] };
    assert!(!s.is_wallet_of_interest(&w));
    s.add_wallet_of_interest(w);
    assert!(s.is_wallet_of_interest(&w));
    assert!(!s.is_wallet_of_interest(&Address { bytes: [6; 20] }));
}

#[test]
fn active_trades_listed_in_query_id_order() {
    let mut s = Storage::new();
    s.add_new_trade(query(300, &[1]), bid(300, &[2], 1), true);
    s.add_new_trade(query(2, &[1]), bid(2, &[2], 1), true);
    s.add_new_trade(query(70000, &[1]), bid(70000, &[2], 1), false);
    s.add_new_trade(query(2, &[3]), bid(2, &[4], 1), false);
    let ids: Vec<u32> = s.get_active_trades().iter().map(|t| t.query_id).collect();
    assert_eq!(ids, vec![2, 300, 70000]);
    // the second trade for query 2 replaced the first
    assert_eq!(s.find_active_trade(&2, &peer(&[4]), &peer(&[3])).unwrap().is_requester, false);
    assert_eq!(s.find_active_trade(&2, &peer(&[2]), &peer(&[1])), Err(StorageError::NotFound));
}

#[test]
fn updated_trade_keeps_trade_count() {
    let mut s = Storage::new();
    s.add_new_trade(query(5, &[1]), bid(5, &[2], 10), true);
    s.add_new_trade(query(6, &[1]), bid(6, &[2], 10), true);
    let mut t = s.find_active_trade(&5, &peer(&[2]), &peer(&[1])).unwrap();
    t.update_status(TradeStatus::RSendT2Commit);
    assert_eq!(s.update_active_trade(t.clone()), Ok(()));
    assert_eq!(s.get_active_trades().len(), 2);
    assert_eq!(s.find_active_trade(&5, &peer(&[2]), &peer(&[1])).unwrap(), t);
    assert_eq!(s.find_active_trade(&6, &peer(&[2]), &peer(&[1])).unwrap().status, TradeStatus::WaitingStartCommit);
}

#[test]
fn last_bid_of_each_bidder_listed_in_bidder_order() {
    let mut s = Storage::new();
    s.add_bid_received_for_query(&4, bid(4, &[9], 1));
    s.add_bid_received_for_query(&4, bid(4, &[3, 1], 2));
    s.add_bid_received_for_query(&5, bid(5, &[1], 3));
    s.add_bid_received_for_query(&4, bid(4, &[9], 4));
    let bids = s.find_all_bids_recv_by_query_id(&4);
    let listed: Vec<(Vec<u8>, u64)> = bids.iter().map(|b| (b.provider_id.bytes.clone(), b.charge.limbs[0])).collect();
    assert_eq!(listed, vec![(vec![3, 1], 2), (vec![9], 4)]);
    assert_eq!(s.find_bid_received(&4, &peer(&[9])).unwrap().charge, Uint256::from_u64(4));
    assert_eq!(s.find_bid_received(&4, &peer(&[1])), Err(StorageError::NotFound));
    assert!(s.find_all_bids_recv_by_query_id(&6).is_empty());
}

#[test]
fn query_count_starts_at_zero_and_counts_up() {
    let mut s = Storage::new();
    assert_eq!(s.next_query_count(), 0);
    assert_eq!(s.next_query_count(), 1);
    assert_eq!(s.next_query_count(), 2);
}
