use dse::commit_procedure::CommitProcedureEvent;
use dse::indexer::{Indexer, IndexerAction};
use dse::network::{CommitRequest, CommitResponse, ExchangeRequest, ExchangeResponse, GossipsubMessage, NetworkEvent};
use dse::primitives::{Address, Multiaddr, PeerId, Uint256};
use dse::storage::{Bid, Commit, CommitType, Query, QueryData, Storage, Trade, TradeStatus};

fn peer(b: u8) -> PeerId {
    PeerId { bytes: vec![b; 4] }
}

fn query(id: u32, requester: u8) -> Query {
    Query {
        id,
        data: QueryData { query_string: "weather".to_string() },
        requester_addr: Multiaddr { bytes: vec![requester] },
        requester_id: peer(requester),
        requester_wallet_address: Address { bytes: [requester; 20] },
    }
}

fn bid(query_id: u32, provider: u8) -> Bid {
    Bid {
        query_id,
        provider_addr: Multiaddr { bytes: vec![provider] },
        provider_id: peer(provider),
        provider_wallet_address: Address { bytes: [provider; 20] },
        charge: Uint256::from_u64(10),
    }
}

fn trade(id: u32, status: TradeStatus, is_requester: bool) -> Trade {
    Trade { query: query(id, 1), bid: bid(id, 2), status, query_id: id, is_requester }
}

fn commit(wallet: u8) -> Commit {
    Commit {
        index: 3,
        epoch: 1,
        u: 0,
        c_type: CommitType::T1,
        i_address: Address { bytes: [0; 20] },
        r_address: Address { bytes: [0; 20] },
        signature: None,
        wallet_address: Address { bytes: [wallet; 20] },
    }
}

fn exchange(sender: u8, request: ExchangeRequest) -> NetworkEvent {
    NetworkEvent::ExchangeRequest { sender_peer_id: peer(sender), request }
}

#[test]
fn gossiped_query_is_stored() {
    let ix = Indexer::new();
    let mut s = Storage::new();
    let actions = ix.handle_network_event(&mut s, NetworkEvent::GossipsubMessageRecv(GossipsubMessage::NewQuery(query(8, 1))));
    assert!(actions.is_empty());
    assert_eq!(s.find_query_received_by_query_id(&8), Ok(query(8, 1)));
}

#[test]
fn start_commit_stores_trade_ready_to_send() {
    let ix = Indexer::new();
    let mut s = Storage::new();
    let actions = ix.handle_network_event(
        &mut s,
        exchange(2, ExchangeRequest::StartCommit { trade: trade(4, TradeStatus::WaitingStartCommit, true) }),
    );
    assert_eq!(actions.len(), 1);
    assert!(matches!(&actions[0], IndexerAction::RespondExchange { peer_id, response: ExchangeResponse::Ack } if *peer_id == peer(2)));
    assert_eq!(s.find_active_trade_by_id(&4).unwrap().status, TradeStatus::RSendT1Commit);
}

#[test]
fn requester_commit_accepted_when_waiting_for_it() {
    let ix = Indexer::new();
    let mut s = Storage::new();
    // this node provides: the other side is the requester, peer 1
    s.add_active_trade(&trade(5, TradeStatus::WaitingRT1Commit, false));
    let actions = ix.handle_network_event(&mut s, exchange(1, ExchangeRequest::T1RequesterCommit { trade_id: 5, commit: commit(9) }));
    assert_eq!(actions.len(), 2);
    assert!(matches!(&actions[0], IndexerAction::VerifyCommit { trade, commit } if trade.query_id == 5 && commit.index == 3));
    assert!(matches!(&actions[1], IndexerAction::RespondExchange { peer_id, response: ExchangeResponse::Ack } if *peer_id == peer(1)));
}

#[test]
fn commit_from_wrong_peer_or_status_or_trade_is_bad() {
    let ix = Indexer::new();
    let mut s = Storage::new();
    s.add_active_trade(&trade(5, TradeStatus::WaitingRT1Commit, false));
    let cases = vec![
        exchange(3, ExchangeRequest::T1RequesterCommit { trade_id: 5, commit: commit(9) }),
        exchange(1, ExchangeRequest::T1ProviderCommit { trade_id: 5, commit: commit(9) }),
        exchange(1, ExchangeRequest::T2RequesterCommit { trade_id: 5, commit: commit(9) }),
        exchange(1, ExchangeRequest::T1RequesterCommit { trade_id: 6, commit: commit(9) }),
    ];
    for event in cases {
        let actions = ix.handle_network_event(&mut s, event);
        assert_eq!(actions.len(), 1);
        assert!(matches!(&actions[0], IndexerAction::RespondExchange { response: ExchangeResponse::Bad, .. }));
    }
}

#[test]
fn provider_commit_accepted_by_requester() {
    let ix = Indexer::new();
    let mut s = Storage::new();
    // this node requests: the other side is the provider, peer 2
    s.add_active_trade(&trade(7, TradeStatus::WaitingPT1Commit, true));
    let actions = ix.handle_network_event(&mut s, exchange(2, ExchangeRequest::T1ProviderCommit { trade_id: 7, commit: commit(9) }));
    assert_eq!(actions.len(), 2);
}

#[test]
fn other_exchange_requests_are_ignored() {
    let ix = Indexer::new();
    let mut s = Storage::new();
    let actions = ix.handle_network_event(&mut s, exchange(2, ExchangeRequest::T2CommitValid { trade_id: 1 }));
    assert!(actions.is_empty());
}

#[test]
fn commit_gossip_kept_only_for_wallets_of_interest() {
    let ix = Indexer::new();
    let mut s = Storage::new();
    s.add_wallet_of_interest(Address { bytes: [9; 20] });
    ix.handle_network_event(&mut s, NetworkEvent::GossipsubMessageRecv(GossipsubMessage::Commit { commit: commit(9), trade_id: 1 }));
    ix.handle_network_event(&mut s, NetworkEvent::GossipsubMessageRecv(GossipsubMessage::Commit { commit: commit(8), trade_id: 1 }));
    assert_eq!(s.find_commit_history(&Address { bytes: [9; 20] }).unwrap().commits.len(), 1);
    assert!(s.find_commit_history(&Address { bytes: [8; 20] }).is_none());
}

#[test]
fn history_request_answered_from_store() {
    let ix = Indexer::new();
    let mut s = Storage::new();
    let w = Address { bytes: [9; 20] };
    let ask = |w| NetworkEvent::CommitRequest { sender_peer_id: peer(3), request: CommitRequest::WantHistory { wallet_address: w } };
    let actions = ix.handle_network_event(&mut s, ask(w));
    assert_eq!(actions.len(), 1);
    assert!(matches!(&actions[0], IndexerAction::RespondCommit { response: CommitResponse::Bad, .. }));
    s.add_commits_to_commit_history(&w, vec![commit(9), commit(9)]);
    let actions = ix.handle_network_event(&mut s, ask(w));
    assert_eq!(actions.len(), 2);
    assert!(matches!(&actions[0], IndexerAction::RespondCommit { response: CommitResponse::Ack, .. }));
    assert!(matches!(&actions[1], IndexerAction::SendCommitHistory { peer_id, request: CommitRequest::Update { commits, last_batch: true, .. } } if *peer_id == peer(3) && commits.len() == 2));
}

#[test]
fn tick_starts_each_sending_trade_once() {
    let mut ix = Indexer::new();
    let trades = vec![
        trade(1, TradeStatus::RSendT1Commit, true),
        trade(2, TradeStatus::WaitingPT1Commit, true),
        trade(3, TradeStatus::PSendT1Commit, false),
        trade(1, TradeStatus::RSendT2Commit, true),
    ];
    let picked: Vec<u32> = ix.select_trades_to_send(trades.clone()).iter().map(|t| t.query_id).collect();
    assert_eq!(picked, vec![1, 3]);
    assert!(ix.is_sending(1) && ix.is_sending(3) && !ix.is_sending(2));
    // a second tick starts nothing while those sends run
    assert!(ix.select_trades_to_send(trades.clone()).is_empty());
    // once a send ends its trade may be started again
    ix.on_commit_procedure_event(CommitProcedureEvent::SendFailed { trade_id: 1 });
    assert!(!ix.is_sending(1));
    let picked: Vec<u32> = ix.select_trades_to_send(trades).iter().map(|t| t.query_id).collect();
    assert_eq!(picked, vec![1]);
    ix.on_commit_procedure_event(CommitProcedureEvent::SendSuccess { trade_id: 3 });
    assert!(!ix.is_sending(3));
    ix.on_commit_procedure_event(CommitProcedureEvent::SendSuccess { trade_id: 42 });
    assert!(ix.is_sending(1));
}
