use dse::ch_request::{CommitHistoryLoader, LoadingState};
use dse::network::CommitRequest;
use dse::primitives::{Address, PeerId, Signature, Uint256};
use dse::storage::{Commit, CommitType, Storage};
use ethers::signers::{LocalWallet, Signer};

fn peer(b: u8) -> PeerId {
    PeerId { bytes: vec![b] }
}

#[test]
fn each_peer_asked_three_times_then_dropped() {
    let mut st = LoadingState { peers: vec![peer(1), peer(2), peer(3)], request_count: 0, loading_in_progress: false };
    for expected_count in 1..=3 {
        assert_eq!(st.query_from(), Some(peer(1)));
        assert_eq!(st.request_count, expected_count);
    }
    assert_eq!(st.query_from(), Some(peer(2)));
    assert_eq!(st.request_count, 1);
    assert_eq!(st.peers, vec![peer(2), peer(3)]);
}

#[test]
fn exhausted_peer_gives_way_to_next() {
    let mut st = LoadingState { peers: vec![peer(1), peer(2)], request_count: 3, loading_in_progress: false };
    assert_eq!(st.query_from(), Some(peer(2)));
    assert_eq!(st.peers, vec![peer(2)]);
    assert_eq!(st.request_count, 1);
    assert_eq!(st.query_from(), Some(peer(2)));
    assert_eq!(st.query_from(), Some(peer(2)));
    assert_eq!(st.query_from(), None);
    assert!(st.peers.is_empty());
}

#[test]
fn no_peers_gives_none() {
    let mut st = LoadingState { peers: vec![], request_count: 0, loading_in_progress: false };
    assert_eq!(st.query_from(), None);
    assert_eq!(st.request_count, 1);
    let mut st = LoadingState { peers: vec![], request_count: 3, loading_in_progress: false };
    assert_eq!(st.query_from(), None);
    assert_eq!(st.request_count, 1);
}

#[test]
fn timeout_rule() {
    assert!(!CommitHistoryLoader::timed_out(Some(30)));
    assert!(CommitHistoryLoader::timed_out(Some(31)));
    assert!(CommitHistoryLoader::timed_out(None));
}

#[test]
fn tick_asks_first_peer_only_after_timeout() {
    let w = Address { bytes: [4; 20] };
    let mut l = CommitHistoryLoader::new(w, Uint256::from_u64(1), Address { bytes: [5; 20] }, vec![peer(7)]);
    assert!(l.on_tick(Some(3)).is_none());
    assert_eq!(l.loading_state.request_count, 0);
    match l.on_tick(Some(100)) {
        Some((p, CommitRequest::WantHistory { wallet_address })) => {
            assert_eq!(p, peer(7));
            assert_eq!(wallet_address, w);
        },
        _ => panic!("expected a history request"),
    }
}

#[test]
fn update_keeps_owner_signed_commits_of_the_epoch() {
    let owner: LocalWallet =
        "4c0883a69102937d6231471b5dbb6204fe5129617082792ae468d01a3f362318".parse().unwrap();
    let stranger: LocalWallet =
        "0123456789012345678901234567890123456789012345678901234567890123".parse().unwrap();
    let sign = |w: &LocalWallet, epoch: u32, index: u32| {
        let mut c = Commit {
            index,
            epoch,
            u: 0,
            c_type: CommitType::T1,
            i_address: Address { bytes: [0; 20] },
            r_address: Address { bytes: [0; 20] },
            signature: None,
            wallet_address: Address { bytes: [4; 20] },
        };
        let s = w.sign_hash(ethers::types::H256(c.commit_hash())).unwrap();
        c.signature = Some(Signature { r: Uint256 { limbs: s.r.0 }, s: Uint256 { limbs: s.s.0 }, v: s.v });
        c
    };
    let wallet = Address { bytes: [4; 20] };
    let l = CommitHistoryLoader::new(wallet, Uint256::from_u64(2), Address { bytes: owner.address().0 }, vec![]);
    let mut s = Storage::new();
    let mut unsigned = sign(&owner, 2, 4);
    unsigned.signature = None;
    let batch = vec![sign(&owner, 2, 1), sign(&owner, 3, 2), sign(&stranger, 2, 3), unsigned, sign(&owner, 2, 5)];
    assert_eq!(l.on_update(&mut s, wallet, batch, false), Some(false));
    let kept: Vec<u32> = s.find_commit_history(&wallet).unwrap().commits.iter().map(|c| c.index).collect();
    assert_eq!(kept, vec![1, 5]);
    assert_eq!(l.on_update(&mut s, wallet, vec![], true), Some(true));
    let other = Address { bytes: [9; 20] };
    assert_eq!(l.on_update(&mut s, other, vec![sign(&owner, 2, 7)], true), None);
    assert!(s.find_commit_history(&other).is_none());
    assert_eq!(s.find_commit_history(&wallet).unwrap().commits.len(), 2);
}

#[test]
fn acceptance_on_given_signers() {
    let owner = Address { bytes: [5; 20] };
    let l = CommitHistoryLoader::new(Address { bytes: [4; 20] }, Uint256::from_u64(2), owner, vec![]);
    let c = |epoch| Commit {
        index: 0,
        epoch,
        u: 0,
        c_type: CommitType::T2,
        i_address: Address { bytes: [0; 20] },
        r_address: Address { bytes: [0; 20] },
        signature: None,
        wallet_address: Address { bytes: [4; 20] },
    };
    assert!(l.accepts(&c(2), &Some(owner)));
    assert!(!l.accepts(&c(3), &Some(owner)));
    assert!(!l.accepts(&c(2), &Some(Address { bytes: [6; 20] })));
    assert!(!l.accepts(&c(2), &None));
    let far = CommitHistoryLoader::new(Address { bytes: [4; 20] }, Uint256 { limbs: [2, 1, 0, 0] }, owner, vec![]);
    assert!(!far.accepts(&c(2), &Some(owner)));
}
