use dse::primitives::{Address, Multiaddr, PeerId, Signature, Uint256};
use dse::storage::{Bid, Commit, CommitType, Query, QueryData, Trade, TradeStatus};
use ethers::signers::{LocalWallet, Signer};

fn commit(c_type: CommitType, r: u8) -> Commit {
    Commit {
        index: 0x01020304,
        epoch: 7,
        u: 9,
        c_type,
        i_address: Address { bytes: [0xaa; 20] },
        r_address: Address { bytes: [r; 20] },
        signature: None,
        wallet_address: Address { bytes: [0x11; 20] },
    }
}

fn expected_blob(c: &Commit) -> Vec<u8> {
    let mut blob = vec![0u8; 160];
    blob[32..36].copy_from_slice(&c.index.to_le_bytes());
    blob[64..68].copy_from_slice(&c.epoch.to_le_bytes());
    blob[96..100].copy_from_slice(&c.u.to_le_bytes());
    blob[128] = match c.c_type {
        CommitType::T1 => 1,
        CommitType::T2 => 2,
    };
    blob.extend_from_slice(&c.i_address.bytes);
    if c.c_type == CommitType::T2 {
        blob.extend_from_slice(&c.r_address.bytes);
    }
    blob
}

fn trade_with_charge(charge: Uint256) -> Trade {
    Trade {
        query: Query {
            id: 1,
            data: QueryData { query_string: String::new() },
            requester_addr: Multiaddr { bytes: vec![] },
            requester_id: PeerId { bytes: vec![1] },
            requester_wallet_address: Address { bytes: [0; 20] },
        },
        bid: Bid {
            query_id: 1,
            provider_addr: Multiaddr { bytes: vec![] },
            provider_id: PeerId { bytes: vec![2] },
            provider_wallet_address: Address { bytes: [0; 20] },
            charge,
        },
        status: TradeStatus::PSendStartCommit,
        query_id: 1,
        is_requester: false,
    }
}

#[test]
fn type1_blob_layout() {
    let c = commit(CommitType::T1, 0xbb);
    let blob = c.commit_blob();
    assert_eq!(blob.len(), 180);
    assert_eq!(&blob[32..36], &[4, 3, 2, 1]);
    assert_eq!(blob[64], 7);
    assert_eq!(blob[96], 9);
    assert_eq!(blob[128], 1);
    assert_eq!(blob, expected_blob(&c));
}

#[test]
fn type2_blob_carries_redeeming_address() {
    let c = commit(CommitType::T2, 0xbb);
    let blob = c.commit_blob();
    assert_eq!(blob.len(), 200);
    assert_eq!(blob[128], 2);
    assert_eq!(&blob[180..200], &[0xbb; 20]);
    assert_eq!(blob, expected_blob(&c));
}

#[test]
fn hash_is_keccak_of_blob() {
    for c in [commit(CommitType::T1, 1), commit(CommitType::T2, 2)] {
        let expected = ethers::utils::keccak256(expected_blob(&c));
        assert_eq!(c.commit_hash(), expected);
        assert_ne!(c.commit_hash().to_vec(), c.commit_blob());
    }
}

#[test]
fn type1_hash_ignores_redeeming_address() {
    assert_eq!(commit(CommitType::T1, 1).commit_hash(), commit(CommitType::T1, 2).commit_hash());
    assert_ne!(commit(CommitType::T2, 1).commit_hash(), commit(CommitType::T2, 2).commit_hash());
    assert_ne!(commit(CommitType::T1, 1).commit_hash(), commit(CommitType::T2, 1).commit_hash());
}

#[test]
fn signer_is_recovered() {
    let wallet: LocalWallet =
        "4c0883a69102937d6231471b5dbb6204fe5129617082792ae468d01a3f362318".parse().unwrap();
    let mut c = commit(CommitType::T1, 0);
    assert_eq!(c.signing_address(), None);
    let sig = wallet.sign_hash(ethers::types::H256(c.commit_hash())).unwrap();
    c.signature = Some(Signature { r: Uint256 { limbs: sig.r.0 }, s: Uint256 { limbs: sig.s.0 }, v: sig.v });
    assert_eq!(c.signing_address(), Some(Address { bytes: wallet.address().0 }));
    // the signature covers the hash: another commitment recovers someone else
    let mut other = commit(CommitType::T1, 0);
    other.index = 5;
    other.signature = c.signature;
    assert_ne!(other.signing_address(), Some(Address { bytes: wallet.address().0 }));
}

#[test]
fn commit_amounts() {
    let t = trade_with_charge(Uint256::from_u64(7));
    assert_eq!(t.t1CommitAmount(), Uint256::from_u64(3));
    assert_eq!(t.t2CommitAmount(), Uint256::from_u64(7));
    let big = trade_with_charge(Uint256 { limbs: [1, 1, 0, 0] });
    assert_eq!(big.t1CommitAmount(), Uint256 { limbs: [1 << 63, 0, 0, 0] });
    let top = trade_with_charge(Uint256 { limbs: [0, 0, 0, 1] });
    assert_eq!(top.t1CommitAmount(), Uint256 { limbs: [0, 0, 1 << 63, 0] });
    assert_eq!(trade_with_charge(Uint256::zero()).t1CommitAmount(), Uint256::zero());
}

#[test]
fn sending_statuses() {
    let mut t = trade_with_charge(Uint256::zero());
    for (s, sending) in [
        (TradeStatus::RSendT1Commit, true),
        (TradeStatus::PSendT1Commit, true),
        (TradeStatus::RSendT2Commit, true),
        (TradeStatus::PSendStartCommit, false),
        (TradeStatus::WaitingForService, false),
        (TradeStatus::PFulfillService, false),
    ] {
        t.update_status(s);
        assert_eq!(t.is_sending_status(), sending);
    }
}

#[test]
fn counter_party_depends_on_role() {
    let mut t = trade_with_charge(Uint256::zero());
    assert_eq!(t.counter_party_details().0, PeerId { bytes: vec![1] });
    t.is_requester = true;
    assert_eq!(t.counter_party_details().0, PeerId { bytes: vec![2] });
}
