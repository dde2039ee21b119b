//! Queries, bids, trades and commitments, and the node's store of them.
//!
//! The store keeps one ordered table per kind of record, keyed as the node's
//! database keys them: queries, bids sent and trades under the big-endian
//! bytes of their query id, bids received under the query id followed by the
//! bidder's peer id, and commit histories under the wallet address.

use vstd::prelude::*;
use crate::ethers_calls::{keccak256_digest, keccak256_of, recover_signer, recovered_signer, u256_le_bytes, le32_bytes, u256_quotient};
use crate::primitives::{Address, Multiaddr, PeerId, Signature, Uint256};
use crate::table::{lex_lt, Table};

verus! {

/// Identifier of a search query.
pub type QueryId = u32;

/// The text of a search query.
#[derive(Debug, Clone, PartialEq, Eq)]
pub struct QueryData {
    pub query_string: String,
}

/// A search query published by a requester.
#[derive(Debug, Clone, PartialEq, Eq)]
pub struct Query {
    pub id: QueryId,
    pub data: QueryData,
    pub requester_addr: Multiaddr,
    pub requester_id: PeerId,
    pub requester_wallet_address: Address,
}

/// What a provider offers for a query.
#[derive(Debug, Clone, Copy, PartialEq, Eq)]
pub struct BidData {
    pub query_id: QueryId,
    pub charge: Uint256,
}

/// A bid placed by a provider on a query.
#[derive(Debug, Clone, PartialEq, Eq)]
pub struct Bid {
    pub query_id: QueryId,
    pub provider_addr: Multiaddr,
    pub provider_id: PeerId,
    pub provider_wallet_address: Address,
    pub charge: Uint256,
}

/// Where a trade stands in the commit procedure, from the point of view of
/// the node that holds it.
#[derive(Debug, Clone, Copy, PartialEq, Eq, Structural)]
pub enum TradeStatus {
    /// Provider should send StartCommit
    PSendStartCommit,
    /// Requester is waiting for Start Commit from provider
    WaitingStartCommit,
    /// Provider is waiting for Requester's T1 Commit
    WaitingRT1Commit,
    /// Requester should send T1 commit
    RSendT1Commit,
    /// Provider is processing Requester's T1 commit
    ProcessingRT1Commit,
    /// Requester is waiting for Provider's T1 Commit
    WaitingPT1Commit,
    /// Provider should send T1 commit
    PSendT1Commit,
    /// Requester is processing Provider's T1 commit
    ProcessingPT1Commit,
    /// Provider is waiting for Requester's T2 Commit
    WaitingRT2Commit,
    /// Requester should send T2 commit
    RSendT2Commit,
    /// Provider is processing Requester's T2 commit
    ProcessingRT2Commit,
    /// Requester is waiting for Provider to fulfill the service
    WaitingForService,
    /// Provider should provide service
    PFulfillService,
    /// Provider is waiting for invalidating signatures
    WaitingInvalidatingSignatures,
}

/// A trade between this node and a peer, for a query and the accepted bid.
#[derive(Debug, Clone, PartialEq, Eq)]
pub struct Trade {
    /// Trade query
    pub query: Query,
    /// Trade bid (accepted by requester)
    pub bid: Bid,
    /// Status of the trade
    pub status: TradeStatus,
    /// Query id
    pub query_id: QueryId,
    /// Whether this node is the requester (otherwise the provider)
    pub is_requester: bool,
}

/// Kind of a commitment.
#[derive(Debug, Clone, Copy, PartialEq, Eq, Structural)]
pub enum CommitType {
    /// Commitment Type 1
    T1,
    /// Commitment Type 2
    T2,
}

/// A time-locked commitment of one index of a wallet for one epoch.
#[derive(Debug, Clone, Copy, PartialEq, Eq)]
pub struct Commit {
    /// index used for the commitment
    pub index: u32,
    /// epoch during which the commitment is valid
    pub epoch: u32,
    /// unique id that identifies the commitment with its query id
    pub u: u32,
    /// commit type 1 or 2
    pub c_type: CommitType,
    /// address that invalidates the commitment
    pub i_address: Address,
    /// address that can redeem this commitment with the invalidating
    /// signature; only part of the commitment for type 2
    pub r_address: Address,
    /// owner's signature on the commitment's hash
    pub signature: Option<Signature>,
    /// the time-locked wallet the commitment is drawn from
    pub wallet_address: Address,
}

/// The commitments known to have been made from one wallet.
#[derive(Debug, Clone, PartialEq, Eq)]
pub struct CommitHistory {
    pub wallet_address: Address,
    pub commits: Vec<Commit>,
}

/// Mathematical model of a query.
pub struct QueryView {
    pub id: QueryId,
    pub query_string: Seq<char>,
    pub requester_addr: Seq<u8>,
    pub requester_id: Seq<u8>,
    pub requester_wallet_address: Address,
}

/// Mathematical model of a bid.
pub struct BidView {
    pub query_id: QueryId,
    pub provider_addr: Seq<u8>,
    pub provider_id: Seq<u8>,
    pub provider_wallet_address: Address,
    pub charge: Uint256,
}

/// Mathematical model of a trade.
pub struct TradeView {
    pub query: QueryView,
    pub bid: BidView,
    pub status: TradeStatus,
    pub query_id: QueryId,
    pub is_requester: bool,
}

impl View for Query {
    type V = QueryView;

    open spec fn view(&self) -> QueryView {
        QueryView {
            id: self.id,
            query_string: self.data.query_string@,
            requester_addr: self.requester_addr@,
            requester_id: self.requester_id@,
            requester_wallet_address: self.requester_wallet_address,
        }
    }
}

impl View for Bid {
    type V = BidView;

    open spec fn view(&self) -> BidView {
        BidView {
            query_id: self.query_id,
            provider_addr: self.provider_addr@,
            provider_id: self.provider_id@,
            provider_wallet_address: self.provider_wallet_address,
            charge: self.charge,
        }
    }
}

impl View for Trade {
    type V = TradeView;

    open spec fn view(&self) -> TradeView {
        TradeView {
            query: self.query@,
            bid: self.bid@,
            status: self.status,
            query_id: self.query_id,
            is_requester: self.is_requester,
        }
    }
}

impl Query {
    /// A copy of this query.
    pub fn duplicate(&self) -> (r: Query)
        ensures
            r@ == self@,
    {
        Query {
            id: self.id,
            data: QueryData { query_string: self.data.query_string.clone() },
            requester_addr: self.requester_addr.duplicate(),
            requester_id: self.requester_id.duplicate(),
            requester_wallet_address: self.requester_wallet_address,
        }
    }

    /// Builds the query that this node publishes for `data`, given the
    /// node's own peer id and address, its wallet, and how many queries it
    /// has published before. The query's id is derived from the node's peer
    /// id and that count.
    pub fn from_data(
        data: QueryData,
        requester_id: PeerId,
        requester_addr: Multiaddr,
        wallet_address: Address,
        query_count: u64,
    ) -> (q: Query)
        ensures
            q.id == query_id_for(requester_id@, query_count),
            q.data == data,
            q.requester_id == requester_id,
            q.requester_addr == requester_addr,
            q.requester_wallet_address == wallet_address,
    {
        let id = query_id(&requester_id, query_count);
        Query {
            id,
            data,
            requester_id,
            requester_addr,
            requester_wallet_address: wallet_address,
        }
    }
}

/// The eight little-endian bytes of a 64-bit number.
pub open spec fn le64_bytes(n: u64) -> Seq<u8> {
    seq![
        (n & 0xff) as u8,
        ((n >> 8u64) & 0xff) as u8,
        ((n >> 16u64) & 0xff) as u8,
        ((n >> 24u64) & 0xff) as u8,
        ((n >> 32u64) & 0xff) as u8,
        ((n >> 40u64) & 0xff) as u8,
        ((n >> 48u64) & 0xff) as u8,
        ((n >> 56u64) & 0xff) as u8,
    ]
}

/// The bytes a query id is hashed from: the requester's peer id followed by
/// the little-endian bytes of its query count.
pub open spec fn query_id_seed(requester_id: Seq<u8>, query_count: u64) -> Seq<u8> {
    requester_id + le64_bytes(query_count)
}

/// The 32-bit number whose big-endian bytes are the first four of `d`.
pub open spec fn be_u32_prefix(d: Seq<u8>) -> u32 {
    ((d[0] as u32) << 24u32) | ((d[1] as u32) << 16u32) | ((d[2] as u32) << 8u32) | (d[3] as u32)
}

/// The id of the query a requester publishes after `query_count` others:
/// the first four bytes, big-endian, of the Keccak-256 hash of its seed.
pub open spec fn query_id_for(requester_id: Seq<u8>, query_count: u64) -> QueryId {
    be_u32_prefix(keccak256_of(query_id_seed(requester_id, query_count)))
}

/// The id of the query a requester publishes after `query_count` others.
pub fn query_id(requester_id: &PeerId, query_count: u64) -> (id: QueryId)
    ensures
        id == query_id_for(requester_id@, query_count),
{
    let mut seed: Vec<u8> = Vec::new();
    append_bytes(&mut seed, requester_id.bytes.as_slice());
    seed.push((query_count & 0xff) as u8);
    seed.push(((query_count >> 8u64) & 0xff) as u8);
    seed.push(((query_count >> 16u64) & 0xff) as u8);
    seed.push(((query_count >> 24u64) & 0xff) as u8);
    seed.push(((query_count >> 32u64) & 0xff) as u8);
    seed.push(((query_count >> 40u64) & 0xff) as u8);
    seed.push(((query_count >> 48u64) & 0xff) as u8);
    seed.push(((query_count >> 56u64) & 0xff) as u8);
    assert(seed@ =~= query_id_seed(requester_id@, query_count));
    let d = keccak256_digest(seed.as_slice());
    ((d[0] as u32) << 24u32) | ((d[1] as u32) << 16u32) | ((d[2] as u32) << 8u32) | (d[3] as u32)
}

impl Bid {
    /// A copy of this bid.
    pub fn duplicate(&self) -> (r: Bid)
        ensures
            r@ == self@,
    {
        Bid {
            query_id: self.query_id,
            provider_addr: self.provider_addr.duplicate(),
            provider_id: self.provider_id.duplicate(),
            provider_wallet_address: self.provider_wallet_address,
            charge: self.charge,
        }
    }

    /// Builds the bid that this node places for `data`, given the node's own
    /// peer id and address and its wallet.
    pub fn from_data(
        data: BidData,
        provider_id: PeerId,
        provider_addr: Multiaddr,
        wallet_address: Address,
    ) -> (b: Bid)
        ensures
            b.query_id == data.query_id,
            b.charge == data.charge,
            b.provider_id == provider_id,
            b.provider_addr == provider_addr,
            b.provider_wallet_address == wallet_address,
    {
        Bid {
            query_id: data.query_id,
            provider_id,
            provider_addr,
            charge: data.charge,
            provider_wallet_address: wallet_address,
        }
    }
}

/// Whether a status is one in which this node has to send a commitment.
pub open spec fn spec_is_sending(s: TradeStatus) -> bool {
    s == TradeStatus::RSendT1Commit || s == TradeStatus::PSendT1Commit || s
        == TradeStatus::RSendT2Commit
}

/// The peer on the other side of a trade: the provider of the bid where this
/// node requested, the requester of the query otherwise.
pub open spec fn counter_party(t: TradeView) -> (Seq<u8>, Seq<u8>) {
    if t.is_requester {
        (t.bid.provider_id, t.bid.provider_addr)
    } else {
        (t.query.requester_id, t.query.requester_addr)
    }
}

impl Trade {
    /// A copy of this trade.
    pub fn duplicate(&self) -> (r: Trade)
        ensures
            r@ == self@,
    {
        Trade {
            query: self.query.duplicate(),
            bid: self.bid.duplicate(),
            status: self.status,
            query_id: self.query_id,
            is_requester: self.is_requester,
        }
    }

    /// The amount committed in a type 1 commitment: half the charge,
    /// rounded down.
    #[allow(non_snake_case)]
    pub fn t1CommitAmount(&self) -> (amount: Uint256)
        ensures
            amount@ == self.bid.charge@ / 2,
    {
        let q = u256_quotient(self.bid.charge.limbs, [2u64, 0, 0, 0]);
        Uint256 { limbs: q }
    }

    /// The amount committed in a type 2 commitment: the whole charge.
    #[allow(non_snake_case)]
    pub fn t2CommitAmount(&self) -> (amount: Uint256)
        ensures
            amount == self.bid.charge,
    {
        self.bid.charge
    }

    /// Moves the trade to status `to`.
    pub fn update_status(&mut self, to: TradeStatus)
        ensures
            final(self)@ == (TradeView { status: to, ..old(self)@ }),
    {
        self.status = to;
    }

    /// Whether the trade is in a status in which this node sends a
    /// commitment, which the indexer triggers by itself.
    pub fn is_sending_status(&self) -> (r: bool)
        ensures
            r == spec_is_sending(self.status),
    {
        self.status == TradeStatus::RSendT1Commit || self.status == TradeStatus::PSendT1Commit
            || self.status == TradeStatus::RSendT2Commit
    }

    /// The peer id and address of the other side of the trade.
    pub fn counter_party_details(&self) -> (r: (PeerId, Multiaddr))
        ensures
            (r.0@, r.1@) == counter_party(self@),
    {
        if self.is_requester {
            (self.bid.provider_id.duplicate(), self.bid.provider_addr.duplicate())
        } else {
            (self.query.requester_id.duplicate(), self.query.requester_addr.duplicate())
        }
    }
}


/// The number that encodes a commitment's type in its hash blob.
pub open spec fn commit_type_code(t: CommitType) -> u32 {
    match t {
        CommitType::T1 => 1,
        CommitType::T2 => 2,
    }
}

/// The bytes that a commitment's hash is taken over: 32 zero bytes, then
/// index, epoch, `u` and the type code each as a 32-byte little-endian
/// number, then the invalidating address and, for type 2 only, the
/// redeeming address.
pub open spec fn commit_blob(c: Commit) -> Seq<u8> {
    Seq::new(32, |i: int| 0u8) + le32_bytes(c.index) + le32_bytes(c.epoch) + le32_bytes(c.u)
        + le32_bytes(commit_type_code(c.c_type)) + c.i_address@ + (if c.c_type == CommitType::T2 {
        c.r_address@
    } else {
        Seq::<u8>::empty()
    })
}

/// The address that signed a commitment, as recovered from its signature
/// over its hash; `None` for an unsigned commitment or a failed recovery.
pub open spec fn commit_signer(c: Commit) -> Option<Seq<u8>> {
    match c.signature {
        Some(s) => recovered_signer(s.r.limbs@, s.s.limbs@, s.v, keccak256_of(commit_blob(c))),
        None => None,
    }
}

/// Appends `bytes` to `v`.
fn append_bytes(v: &mut Vec<u8>, bytes: &[u8])
    ensures
        final(v)@ == old(v)@ + bytes@,
{
    let mut i: usize = 0;
    while i < bytes.len()
        invariant
            i <= bytes@.len(),
            v@ == old(v)@ + bytes@.take(i as int),
        decreases bytes@.len() - i,
    {
        v.push(bytes[i]);
        i += 1;
        assert(v@ =~= old(v)@ + bytes@.take(i as int));
    }
    assert(bytes@.take(bytes@.len() as int) =~= bytes@);
}

impl CommitType {
    /// The number that stands for this type in a commitment's hash blob.
    pub fn code(&self) -> (c: u32)
        ensures
            c == commit_type_code(*self),
    {
        match self {
            CommitType::T1 => 1,
            CommitType::T2 => 2,
        }
    }
}

impl Commit {
    /// The bytes that the commitment's hash is taken over.
    pub fn commit_blob(&self) -> (blob: Vec<u8>)
        ensures
            blob@ == commit_blob(*self),
    {
        let mut blob: Vec<u8> = Vec::new();
        let zeros = [0u8; 32];
        append_bytes(&mut blob, &zeros);
        let b = u256_le_bytes(self.index);
        append_bytes(&mut blob, &b);
        let b = u256_le_bytes(self.epoch);
        append_bytes(&mut blob, &b);
        let b = u256_le_bytes(self.u);
        append_bytes(&mut blob, &b);
        let b = u256_le_bytes(self.c_type.code());
        append_bytes(&mut blob, &b);
        append_bytes(&mut blob, &self.i_address.bytes);
        // the redeeming address is only part of a type 2 commitment
        if self.c_type == CommitType::T2 {
            append_bytes(&mut blob, &self.r_address.bytes);
        }
        assert(zeros@ =~= Seq::new(32, |i: int| 0u8));
        assert(blob@ =~= commit_blob(*self));
        blob
    }

    /// The Keccak-256 hash of the commitment's blob.
    pub fn commit_hash(&self) -> (hash: [u8; 32])
        ensures
            hash@ == keccak256_of(commit_blob(*self)),
    {
        let blob = self.commit_blob();
        keccak256_digest(blob.as_slice())
    }

    /// The address whose key signed this commitment, or `None` when it
    /// carries no signature or none can be recovered from it.
    pub fn signing_address(&self) -> (signer: Option<Address>)
        ensures
            match signer {
                Some(a) => commit_signer(*self) == Some(a@),
                None => commit_signer(*self) is None,
            },
    {
        match &self.signature {
            Some(sig) => {
                let hash = self.commit_hash();
                match recover_signer(sig, &hash) {
                    Some(bytes) => Some(Address { bytes }),
                    None => None,
                }
            },
            None => None,
        }
    }
}


/// The four big-endian bytes of a 32-bit number.
pub open spec fn be32(x: u32) -> Seq<u8> {
    seq![((x >> 24u32) & 0xff) as u8, ((x >> 16u32) & 0xff) as u8, ((x >> 8u32) & 0xff) as u8, (x & 0xff) as u8]
}

/// The database key of a record that is stored by query id.
pub fn query_key(id: QueryId) -> (key: Vec<u8>)
    ensures
        key@ == be32(id),
{
    let mut key: Vec<u8> = Vec::new();
    key.push(((id >> 24u32) & 0xff) as u8);
    key.push(((id >> 16u32) & 0xff) as u8);
    key.push(((id >> 8u32) & 0xff) as u8);
    key.push((id & 0xff) as u8);
    assert(key@ =~= be32(id));
    key
}

/// The database key of a bid received for a query: the query id followed by
/// the bidder's peer id.
pub open spec fn bid_received_key(query_id: QueryId, provider_id: Seq<u8>) -> Seq<u8> {
    be32(query_id) + provider_id
}

/// Whether byte string `k` starts with `p`.
pub open spec fn has_prefix(k: Seq<u8>, p: Seq<u8>) -> bool {
    p.len() <= k.len() && k.take(p.len() as int) == p
}

/// Whether a trade belongs to a query, a provider and a requester.
pub open spec fn trade_matches(t: Trade, query_id: QueryId, provider_id: Seq<u8>, requester_id: Seq<u8>) -> bool {
    t.query_id == query_id && t.bid.provider_id@ == provider_id && t.query.requester_id@ == requester_id
}

/// Whether `i` is the first position of `trades` holding a trade that
/// belongs to the query, provider and requester.
pub open spec fn first_matching_trade(
    trades: Seq<Trade>,
    query_id: QueryId,
    provider_id: Seq<u8>,
    requester_id: Seq<u8>,
    i: int,
) -> bool {
    &&& 0 <= i < trades.len()
    &&& trade_matches(trades[i], query_id, provider_id, requester_id)
    &&& forall|j: int|
        0 <= j < i ==> !trade_matches(#[trigger] trades[j], query_id, provider_id, requester_id)
}

/// Whether store `after` is store `before` once a query published by this
/// node has been added: a query already stored with the same id is kept and
/// nothing changes; otherwise the query is stored under its id.
pub open spec fn query_sent_added(before: StorageView, after: StorageView, query: Query) -> bool {
    if before.queries_sent.contains_key(be32(query.id)) {
        after == before
    } else {
        after == (StorageView { queries_sent: before.queries_sent.insert(be32(query.id), query), ..before })
    }
}

/// Whether store `after` is store `before` once client id `id` has been
/// handed out: the id is the counter's value, and the counter advances by
/// one, wrapping around at the largest `usize`, with nothing else changed.
pub open spec fn client_id_handed_out(before: StorageView, after: StorageView, id: usize) -> bool {
    &&& id == before.client_id_counter
    &&& after == (StorageView {
        client_id_counter: if before.client_id_counter == usize::MAX {
            0
        } else {
            (before.client_id_counter + 1) as usize
        },
        ..before
    })
}

/// Whether every query of a table sits under the key of its own id.
pub open spec fn queries_under_own_ids(m: Map<Seq<u8>, Query>) -> bool {
    forall|k: Seq<u8>| #[trigger] m.contains_key(k) ==> k == be32(m[k].id)
}

/// Whether every trade of a table sits under the key of its own query id.
pub open spec fn trades_under_own_ids(m: Map<Seq<u8>, Trade>) -> bool {
    forall|k: Seq<u8>| #[trigger] m.contains_key(k) ==> k == be32(m[k].query_id)
}

/// Whether every bid of a table sits under a key made of four bytes (a
/// query id) followed by the bid's provider's peer id.
pub open spec fn bids_under_own_providers(m: Map<Seq<u8>, Bid>) -> bool {
    forall|k: Seq<u8>| #[trigger] m.contains_key(k) ==> k.len() >= 4 && k == k.take(4) + m[k].provider_id@
}

/// The active trade stored for a query, where it belongs to the provider
/// and the requester given; `None` otherwise.
pub open spec fn stored_trade(s: StorageView, query_id: QueryId, provider_id: Seq<u8>, requester_id: Seq<u8>) -> Option<Trade> {
    let k = be32(query_id);
    if s.active_trades.contains_key(k) && trade_matches(s.active_trades[k], query_id, provider_id, requester_id) {
        Some(s.active_trades[k])
    } else {
        None
    }
}

/// The bid received from a provider for a query, where it names that
/// query; `None` otherwise.
pub open spec fn stored_bid(s: StorageView, query_id: QueryId, provider_id: Seq<u8>) -> Option<Bid> {
    let k = bid_received_key(query_id, provider_id);
    if s.bids_received.contains_key(k) && s.bids_received[k].query_id == query_id {
        Some(s.bids_received[k])
    } else {
        None
    }
}

/// The providers from whom the store holds a bid received for a query.
pub open spec fn bidders_for(s: StorageView, query_id: QueryId) -> Set<Seq<u8>> {
    Set::new(|p: Seq<u8>| s.bids_received.contains_key(bid_received_key(query_id, p)))
}

/// Why a lookup in the store gave nothing back.
#[derive(Debug, Clone, Copy, PartialEq, Eq, Structural)]
pub enum StorageError {
    /// No record matches the lookup.
    NotFound,
}

/// The contents of the store, one finite map per table.
pub struct StorageView {
    pub queries_sent: Map<Seq<u8>, Query>,
    pub queries_received: Map<Seq<u8>, Query>,
    pub bids_sent: Map<Seq<u8>, Bid>,
    pub bids_received: Map<Seq<u8>, Bid>,
    pub active_trades: Map<Seq<u8>, Trade>,
    pub commit_histories: Map<Seq<u8>, CommitHistory>,
    pub wallets_of_interest: Map<Seq<u8>, Address>,
    pub client_id_counter: usize,
    pub query_count: u64,
}

/// The node's store of queries, bids, trades and commit histories.
pub struct Storage {
    queries_sent: Table<Query>,
    queries_received: Table<Query>,
    bids_sent: Table<Bid>,
    bids_received: Table<Bid>,
    active_trades: Table<Trade>,
    commit_histories: Table<CommitHistory>,
    wallets_of_interest: Table<Address>,
    client_id_counter: usize,
    query_count: u64,
}

impl View for Storage {
    type V = StorageView;

    closed spec fn view(&self) -> StorageView {
        StorageView {
            queries_sent: self.queries_sent.as_map(),
            queries_received: self.queries_received.as_map(),
            bids_sent: self.bids_sent.as_map(),
            bids_received: self.bids_received.as_map(),
            active_trades: self.active_trades.as_map(),
            commit_histories: self.commit_histories.as_map(),
            wallets_of_interest: self.wallets_of_interest.as_map(),
            client_id_counter: self.client_id_counter,
            query_count: self.query_count,
        }
    }
}

/// A copy of a list of commitments.
fn copy_commits(v: &Vec<Commit>) -> (r: Vec<Commit>)
    ensures
        r@ == v@,
{
    let mut r: Vec<Commit> = Vec::new();
    let mut i: usize = 0;
    while i < v.len()
        invariant
            i <= v@.len(),
            r@ == v@.take(i as int),
        decreases v@.len() - i,
    {
        r.push(v[i]);
        i += 1;
        assert(r@ =~= v@.take(i as int));
    }
    assert(v@.take(v@.len() as int) =~= v@);
    r
}

impl Storage {
    /// The table of queries sent, in key order.
    pub closed spec fn queries_sent_table(&self) -> Table<Query> {
        self.queries_sent
    }

    /// The table of queries received, in key order.
    pub closed spec fn queries_received_table(&self) -> Table<Query> {
        self.queries_received
    }

    /// The table of active trades, in key order.
    pub closed spec fn active_trades_table(&self) -> Table<Trade> {
        self.active_trades
    }

    /// Well-formedness: every table has strictly ascending keys; every
    /// query and every active trade sits under the key of its own query id,
    /// and every bid received under a query id followed by its own
    /// provider's peer id.
    pub closed spec fn wf(&self) -> bool {
        &&& self.queries_sent.wf()
        &&& self.queries_received.wf()
        &&& self.bids_sent.wf()
        &&& self.bids_received.wf()
        &&& self.active_trades.wf()
        &&& self.commit_histories.wf()
        &&& self.wallets_of_interest.wf()
        &&& queries_under_own_ids(self.queries_sent.as_map())
        &&& queries_under_own_ids(self.queries_received.as_map())
        &&& trades_under_own_ids(self.active_trades.as_map())
        &&& bids_under_own_providers(self.bids_received.as_map())
    }

    /// In a well-formed store every query and active trade sits under the
    /// key of its own query id, and every bid received under a query id
    /// followed by its own provider's peer id.
    pub proof fn lemma_stored_under_own_keys(&self)
        requires
            self.wf(),
        ensures
            queries_under_own_ids(self@.queries_sent),
            queries_under_own_ids(self@.queries_received),
            trades_under_own_ids(self@.active_trades),
            bids_under_own_providers(self@.bids_received),
    {
    }

    /// The active trade at a position of the table is the one the store
    /// holds under the key of its query id.
    proof fn lemma_trade_at(&self, i: int)
        requires
            self.wf(),
            0 <= i < self.active_trades.values().len(),
        ensures
            self@.active_trades.contains_key(be32(self.active_trades.values()[i].query_id)),
            self@.active_trades[be32(self.active_trades.values()[i].query_id)] == self.active_trades.values()[i],
            self.active_trades.keys()[i] == be32(self.active_trades.values()[i].query_id),
    {
        self.active_trades.lemma_value_at(i);
        let k = self.active_trades.keys()[i];
        assert(self.active_trades.as_map().contains_key(k));
    }

    /// The bid received at a position of the table is the one the store
    /// holds under its key, which is four bytes followed by the bid's
    /// provider.
    proof fn lemma_bid_at(&self, i: int)
        requires
            self.wf(),
            0 <= i < self.bids_received.values().len(),
        ensures
            self@.bids_received.contains_key(self.bids_received.keys()[i]),
            self@.bids_received[self.bids_received.keys()[i]] == self.bids_received.values()[i],
            self.bids_received.keys()[i].len() >= 4,
            self.bids_received.keys()[i] == self.bids_received.keys()[i].take(4)
                + self.bids_received.values()[i].provider_id@,
    {
        self.bids_received.lemma_value_at(i);
        let k = self.bids_received.keys()[i];
        assert(self.bids_received.as_map().contains_key(k));
    }

    /// The maps of the store's contents are those of its tables, and a
    /// well-formed store has well-formed tables.
    pub proof fn lemma_tables(&self)
        ensures
            self@.queries_sent == self.queries_sent_table().as_map(),
            self@.queries_received == self.queries_received_table().as_map(),
            self@.active_trades == self.active_trades_table().as_map(),
            self.wf() ==> self.queries_sent_table().wf() && self.queries_received_table().wf()
                && self.active_trades_table().wf(),
    {
    }

    /// An empty store, whose first client id is 1 and which has counted no
    /// query published.
    pub fn new() -> (s: Storage)
        ensures
            s.wf(),
            s@.queries_sent.is_empty(),
            s@.queries_received.is_empty(),
            s@.bids_sent.is_empty(),
            s@.bids_received.is_empty(),
            s@.active_trades.is_empty(),
            s@.commit_histories.is_empty(),
            s@.wallets_of_interest.is_empty(),
            s@.client_id_counter == 1,
            s@.query_count == 0,
    {
        Storage {
            queries_sent: Table::new(),
            queries_received: Table::new(),
            bids_sent: Table::new(),
            bids_received: Table::new(),
            active_trades: Table::new(),
            commit_histories: Table::new(),
            wallets_of_interest: Table::new(),
            client_id_counter: 1,
            query_count: 0,
        }
    }

    /// Adds a bid received for a query. The bidder's peer id identifies the
    /// bid among those received for the query; a second bid from the same
    /// bidder replaces the first.
    pub fn add_bid_received_for_query(&mut self, query_id: &QueryId, bid: Bid)
        requires
            old(self).wf(),
        ensures
            final(self).wf(),
            final(self)@ == (StorageView {
                bids_received: old(self)@.bids_received.insert(bid_received_key(*query_id, bid.provider_id@), bid),
                ..old(self)@
            }),
    {
        let mut key = query_key(*query_id);
        let mut i: usize = 0;
        while i < bid.provider_id.bytes.len()
            invariant
                i <= bid.provider_id.bytes@.len(),
                key@ == be32(*query_id) + bid.provider_id.bytes@.take(i as int),
            decreases bid.provider_id.bytes@.len() - i,
        {
            key.push(bid.provider_id.bytes[i]);
            i += 1;
            assert(key@ =~= be32(*query_id) + bid.provider_id.bytes@.take(i as int));
        }
        assert(bid.provider_id.bytes@.take(bid.provider_id.bytes@.len() as int) =~= bid.provider_id@);
        let ghost k = key@;
        assert(k.take(4) =~= be32(*query_id));
        self.bids_received.insert(key, bid);
        assert(bids_under_own_providers(self.bids_received.as_map())) by {
            assert forall|j: Seq<u8>| #[trigger] self.bids_received.as_map().contains_key(j) implies j.len() >= 4
                && j == j.take(4) + self.bids_received.as_map()[j].provider_id@ by {
                if j != k {
                    assert(old(self).bids_received.as_map().contains_key(j));
                }
            }
        }
    }

    /// Adds the bid that this node placed on a query; the query id
    /// identifies it.
    pub fn add_bid_sent_for_query(&mut self, bid: Bid, query: Query)
        requires
            old(self).wf(),
        ensures
            final(self).wf(),
            final(self)@ == (StorageView {
                bids_sent: old(self)@.bids_sent.insert(be32(query.id), bid),
                ..old(self)@
            }),
    {
        let key = query_key(query.id);
        self.bids_sent.insert(key, bid);
    }

    /// Adds a query published by this node. A query already stored with the
    /// same id is kept, not overwritten; the new one is then not stored.
    pub fn add_query_sent(&mut self, query: Query)
        requires
            old(self).wf(),
        ensures
            final(self).wf(),
            query_sent_added(old(self)@, final(self)@, query),
    {
        let key = query_key(query.id);
        if self.queries_sent.get(&key).is_none() {
            self.queries_sent.insert(key, query);
        }
    }

    /// Adds a query received over the network; a query with the same id is
    /// replaced.
    pub fn add_query_received(&mut self, query: Query)
        requires
            old(self).wf(),
        ensures
            final(self).wf(),
            final(self)@ == (StorageView {
                queries_received: old(self)@.queries_received.insert(be32(query.id), query),
                ..old(self)@
            }),
    {
        let key = query_key(query.id);
        self.queries_received.insert(key, query);
    }

    /// Adds a new trade for a query and its accepted bid, stored under the
    /// query id. A requester starts waiting for the provider's StartCommit;
    /// a provider starts by having to send StartCommit.
    pub fn add_new_trade(&mut self, query: Query, bid: Bid, is_requester: bool)
        requires
            old(self).wf(),
        ensures
            final(self).wf(),
            final(self)@ == (StorageView {
                active_trades: old(self)@.active_trades.insert(
                    be32(query.id),
                    Trade {
                        query,
                        bid,
                        status: if is_requester {
                            TradeStatus::WaitingStartCommit
                        } else {
                            TradeStatus::PSendStartCommit
                        },
                        query_id: query.id,
                        is_requester,
                    },
                ),
                ..old(self)@
            }),
    {
        let id = query.id;
        let trade = Trade {
            query,
            bid,
            status: if is_requester {
                TradeStatus::WaitingStartCommit
            } else {
                TradeStatus::PSendStartCommit
            },
            query_id: id,
            is_requester,
        };
        let key = query_key(id);
        self.active_trades.insert(key, trade);
    }

    /// The position of the first active trade, in key order, that belongs
    /// to the query, provider and requester.
    fn position_of_active_trade(
        &self,
        query_id: &QueryId,
        provider_id: &PeerId,
        requester_id: &PeerId,
    ) -> (r: Option<usize>)
        requires
            self.wf(),
        ensures
            match r {
                Some(i) => first_matching_trade(
                    self.active_trades.values(),
                    *query_id,
                    provider_id@,
                    requester_id@,
                    i as int,
                ),
                None => forall|j: int|
                    0 <= j < self.active_trades.values().len() ==> !trade_matches(
                        #[trigger] self.active_trades.values()[j],
                        *query_id,
                        provider_id@,
                        requester_id@,
                    ),
            },
    {
        let mut i: usize = 0;
        while i < self.active_trades.len()
            invariant
                i <= self.active_trades.size(),
                self.active_trades.wf(),
                forall|j: int|
                    0 <= j < i ==> !trade_matches(
                        #[trigger] self.active_trades.values()[j],
                        *query_id,
                        provider_id@,
                        requester_id@,
                    ),
            decreases self.active_trades.size() - i,
        {
            let t = self.active_trades.value_at(i);
            if t.query_id == *query_id && t.bid.provider_id.same_as(provider_id)
                && t.query.requester_id.same_as(requester_id) {
                return Some(i);
            }
            i += 1;
        }
        None
    }

    /// Finds the active trade whose query id, bid provider and query
    /// requester are the ones given.
    pub fn find_active_trade(
        &self,
        query_id: &QueryId,
        provider_id: &PeerId,
        requester_id: &PeerId,
    ) -> (r: Result<Trade, StorageError>)
        requires
            self.wf(),
        ensures
            match r {
                Ok(t) => stored_trade(self@, *query_id, provider_id@, requester_id@) is Some && t@
                    == stored_trade(self@, *query_id, provider_id@, requester_id@)->0@,
                Err(e) => e == StorageError::NotFound && stored_trade(self@, *query_id, provider_id@, requester_id@) is None,
            },
    {
        match self.position_of_active_trade(query_id, provider_id, requester_id) {
            Some(i) => {
                let t = self.active_trades.value_at(i).duplicate();
                proof {
                    self.lemma_trade_at(i as int);
                }
                Ok(t)
            },
            None => {
                proof {
                    self.lemma_no_stored_trade(*query_id, provider_id@, requester_id@);
                }
                Err(StorageError::NotFound)
            },
        }
    }

    /// Where no active trade of the table belongs to the query, provider
    /// and requester, the store holds no such trade.
    proof fn lemma_no_stored_trade(&self, query_id: QueryId, provider_id: Seq<u8>, requester_id: Seq<u8>)
        requires
            self.wf(),
            forall|j: int|
                0 <= j < self.active_trades.values().len() ==> !trade_matches(
                    #[trigger] self.active_trades.values()[j],
                    query_id,
                    provider_id,
                    requester_id,
                ),
        ensures
            stored_trade(self@, query_id, provider_id, requester_id) is None,
    {
        let k = be32(query_id);
        if self@.active_trades.contains_key(k) {
            self.active_trades.lemma_key_position(k);
            let j = self.active_trades.index_of(k);
            assert(!trade_matches(self.active_trades.values()[j], query_id, provider_id, requester_id));
        }
    }

    /// Replaces an active trade, stored under its query id. The trade must
    /// already exist: the store holds a trade of its query id, its bid's
    /// provider and its query's requester; otherwise nothing changes and the
    /// result is `NotFound`.
    pub fn update_active_trade(&mut self, trade: Trade) -> (r: Result<(), StorageError>)
        requires
            old(self).wf(),
        ensures
            final(self).wf(),
            stored_trade(old(self)@, trade.query_id, trade.bid.provider_id@, trade.query.requester_id@) is Some
                ==> r is Ok && final(self)@ == (StorageView {
                active_trades: old(self)@.active_trades.insert(be32(trade.query_id), trade),
                ..old(self)@
            }),
            stored_trade(old(self)@, trade.query_id, trade.bid.provider_id@, trade.query.requester_id@) is None
                ==> r == Err::<(), StorageError>(StorageError::NotFound) && *final(self) == *old(self),
    {
        match self.position_of_active_trade(&trade.query_id, &trade.bid.provider_id, &trade.query.requester_id) {
            Some(i) => {
                proof {
                    self.lemma_trade_at(i as int);
                }
                let key = query_key(trade.query_id);
                self.active_trades.insert(key, trade);
                Ok(())
            },
            None => {
                proof {
                    self.lemma_no_stored_trade(trade.query_id, trade.bid.provider_id@, trade.query.requester_id@);
                }
                Err(StorageError::NotFound)
            },
        }
    }

    /// All active trades, in key order, which is ascending query id order:
    /// each stored trade once.
    pub fn get_active_trades(&self) -> (r: Vec<Trade>)
        requires
            self.wf(),
        ensures
            r@.len() == self.active_trades_table().values().len(),
            forall|i: int| 0 <= i < r@.len() ==> #[trigger] r@[i]@ == self.active_trades_table().values()[i]@,
            r@.len() == self@.active_trades.len(),
            forall|i: int, j: int| 0 <= i < j < r@.len() ==> (#[trigger] r@[i]).query_id < (#[trigger] r@[j]).query_id,
            forall|i: int|
                0 <= i < r@.len() ==> self@.active_trades.contains_key(be32((#[trigger] r@[i]).query_id))
                    && r@[i]@ == self@.active_trades[be32(r@[i].query_id)]@,
            forall|k: Seq<u8>|
                #[trigger] self@.active_trades.contains_key(k) ==> exists|i: int|
                    0 <= i < r@.len() && be32((#[trigger] r@[i]).query_id) == k,
    {
        let mut r: Vec<Trade> = Vec::new();
        let mut i: usize = 0;
        while i < self.active_trades.len()
            invariant
                i <= self.active_trades.size(),
                self.active_trades.wf(),
                r@.len() == i,
                forall|j: int| 0 <= j < i ==> #[trigger] r@[j]@ == self.active_trades.values()[j]@,
            decreases self.active_trades.size() - i,
        {
            r.push(self.active_trades.value_at(i).duplicate());
            i += 1;
        }
        proof {
            let t = self.active_trades;
            t.lemma_map_len();
            assert forall|a: int, b: int| 0 <= a < b < r@.len() implies (#[trigger] r@[a]).query_id < (
            #[trigger] r@[b]).query_id by {
                self.lemma_trade_at(a);
                self.lemma_trade_at(b);
                assert(r@[a]@ == t.values()[a]@ && r@[b]@ == t.values()[b]@);
                assert(crate::table::lex_lt(t.keys()[a], t.keys()[b]));
                crate::laws::law_query_key_order(r@[a].query_id, r@[b].query_id);
            }
            assert forall|a: int| 0 <= a < r@.len() implies self@.active_trades.contains_key(be32((#[trigger] r@[a]).query_id))
                && r@[a]@ == self@.active_trades[be32(r@[a].query_id)]@ by {
                self.lemma_trade_at(a);
                assert(r@[a]@ == t.values()[a]@);
            }
            assert forall|k: Seq<u8>| #[trigger] self@.active_trades.contains_key(k) implies exists|a: int|
                0 <= a < r@.len() && be32((#[trigger] r@[a]).query_id) == k by {
                t.lemma_key_position(k);
                let a = t.index_of(k);
                self.lemma_trade_at(a);
                assert(r@[a]@ == t.values()[a]@);
                assert(be32(r@[a].query_id) == k);
            }
        }
        r
    }

    /// All queries published by this node, in ascending id order: each
    /// stored query once.
    pub fn get_all_queries_sent(&self) -> (r: Vec<Query>)
        requires
            self.wf(),
        ensures
            r@.len() == self.queries_sent_table().values().len(),
            forall|i: int| 0 <= i < r@.len() ==> #[trigger] r@[i]@ == self.queries_sent_table().values()[i]@,
            r@.len() == self@.queries_sent.len(),
            forall|i: int, j: int| 0 <= i < j < r@.len() ==> (#[trigger] r@[i]).id < (#[trigger] r@[j]).id,
            forall|i: int|
                0 <= i < r@.len() ==> self@.queries_sent.contains_key(be32((#[trigger] r@[i]).id)) && r@[i]@
                    == self@.queries_sent[be32(r@[i].id)]@,
            forall|k: Seq<u8>|
                #[trigger] self@.queries_sent.contains_key(k) ==> exists|i: int|
                    0 <= i < r@.len() && be32((#[trigger] r@[i]).id) == k,
    {
        all_queries(&self.queries_sent)
    }

    /// All queries received over the network, in ascending id order: each
    /// stored query once.
    pub fn get_all_queries_recv(&self) -> (r: Vec<Query>)
        requires
            self.wf(),
        ensures
            r@.len() == self.queries_received_table().values().len(),
            forall|i: int| 0 <= i < r@.len() ==> #[trigger] r@[i]@ == self.queries_received_table().values()[i]@,
            r@.len() == self@.queries_received.len(),
            forall|i: int, j: int| 0 <= i < j < r@.len() ==> (#[trigger] r@[i]).id < (#[trigger] r@[j]).id,
            forall|i: int|
                0 <= i < r@.len() ==> self@.queries_received.contains_key(be32((#[trigger] r@[i]).id)) && r@[i]@
                    == self@.queries_received[be32(r@[i].id)]@,
            forall|k: Seq<u8>|
                #[trigger] self@.queries_received.contains_key(k) ==> exists|i: int|
                    0 <= i < r@.len() && be32((#[trigger] r@[i]).id) == k,
    {
        all_queries(&self.queries_received)
    }

    /// All bids received for a query, in the order of their bidders' peer
    /// ids: for each bidder the one bid stored from it for the query.
    pub fn find_all_bids_recv_by_query_id(&self, query_id: &QueryId) -> (r: Vec<Bid>)
        requires
            self.wf(),
        ensures
            forall|i: int|
                0 <= i < r@.len() ==> self@.bids_received.contains_key(
                    bid_received_key(*query_id, (#[trigger] r@[i]).provider_id@),
                ) && r@[i]@ == self@.bids_received[bid_received_key(*query_id, r@[i].provider_id@)]@,
            forall|p: Seq<u8>|
                #[trigger] self@.bids_received.contains_key(bid_received_key(*query_id, p)) ==> exists|i: int|
                    0 <= i < r@.len() && (#[trigger] r@[i]).provider_id@ == p,
            forall|i: int, j: int|
                0 <= i < j < r@.len() ==> lex_lt((#[trigger] r@[i]).provider_id@, (#[trigger] r@[j]).provider_id@),
            forall|p: Seq<u8>|
                #[trigger] bidders_for(self@, *query_id).contains(p) <==> exists|i: int|
                    0 <= i < r@.len() && (#[trigger] r@[i]).provider_id@ == p,
    {
        let prefix = query_key(*query_id);
        let ghost keys = self.bids_received.keys();
        let ghost values = self.bids_received.values();
        let ghost mut idx: Seq<int> = Seq::empty();
        let mut r: Vec<Bid> = Vec::new();
        let mut i: usize = 0;
        while i < self.bids_received.len()
            invariant
                i <= self.bids_received.size(),
                self.wf(),
                keys == self.bids_received.keys(),
                values == self.bids_received.values(),
                prefix@ == be32(*query_id),
                idx.len() == r@.len(),
                forall|m: int|
                    0 <= m < idx.len() ==> 0 <= #[trigger] idx[m] < i && has_prefix(keys[idx[m]], prefix@)
                        && r@[m]@ == values[idx[m]]@,
                forall|m: int, n: int| 0 <= m < n < idx.len() ==> #[trigger] idx[m] < #[trigger] idx[n],
                forall|j: int|
                    0 <= j < i && has_prefix(#[trigger] keys[j], prefix@) ==> exists|m: int|
                        0 <= m < idx.len() && #[trigger] idx[m] == j,
            decreases self.bids_received.size() - i,
        {
            let ghost old_idx = idx;
            let matched = starts_with(self.bids_received.key_at(i), &prefix);
            if matched {
                r.push(self.bids_received.value_at(i).duplicate());
                proof {
                    idx = idx.push(i as int);
                }
            }
            i += 1;
            assert forall|j: int|
                0 <= j < i && has_prefix(#[trigger] keys[j], prefix@) implies exists|m: int|
                    0 <= m < idx.len() && #[trigger] idx[m] == j by {
                if j == i - 1 {
                    assert(idx[idx.len() - 1] == j);
                } else {
                    let m = choose|m: int| 0 <= m < old_idx.len() && #[trigger] old_idx[m] == j;
                    assert(idx[m] == old_idx[m]);
                }
            }
        }
        proof {
            let t = self.bids_received;
            assert forall|m: int| 0 <= m < r@.len() implies self@.bids_received.contains_key(
                bid_received_key(*query_id, (#[trigger] r@[m]).provider_id@),
            ) && r@[m]@ == self@.bids_received[bid_received_key(*query_id, r@[m].provider_id@)]@ by {
                let j = idx[m];
                self.lemma_bid_at(j);
                assert(keys[j].take(4) == be32(*query_id));
                assert(r@[m]@ == values[j]@);
                assert(keys[j] =~= bid_received_key(*query_id, r@[m].provider_id@));
            }
            assert forall|p: Seq<u8>|
                #[trigger] self@.bids_received.contains_key(bid_received_key(*query_id, p)) implies exists|m: int|
                    0 <= m < r@.len() && (#[trigger] r@[m]).provider_id@ == p by {
                let k = bid_received_key(*query_id, p);
                t.lemma_key_position(k);
                let j = t.index_of(k);
                self.lemma_bid_at(j);
                assert(k.take(4) =~= be32(*query_id));
                assert(has_prefix(keys[j], prefix@));
                let m = choose|m: int| 0 <= m < idx.len() && #[trigger] idx[m] == j;
                assert(r@[m]@ == values[j]@);
                assert(values[j].provider_id@ =~= k.skip(4));
                assert(p =~= k.skip(4));
            }
            assert forall|a: int, b: int| 0 <= a < b < r@.len() implies lex_lt((#[trigger] r@[a]).provider_id@, (
            #[trigger] r@[b]).provider_id@) by {
                let ja = idx[a];
                let jb = idx[b];
                assert(ja < jb);
                self.lemma_bid_at(ja);
                self.lemma_bid_at(jb);
                assert(r@[a]@ == values[ja]@ && r@[b]@ == values[jb]@);
                assert(lex_lt(keys[ja], keys[jb]));
                assert(keys[ja].take(4) == be32(*query_id) && keys[jb].take(4) == be32(*query_id));
                crate::table::lemma_lex_common_prefix(be32(*query_id), r@[a].provider_id@, r@[b].provider_id@);
            }
            assert forall|p: Seq<u8>|
                #[trigger] bidders_for(self@, *query_id).contains(p) <==> exists|m: int|
                    0 <= m < r@.len() && (#[trigger] r@[m]).provider_id@ == p by {
                if exists|m: int| 0 <= m < r@.len() && (#[trigger] r@[m]).provider_id@ == p {
                    let m = choose|m: int| 0 <= m < r@.len() && (#[trigger] r@[m]).provider_id@ == p;
                    assert(self@.bids_received.contains_key(bid_received_key(*query_id, r@[m].provider_id@)));
                }
                if bidders_for(self@, *query_id).contains(p) {
                    assert(self@.bids_received.contains_key(bid_received_key(*query_id, p)));
                }
            }
        }
        r
    }

    /// The query published by this node with the given id.
    pub fn find_query_sent_by_query_id(&self, query_id: &QueryId) -> (r: Result<Query, StorageError>)
        requires
            self.wf(),
        ensures
            match r {
                Ok(q) => self@.queries_sent.contains_key(be32(*query_id)) && q@
                    == self@.queries_sent[be32(*query_id)]@ && q.id == *query_id,
                Err(e) => e == StorageError::NotFound && !self@.queries_sent.contains_key(
                    be32(*query_id),
                ),
            },
    {
        let key = query_key(*query_id);
        match self.queries_sent.get(&key) {
            Some(q) => {
                proof {
                    assert(self.queries_sent.as_map().contains_key(key@));
                    crate::laws::law_query_key_injective(q.id, *query_id);
                }
                Ok(q.duplicate())
            },
            None => Err(StorageError::NotFound),
        }
    }

    /// The query received over the network with the given id.
    pub fn find_query_received_by_query_id(&self, query_id: &QueryId) -> (r: Result<Query, StorageError>)
        requires
            self.wf(),
        ensures
            match r {
                Ok(q) => self@.queries_received.contains_key(be32(*query_id)) && q@
                    == self@.queries_received[be32(*query_id)]@ && q.id == *query_id,
                Err(e) => e == StorageError::NotFound && !self@.queries_received.contains_key(
                    be32(*query_id),
                ),
            },
    {
        let key = query_key(*query_id);
        match self.queries_received.get(&key) {
            Some(q) => {
                proof {
                    assert(self.queries_received.as_map().contains_key(key@));
                    crate::laws::law_query_key_injective(q.id, *query_id);
                }
                Ok(q.duplicate())
            },
            None => Err(StorageError::NotFound),
        }
    }

    /// The bid this node placed on the query with the given id.
    pub fn find_bid_sent_by_query_id(&self, query_id: &QueryId) -> (r: Result<Bid, StorageError>)
        requires
            self.wf(),
        ensures
            match r {
                Ok(b) => self@.bids_sent.contains_key(be32(*query_id)) && b@
                    == self@.bids_sent[be32(*query_id)]@,
                Err(e) => e == StorageError::NotFound && !self@.bids_sent.contains_key(
                    be32(*query_id),
                ),
            },
    {
        let key = query_key(*query_id);
        match self.bids_sent.get(&key) {
            Some(b) => Ok(b.duplicate()),
            None => Err(StorageError::NotFound),
        }
    }

    /// Finds the bid received from a provider for a query, where it names
    /// that query.
    pub fn find_bid_received(&self, query_id: &QueryId, provider_id: &PeerId) -> (r: Result<Bid, StorageError>)
        requires
            self.wf(),
        ensures
            match r {
                Ok(b) => stored_bid(self@, *query_id, provider_id@) is Some && b@ == stored_bid(
                    self@,
                    *query_id,
                    provider_id@,
                )->0@,
                Err(e) => e == StorageError::NotFound && stored_bid(self@, *query_id, provider_id@) is None,
            },
    {
        let prefix = query_key(*query_id);
        let mut i: usize = 0;
        while i < self.bids_received.len()
            invariant
                i <= self.bids_received.size(),
                self.wf(),
                prefix@ == be32(*query_id),
                forall|j: int|
                    0 <= j < i ==> !bid_received_matches(
                        self.bids_received.keys()[j],
                        #[trigger] self.bids_received.values()[j],
                        *query_id,
                        provider_id@,
                    ),
            decreases self.bids_received.size() - i,
        {
            let b = self.bids_received.value_at(i);
            if starts_with(self.bids_received.key_at(i), &prefix) && b.query_id == *query_id
                && b.provider_id.same_as(provider_id) {
                let found = b.duplicate();
                proof {
                    self.lemma_bid_at(i as int);
                    let k = self.bids_received.keys()[i as int];
                    assert(k.take(4) == be32(*query_id));
                    assert(k =~= bid_received_key(*query_id, provider_id@));
                }
                return Ok(found);
            }
            i += 1;
        }
        proof {
            let k = bid_received_key(*query_id, provider_id@);
            if self@.bids_received.contains_key(k) && self@.bids_received[k].query_id == *query_id {
                self.bids_received.lemma_key_position(k);
                let j = self.bids_received.index_of(k);
                self.lemma_bid_at(j);
                assert(k.take(4) =~= be32(*query_id));
                assert(self.bids_received.values()[j].provider_id@ =~= k.skip(4));
                assert(provider_id@ =~= k.skip(4));
                assert(bid_received_matches(self.bids_received.keys()[j], self.bids_received.values()[j], *query_id, provider_id@));
            }
        }
        Err(StorageError::NotFound)
    }

    /// The active trade stored for query id `trade_id`.
    pub fn find_active_trade_by_id(&self, trade_id: &QueryId) -> (r: Result<Trade, StorageError>)
        requires
            self.wf(),
        ensures
            match r {
                Ok(t) => self@.active_trades.contains_key(be32(*trade_id)) && t@
                    == self@.active_trades[be32(*trade_id)]@,
                Err(e) => e == StorageError::NotFound && !self@.active_trades.contains_key(be32(*trade_id)),
            },
    {
        let mut i: usize = 0;
        while i < self.active_trades.len()
            invariant
                i <= self.active_trades.size(),
                self.wf(),
                forall|j: int| 0 <= j < i ==> (#[trigger] self.active_trades.values()[j]).query_id != *trade_id,
            decreases self.active_trades.size() - i,
        {
            let t = self.active_trades.value_at(i);
            if t.query_id == *trade_id {
                let found = t.duplicate();
                proof {
                    self.lemma_trade_at(i as int);
                }
                return Ok(found);
            }
            i += 1;
        }
        proof {
            let k = be32(*trade_id);
            if self@.active_trades.contains_key(k) {
                self.active_trades.lemma_key_position(k);
                let j = self.active_trades.index_of(k);
                self.lemma_trade_at(j);
                crate::laws::law_query_key_injective(self.active_trades.values()[j].query_id, *trade_id);
            }
        }
        Err(StorageError::NotFound)
    }

    /// Stores a trade as active under its query id, replacing any trade
    /// stored there.
    pub fn add_active_trade(&mut self, trade: &Trade)
        requires
            old(self).wf(),
        ensures
            final(self).wf(),
            final(self)@.active_trades.contains_key(be32(trade.query_id)),
            final(self)@.active_trades[be32(trade.query_id)]@ == trade@,
            final(self)@.active_trades.remove(be32(trade.query_id)) == old(self)@.active_trades.remove(be32(trade.query_id)),
            final(self)@ == (StorageView { active_trades: final(self)@.active_trades, ..old(self)@ }),
    {
        let key = query_key(trade.query_id);
        let copy = trade.duplicate();
        self.active_trades.insert(key, copy);
        assert(self@.active_trades.remove(be32(trade.query_id)) =~= old(self)@.active_trades.remove(be32(trade.query_id)));
    }

    /// Adds a wallet whose commitments this node keeps track of.
    pub fn add_wallet_of_interest(&mut self, wallet: Address)
        requires
            old(self).wf(),
        ensures
            final(self).wf(),
            final(self)@ == (StorageView {
                wallets_of_interest: old(self)@.wallets_of_interest.insert(wallet@, wallet),
                ..old(self)@
            }),
    {
        let key = address_key(&wallet);
        self.wallets_of_interest.insert(key, wallet);
    }

    /// Whether this node keeps track of the commitments of a wallet.
    pub fn is_wallet_of_interest(&self, wallet: &Address) -> (r: bool)
        requires
            self.wf(),
        ensures
            r == self@.wallets_of_interest.contains_key(wallet@),
    {
        let key = address_key(wallet);
        self.wallets_of_interest.get(&key).is_some()
    }

    /// The commit history of a wallet, if one is stored.
    pub fn find_commit_history(&self, wallet: &Address) -> (r: Option<CommitHistory>)
        requires
            self.wf(),
        ensures
            match r {
                Some(h) => self@.commit_histories.contains_key(wallet@)
                    && h.wallet_address == self@.commit_histories[wallet@].wallet_address
                    && h.commits@ == self@.commit_histories[wallet@].commits@,
                None => !self@.commit_histories.contains_key(wallet@),
            },
    {
        let key = address_key(wallet);
        match self.commit_histories.get(&key) {
            Some(h) => Some(CommitHistory { wallet_address: h.wallet_address, commits: copy_commits(&h.commits) }),
            None => None,
        }
    }

    /// Appends commitments to the commit history of a wallet, starting the
    /// history where there is none.
    pub fn add_commits_to_commit_history(&mut self, wallet: &Address, commits: Vec<Commit>)
        requires
            old(self).wf(),
        ensures
            final(self).wf(),
            final(self)@.commit_histories.contains_key(wallet@),
            final(self)@.commit_histories[wallet@].wallet_address == *wallet,
            final(self)@.commit_histories[wallet@].commits@ == (if old(self)@.commit_histories.contains_key(wallet@) {
                old(self)@.commit_histories[wallet@].commits@
            } else {
                Seq::<Commit>::empty()
            }) + commits@,
            final(self)@.commit_histories.remove(wallet@) == old(self)@.commit_histories.remove(wallet@),
            final(self)@ == (StorageView { commit_histories: final(self)@.commit_histories, ..old(self)@ }),
    {
        let key = address_key(wallet);
        let mut all: Vec<Commit> = match self.commit_histories.get(&key) {
            Some(h) => copy_commits(&h.commits),
            None => Vec::new(),
        };
        let ghost start = all@;
        let mut i: usize = 0;
        while i < commits.len()
            invariant
                i <= commits@.len(),
                all@ == start + commits@.take(i as int),
            decreases commits@.len() - i,
        {
            all.push(commits[i]);
            i += 1;
            assert(all@ =~= start + commits@.take(i as int));
        }
        assert(commits@.take(commits@.len() as int) =~= commits@);
        self.commit_histories.insert(key, CommitHistory { wallet_address: *wallet, commits: all });
        assert(self@.commit_histories.remove(wallet@) =~= old(self)@.commit_histories.remove(wallet@));
    }

    /// Hands out the next client id: the counter's value, which then
    /// advances by one, wrapping around at the largest `usize`.
    pub fn next_client_id(&mut self) -> (id: usize)
        ensures
            client_id_handed_out(old(self)@, final(self)@, id),
            final(self).wf() == old(self).wf(),
    {
        let id = self.client_id_counter;
        self.client_id_counter = self.client_id_counter.wrapping_add(1);
        id
    }

    /// Counts a query published by this node: gives back how many were
    /// counted before, and advances the count by one, wrapping around at the
    /// largest `u64`.
    pub fn next_query_count(&mut self) -> (n: u64)
        ensures
            n == old(self)@.query_count,
            final(self)@ == (StorageView {
                query_count: if old(self)@.query_count == u64::MAX {
                    0
                } else {
                    (old(self)@.query_count + 1) as u64
                },
                ..old(self)@
            }),
            final(self).wf() == old(self).wf(),
    {
        let n = self.query_count;
        self.query_count = self.query_count.wrapping_add(1);
        n
    }
}


/// Whether a bid stored under `key` is one received for `query_id` that
/// names that query and the provider.
pub open spec fn bid_received_matches(key: Seq<u8>, b: Bid, query_id: QueryId, provider_id: Seq<u8>) -> bool {
    has_prefix(key, be32(query_id)) && b.query_id == query_id && b.provider_id@ == provider_id
}

/// Whether byte string `k` starts with `p`.
fn starts_with(k: &Vec<u8>, p: &Vec<u8>) -> (r: bool)
    ensures
        r == has_prefix(k@, p@),
{
    if k.len() < p.len() {
        return false;
    }
    let mut i: usize = 0;
    while i < p.len()
        invariant
            i <= p@.len(),
            p@.len() <= k@.len(),
            forall|j: int| 0 <= j < i ==> k@[j] == p@[j],
        decreases p@.len() - i,
    {
        if k[i] != p[i] {
            assert(k@.take(p@.len() as int)[i as int] != p@[i as int]);
            return false;
        }
        i += 1;
    }
    assert(k@.take(p@.len() as int) =~= p@);
    true
}

/// The database key of a record stored by wallet address.
pub fn address_key(a: &Address) -> (key: Vec<u8>)
    ensures
        key@ == a@,
{
    let mut key: Vec<u8> = Vec::new();
    let mut i: usize = 0;
    while i < 20
        invariant
            i <= 20,
            key@ == a@.take(i as int),
        decreases 20 - i,
    {
        key.push(a.bytes[i]);
        i += 1;
        assert(key@ =~= a@.take(i as int));
    }
    assert(a@.take(20) =~= a@);
    key
}

/// Copies of all the queries of a table, in key order, which is ascending
/// id order where each query sits under the key of its own id: each stored
/// query once.
fn all_queries(t: &Table<Query>) -> (r: Vec<Query>)
    requires
        t.wf(),
        queries_under_own_ids(t.as_map()),
    ensures
        r@.len() == t.values().len(),
        forall|i: int| 0 <= i < r@.len() ==> #[trigger] r@[i]@ == t.values()[i]@,
        r@.len() == t.as_map().len(),
        forall|i: int, j: int| 0 <= i < j < r@.len() ==> (#[trigger] r@[i]).id < (#[trigger] r@[j]).id,
        forall|i: int|
            0 <= i < r@.len() ==> t.as_map().contains_key(be32((#[trigger] r@[i]).id)) && r@[i]@
                == t.as_map()[be32(r@[i].id)]@,
        forall|k: Seq<u8>|
            #[trigger] t.as_map().contains_key(k) ==> exists|i: int| 0 <= i < r@.len() && be32((#[trigger] r@[i]).id) == k,
{
    let mut r: Vec<Query> = Vec::new();
    let mut i: usize = 0;
    while i < t.len()
        invariant
            i <= t.size(),
            t.wf(),
            r@.len() == i,
            forall|j: int| 0 <= j < i ==> #[trigger] r@[j]@ == t.values()[j]@,
        decreases t.size() - i,
    {
        r.push(t.value_at(i).duplicate());
        i += 1;
    }
    proof {
        t.lemma_map_len();
        assert forall|a: int| 0 <= a < r@.len() implies t.keys()[a] == be32((#[trigger] r@[a]).id) && t.as_map().contains_key(be32(r@[a].id))
            && r@[a]@ == t.as_map()[be32(r@[a].id)]@ by {
            t.lemma_value_at(a);
            assert(t.as_map().contains_key(t.keys()[a]));
            assert(r@[a]@ == t.values()[a]@);
        }
        assert forall|a: int, b: int| 0 <= a < b < r@.len() implies (#[trigger] r@[a]).id < (#[trigger] r@[b]).id by {
            assert(t.keys()[a] == be32(r@[a].id) && t.keys()[b] == be32(r@[b].id));
            assert(lex_lt(t.keys()[a], t.keys()[b]));
            crate::laws::law_query_key_order(r@[a].id, r@[b].id);
        }
        assert forall|k: Seq<u8>| #[trigger] t.as_map().contains_key(k) implies exists|a: int|
            0 <= a < r@.len() && be32((#[trigger] r@[a]).id) == k by {
            t.lemma_key_position(k);
            let a = t.index_of(k);
            assert(t.keys()[a] == be32(r@[a].id));
        }
    }
    r
}

} // verus!
