//! Properties of the library as a whole, each proved from the contracts and
//! spec functions that its operations state.

use vstd::prelude::*;
use crate::ethers_calls::{le32_bytes, le_byte};
use crate::commit_procedure::{processing_status_of, send_request_of, send_status_of, waiting_status_of};
use crate::ch_request::{accepted_commits, loading_after, next_peers, next_request_count, picked_at, spec_timed_out};
use crate::indexer::{IndexerAction, network_event_outcome, selection};
use crate::network::{CommitRequest, CommitResponse, ExchangeRequest, ExchangeResponse, NetworkEvent};
use crate::primitives::PeerId;
use crate::table::{lex_lt, lemma_lex_first_difference, lemma_lex_irreflexive};
use crate::storage::{Bid, Query, Storage, StorageView, Trade, be32, spec_is_sending, Commit, CommitType, TradeStatus, TradeView, commit_blob, stored_trade, stored_bid, bid_received_key, le64_bytes, query_id_seed, bidders_for, query_sent_added, client_id_handed_out, commit_signer, counter_party};

verus! {

proof fn lemma_le32_injective(x: u32, y: u32)
    requires
        le32_bytes(x) == le32_bytes(y),
    ensures
        x == y,
{
    assert(le32_bytes(x)[0] == le32_bytes(y)[0]);
    assert(le32_bytes(x)[1] == le32_bytes(y)[1]);
    assert(le32_bytes(x)[2] == le32_bytes(y)[2]);
    assert(le32_bytes(x)[3] == le32_bytes(y)[3]);
    assert(le32_bytes(x)[0] == le_byte(x, 0) && le32_bytes(y)[0] == le_byte(y, 0));
    assert(le32_bytes(x)[1] == le_byte(x, 1) && le32_bytes(y)[1] == le_byte(y, 1));
    assert(le32_bytes(x)[2] == le_byte(x, 2) && le32_bytes(y)[2] == le_byte(y, 2));
    assert(le32_bytes(x)[3] == le_byte(x, 3) && le32_bytes(y)[3] == le_byte(y, 3));
    assert(x == y) by (bit_vector)
        requires
            (x & 0xff) as u8 == (y & 0xff) as u8,
            ((x >> 8u32) & 0xff) as u8 == ((y >> 8u32) & 0xff) as u8,
            ((x >> 16u32) & 0xff) as u8 == ((y >> 16u32) & 0xff) as u8,
            ((x >> 24u32) & 0xff) as u8 == ((y >> 24u32) & 0xff) as u8,
    ;
}

/// Whether two commitments agree on every field that their hash covers:
/// index, epoch, `u`, type, invalidating address, and for type 2 the
/// redeeming address.
pub open spec fn same_hashed_fields(a: Commit, b: Commit) -> bool {
    &&& a.index == b.index
    &&& a.epoch == b.epoch
    &&& a.u == b.u
    &&& a.c_type == b.c_type
    &&& a.i_address@ == b.i_address@
    &&& (a.c_type == CommitType::T2 ==> a.r_address@ == b.r_address@)
}

/// Two commitments are hashed over the same bytes exactly when they agree on
/// the fields the hash covers: the blob encodes those fields without loss,
/// and a type 1 commitment's hash does not depend on its redeeming address.
pub proof fn law_commit_blob_encodes_hashed_fields(a: Commit, b: Commit)
    ensures
        commit_blob(a) == commit_blob(b) <==> same_hashed_fields(a, b),
{
    if commit_blob(a) == commit_blob(b) {
        let x = commit_blob(a);
        let y = commit_blob(b);
        assert(x.len() == if a.c_type == CommitType::T2 { 200int } else { 180int });
        assert(y.len() == if b.c_type == CommitType::T2 { 200int } else { 180int });
        assert(a.c_type == b.c_type);
        assert(x.subrange(32, 64) =~= le32_bytes(a.index));
        assert(y.subrange(32, 64) =~= le32_bytes(b.index));
        lemma_le32_injective(a.index, b.index);
        assert(x.subrange(64, 96) =~= le32_bytes(a.epoch));
        assert(y.subrange(64, 96) =~= le32_bytes(b.epoch));
        lemma_le32_injective(a.epoch, b.epoch);
        assert(x.subrange(96, 128) =~= le32_bytes(a.u));
        assert(y.subrange(96, 128) =~= le32_bytes(b.u));
        lemma_le32_injective(a.u, b.u);
        assert(x.subrange(160, 180) =~= a.i_address@);
        assert(y.subrange(160, 180) =~= b.i_address@);
        if a.c_type == CommitType::T2 {
            assert(x.subrange(180, 200) =~= a.r_address@);
            assert(y.subrange(180, 200) =~= b.r_address@);
        }
    }
    if same_hashed_fields(a, b) {
        assert(commit_blob(a) =~= commit_blob(b));
    }
}


/// Whether a status belongs to the provider's side of a trade.
pub open spec fn provider_side(s: TradeStatus) -> bool {
    match s {
        TradeStatus::PSendStartCommit | TradeStatus::WaitingRT1Commit
        | TradeStatus::ProcessingRT1Commit | TradeStatus::PSendT1Commit
        | TradeStatus::WaitingRT2Commit | TradeStatus::ProcessingRT2Commit
        | TradeStatus::PFulfillService | TradeStatus::WaitingInvalidatingSignatures => true,
        _ => false,
    }
}

/// How far along its side's path a status lies.
pub open spec fn progress(s: TradeStatus) -> int {
    match s {
        TradeStatus::PSendStartCommit => 0,
        TradeStatus::WaitingRT1Commit => 1,
        TradeStatus::ProcessingRT1Commit => 2,
        TradeStatus::PSendT1Commit => 3,
        TradeStatus::WaitingRT2Commit => 4,
        TradeStatus::ProcessingRT2Commit => 5,
        TradeStatus::PFulfillService => 6,
        TradeStatus::WaitingInvalidatingSignatures => 7,
        TradeStatus::WaitingStartCommit => 0,
        TradeStatus::RSendT1Commit => 1,
        TradeStatus::WaitingPT1Commit => 2,
        TradeStatus::ProcessingPT1Commit => 3,
        TradeStatus::RSendT2Commit => 4,
        TradeStatus::WaitingForService => 5,
    }
}

/// Whether moving from `a` to `b` keeps a trade on its side and moves it
/// strictly forward, or leaves it where it is.
pub open spec fn forward_or_same(a: TradeStatus, b: TradeStatus) -> bool {
    b == a || (provider_side(b) == provider_side(a) && progress(b) > progress(a))
}

/// The commit procedure never moves a trade backwards nor across sides:
/// each of its three status steps either leaves a status alone or moves it
/// strictly forward on the same side (provider or requester).
pub proof fn law_status_steps_move_forward(s: TradeStatus)
    ensures
        forward_or_same(s, waiting_status_of(s)),
        forward_or_same(s, processing_status_of(s)),
        forward_or_same(s, send_status_of(s)),
{
}

/// Each status is changed by at most one of the three status steps: the
/// step after sending, the step on receiving and the step after verifying
/// act on disjoint sets of statuses.
pub proof fn law_status_steps_disjoint(s: TradeStatus)
    ensures
        waiting_status_of(s) != s ==> processing_status_of(s) == s && send_status_of(s) == s,
        processing_status_of(s) != s ==> waiting_status_of(s) == s && send_status_of(s) == s,
        send_status_of(s) != s ==> waiting_status_of(s) == s && processing_status_of(s) == s,
{
}

/// A trade has a commitment request to send exactly when it is in a
/// sending status, whatever the commitment.
pub proof fn law_send_request_iff_sending_status(t: TradeView, c: Commit)
    ensures
        send_request_of(t, c) is Some <==> spec_is_sending(t.status),
{
}

/// Once its commitment has been sent, a trade is in no sending status any
/// more, so the indexer does not send it again.
pub proof fn law_sent_trade_stops_sending(s: TradeStatus)
    ensures
        spec_is_sending(s) ==> !spec_is_sending(waiting_status_of(s)) && waiting_status_of(s) != s,
{
}

/// Verifying a received commitment takes a waiting trade to a status in
/// which this node sends its own commitment, or, after the requester's
/// second commitment, to fulfilling the service.
pub proof fn law_verification_leads_to_send(s: TradeStatus)
    ensures
        processing_status_of(s) != s ==> (spec_is_sending(send_status_of(processing_status_of(s)))
            || send_status_of(processing_status_of(s)) == TradeStatus::PFulfillService),
{
}

/// Distinct query ids give distinct database keys.
pub proof fn law_query_key_injective(a: u32, b: u32)
    ensures
        be32(a) == be32(b) ==> a == b,
{
    if be32(a) == be32(b) {
        assert(be32(a)[0] == be32(b)[0]);
        assert(be32(a)[1] == be32(b)[1]);
        assert(be32(a)[2] == be32(b)[2]);
        assert(be32(a)[3] == be32(b)[3]);
        assert(a == b) by (bit_vector)
            requires
                ((a >> 24u32) & 0xff) as u8 == ((b >> 24u32) & 0xff) as u8,
                ((a >> 16u32) & 0xff) as u8 == ((b >> 16u32) & 0xff) as u8,
                ((a >> 8u32) & 0xff) as u8 == ((b >> 8u32) & 0xff) as u8,
                (a & 0xff) as u8 == (b & 0xff) as u8,
        ;
    }
}

/// Database keys of query ids sort as the ids do, so a table keyed by query
/// id is walked in ascending query id order.
pub proof fn law_query_key_order(a: u32, b: u32)
    ensures
        lex_lt(be32(a), be32(b)) == (a < b),
{
    let x = be32(a);
    let y = be32(b);
    if x[0] != y[0] {
        assert(x.take(0) =~= y.take(0));
        lemma_lex_first_difference(x, y, 0);
        assert((((a >> 24u32) & 0xff) as u8) < (((b >> 24u32) & 0xff) as u8) <==> a < b) by (bit_vector)
            requires
                ((a >> 24u32) & 0xff) as u8 != ((b >> 24u32) & 0xff) as u8,
        ;
    } else if x[1] != y[1] {
        assert(x.take(1) =~= y.take(1));
        lemma_lex_first_difference(x, y, 1);
        assert((((a >> 16u32) & 0xff) as u8) < (((b >> 16u32) & 0xff) as u8) <==> a < b) by (bit_vector)
            requires
                ((a >> 24u32) & 0xff) as u8 == ((b >> 24u32) & 0xff) as u8,
                ((a >> 16u32) & 0xff) as u8 != ((b >> 16u32) & 0xff) as u8,
        ;
    } else if x[2] != y[2] {
        assert(x.take(2) =~= y.take(2));
        lemma_lex_first_difference(x, y, 2);
        assert((((a >> 8u32) & 0xff) as u8) < (((b >> 8u32) & 0xff) as u8) <==> a < b) by (bit_vector)
            requires
                ((a >> 24u32) & 0xff) as u8 == ((b >> 24u32) & 0xff) as u8,
                ((a >> 16u32) & 0xff) as u8 == ((b >> 16u32) & 0xff) as u8,
                ((a >> 8u32) & 0xff) as u8 != ((b >> 8u32) & 0xff) as u8,
        ;
    } else if x[3] != y[3] {
        assert(x.take(3) =~= y.take(3));
        lemma_lex_first_difference(x, y, 3);
        assert(((a & 0xff) as u8) < ((b & 0xff) as u8) <==> a < b) by (bit_vector)
            requires
                ((a >> 24u32) & 0xff) as u8 == ((b >> 24u32) & 0xff) as u8,
                ((a >> 16u32) & 0xff) as u8 == ((b >> 16u32) & 0xff) as u8,
                ((a >> 8u32) & 0xff) as u8 == ((b >> 8u32) & 0xff) as u8,
                (a & 0xff) as u8 != (b & 0xff) as u8,
        ;
    } else {
        assert(x =~= y);
        law_query_key_injective(a, b);
        lemma_lex_irreflexive(x);
    }
}

/// On a tick the indexer starts a send only for trades in a sending status
/// whose id has no send running, never twice for one id, and afterwards
/// counts as running exactly the ids that ran before and those it started.
pub proof fn law_tick_starts_each_send_once(trades: Seq<TradeView>, running: Set<u32>)
    ensures
        ({
            let (picked, now) = selection(trades, running);
            &&& forall|k: int|
                0 <= k < picked.len() ==> spec_is_sending(#[trigger] picked[k].status)
                    && !running.contains(picked[k].query_id)
            &&& forall|a: int, b: int|
                0 <= a < b < picked.len() ==> (#[trigger] picked[a]).query_id != (
                #[trigger] picked[b]).query_id
            &&& forall|id: u32|
                #[trigger] now.contains(id) <==> (running.contains(id) || exists|k: int|
                    0 <= k < picked.len() && (#[trigger] picked[k]).query_id == id)
        }),
    decreases trades.len(),
{
    if trades.len() > 0 {
        law_tick_starts_each_send_once(trades.drop_last(), running);
        let (p0, n0) = selection(trades.drop_last(), running);
        let (picked, now) = selection(trades, running);
        let t = trades.last();
        if spec_is_sending(t.status) && !n0.contains(t.query_id) {
            assert(picked == p0.push(t));
            assert forall|id: u32| #[trigger] now.contains(id) <==> (running.contains(id) || exists|k: int|
                0 <= k < picked.len() && (#[trigger] picked[k]).query_id == id) by {
                if exists|k: int| 0 <= k < p0.len() && (#[trigger] p0[k]).query_id == id {
                    let k = choose|k: int| 0 <= k < p0.len() && (#[trigger] p0[k]).query_id == id;
                    assert(picked[k] == p0[k]);
                }
                if exists|k: int| 0 <= k < picked.len() && (#[trigger] picked[k]).query_id == id {
                    let k = choose|k: int| 0 <= k < picked.len() && (#[trigger] picked[k]).query_id == id;
                    if k < p0.len() {
                        assert(p0[k] == picked[k]);
                    }
                }
                if id == t.query_id {
                    assert(picked[p0.len() as int] == t);
                }
            }
            assert forall|a: int, b: int| 0 <= a < b < picked.len() implies (#[trigger] picked[a]).query_id != (
                #[trigger] picked[b]).query_id by {
                if b == p0.len() {
                    assert(picked[a] == p0[a]);
                    assert(n0.contains(p0[a].query_id));
                } else {
                    assert(picked[a] == p0[a] && picked[b] == p0[b]);
                }
            }
            assert forall|k: int| 0 <= k < picked.len() implies spec_is_sending(#[trigger] picked[k].status)
                && !running.contains(picked[k].query_id) by {
                if k < p0.len() {
                    assert(picked[k] == p0[k]);
                }
            }
        }
    }
}

/// After a tick, every active trade in a sending status has a send
/// running.
pub proof fn law_tick_covers_every_sending_trade(trades: Seq<TradeView>, running: Set<u32>)
    ensures
        forall|k: int|
            0 <= k < trades.len() && spec_is_sending(#[trigger] trades[k].status) ==> selection(
                trades,
                running,
            ).1.contains(trades[k].query_id),
        forall|id: u32| running.contains(id) ==> #[trigger] selection(trades, running).1.contains(id),
    decreases trades.len(),
{
    if trades.len() > 0 {
        law_tick_covers_every_sending_trade(trades.drop_last(), running);
        assert forall|k: int|
            0 <= k < trades.len() && spec_is_sending(#[trigger] trades[k].status) implies selection(
                trades,
                running,
            ).1.contains(trades[k].query_id) by {
            if k < trades.len() - 1 {
                assert(trades.drop_last()[k] == trades[k]);
            }
        }
        assert forall|id: u32| running.contains(id) implies #[trigger] selection(trades, running).1.contains(id) by {
            assert(selection(trades.drop_last(), running).1.contains(id));
        }
    }
}

/// What a read gives back of a write: once a query has been added as sent,
/// the store holds a sent query with its id, and it is that query unless
/// one with the same id was stored before.
pub proof fn law_query_sent_read_after_write(before: Storage, after: Storage, query: Query)
    requires
        before.wf(),
        after.wf(),
        query_sent_added(before@, after@, query),
    ensures
        after@.queries_sent.contains_key(be32(query.id)),
        after@.queries_sent[be32(query.id)].id == query.id,
        !before@.queries_sent.contains_key(be32(query.id)) ==> after@.queries_sent[be32(query.id)] == query,
{
    after.lemma_stored_under_own_keys();
    law_query_key_injective(after@.queries_sent[be32(query.id)].id, query.id);
}

/// A sent query is never overwritten: after adding two queries with the same
/// id, the store holds the first.
pub proof fn law_first_query_sent_kept(s0: Storage, s1: Storage, s2: Storage, q1: Query, q2: Query)
    requires
        s0.wf(),
        s1.wf(),
        s2.wf(),
        q2.id == q1.id,
        query_sent_added(s0@, s1@, q1),
        query_sent_added(s1@, s2@, q2),
    ensures
        !s0@.queries_sent.contains_key(be32(q1.id)) ==> s2@.queries_sent[be32(q1.id)] == q1,
        s0@.queries_sent.contains_key(be32(q1.id)) ==> s2@.queries_sent[be32(q1.id)]
            == s0@.queries_sent[be32(q1.id)],
{
}

/// The trade a store holds after adding one for a query and a bid.
pub open spec fn new_trade(query: Query, bid: Bid, is_requester: bool) -> Trade {
    Trade {
        query,
        bid,
        status: if is_requester {
            TradeStatus::WaitingStartCommit
        } else {
            TradeStatus::PSendStartCommit
        },
        query_id: query.id,
        is_requester,
    }
}

/// Whether store `after` is store `before` with a trade added for a query
/// and a bid.
pub open spec fn trade_added(before: StorageView, after: StorageView, query: Query, bid: Bid, is_requester: bool) -> bool {
    after == (StorageView {
        active_trades: before.active_trades.insert(be32(query.id), new_trade(query, bid, is_requester)),
        ..before
    })
}

/// What a read gives back of a write: once a trade has been added for a
/// query and a bid, looking it up by the query id, the bid's provider and
/// the query's requester finds exactly that trade.
pub proof fn law_added_trade_is_found(before: Storage, after: Storage, query: Query, bid: Bid, is_requester: bool)
    requires
        before.wf(),
        after.wf(),
        trade_added(before@, after@, query, bid, is_requester),
    ensures
        stored_trade(after@, query.id, bid.provider_id@, query.requester_id@) == Some(
            new_trade(query, bid, is_requester),
        ),
{
}

/// The store keeps one trade per query id: after adding a trade for a
/// query and then another for a query with the same id, the one stored for
/// that id is the second, and no other stored trade has that id.
pub proof fn law_one_trade_per_query(
    before: Storage,
    mid: Storage,
    after: Storage,
    q1: Query,
    b1: Bid,
    r1: bool,
    q2: Query,
    b2: Bid,
    r2: bool,
)
    requires
        before.wf(),
        mid.wf(),
        after.wf(),
        q2.id == q1.id,
        trade_added(before@, mid@, q1, b1, r1),
        trade_added(mid@, after@, q2, b2, r2),
    ensures
        after@.active_trades.contains_key(be32(q1.id)),
        after@.active_trades[be32(q1.id)] == new_trade(q2, b2, r2),
        forall|k: Seq<u8>|
            #[trigger] after@.active_trades.contains_key(k) && after@.active_trades[k].query_id == q1.id
                ==> k == be32(q1.id),
{
    after.lemma_stored_under_own_keys();
}

/// What a read gives back of an update: once a stored trade has been
/// updated, looking it up by its ids finds the new trade, the store holds
/// the same number of trades under the same keys, and the trades of other
/// queries are unchanged.
pub proof fn law_updated_trade_is_found(before: Storage, after: Storage, trade: Trade)
    requires
        before.wf(),
        after.wf(),
        stored_trade(before@, trade.query_id, trade.bid.provider_id@, trade.query.requester_id@) is Some,
        after@ == (StorageView {
            active_trades: before@.active_trades.insert(be32(trade.query_id), trade),
            ..before@
        }),
    ensures
        stored_trade(after@, trade.query_id, trade.bid.provider_id@, trade.query.requester_id@) == Some(trade),
        after@.active_trades.dom() == before@.active_trades.dom(),
        after@.active_trades.len() == before@.active_trades.len(),
        after@.active_trades.remove(be32(trade.query_id)) == before@.active_trades.remove(be32(trade.query_id)),
{
    let k = be32(trade.query_id);
    assert(after@.active_trades.dom() =~= before@.active_trades.dom());
    assert(after@.active_trades.remove(k) =~= before@.active_trades.remove(k));
}

/// What a read gives back of a write: once a bid naming a query has been
/// added as received for that query, looking up the bid of its provider for
/// the query finds exactly that bid, and the lookups of every other query
/// and provider give what they gave before.
pub proof fn law_bid_received_read_after_write(before: Storage, after: Storage, query_id: u32, bid: Bid)
    requires
        before.wf(),
        after.wf(),
        bid.query_id == query_id,
        after@ == (StorageView {
            bids_received: before@.bids_received.insert(bid_received_key(query_id, bid.provider_id@), bid),
            ..before@
        }),
    ensures
        stored_bid(after@, query_id, bid.provider_id@) == Some(bid),
        forall|other_query: u32, provider: Seq<u8>|
            (other_query != query_id || provider != bid.provider_id@) ==> #[trigger] stored_bid(
                after@,
                other_query,
                provider,
            ) == stored_bid(before@, other_query, provider),
{
    assert forall|other_query: u32, provider: Seq<u8>|
        (other_query != query_id || provider != bid.provider_id@) implies #[trigger] stored_bid(
            after@,
            other_query,
            provider,
        ) == stored_bid(before@, other_query, provider) by {
        let k1 = bid_received_key(other_query, provider);
        let k2 = bid_received_key(query_id, bid.provider_id@);
        if k1 == k2 {
            assert(k1.take(4) =~= be32(other_query));
            assert(k2.take(4) =~= be32(query_id));
            law_query_key_injective(other_query, query_id);
            assert(k1.skip(4) =~= provider);
            assert(k2.skip(4) =~= bid.provider_id@);
        }
    }
}

/// Picking peers to ask for a commit history keeps the request count
/// between 1 and 3 once a peer has been picked: it counts the requests made
/// in a row to the peer asked last.
pub proof fn law_request_count_stays_bounded(count: u32)
    requires
        count <= 3,
    ensures
        1 <= next_request_count(count) <= 3,
        next_request_count(count) <= count ==> next_request_count(count) == 1,
{
}

proof fn lemma_loading_after(peers: Seq<Seq<u8>>, n: nat)
    requires
        n >= 1,
    ensures
        loading_after(peers, 0, n).0 == peers.skip(
            if (n - 1) / 3 < peers.len() {
                (n - 1) / 3
            } else {
                peers.len() as int
            },
        ),
        loading_after(peers, 0, n).1 == (n - 1) % 3 + 1,
    decreases n,
{
    if n == 1 {
        assert(loading_after(peers, 0, 0) == (peers, 0u32));
        assert(peers.skip(0) =~= peers);
    } else {
        lemma_loading_after(peers, (n - 1) as nat);
        let m = n - 2;
        let k = m / 3;
        let prev = loading_after(peers, 0, (n - 1) as nat);
        assert(loading_after(peers, 0, n) == (next_peers(prev.0, prev.1), next_request_count(prev.1)));
        assert(prev.1 == m % 3 + 1);
        assert(0 <= m % 3 < 3) by (nonlinear_arith)
            requires
                m >= 0,
        ;
        if m % 3 < 2 {
            assert((m + 1) / 3 == k && (m + 1) % 3 == m % 3 + 1) by (nonlinear_arith)
                requires
                    m >= 0,
                    m % 3 < 2,
                    k == m / 3,
            ;
        } else {
            assert((m + 1) / 3 == k + 1 && (m + 1) % 3 == 0) by (nonlinear_arith)
                requires
                    m >= 0,
                    m % 3 == 2,
                    k == m / 3,
            ;
            let before = loading_after(peers, 0, (n - 1) as nat).0;
            if k < peers.len() {
                assert(before.drop_first() =~= peers.skip(k + 1));
            }
        }
    }
}

/// Picking peers for a commit history walks the providers in order and asks
/// each at most three times: starting with no request made, the `n`-th pick
/// asks the provider at position `(n - 1) / 3`, so only the picks `3j + 1`
/// to `3j + 3` ask provider `j`, and once every provider has been asked
/// three times no peer is left.
pub proof fn law_each_peer_asked_at_most_three_times(peers: Seq<Seq<u8>>, n: nat, m: nat)
    requires
        n >= 1,
        m >= 1,
        peers.no_duplicates(),
    ensures
        (n - 1) / 3 < peers.len() ==> picked_at(peers, n) == Some(peers[(n - 1) / 3]),
        (n - 1) / 3 >= peers.len() ==> picked_at(peers, n) is None,
        picked_at(peers, n) is Some && picked_at(peers, n) == picked_at(peers, m) ==> (n - 1) / 3 == (m - 1)
            / 3,
{
    lemma_loading_after(peers, n);
    lemma_loading_after(peers, m);
    assert((n - 1) / 3 >= 0 && (m - 1) / 3 >= 0) by (nonlinear_arith)
        requires
            n >= 1,
            m >= 1,
    ;
}

/// A trade that a provider starts with this node is picked up by the next
/// tick: after the StartCommit request is handled, the tick over the active
/// trades counts the trade's id as having a send running.
pub proof fn law_started_trade_is_sent_next_tick(
    before: Storage,
    after: Storage,
    sender: PeerId,
    trade: Trade,
    actions: Seq<IndexerAction>,
    running: Set<u32>,
)
    requires
        after.wf(),
        network_event_outcome(
            before,
            after,
            NetworkEvent::ExchangeRequest { sender_peer_id: sender, request: ExchangeRequest::StartCommit { trade } },
            actions,
        ),
    ensures
        selection(after.active_trades_table().values().map_values(|t: Trade| t@), running).1.contains(
            trade.query_id,
        ),
{
    let table = after.active_trades_table();
    let k = be32(trade.query_id);
    after.lemma_tables();
    table.lemma_key_position(k);
    let j = table.index_of(k);
    let views = table.values().map_values(|t: Trade| t@);
    assert(views[j] == table.values()[j]@);
    assert(spec_is_sending(views[j].status));
    law_tick_covers_every_sending_trade(views, running);
}

/// Commitments are progressive: the only status step that puts a trade into
/// a sending status is the one taken after verifying the other side's
/// commitment (the requester's first sending status comes with the
/// provider's start of the procedure, not from these steps).
pub proof fn law_send_follows_verification(s: TradeStatus)
    ensures
        spec_is_sending(waiting_status_of(s)) ==> waiting_status_of(s) == s,
        spec_is_sending(processing_status_of(s)) ==> processing_status_of(s) == s,
        spec_is_sending(send_status_of(s)) && send_status_of(s) != s ==> s
            == TradeStatus::ProcessingRT1Commit || s == TradeStatus::ProcessingPT1Commit,
{
}

/// Listing the bids received for a query after one more was added for it:
/// its provider is now among the bidders, listed with exactly that bid, and
/// every other bidder of every query keeps the bid it had, so each bidder is
/// listed with the last bid added from it.
pub proof fn law_listing_after_bid_received(before: Storage, after: Storage, query_id: u32, bid: Bid)
    requires
        before.wf(),
        after.wf(),
        after@ == (StorageView {
            bids_received: before@.bids_received.insert(bid_received_key(query_id, bid.provider_id@), bid),
            ..before@
        }),
    ensures
        bidders_for(after@, query_id) == bidders_for(before@, query_id).insert(bid.provider_id@),
        after@.bids_received[bid_received_key(query_id, bid.provider_id@)] == bid,
        forall|other_query: u32, provider: Seq<u8>|
            (other_query != query_id || provider != bid.provider_id@) ==> (#[trigger] after@.bids_received.contains_key(
                bid_received_key(other_query, provider),
            ) == before@.bids_received.contains_key(bid_received_key(other_query, provider))
                && after@.bids_received[bid_received_key(other_query, provider)]
                == before@.bids_received[bid_received_key(other_query, provider)]),
{
    assert forall|other_query: u32, provider: Seq<u8>|
        (other_query != query_id || provider != bid.provider_id@) implies #[trigger] bid_received_key(other_query, provider)
        != bid_received_key(query_id, bid.provider_id@) by {
        let k1 = bid_received_key(other_query, provider);
        let k2 = bid_received_key(query_id, bid.provider_id@);
        if k1 == k2 {
            assert(k1.take(4) =~= be32(other_query));
            assert(k2.take(4) =~= be32(query_id));
            law_query_key_injective(other_query, query_id);
            assert(k1.skip(4) =~= provider);
            assert(k2.skip(4) =~= bid.provider_id@);
        }
    }
    assert forall|p: Seq<u8>| #[trigger] bidders_for(after@, query_id).contains(p) == bidders_for(before@, query_id).insert(
        bid.provider_id@,
    ).contains(p) by {
        if p != bid.provider_id@ {
            assert(bid_received_key(query_id, p) != bid_received_key(query_id, bid.provider_id@));
        }
    }
    assert(bidders_for(after@, query_id) =~= bidders_for(before@, query_id).insert(bid.provider_id@));
}

proof fn lemma_counter_after_calls(stores: Seq<StorageView>, ids: Seq<usize>, n: int)
    requires
        stores.len() == ids.len() + 1,
        0 <= n < stores.len(),
        stores.len() <= usize::MAX,
        stores[0].client_id_counter == 1,
        forall|i: int|
            0 <= i < ids.len() ==> client_id_handed_out(#[trigger] stores[i], stores[i + 1], ids[i]),
    ensures
        stores[n].client_id_counter == n + 1,
    decreases n,
{
    if n > 0 {
        lemma_counter_after_calls(stores, ids, n - 1);
        assert(client_id_handed_out(stores[n - 1], stores[n], ids[n - 1]));
    }
}

/// Client ids count up from 1: on a fresh store, successive calls of
/// `next_client_id` (each relating the store before and after it and the id
/// it gives back as its contract states) hand out 1, 2, 3 and so on, so no
/// id is handed out twice, as long as the counter does not wrap around.
pub proof fn law_client_ids_count_up(stores: Seq<StorageView>, ids: Seq<usize>)
    requires
        stores.len() == ids.len() + 1,
        ids.len() < usize::MAX,
        stores[0].client_id_counter == 1,
        forall|i: int|
            0 <= i < ids.len() ==> client_id_handed_out(#[trigger] stores[i], stores[i + 1], ids[i]),
    ensures
        forall|i: int| 0 <= i < ids.len() ==> #[trigger] ids[i] == i + 1,
        forall|i: int, j: int| 0 <= i < j < ids.len() ==> #[trigger] ids[i] != #[trigger] ids[j],
{
    assert forall|i: int| 0 <= i < ids.len() implies #[trigger] ids[i] == i + 1 by {
        lemma_counter_after_calls(stores, ids, i);
        assert(client_id_handed_out(stores[i], stores[i + 1], ids[i]));
    }
}

/// Distinct requesters, or distinct query counts of one requester, give
/// distinct seeds for the query id: the seed encodes both without loss.
pub proof fn law_query_id_seed_injective(p1: Seq<u8>, c1: u64, p2: Seq<u8>, c2: u64)
    ensures
        query_id_seed(p1, c1) == query_id_seed(p2, c2) <==> (p1 == p2 && c1 == c2),
{
    let s1 = query_id_seed(p1, c1);
    let s2 = query_id_seed(p2, c2);
    if s1 == s2 {
        assert(le64_bytes(c1).len() == 8 && le64_bytes(c2).len() == 8);
        assert(s1.len() == p1.len() + 8 && s2.len() == p2.len() + 8);
        assert(p1.len() == p2.len());
        assert(s1.take(p1.len() as int) =~= p1);
        assert(s2.take(p2.len() as int) =~= p2);
        let e1 = le64_bytes(c1);
        let e2 = le64_bytes(c2);
        assert(s1.skip(p1.len() as int) =~= e1);
        assert(s2.skip(p2.len() as int) =~= e2);
        assert(e1[0] == e2[0] && e1[1] == e2[1] && e1[2] == e2[2] && e1[3] == e2[3]);
        assert(e1[4] == e2[4] && e1[5] == e2[5] && e1[6] == e2[6] && e1[7] == e2[7]);
        assert(c1 == c2) by (bit_vector)
            requires
                (c1 & 0xff) as u8 == (c2 & 0xff) as u8,
                ((c1 >> 8u64) & 0xff) as u8 == ((c2 >> 8u64) & 0xff) as u8,
                ((c1 >> 16u64) & 0xff) as u8 == ((c2 >> 16u64) & 0xff) as u8,
                ((c1 >> 24u64) & 0xff) as u8 == ((c2 >> 24u64) & 0xff) as u8,
                ((c1 >> 32u64) & 0xff) as u8 == ((c2 >> 32u64) & 0xff) as u8,
                ((c1 >> 40u64) & 0xff) as u8 == ((c2 >> 40u64) & 0xff) as u8,
                ((c1 >> 48u64) & 0xff) as u8 == ((c2 >> 48u64) & 0xff) as u8,
                ((c1 >> 56u64) & 0xff) as u8 == ((c2 >> 56u64) & 0xff) as u8,
        ;
    }
}

/// Whether a status is one in which this node waits for the other side's
/// commitment: the provider for the requester's first or second, the
/// requester for the provider's first.
pub open spec fn awaits_peer_commit(s: TradeStatus) -> bool {
    s == TradeStatus::WaitingRT1Commit || s == TradeStatus::WaitingPT1Commit || s
        == TradeStatus::WaitingRT2Commit
}

/// Receiving and verifying the other side's commitment always moves a
/// waiting trade on: the step on receiving takes every waiting status to a
/// processing one, and the step after verifying takes that on to this
/// node's turn. After the requester's first commitment the provider sends
/// its own; after the provider's, the requester sends its second; after the
/// requester's second, the provider fulfils the service.
pub proof fn law_received_commit_moves_trade_on(s: TradeStatus)
    requires
        awaits_peer_commit(s),
    ensures
        processing_status_of(s) != s,
        !awaits_peer_commit(processing_status_of(s)),
        !awaits_peer_commit(send_status_of(processing_status_of(s))),
        s == TradeStatus::WaitingRT1Commit ==> send_status_of(processing_status_of(s)) == TradeStatus::PSendT1Commit,
        s == TradeStatus::WaitingPT1Commit ==> send_status_of(processing_status_of(s)) == TradeStatus::RSendT2Commit,
        s == TradeStatus::WaitingRT2Commit ==> processing_status_of(s) == TradeStatus::ProcessingRT2Commit
            && send_status_of(processing_status_of(s)) == TradeStatus::PFulfillService,
{
}

/// The actions that take up a commitment received from `sender` for trade
/// `id`: verify it against the stored trade, then acknowledge it.
pub open spec fn takes_up_commit(before: Storage, sender: Seq<u8>, id: u32, commit: Commit, actions: Seq<IndexerAction>) -> bool {
    &&& actions.len() == 2
    &&& actions[0] matches IndexerAction::VerifyCommit { trade, commit: c } && c == commit && trade@
        == before@.active_trades[be32(id)]@
    &&& actions[1] matches IndexerAction::RespondExchange { peer_id, response } && peer_id@ == sender
        && response == ExchangeResponse::Ack
}

/// The actions that reject a commitment received from `sender`.
pub open spec fn rejects_commit(sender: Seq<u8>, actions: Seq<IndexerAction>) -> bool {
    &&& actions.len() == 1
    &&& actions[0] matches IndexerAction::RespondExchange { peer_id, response } && peer_id@ == sender
        && response == ExchangeResponse::Bad
}

/// Whether the store holds trade `id` in status `s` with `sender` on its
/// other side.
pub open spec fn trade_awaits_from(before: Storage, sender: Seq<u8>, id: u32, s: TradeStatus) -> bool {
    &&& before@.active_trades.contains_key(be32(id))
    &&& before@.active_trades[be32(id)].status == s
    &&& counter_party(before@.active_trades[be32(id)]@).0 == sender
}

/// A commitment a peer sends for a trade is taken up (verified, then
/// acknowledged) exactly when the stored trade waits for that kind of
/// commitment from that peer: the requester's first in WaitingRT1Commit,
/// the provider's first in WaitingPT1Commit, the requester's second in
/// WaitingRT2Commit. Otherwise it is rejected. Either way the store is left
/// alone.
pub proof fn law_commit_taken_up_when_awaited(
    before: Storage,
    after: Storage,
    sender: PeerId,
    request: ExchangeRequest,
    actions: Seq<IndexerAction>,
)
    requires
        network_event_outcome(before, after, NetworkEvent::ExchangeRequest { sender_peer_id: sender, request }, actions),
    ensures
        request matches ExchangeRequest::T1RequesterCommit { trade_id, commit } ==> after@ == before@ && (if trade_awaits_from(
            before,
            sender@,
            trade_id,
            TradeStatus::WaitingRT1Commit,
        ) {
            takes_up_commit(before, sender@, trade_id, commit, actions)
        } else {
            rejects_commit(sender@, actions)
        }),
        request matches ExchangeRequest::T1ProviderCommit { trade_id, commit } ==> after@ == before@ && (if trade_awaits_from(
            before,
            sender@,
            trade_id,
            TradeStatus::WaitingPT1Commit,
        ) {
            takes_up_commit(before, sender@, trade_id, commit, actions)
        } else {
            rejects_commit(sender@, actions)
        }),
        request matches ExchangeRequest::T2RequesterCommit { trade_id, commit } ==> after@ == before@ && (if trade_awaits_from(
            before,
            sender@,
            trade_id,
            TradeStatus::WaitingRT2Commit,
        ) {
            takes_up_commit(before, sender@, trade_id, commit, actions)
        } else {
            rejects_commit(sender@, actions)
        }),
{
}

/// A peer asking for the history of a wallet the store holds gets an
/// acknowledgement and then the whole stored history, in its order, as the
/// last batch of an update for that wallet; for a wallet without a history
/// it gets only a bad-request answer. The store is left alone.
pub proof fn law_history_request_answered_whole(
    before: Storage,
    after: Storage,
    sender: PeerId,
    wallet: crate::primitives::Address,
    actions: Seq<IndexerAction>,
)
    requires
        network_event_outcome(
            before,
            after,
            NetworkEvent::CommitRequest { sender_peer_id: sender, request: CommitRequest::WantHistory { wallet_address: wallet } },
            actions,
        ),
    ensures
        after@ == before@,
        before@.commit_histories.contains_key(wallet@) ==> {
            &&& actions.len() == 2
            &&& actions[0] matches IndexerAction::RespondCommit { peer_id, response } && peer_id@ == sender@
                && response == CommitResponse::Ack
            &&& actions[1] matches IndexerAction::SendCommitHistory { peer_id, request } && peer_id@ == sender@
                && (request matches CommitRequest::Update { wallet_address, commits, last_batch }
                && wallet_address == wallet && last_batch && commits@.len()
                == before@.commit_histories[wallet@].commits@.len() && forall|i: int|
                0 <= i < commits@.len() ==> #[trigger] commits@[i] == before@.commit_histories[wallet@].commits@[i])
        },
        !before@.commit_histories.contains_key(wallet@) ==> {
            &&& actions.len() == 1
            &&& actions[0] matches IndexerAction::RespondCommit { peer_id, response } && peer_id@ == sender@
                && response == CommitResponse::Bad
        },
{
}

/// A commit history loads only commitments of the loader's epoch signed by
/// the wallet's owner: every commitment kept from a batch is one of the
/// batch, is of that epoch and was signed by the owner, and every such
/// commitment of the batch is kept.
pub proof fn law_loaded_commits_of_epoch_and_owner(commits: Seq<Commit>, epoch: nat, owner: Seq<u8>)
    ensures
        forall|c: Commit| #[trigger] accepted_commits(commits, epoch, owner).contains(c) ==> commits.contains(c)
            && c.epoch == epoch && commit_signer(c) == Some(owner),
        forall|c: Commit|
            #[trigger] commits.contains(c) && c.epoch == epoch && commit_signer(c) == Some(owner)
                ==> accepted_commits(commits, epoch, owner).contains(c),
        accepted_commits(commits, epoch, owner).len() <= commits.len(),
    decreases commits.len(),
{
    if commits.len() > 0 {
        let init = commits.drop_last();
        let last = commits.last();
        law_loaded_commits_of_epoch_and_owner(init, epoch, owner);
        let rest = accepted_commits(init, epoch, owner);
        assert(commits =~= init.push(last));
        assert forall|c: Commit| #[trigger] accepted_commits(commits, epoch, owner).contains(c) implies commits.contains(c)
            && c.epoch == epoch && commit_signer(c) == Some(owner) by {
            let a = accepted_commits(commits, epoch, owner);
            let k = choose|k: int| 0 <= k < a.len() && a[k] == c;
            if k < rest.len() {
                assert(rest.contains(c));
                let j = choose|j: int| 0 <= j < init.len() && init[j] == c;
                assert(commits[j] == c);
            } else {
                assert(c == last);
                assert(commits[commits.len() - 1] == c);
            }
        }
        assert forall|c: Commit|
            #[trigger] commits.contains(c) && c.epoch == epoch && commit_signer(c) == Some(owner)
                implies accepted_commits(commits, epoch, owner).contains(c) by {
            let a = accepted_commits(commits, epoch, owner);
            let j = choose|j: int| 0 <= j < commits.len() && commits[j] == c;
            if j < init.len() {
                assert(init[j] == c);
                assert(init.contains(c));
                assert(rest.contains(c));
                let k = choose|k: int| 0 <= k < rest.len() && rest[k] == c;
                assert(a[k] == c);
            } else {
                assert(a[a.len() - 1] == c);
            }
        }
    }
}

/// Waiting for a reply times out once more than 30 seconds have passed,
/// and stays timed out however long the wait goes on; within 30 seconds it
/// has not timed out. Where the clock cannot tell, it has timed out.
pub proof fn law_timeout_after_thirty_seconds(s: u64, t: u64)
    ensures
        s > 30 ==> spec_timed_out(Some(s)),
        s <= 30 ==> !spec_timed_out(Some(s)),
        spec_timed_out(Some(s)) && s <= t ==> spec_timed_out(Some(t)),
        spec_timed_out(None),
{
}
} // verus!
