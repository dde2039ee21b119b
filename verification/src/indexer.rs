//! The indexer: what the node does with each event from the network, and
//! which trades it starts sending commitments for on each tick.

use vstd::prelude::*;
use crate::commit_procedure::CommitProcedureEvent;
use crate::network::{CommitRequest, CommitResponse, ExchangeRequest, ExchangeResponse, GossipsubMessage, NetworkEvent};
use crate::primitives::{Address, PeerId};
use crate::storage::{Commit, Storage, StorageView, Trade, TradeStatus, TradeView, be32, counter_party, spec_is_sending};

verus! {

/// What the indexer asks the node to do on the network after an event.
#[derive(Debug)]
pub enum IndexerAction {
    /// Answer an exchange request of a peer.
    RespondExchange { peer_id: PeerId, response: ExchangeResponse },
    /// Answer a commit-history request of a peer.
    RespondCommit { peer_id: PeerId, response: CommitResponse },
    /// Run the commit procedure's verification of a peer's commitment for a
    /// trade.
    VerifyCommit { trade: Trade, commit: Commit },
    /// Send a peer the commit history of a wallet, as a commit-history
    /// request.
    SendCommitHistory { peer_id: PeerId, request: CommitRequest },
}

/// Whether a commitment received from `sender` for trade `id` is taken up:
/// the active trade stored for that id waits for exactly this commitment,
/// and `sender` is the other side of it.
pub open spec fn commit_accepted(s: Storage, sender: Seq<u8>, id: u32, expected: TradeStatus) -> bool {
    &&& s@.active_trades.contains_key(be32(id))
    &&& s@.active_trades[be32(id)].status == expected
    &&& counter_party(s@.active_trades[be32(id)]@).0 == sender
}

/// The actions answering a commitment received from `sender` for trade `id`
/// while the indexer expects `expected`: where it is taken up, verify it
/// against the trade and acknowledge it; otherwise reject it.
pub open spec fn commit_outcome(
    s: Storage,
    sender: Seq<u8>,
    id: u32,
    commit: Commit,
    expected: TradeStatus,
    actions: Seq<IndexerAction>,
) -> bool {
    if commit_accepted(s, sender, id, expected) {
        &&& actions.len() == 2
        &&& actions[0] matches IndexerAction::VerifyCommit { trade, commit: c } && c == commit
            && trade@ == s@.active_trades[be32(id)]@
        &&& actions[1] matches IndexerAction::RespondExchange { peer_id, response } && peer_id@
            == sender && response == ExchangeResponse::Ack
    } else {
        &&& actions.len() == 1
        &&& actions[0] matches IndexerAction::RespondExchange { peer_id, response } && peer_id@
            == sender && response == ExchangeResponse::Bad
    }
}

/// Picks, in order, the trades to start sending for: those in a sending
/// status whose id has no send running, each id once; with the set of ids
/// that have a send running afterwards.
pub open spec fn selection(trades: Seq<TradeView>, running: Set<u32>) -> (Seq<TradeView>, Set<u32>)
    decreases trades.len(),
{
    if trades.len() == 0 {
        (Seq::empty(), running)
    } else {
        let (picked, now_running) = selection(trades.drop_last(), running);
        let t = trades.last();
        if spec_is_sending(t.status) && !now_running.contains(t.query_id) {
            (picked.push(t), now_running.insert(t.query_id))
        } else {
            (picked, now_running)
        }
    }
}

/// The trade a commit procedure's event is about.
pub open spec fn event_trade_id(event: CommitProcedureEvent) -> u32 {
    match event {
        CommitProcedureEvent::SendSuccess { trade_id } => trade_id,
        CommitProcedureEvent::SendFailed { trade_id } => trade_id,
    }
}

/// What handling a network event does to the store and asks of the node.
pub open spec fn network_event_outcome(
    before: Storage,
    after: Storage,
    event: NetworkEvent,
    actions: Seq<IndexerAction>,
) -> bool {
    match event {
        NetworkEvent::GossipsubMessageRecv(message) => {
            &&& actions.len() == 0
            &&& match message {
                // a query published by a peer is stored as received
                GossipsubMessage::NewQuery(q) => after@ == (StorageView {
                    queries_received: before@.queries_received.insert(be32(q.id), q),
                    ..before@
                }),
                // a commitment drawn from a wallet of interest joins its history
                GossipsubMessage::Commit { commit, trade_id } => if before@.wallets_of_interest.contains_key(
                    commit.wallet_address@,
                ) {
                    &&& after@.commit_histories.contains_key(commit.wallet_address@)
                    &&& after@.commit_histories[commit.wallet_address@].commits@ == (if before@.commit_histories.contains_key(commit.wallet_address@) {
                        before@.commit_histories[commit.wallet_address@].commits@
                    } else {
                        Seq::<Commit>::empty()
                    }).push(commit)
                    &&& after@.commit_histories.remove(commit.wallet_address@) == before@.commit_histories.remove(commit.wallet_address@)
                    &&& after@ == (StorageView { commit_histories: after@.commit_histories, ..before@ })
                } else {
                    after@ == before@
                },
                GossipsubMessage::InvalidatingSignature { .. } => after@ == before@,
            }
        },
        NetworkEvent::ExchangeRequest { sender_peer_id, request } => match request {
            // the trade a provider starts is stored with this node to send its
            // first commitment, and acknowledged
            ExchangeRequest::StartCommit { trade } => {
                &&& actions.len() == 1
                &&& actions[0] matches IndexerAction::RespondExchange { peer_id, response } && peer_id@
                    == sender_peer_id@ && response == ExchangeResponse::Ack
                &&& after@.active_trades.contains_key(be32(trade.query_id))
                &&& after@.active_trades[be32(trade.query_id)]@ == (TradeView { status: TradeStatus::RSendT1Commit, ..trade@ })
                &&& after@.active_trades.remove(be32(trade.query_id)) == before@.active_trades.remove(be32(trade.query_id))
                &&& after@ == (StorageView { active_trades: after@.active_trades, ..before@ })
            },
            ExchangeRequest::T1RequesterCommit { trade_id, commit } => after@ == before@
                && commit_outcome(before, sender_peer_id@, trade_id, commit, TradeStatus::WaitingRT1Commit, actions),
            ExchangeRequest::T1ProviderCommit { trade_id, commit } => after@ == before@
                && commit_outcome(before, sender_peer_id@, trade_id, commit, TradeStatus::WaitingPT1Commit, actions),
            ExchangeRequest::T2RequesterCommit { trade_id, commit } => after@ == before@
                && commit_outcome(before, sender_peer_id@, trade_id, commit, TradeStatus::WaitingRT2Commit, actions),
            _ => after@ == before@ && actions.len() == 0,
        },
        NetworkEvent::CommitRequest { sender_peer_id, request } => match request {
            // a stored history is acknowledged and then sent whole, as the
            // last batch; none is a bad request
            CommitRequest::WantHistory { wallet_address } => {
                &&& after@ == before@
                &&& if before@.commit_histories.contains_key(wallet_address@) {
                    &&& actions.len() == 2
                    &&& actions[0] matches IndexerAction::RespondCommit { peer_id, response } && peer_id@
                        == sender_peer_id@ && response == CommitResponse::Ack
                    &&& actions[1] matches IndexerAction::SendCommitHistory { peer_id, request }
                        && peer_id@ == sender_peer_id@ && (request matches CommitRequest::Update {
                        wallet_address: w,
                        commits,
                        last_batch,
                    } && w == wallet_address && commits@ == before@.commit_histories[wallet_address@].commits@
                        && last_batch)
                } else {
                    &&& actions.len() == 1
                    &&& actions[0] matches IndexerAction::RespondCommit { peer_id, response } && peer_id@
                        == sender_peer_id@ && response == CommitResponse::Bad
                }
            },
            CommitRequest::Update { .. } => after@ == before@ && actions.len() == 0,
        },
    }
}

/// The indexer's own state: the query ids of the trades whose commitment is
/// being sent.
pub struct Indexer {
    active_send_commit_proc: Vec<u32>,
}

impl View for Indexer {
    type V = Set<u32>;

    closed spec fn view(&self) -> Set<u32> {
        self.active_send_commit_proc@.to_set()
    }
}

impl Indexer {
    /// Well-formedness: no id is recorded twice.
    pub closed spec fn wf(&self) -> bool {
        self.active_send_commit_proc@.no_duplicates()
    }

    /// An indexer with no send running.
    pub fn new() -> (ix: Indexer)
        ensures
            ix.wf(),
            ix@ == Set::<u32>::empty(),
    {
        let ix = Indexer { active_send_commit_proc: Vec::new() };
        assert(ix.active_send_commit_proc@.to_set() =~= Set::<u32>::empty());
        ix
    }

    /// Whether a send is running for trade `id`.
    pub fn is_sending(&self, id: u32) -> (r: bool)
        ensures
            r == self@.contains(id),
    {
        let mut i: usize = 0;
        while i < self.active_send_commit_proc.len()
            invariant
                i <= self.active_send_commit_proc@.len(),
                forall|j: int| 0 <= j < i ==> self.active_send_commit_proc@[j] != id,
            decreases self.active_send_commit_proc@.len() - i,
        {
            if self.active_send_commit_proc[i] == id {
                assert(self.active_send_commit_proc@.contains(id));
                return true;
            }
            i += 1;
        }
        false
    }

    fn start_sending(&mut self, id: u32)
        requires
            old(self).wf(),
            !old(self)@.contains(id),
        ensures
            final(self).wf(),
            final(self)@ == old(self)@.insert(id),
    {
        self.active_send_commit_proc.push(id);
        proof {
            let ids = old(self).active_send_commit_proc@;
            let now = self.active_send_commit_proc@;
            assert(now =~= ids.push(id));
            assert forall|y: u32| #[trigger] now.contains(y) <==> (ids.contains(y) || y == id) by {
                if now.contains(y) {
                    let k = choose|k: int| 0 <= k < now.len() && now[k] == y;
                    if k < ids.len() {
                        assert(ids[k] == y);
                        assert(ids.contains(y));
                    }
                }
                if ids.contains(y) {
                    let k = choose|k: int| 0 <= k < ids.len() && ids[k] == y;
                    assert(now[k] == y);
                }
                if y == id {
                    assert(now[ids.len() as int] == y);
                }
            }
            assert(now.to_set() =~= ids.to_set().insert(id));
            assert forall|a: int, b: int| 0 <= a < now.len() && 0 <= b < now.len() && a != b implies now[a] != now[b] by {
                if a < ids.len() && b < ids.len() {
                    assert(now[a] == ids[a] && now[b] == ids[b]);
                } else if a < ids.len() {
                    assert(now[a] == ids[a]);
                    assert(ids.contains(now[a]));
                } else if b < ids.len() {
                    assert(now[b] == ids[b]);
                    assert(ids.contains(now[b]));
                }
            }
        }
    }

    /// On each tick: of the active trades, in order, starts a send for
    /// each one in a sending status whose id has no send running, and
    /// records its id; gives back the trades to send for.
    pub fn select_trades_to_send(&mut self, trades: Vec<Trade>) -> (picked: Vec<Trade>)
        requires
            old(self).wf(),
        ensures
            final(self).wf(),
            picked@.map_values(|t: Trade| t@) == selection(trades@.map_values(|t: Trade| t@), old(self)@).0,
            final(self)@ == selection(trades@.map_values(|t: Trade| t@), old(self)@).1,
    {
        let ghost views = trades@.map_values(|t: Trade| t@);
        let mut picked: Vec<Trade> = Vec::new();
        let mut i: usize = 0;
        while i < trades.len()
            invariant
                i <= trades@.len(),
                views == trades@.map_values(|t: Trade| t@),
                self.wf(),
                picked@.map_values(|t: Trade| t@) == selection(views.take(i as int), old(self)@).0,
                self@ == selection(views.take(i as int), old(self)@).1,
            decreases trades@.len() - i,
        {
            let t = &trades[i];
            assert(views.take(i + 1).drop_last() =~= views.take(i as int));
            assert(views.take(i + 1).last() == t@);
            if t.is_sending_status() && !self.is_sending(t.query_id) {
                self.start_sending(t.query_id);
                let ghost before = picked@;
                picked.push(t.duplicate());
                assert(picked@.map_values(|t: Trade| t@) =~= before.map_values(|t: Trade| t@).push(t@));
            }
            i += 1;
        }
        assert(views.take(trades@.len() as int) =~= views);
        picked
    }

    /// A commit procedure's send has ended, successfully or not: its trade
    /// no longer counts as having a send running.
    pub fn on_commit_procedure_event(&mut self, event: CommitProcedureEvent)
        requires
            old(self).wf(),
        ensures
            final(self).wf(),
            final(self)@ == old(self)@.remove(event_trade_id(event)),
    {
        let id = match event {
            CommitProcedureEvent::SendSuccess { trade_id } => trade_id,
            CommitProcedureEvent::SendFailed { trade_id } => trade_id,
        };
        assert(id == event_trade_id(event));
        let mut i: usize = 0;
        while i < self.active_send_commit_proc.len()
            invariant
                i <= self.active_send_commit_proc@.len(),
                *self == *old(self),
                self.wf(),
                id == event_trade_id(event),
                forall|j: int| 0 <= j < i ==> self.active_send_commit_proc@[j] != id,
            decreases self.active_send_commit_proc@.len() - i,
        {
            if self.active_send_commit_proc[i] == id {
                let ghost ids = self.active_send_commit_proc@;
                self.active_send_commit_proc.remove(i);
                proof {
                    let now = self.active_send_commit_proc@;
                    assert(now =~= ids.remove(i as int));
                    assert forall|a: int, b: int| 0 <= a < now.len() && 0 <= b < now.len() && a != b implies now[a] != now[b] by {
                        let a0 = if a < i { a } else { a + 1 };
                        let b0 = if b < i { b } else { b + 1 };
                        assert(now[a] == ids[a0] && now[b] == ids[b0]);
                        assert(ids[a0] != ids[b0]);
                    }
                    assert forall|y: u32| #[trigger] now.contains(y) <==> (ids.contains(y) && y != id) by {
                        if now.contains(y) {
                            let k = choose|k: int| 0 <= k < now.len() && now[k] == y;
                            let k0 = if k < i { k } else { k + 1 };
                            assert(ids[k0] == y);
                            assert(ids.contains(y));
                            assert(ids[k0] != ids[i as int]);
                        }
                        if ids.contains(y) && y != id {
                            let k = choose|k: int| 0 <= k < ids.len() && ids[k] == y;
                            assert(k != i);
                            if k < i {
                                assert(now[k] == y);
                            } else {
                                assert(now[k - 1] == y);
                            }
                        }
                    }
                    assert(now.to_set() =~= ids.to_set().remove(id));
                    assert(ids == old(self).active_send_commit_proc@);
                    assert(self@ == old(self)@.remove(id));
                }
                return;
            }
            i += 1;
        }
        assert(self.active_send_commit_proc@.to_set() =~= self.active_send_commit_proc@.to_set().remove(id));
    }

    /// Answers a commitment received from `sender` for trade `trade_id`,
    /// which is taken up only where the active trade stored for that id is
    /// in status `expected` and has `sender` on its other side.
    fn handle_commit(
        &self,
        storage: &Storage,
        sender: PeerId,
        trade_id: u32,
        commit: Commit,
        expected: TradeStatus,
    ) -> (actions: Vec<IndexerAction>)
        requires
            storage.wf(),
        ensures
            commit_outcome(*storage, sender@, trade_id, commit, expected, actions@),
    {
        let mut actions: Vec<IndexerAction> = Vec::new();
        match storage.find_active_trade_by_id(&trade_id) {
            Ok(trade) => {
                let (party, _addr) = trade.counter_party_details();
                if trade.status == expected && party.same_as(&sender) {
                    actions.push(IndexerAction::VerifyCommit { trade, commit });
                    actions.push(IndexerAction::RespondExchange { peer_id: sender, response: ExchangeResponse::Ack });
                } else {
                    actions.push(IndexerAction::RespondExchange { peer_id: sender, response: ExchangeResponse::Bad });
                }
            },
            Err(_) => {
                actions.push(IndexerAction::RespondExchange { peer_id: sender, response: ExchangeResponse::Bad });
            },
        }
        actions
    }

    /// Handles one event from the network: stores what a peer published,
    /// takes up or rejects the commitments and trades peers send, and
    /// answers requests for commit histories. Gives back what to send and
    /// which verifications to run, in order.
    ///
    /// Two kinds of message are dropped: an invalidating signature gossiped
    /// for a trade changes nothing, since the store keeps no commitment
    /// invalidation, and the network layer takes no IWant request, since the
    /// store keeps no wants either.
    pub fn handle_network_event(&self, storage: &mut Storage, event: NetworkEvent) -> (actions: Vec<IndexerAction>)
        requires
            old(storage).wf(),
        ensures
            final(storage).wf(),
            network_event_outcome(*old(storage), *final(storage), event, actions@),
    {
        match event {
            NetworkEvent::GossipsubMessageRecv(message) => {
                match message {
                    GossipsubMessage::NewQuery(query) => {
                        storage.add_query_received(query);
                    },
                    GossipsubMessage::Commit { commit, trade_id } => {
                        if storage.is_wallet_of_interest(&commit.wallet_address) {
                            let mut commits: Vec<Commit> = Vec::new();
                            commits.push(commit);
                            let ghost prior = if old(storage)@.commit_histories.contains_key(commit.wallet_address@) {
                                old(storage)@.commit_histories[commit.wallet_address@].commits@
                            } else {
                                Seq::<Commit>::empty()
                            };
                            assert(prior + commits@ =~= prior.push(commit));
                            storage.add_commits_to_commit_history(&commit.wallet_address, commits);
                        }
                    },
                    GossipsubMessage::InvalidatingSignature { .. } => {},
                }
                Vec::new()
            },
            NetworkEvent::ExchangeRequest { sender_peer_id, request } => {
                match request {
                    ExchangeRequest::StartCommit { trade } => {
                        let mut trade = trade;
                        trade.update_status(TradeStatus::RSendT1Commit);
                        storage.add_active_trade(&trade);
                        let mut actions: Vec<IndexerAction> = Vec::new();
                        actions.push(IndexerAction::RespondExchange { peer_id: sender_peer_id, response: ExchangeResponse::Ack });
                        actions
                    },
                    ExchangeRequest::T1RequesterCommit { trade_id, commit } => {
                        self.handle_commit(storage, sender_peer_id, trade_id, commit, TradeStatus::WaitingRT1Commit)
                    },
                    ExchangeRequest::T1ProviderCommit { trade_id, commit } => {
                        self.handle_commit(storage, sender_peer_id, trade_id, commit, TradeStatus::WaitingPT1Commit)
                    },
                    ExchangeRequest::T2RequesterCommit { trade_id, commit } => {
                        self.handle_commit(storage, sender_peer_id, trade_id, commit, TradeStatus::WaitingRT2Commit)
                    },
                    _ => Vec::new(),
                }
            },
            NetworkEvent::CommitRequest { sender_peer_id, request } => {
                match request {
                    CommitRequest::WantHistory { wallet_address } => {
                        let mut actions: Vec<IndexerAction> = Vec::new();
                        match storage.find_commit_history(&wallet_address) {
                            Some(history) => {
                                let peer_id = sender_peer_id.duplicate();
                                actions.push(IndexerAction::RespondCommit { peer_id: sender_peer_id, response: CommitResponse::Ack });
                                let request = CommitRequest::Update { wallet_address, commits: history.commits, last_batch: true };
                                actions.push(IndexerAction::SendCommitHistory { peer_id, request });
                            },
                            None => {
                                actions.push(IndexerAction::RespondCommit { peer_id: sender_peer_id, response: CommitResponse::Bad });
                            },
                        }
                        actions
                    },
                    CommitRequest::Update { .. } => Vec::new(),
                }
            },
        }
    }
}

} // verus!
