//! The commit procedure of a trade: verifying a commitment received from the
//! peer and sending this node's commitment, each moving the trade through
//! its statuses and recording it in the store.
//!
//! A provider's trade goes WaitingRT1Commit, ProcessingRT1Commit,
//! PSendT1Commit, WaitingRT2Commit, ProcessingRT2Commit, PFulfillService; a
//! requester's goes RSendT1Commit, WaitingPT1Commit, ProcessingPT1Commit,
//! RSendT2Commit, WaitingForService.

use vstd::prelude::*;
use crate::network::ExchangeRequest;
use crate::primitives::{Address, PeerId};
use crate::storage::{spec_is_sending, Commit, CommitType, Storage, StorageView, Trade, TradeStatus, TradeView, be32, counter_party, stored_trade};

verus! {

/// What a commit procedure reports back to the indexer.
#[derive(Debug, Clone, Copy, PartialEq, Eq, Structural)]
pub enum CommitProcedureEvent {
    SendSuccess { trade_id: u32 },
    SendFailed { trade_id: u32 },
}

/// The status a trade moves to once its commitment has been sent: from
/// SOMETHING Send to SOMETHING Waiting. Other statuses stay.
pub open spec fn waiting_status_of(s: TradeStatus) -> TradeStatus {
    match s {
        TradeStatus::PSendT1Commit => TradeStatus::WaitingRT2Commit,
        TradeStatus::RSendT1Commit => TradeStatus::WaitingPT1Commit,
        TradeStatus::RSendT2Commit => TradeStatus::WaitingForService,
        _ => s,
    }
}

/// The status a trade moves to when the peer's commitment arrives: from
/// SOMETHING Waiting to SOMETHING Processing. Other statuses stay.
pub open spec fn processing_status_of(s: TradeStatus) -> TradeStatus {
    match s {
        TradeStatus::WaitingRT1Commit => TradeStatus::ProcessingRT1Commit,
        TradeStatus::WaitingPT1Commit => TradeStatus::ProcessingPT1Commit,
        TradeStatus::WaitingRT2Commit => TradeStatus::ProcessingRT2Commit,
        _ => s,
    }
}

/// The status a trade moves to once the peer's commitment is verified:
/// from SOMETHING Processing to SOMETHING Send. Other statuses stay.
pub open spec fn send_status_of(s: TradeStatus) -> TradeStatus {
    match s {
        TradeStatus::ProcessingRT1Commit => TradeStatus::PSendT1Commit,
        TradeStatus::ProcessingPT1Commit => TradeStatus::RSendT2Commit,
        TradeStatus::ProcessingRT2Commit => TradeStatus::PFulfillService,
        _ => s,
    }
}

/// The request that carries this node's commitment in a given status, if
/// the status is one in which this node sends a commitment.
pub open spec fn send_request_of(t: TradeView, commit: Commit) -> Option<ExchangeRequest> {
    match t.status {
        TradeStatus::RSendT1Commit => Some(
            ExchangeRequest::T1RequesterCommit { trade_id: t.query_id, commit },
        ),
        TradeStatus::PSendT1Commit => Some(
            ExchangeRequest::T1ProviderCommit { trade_id: t.query_id, commit },
        ),
        TradeStatus::RSendT2Commit => Some(
            ExchangeRequest::T2RequesterCommit { trade_id: t.query_id, commit },
        ),
        _ => None,
    }
}

/// The type of commitment this node sends in a status: type 2 for the
/// requester's second commitment, type 1 for either side's first; none in a
/// status in which this node sends nothing.
pub open spec fn commit_type_to_send(s: TradeStatus) -> Option<CommitType> {
    match s {
        TradeStatus::RSendT1Commit => Some(CommitType::T1),
        TradeStatus::PSendT1Commit => Some(CommitType::T1),
        TradeStatus::RSendT2Commit => Some(CommitType::T2),
        _ => None,
    }
}

/// The commitment of type `t` that this node sends for now: every number
/// and address zero and no signature.
pub open spec fn is_placeholder_commit(c: Commit, t: CommitType) -> bool {
    &&& c.index == 0
    &&& c.epoch == 0
    &&& c.u == 0
    &&& c.c_type == t
    &&& c.i_address@ == Seq::new(20, |i: int| 0u8)
    &&& c.r_address@ == Seq::new(20, |i: int| 0u8)
    &&& c.signature is None
    &&& c.wallet_address@ == Seq::new(20, |i: int| 0u8)
}

/// Whether the store `after` is `before` with trade `t` written back: the
/// trade replaces the one under its query id where the store holds a trade
/// of the same query, provider and requester, and nothing changes where it
/// holds none.
pub open spec fn trade_written_back(before: Storage, after: Storage, t: TradeView) -> bool {
    if stored_trade(before@, t.query_id, t.bid.provider_id, t.query.requester_id) is Some {
        &&& after@.active_trades.contains_key(be32(t.query_id))
        &&& after@.active_trades[be32(t.query_id)]@ == t
        &&& after@.active_trades.remove(be32(t.query_id)) == before@.active_trades.remove(be32(t.query_id))
        &&& after@ == (StorageView { active_trades: after@.active_trades, ..before@ })
    } else {
        after@ == before@
    }
}

/// Writes a trade back to the store, keeping it only where it already exists.
pub(crate) fn write_back(storage: &mut Storage, trade: &Trade)
    requires
        old(storage).wf(),
    ensures
        final(storage).wf(),
        trade_written_back(*old(storage), *final(storage), trade@),
{
    let copy = trade.duplicate();
    let _ = storage.update_active_trade(copy);
    assert(storage@.active_trades.remove(be32(trade.query_id)) =~= old(storage)@.active_trades.remove(be32(trade.query_id)));
}

/// A commit procedure for one trade.
pub struct CommitProcedure {
    pub trade: Trade,
}

impl CommitProcedure {
    /// A commit procedure for `trade`.
    pub fn new(trade: Trade) -> (p: CommitProcedure)
        ensures
            p.trade == trade,
    {
        CommitProcedure { trade }
    }

    /// The commitment to send for the trade's status: one of the type that
    /// the status calls for, `None` in a status in which nothing is sent.
    pub fn find_commitment(&self) -> (c: Option<Commit>)
        ensures
            match commit_type_to_send(self.trade.status) {
                Some(t) => c is Some && is_placeholder_commit(c->0, t),
                None => c is None,
            },
    {
        let c_type = match self.trade.status {
            TradeStatus::RSendT1Commit => CommitType::T1,
            TradeStatus::PSendT1Commit => CommitType::T1,
            TradeStatus::RSendT2Commit => CommitType::T2,
            _ => {
                return None;
            },
        };
        Some(Commit {
            index: 0,
            epoch: 0,
            u: 0,
            c_type,
            i_address: Address::zero(),
            r_address: Address::zero(),
            signature: None,
            wallet_address: Address::zero(),
        })
    }

    /// The request that carries `commit` for the trade's status; `None`
    /// where the trade is in no sending status.
    pub fn create_send_request(&self, commit: Commit) -> (r: Option<ExchangeRequest>)
        ensures
            r == send_request_of(self.trade@, commit),
    {
        match self.trade.status {
            TradeStatus::RSendT1Commit => Some(
                ExchangeRequest::T1RequesterCommit { trade_id: self.trade.query_id, commit },
            ),
            TradeStatus::PSendT1Commit => Some(
                ExchangeRequest::T1ProviderCommit { trade_id: self.trade.query_id, commit },
            ),
            TradeStatus::RSendT2Commit => Some(
                ExchangeRequest::T2RequesterCommit { trade_id: self.trade.query_id, commit },
            ),
            _ => None,
        }
    }

    /// Moves the trade from SOMETHING Send to SOMETHING Waiting and writes
    /// it back to the store.
    pub fn update_trade_waiting_status(&mut self, storage: &mut Storage)
        requires
            old(storage).wf(),
        ensures
            final(self).trade@ == (TradeView { status: waiting_status_of(old(self).trade.status), ..old(self).trade@ }),
            final(storage).wf(),
            trade_written_back(*old(storage), *final(storage), final(self).trade@),
    {
        match self.trade.status {
            TradeStatus::PSendT1Commit => self.trade.update_status(TradeStatus::WaitingRT2Commit),
            TradeStatus::RSendT1Commit => self.trade.update_status(TradeStatus::WaitingPT1Commit),
            TradeStatus::RSendT2Commit => self.trade.update_status(TradeStatus::WaitingForService),
            _ => {},
        }
        write_back(storage, &self.trade);
    }

    /// Moves the trade from SOMETHING Waiting to SOMETHING Processing and
    /// writes it back to the store.
    pub fn update_trade_processing_status(&mut self, storage: &mut Storage)
        requires
            old(storage).wf(),
        ensures
            final(self).trade@ == (TradeView { status: processing_status_of(old(self).trade.status), ..old(self).trade@ }),
            final(storage).wf(),
            trade_written_back(*old(storage), *final(storage), final(self).trade@),
    {
        match self.trade.status {
            TradeStatus::WaitingRT1Commit => self.trade.update_status(TradeStatus::ProcessingRT1Commit),
            TradeStatus::WaitingPT1Commit => self.trade.update_status(TradeStatus::ProcessingPT1Commit),
            TradeStatus::WaitingRT2Commit => self.trade.update_status(TradeStatus::ProcessingRT2Commit),
            _ => {},
        }
        write_back(storage, &self.trade);
    }

    /// Moves the trade from SOMETHING Processing to SOMETHING Send and
    /// writes it back to the store.
    pub fn update_trade_send_status(&mut self, storage: &mut Storage)
        requires
            old(storage).wf(),
        ensures
            final(self).trade@ == (TradeView { status: send_status_of(old(self).trade.status), ..old(self).trade@ }),
            final(storage).wf(),
            trade_written_back(*old(storage), *final(storage), final(self).trade@),
    {
        match self.trade.status {
            TradeStatus::ProcessingRT1Commit => self.trade.update_status(TradeStatus::PSendT1Commit),
            TradeStatus::ProcessingPT1Commit => self.trade.update_status(TradeStatus::RSendT2Commit),
            TradeStatus::ProcessingRT2Commit => self.trade.update_status(TradeStatus::PFulfillService),
            _ => {},
        }
        write_back(storage, &self.trade);
    }

    /// What sending this node's commitment takes: the peer to send it to and
    /// the request that carries the commitment of the type the status calls
    /// for. The trade must be in a sending status.
    pub fn send_request(&self) -> (r: (PeerId, ExchangeRequest))
        requires
            spec_is_sending(self.trade.status),
        ensures
            r.0@ == counter_party(self.trade@).0,
            exists|c: Commit|
                is_placeholder_commit(c, commit_type_to_send(self.trade.status)->0) && send_request_of(
                    self.trade@,
                    c,
                ) == Some(r.1),
    {
        let commit = self.find_commitment().unwrap();
        let request = self.create_send_request(commit).unwrap();
        let (peer, _addr) = self.trade.counter_party_details();
        assert(is_placeholder_commit(commit, commit_type_to_send(self.trade.status)->0) && send_request_of(self.trade@, commit) == Some(request));
        (peer, request)
    }

    /// Records the outcome of sending this node's commitment: once the peer
    /// has received it the trade moves to SOMETHING Waiting and is written
    /// back to the store; either way the indexer is told the outcome.
    pub fn send_finished(&mut self, storage: &mut Storage, delivered: bool) -> (event: CommitProcedureEvent)
        requires
            old(storage).wf(),
        ensures
            final(storage).wf(),
            delivered ==> event == (CommitProcedureEvent::SendSuccess { trade_id: old(self).trade.query_id })
                && final(self).trade@ == (TradeView { status: waiting_status_of(old(self).trade.status), ..old(self).trade@ })
                && trade_written_back(*old(storage), *final(storage), final(self).trade@),
            !delivered ==> event == (CommitProcedureEvent::SendFailed { trade_id: old(self).trade.query_id })
                && final(self).trade@ == old(self).trade@ && final(storage)@ == old(storage)@,
    {
        if delivered {
            self.update_trade_waiting_status(storage);
            CommitProcedureEvent::SendSuccess { trade_id: self.trade.query_id }
        } else {
            CommitProcedureEvent::SendFailed { trade_id: self.trade.query_id }
        }
    }
}

} // verus!
