//! Loading the commit history of a wallet from the peers that provide it:
//! which peer to ask next, when to ask again, and which of the commitments
//! a peer sends are kept.

use vstd::prelude::*;
use crate::network::CommitRequest;
use crate::primitives::{Address, PeerId, Uint256};
use crate::storage::{Commit, Storage, StorageView, commit_signer};

verus! {

/// Where loading a commit history stands: the peers that provide it, and
/// how many times the first of them has been asked.
pub struct LoadingState {
    pub peers: Vec<PeerId>,
    pub request_count: u32,
    pub loading_in_progress: bool,
}

/// How many times in a row a peer is asked for a history before the next
/// one is tried.
pub const MAX_REQUESTS_PER_PEER: u32 = 3;

/// The request count after picking a peer: up by one while the peer asked
/// last has been asked fewer than three times, otherwise back to 1 for the
/// next peer.
pub open spec fn next_request_count(count: u32) -> u32 {
    if count < MAX_REQUESTS_PER_PEER {
        (count + 1) as u32
    } else {
        1
    }
}

/// The peers left after picking one: once the first has been asked three
/// times it is dropped (where there is one).
pub open spec fn next_peers(peers: Seq<Seq<u8>>, count: u32) -> Seq<Seq<u8>> {
    if count < MAX_REQUESTS_PER_PEER || peers.len() == 0 {
        peers
    } else {
        peers.drop_first()
    }
}

/// The peer ids of a list of peers.
pub open spec fn peer_views(peers: Seq<PeerId>) -> Seq<Seq<u8>> {
    peers.map_values(|p: PeerId| p@)
}

/// The peers and request count after `n` picks from `peers` and `count`.
pub open spec fn loading_after(peers: Seq<Seq<u8>>, count: u32, n: nat) -> (Seq<Seq<u8>>, u32)
    decreases n,
{
    if n == 0 {
        (peers, count)
    } else {
        let (p, c) = loading_after(peers, count, (n - 1) as nat);
        (next_peers(p, c), next_request_count(c))
    }
}

/// The peer the `n`-th pick asks, counting from 1, starting from `peers`
/// with no request made; `None` where no peer is left.
pub open spec fn picked_at(peers: Seq<Seq<u8>>, n: nat) -> Option<Seq<u8>> {
    let (p, c) = loading_after(peers, 0, n);
    if p.len() > 0 {
        Some(p[0])
    } else {
        None
    }
}

impl LoadingState {
    /// Picks the peer to ask for the history. Each peer is asked at most
    /// three times in a row: while the first peer has been asked fewer than
    /// three times the count goes up by one; then that peer is dropped and
    /// the count restarts at 1 for the next. The peer asked is the first one
    /// left, if any.
    pub fn query_from(&mut self) -> (r: Option<PeerId>)
        ensures
            final(self).request_count == next_request_count(old(self).request_count),
            peer_views(final(self).peers@) == next_peers(peer_views(old(self).peers@), old(self).request_count),
            final(self).loading_in_progress == old(self).loading_in_progress,
            match r {
                Some(p) => final(self).peers@.len() > 0 && p@ == final(self).peers@[0]@,
                None => final(self).peers@.len() == 0,
            },
    {
        if self.request_count < MAX_REQUESTS_PER_PEER {
            self.request_count += 1;
        } else {
            self.request_count = 1;
            if self.peers.len() > 0 {
                let ghost before = self.peers@;
                self.peers.remove(0);
                assert(peer_views(self.peers@) =~= peer_views(before).drop_first());
            }
        }
        if self.peers.len() > 0 {
            Some(self.peers[0].duplicate())
        } else {
            None
        }
    }
}

/// The commitments of a batch that are kept: those for the epoch, signed
/// by the wallet's owner.
pub open spec fn accepted_commits(commits: Seq<Commit>, epoch: nat, owner: Seq<u8>) -> Seq<Commit>
    decreases commits.len(),
{
    if commits.len() == 0 {
        Seq::empty()
    } else {
        let rest = accepted_commits(commits.drop_last(), epoch, owner);
        let c = commits.last();
        if c.epoch == epoch && commit_signer(c) == Some(owner) {
            rest.push(c)
        } else {
            rest
        }
    }
}

/// Whether no reply has come for long enough that another peer should be
/// asked: more than 30 seconds have passed, or the clock cannot tell.
pub open spec fn spec_timed_out(elapsed_secs: Option<u64>) -> bool {
    match elapsed_secs {
        Some(s) => s > 30,
        None => true,
    }
}

/// Loading the commit history of one wallet.
pub struct CommitHistoryLoader {
    pub wallet_address: Address,
    pub epoch: Uint256,
    pub owner_address: Address,
    pub loading_state: LoadingState,
}

impl CommitHistoryLoader {
    /// Starts loading the history of `wallet_address` for `epoch`, signed by
    /// `owner_address`, from the peers that provide it.
    pub fn new(wallet_address: Address, epoch: Uint256, owner_address: Address, providers: Vec<PeerId>) -> (l: CommitHistoryLoader)
        ensures
            l.wallet_address == wallet_address,
            l.epoch == epoch,
            l.owner_address == owner_address,
            l.loading_state.peers == providers,
            l.loading_state.request_count == 0,
            !l.loading_state.loading_in_progress,
    {
        CommitHistoryLoader {
            wallet_address,
            epoch,
            owner_address,
            loading_state: LoadingState { peers: providers, request_count: 0, loading_in_progress: false },
        }
    }

    /// Whether a commitment is for the loader's epoch.
    fn in_epoch(&self, c: &Commit) -> (r: bool)
        ensures
            r == (c.epoch as nat == self.epoch@),
    {
        let l = self.epoch.limbs;
        l[0] == c.epoch as u64 && l[1] == 0 && l[2] == 0 && l[3] == 0
    }

    /// Whether a commitment is kept, given the address recovered as its
    /// signer (`None` where there is none): it must be for the loader's
    /// epoch and signed by the wallet's owner.
    pub fn accepts(&self, c: &Commit, signer: &Option<Address>) -> (r: bool)
        ensures
            r == (c.epoch as nat == self.epoch@ && match signer {
                Some(a) => a@ == self.owner_address@,
                None => false,
            }),
    {
        let signed_by_owner = match signer {
            Some(a) => a.same_as(&self.owner_address),
            None => false,
        };
        self.in_epoch(c) && signed_by_owner
    }

    /// Handles a batch of commitments a peer sent for a wallet. A batch for
    /// another wallet than the one being loaded is ignored: nothing is
    /// stored and the result is `None`. Otherwise the commitments for the
    /// epoch signed by the owner are added to the wallet's history, and the
    /// result tells whether this was the last batch.
    pub fn on_update(&self, storage: &mut Storage, wallet_address: Address, commits: Vec<Commit>, last_batch: bool) -> (done: Option<bool>)
        requires
            old(storage).wf(),
        ensures
            final(storage).wf(),
            wallet_address@ != self.wallet_address@ ==> done is None && final(storage)@ == old(storage)@,
            wallet_address@ == self.wallet_address@ ==> done == Some(last_batch)
                && final(storage)@.commit_histories.contains_key(self.wallet_address@)
                && final(storage)@.commit_histories[self.wallet_address@].commits@ == (if old(storage)@.commit_histories.contains_key(self.wallet_address@) {
                old(storage)@.commit_histories[self.wallet_address@].commits@
            } else {
                Seq::<Commit>::empty()
            }) + accepted_commits(commits@, self.epoch@, self.owner_address@)
                && final(storage)@.commit_histories.remove(self.wallet_address@) == old(storage)@.commit_histories.remove(self.wallet_address@)
                && final(storage)@ == (StorageView { commit_histories: final(storage)@.commit_histories, ..old(storage)@ }),
    {
        if !wallet_address.same_as(&self.wallet_address) {
            return None;
        }
        let mut kept: Vec<Commit> = Vec::new();
        let mut i: usize = 0;
        while i < commits.len()
            invariant
                i <= commits@.len(),
                kept@ == accepted_commits(commits@.take(i as int), self.epoch@, self.owner_address@),
            decreases commits@.len() - i,
        {
            let c = commits[i];
            assert(commits@.take(i + 1).drop_last() =~= commits@.take(i as int));
            let signer = c.signing_address();
            if self.accepts(&c, &signer) {
                kept.push(c);
            }
            i += 1;
        }
        assert(commits@.take(commits@.len() as int) =~= commits@);
        storage.add_commits_to_commit_history(&self.wallet_address, kept);
        Some(last_batch)
    }

    /// Whether no reply has come for long enough: `elapsed_secs` is the time
    /// since the last reply, `None` where the clock cannot tell.
    pub fn timed_out(elapsed_secs: Option<u64>) -> (r: bool)
        ensures
            r == spec_timed_out(elapsed_secs),
    {
        match elapsed_secs {
            Some(s) => s > 30,
            None => true,
        }
    }

    /// On each tick: once no reply has come for long enough, picks the peer
    /// to ask and the request asking it for the wallet's history; `None`
    /// where there is nothing to send.
    pub fn on_tick(&mut self, elapsed_secs: Option<u64>) -> (r: Option<(PeerId, CommitRequest)>)
        ensures
            !spec_timed_out(elapsed_secs) ==> r is None && final(self).loading_state.request_count
                == old(self).loading_state.request_count && peer_views(final(self).loading_state.peers@)
                == peer_views(old(self).loading_state.peers@),
            spec_timed_out(elapsed_secs) ==> final(self).loading_state.request_count == next_request_count(
                old(self).loading_state.request_count,
            ) && peer_views(final(self).loading_state.peers@) == next_peers(
                peer_views(old(self).loading_state.peers@),
                old(self).loading_state.request_count,
            ) && match r {
                Some((peer, request)) => final(self).loading_state.peers@.len() > 0 && peer@
                    == final(self).loading_state.peers@[0]@ && (request matches CommitRequest::WantHistory {
                    wallet_address,
                } && wallet_address == old(self).wallet_address),
                None => final(self).loading_state.peers@.len() == 0,
            },
            final(self).wallet_address == old(self).wallet_address,
            final(self).epoch == old(self).epoch,
            final(self).owner_address == old(self).owner_address,
    {
        if Self::timed_out(elapsed_secs) {
            match self.loading_state.query_from() {
                Some(peer) => Some((peer, CommitRequest::WantHistory { wallet_address: self.wallet_address })),
                None => None,
            }
        } else {
            None
        }
    }
}

} // verus!
