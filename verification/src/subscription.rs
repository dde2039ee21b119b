//! Subscriptions: requests to the network whose answers come back later,
//! each under the id handed out when it started.

use vstd::prelude::*;
use crate::network::{DseMessageRequest, DseMessageResponse};
use crate::primitives::PeerId;

verus! {

/// A request to the network.
#[derive(Debug, Clone)]
pub enum Request {
    DseRequest { peer_id: PeerId, message: DseMessageRequest },
    DhtPut,
    DhtGet,
}

/// The answer to a subscription.
#[derive(Debug, Clone)]
pub enum Response {
    DseRequest(DseMessageResponse),
    Error(String),
}

/// An answer with the id of the subscription it belongs to.
#[derive(Debug, Clone)]
pub struct ResponseWrapper {
    pub id: usize,
    pub response: Response,
}

/// Hands out subscription ids.
pub struct Subscription {
    global_id: usize,
}

impl View for Subscription {
    type V = usize;

    closed spec fn view(&self) -> usize {
        self.global_id
    }
}

/// The id after `id`, wrapping around at the largest `usize`.
pub open spec fn next_id(id: usize) -> usize {
    if id == usize::MAX {
        0
    } else {
        (id + 1) as usize
    }
}

impl Subscription {
    /// A fresh subscription counter; the first id is 1.
    pub fn new() -> (s: Subscription)
        ensures
            s@ == 1,
    {
        Subscription { global_id: 1 }
    }

    /// Starts a subscription for `request`: hands out its id, and for a
    /// direct message gives back the peer and message to send, whose answer
    /// is to come back under that id. Other requests send nothing.
    pub fn start(&mut self, request: Request) -> (r: (usize, Option<(PeerId, DseMessageRequest)>))
        ensures
            r.0 == old(self)@,
            final(self)@ == next_id(old(self)@),
            match request {
                Request::DseRequest { peer_id, message } => r.1 == Some((peer_id, message)),
                _ => r.1 is None,
            },
    {
        let id = self.global_id;
        self.global_id = self.global_id.wrapping_add(1);
        match request {
            Request::DseRequest { peer_id, message } => (id, Some((peer_id, message))),
            _ => (id, None),
        }
    }

    /// The answer to subscription `id` once its message has been answered
    /// by the peer (`Some`) or has failed (`None`).
    pub fn response_for(id: usize, answer: Option<DseMessageResponse>) -> (w: ResponseWrapper)
        ensures
            w.id == id,
            match answer {
                Some(a) => w.response == Response::DseRequest(a),
                None => w.response matches Response::Error(m) && m@ == "failed!"@,
            },
    {
        match answer {
            Some(a) => ResponseWrapper { id, response: Response::DseRequest(a) },
            None => ResponseWrapper { id, response: Response::Error(String::from_str("failed!")) },
        }
    }
}

} // verus!
