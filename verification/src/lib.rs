//! Decentralised search engine node: the marketplace logic of a node that
//! publishes search queries, places and accepts bids, and runs the commit
//! procedure of a trade between a requester and a provider.

mod ethers_calls;
pub mod primitives;
pub mod table;
pub mod storage;
pub mod laws;
pub mod network;
pub mod commit_procedure;
pub mod indexer;
pub mod ch_request;
pub mod server;
pub mod handler;
pub mod subscription;
