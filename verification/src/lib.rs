//! Core logic of a distributed proof-of-work mining coordinator.
//!
//! A fleet of miner instances races to claim (challenge, address) tasks by
//! inserting a claim row whose primary key is `challenge_id:short_address`
//! into a shared document store, searches for a nonce whose memory-hard hash
//! satisfies a per-challenge difficulty mask, and persists what it found.
//! A submitter role bridges fresh challenges and found solutions to an
//! upstream HTTP API.
//!
//! This crate holds the verified core: the domain records and their
//! invariants, the claim/solve/persist state machine over a model of the
//! store, the per-worker search steps and their shared coordination state,
//! challenge selection, and the submitter's classification rules. The
//! unverified shell around it supplies the document-store driver, the HTTP
//! client, threads and clocks, and the memory-hard hash primitive itself.

pub mod codec;
pub mod machine;
pub mod rom;
pub mod search;
pub mod store;
pub mod submitter;
pub mod types;
pub mod utils;
