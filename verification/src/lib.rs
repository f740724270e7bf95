//! A single-value consensus register.
//!
//! A set of processes, each holding one [`alpha::Alpha`] register, agree on a
//! single value out of possibly many proposed, tolerating crash failures of a
//! minority of participants.  Each process plays both roles of the protocol:
//! the acceptor role ([`alpha::Alpha::read`] / [`alpha::Alpha::write`]),
//! answering requests broadcast by remote proposers, and the proposer role,
//! driving two-phase rounds (read stage, then write stage) closed by majority
//! quorums.  Safety rests on the strict total order of rounds and on any two
//! majorities of one peer set sharing an acceptor.
//!
//! The transport that carries broadcasts between processes is not part of this
//! crate's logic: the stage functions take the already-collected quorum of
//! responses and make the protocol decision over them.

pub mod alpha;
pub mod proposer;
pub mod utils;
