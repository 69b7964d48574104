//! A bounty market for factoring: an author posts a number and escrows a prize;
//! another party claims it with two prime factors whose product is the number.
//! The prize is then split between the solver and the market's treasury.
//!
//! The market's state and its transitions are verified. The currency ledger is
//! outside: each successful call returns the ledger operations to perform and
//! the event to emit, and takes back what the ledger reported.

pub mod laws;
pub mod model;
pub mod pallet;
pub mod prime;
pub mod types;
