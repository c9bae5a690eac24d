//! A binary prediction market with commit-reveal betting and pari-mutuel
//! settlement, written as verified state transitions over plain records.
pub mod book;
pub mod commitment;
pub mod ledger;
pub mod program;
pub mod settlement;
pub mod state;
