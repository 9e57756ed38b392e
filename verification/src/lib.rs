//! The decisions of a blockchain node, separated from its input and output.
//!
//! * [`block`] has the plain data of headers and blocks;
//! * [`blockchain`] keeps the states that blocks lead to and decides whether a
//!   header or a block may join them;
//! * [`network`] decides what a connected peer's events are answered with.
//!
//! Nothing here waits, reads or writes. An operation that needs something from
//! outside (the block storage, the ledger rules, the peer) hands out a value that
//! says what is needed, and is resumed with the answer.

pub mod block;
pub mod blockchain;

pub mod network;
