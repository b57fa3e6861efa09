//! Finds the contracts among the holders of a token.
//!
//! The holders that own enough are looked up at a JSON-RPC node, one request per address.
//! Requests are paced by a delay accumulator, failed requests are retried on alternating
//! endpoints up to a ceiling, and the addresses that turn out to be contracts are gathered
//! in a set. This library holds the decisions; the program around it does the waiting and
//! the talking to the network, the disk and the terminal.

pub mod candidates;
pub mod contracts;
pub mod dispatch;
pub mod jsonrpc;
pub mod settings;
pub mod setup;
pub mod timers;
