//! Bootstrap synchronization core for a blockchain node: streaming blocks from
//! a peer, validating each against the locally stored chain, applying them in
//! order, and adopting a new canonical tip when the pulled branch is better.

pub mod bootstrap;
pub mod chain;
pub mod store;
pub mod tip;
