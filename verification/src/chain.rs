//! Block identities and the per-block metadata that the bootstrap pipeline
//! reads: header hashes, block dates, headers, blocks, and applied-block
//! references.

use vstd::prelude::*;

verus! {

/// A fixed-size content digest uniquely identifying a block header, modeled
/// here by its numeric value. Hashes are compared only for equality; no
/// numeric ordering of hashes is ever relied upon.
#[derive(Clone, Copy, PartialEq, Eq, Hash, Debug, Structural)]
pub struct HeaderHash {
    pub value: u64,
}

/// The chronological position of a block: an epoch and a slot within that
/// epoch. Dates are ordered lexicographically, epoch first.
#[derive(Clone, Copy, PartialEq, Eq, Debug, Structural)]
pub struct BlockDate {
    pub epoch: u32,
    pub slot: u32,
}

/// Strict lexicographic order on block dates: `a` is chronologically before
/// `b`.
pub open spec fn date_lt(a: BlockDate, b: BlockDate) -> bool {
    a.epoch < b.epoch || (a.epoch == b.epoch && a.slot < b.slot)
}

/// Executable strict comparison of two block dates.
pub fn date_strictly_before(a: BlockDate, b: BlockDate) -> (r: bool)
    ensures
        r == date_lt(a, b),
{
    a.epoch < b.epoch || (a.epoch == b.epoch && a.slot < b.slot)
}

/// The identifying metadata of a block: its own hash, its parent's hash, and
/// its chronological position. Immutable once constructed.
#[derive(Clone, Copy, PartialEq, Eq, Debug, Structural)]
pub struct Header {
    pub hash: HeaderHash,
    pub parent: HeaderHash,
    pub date: BlockDate,
}

/// A header plus an opaque body payload. A block's header hash is the block's
/// identity; the body is carried through to storage but never inspected here.
#[derive(Debug)]
pub struct Block {
    pub header: Header,
    pub body: Vec<u8>,
}

impl Block {
    /// The identifying metadata of this block.
    pub fn header(&self) -> (h: Header)
        ensures
            h == self.header,
    {
        self.header
    }
}

/// A node in the locally materialized chain: one applied block plus the
/// derived state used for fork choice. A `Ref` is created only by the chain
/// store's apply operation, once per unique header hash, and is never mutated
/// afterwards.
#[derive(Clone, Copy, PartialEq, Eq, Debug, Structural)]
pub struct Ref {
    /// The applied block's header hash: this `Ref`'s identity.
    pub hash: HeaderHash,
    /// The hash of the applied block's parent. The genesis `Ref` carries its
    /// own hash here.
    pub parent: HeaderHash,
    /// The applied block's chronological position.
    pub date: BlockDate,
    /// Distance from the genesis anchor: the cumulative chain length used by
    /// the canonical chain-selection rule.
    pub chain_length: usize,
}

} // verus!
