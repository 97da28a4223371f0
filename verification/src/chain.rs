//! Model of one chain as seen through the chain adapter.
//!
//! The adapter abstraction promises two things of a fetch: a block returned
//! for number `n` really is block `n`, and a fetch beyond the current tip
//! yields `None` rather than an error. `ChainModel` realises that contract
//! over an in-memory sequence of finalized blocks, so the producers' loops
//! can be verified against it; the process edge that speaks RPC hands the
//! same plain values in and out.

use vstd::prelude::*;
use crate::block::Block;
use crate::block::BlockV;
use crate::block::plain_text;
use crate::block::wf_block;

verus! {

/// One chain: its name and its ordered, append-only sequence of finalized
/// blocks. Block `n` sits at index `n`; the tip is the last block.
pub struct ChainModel {
    pub chain_name: String,
    pub blocks: Vec<Block>,
}

impl View for ChainModel {
    type V = Seq<BlockV>;

    open spec fn view(&self) -> Seq<BlockV> {
        self.blocks.deep_view()
    }
}

impl ChainModel {
    /// The chain has produced at least its genesis block, block numbers
    /// match positions, and every block is well formed and carries this
    /// chain's transactions.
    pub open spec fn wf(&self) -> bool {
        &&& 1 <= self@.len() <= u64::MAX
        &&& plain_text(self.chain_name@)
        &&& forall|i: int| 0 <= i < self@.len() ==> (#[trigger] self@[i]).number == i as u64
        &&& forall|i: int| 0 <= i < self@.len() ==> wf_block(#[trigger] self@[i])
    }

    /// Highest block number the chain has produced so far.
    pub open spec fn spec_tip(&self) -> u64 {
        (self@.len() - 1) as u64
    }

    pub fn chain_name(&self) -> (r: &String)
        ensures
            r@ == self.chain_name@,
    {
        &self.chain_name
    }

    /// Fetches a block by its number: the block itself when the chain has
    /// produced it, `None` — not an error — when `number` is beyond the tip.
    pub fn get_block_by_number(&self, number: u64) -> (r: Option<&Block>)
        requires
            self.wf(),
        ensures
            r is Some <==> number <= self.spec_tip(),
            match r {
                Option::Some(b) => {
                    &&& b@ == self@[number as int]
                    &&& b@.number == number
                },
                Option::None => number > self.spec_tip(),
            },
    {
        if number < self.blocks.len() as u64 {
            let b = &self.blocks[number as usize];
            assert(b@ =~= self@[number as int]);
            Some(b)
        } else {
            None
        }
    }

    /// Current tip as known to the backing node.
    pub fn get_latest_block_number(&self) -> (tip: u64)
        requires
            self.wf(),
        ensures
            tip == self.spec_tip(),
            tip as int == self@.len() - 1,
    {
        (self.blocks.len() - 1) as u64
    }
}

} // verus!
