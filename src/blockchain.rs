//! The chain: an append-only sequence of blocks, each linked to its
//! predecessor, and the predicate that checks the whole sequence.
use crate::block::{links_to, Block, BlockError};
use vstd::prelude::*;

verus! {

/// The difficulty a chain mines its blocks to: no proof of work.
pub const CHAIN_DIFFICULTY: u32 = 0;

/// An ordered, never empty sequence of blocks; the first is the genesis block.
#[derive(Clone, Debug)]
pub struct BlockChain {
    pub chain: Vec<Block>,
}

/// Block `i` passes both checks: its hash matches its fields, and it links to
/// block `i - 1`.
pub open spec fn block_passes(blocks: Seq<Block>, i: int) -> bool {
    blocks[i].self_consistent() && links_to(blocks[i], blocks[i - 1])
}

/// What `is_valid` decides: every block after the genesis block passes.
pub open spec fn chain_valid(blocks: Seq<Block>) -> bool {
    forall|i: int| 1 <= i < blocks.len() ==> #[trigger] block_passes(blocks, i)
}

/// A chain as its own construction leaves it: a genesis block without a
/// predecessor, every hash matching its block's fields, every block linked.
pub open spec fn intact(blocks: Seq<Block>) -> bool {
    &&& blocks.len() > 0
    &&& blocks[0].previous_block_hash is None
    &&& blocks[0].self_consistent()
    &&& chain_valid(blocks)
}

/// `blocks` is what creating a chain from `data` gives.
pub open spec fn started(blocks: Seq<Block>, data: String) -> bool {
    &&& blocks.len() == 1
    &&& blocks[0].data == data
    &&& blocks[0].previous_block_hash is None
    &&& blocks[0].self_consistent()
}

/// `after` is `before` with one block for `data` appended, linked to the old tail.
pub open spec fn extends(before: Seq<Block>, after: Seq<Block>, data: String) -> bool {
    &&& before.len() > 0
    &&& after.len() == before.len() + 1
    &&& after.drop_last() == before
    &&& after.last().data == data
    &&& after.last().self_consistent()
    &&& links_to(after.last(), before.last())
}

impl BlockChain {
    /// Creates a chain holding one genesis block for `data`.
    pub fn new(data: String) -> (r: Result<BlockChain, BlockError>)
        ensures
            r matches Ok(c) ==> started(c.chain@, data) && intact(c.chain@),
            r is Err ==> r == Err::<BlockChain, BlockError>(BlockError::ClockOutOfRange),
    {
        match Self::create_genesis_block(data) {
            Ok(genesis) => {
                let chain = vec![genesis];
                proof {
                    lemma_started_is_intact(chain@, data);
                }
                Ok(BlockChain { chain })
            },
            Err(e) => Err(e),
        }
    }

    /// A copy of the last block.
    pub fn get_latest_block(&self) -> (r: Block)
        requires
            self.chain@.len() > 0,
        ensures
            r == self.chain@.last(),
    {
        self.chain[self.chain.len() - 1].duplicate()
    }

    /// Appends a block for `data` whose previous hash is the current tail's hash.
    pub fn add_block(&mut self, data: String) -> (r: Result<(), BlockError>)
        requires
            old(self).chain@.len() > 0,
        ensures
            r is Ok ==> extends(old(self).chain@, final(self).chain@, data),
            r is Ok && intact(old(self).chain@) ==> intact(final(self).chain@),
            r is Err ==> r == Err::<(), BlockError>(BlockError::ClockOutOfRange) && final(self).chain@
                == old(self).chain@,
    {
        let latest = self.get_latest_block();
        match Block::new(data, Some(latest.get_hash()), CHAIN_DIFFICULTY) {
            Ok(block) => {
                let ghost before = self.chain@;
                self.chain.push(block);
                proof {
                    assert(self.chain@.drop_last() =~= before);
                    if intact(before) {
                        lemma_extension_keeps_intact(before, self.chain@, data);
                    }
                }
                Ok(())
            },
            Err(e) => Err(e),
        }
    }

    /// Whether every block after the genesis block has a hash matching its
    /// recorded fields and records its predecessor's hash.
    pub fn is_valid(&self) -> (r: bool)
        ensures
            r == chain_valid(self.chain@),
    {
        let mut idx: usize = 1;
        while idx < self.chain.len()
            invariant
                1 <= idx,
                forall|j: int| 1 <= j < idx && j < self.chain@.len() ==> #[trigger] block_passes(
                    self.chain@,
                    j,
                ),
            decreases self.chain@.len() - idx,
        {
            let recomputed = Block::generate_hash_from_block(&self.chain[idx]);
            if !self.chain[idx].follows(&self.chain[idx - 1], &recomputed) {
                assert(!block_passes(self.chain@, idx as int));
                return false;
            }
            idx = idx + 1;
        }
        true
    }

    fn create_genesis_block(data: String) -> (r: Result<Block, BlockError>)
        ensures
            r matches Ok(b) ==> started(seq![b], data),
            r is Err ==> r == Err::<Block, BlockError>(BlockError::ClockOutOfRange),
    {
        Block::new(data, None, CHAIN_DIFFICULTY)
    }
}

/// A newly created chain is intact.
pub proof fn lemma_started_is_intact(blocks: Seq<Block>, data: String)
    requires
        started(blocks, data),
    ensures
        intact(blocks),
{
}

/// Appending to an intact chain keeps it intact.
pub proof fn lemma_extension_keeps_intact(before: Seq<Block>, after: Seq<Block>, data: String)
    requires
        intact(before),
        extends(before, after, data),
    ensures
        intact(after),
{
    assert forall|i: int| 1 <= i < after.len() implies #[trigger] block_passes(after, i) by {
        if i < before.len() {
            assert(after[i] == before[i]);
            assert(after[i - 1] == before[i - 1]);
            assert(block_passes(before, i));
        }
    }
    assert(after[0] == before[0]);
}

/// Creating a chain from `x` and appending `y` and then `z` gives three
/// blocks holding `x`, `y` and `z`, in that order.
pub proof fn lemma_chain_growth(
    c0: Seq<Block>,
    c1: Seq<Block>,
    c2: Seq<Block>,
    x: String,
    y: String,
    z: String,
)
    requires
        started(c0, x),
        extends(c0, c1, y),
        extends(c1, c2, z),
    ensures
        c2.len() == 3,
        c2[0].data == x,
        c2[1].data == y,
        c2[2].data == z,
{
    assert(c2.drop_last()[1] == c1[1]);
    assert(c2.drop_last()[0] == c1[0]);
    assert(c1.drop_last()[0] == c0[0]);
}

/// In a chain built by creation and appends, every block after the first
/// records its predecessor's hash.
pub proof fn lemma_intact_chain_linked(blocks: Seq<Block>)
    requires
        intact(blocks),
    ensures
        forall|i: int| 1 <= i < blocks.len() ==> links_to(#[trigger] blocks[i], blocks[i - 1]),
{
    assert forall|i: int| 1 <= i < blocks.len() implies links_to(#[trigger] blocks[i], blocks[i - 1]) by {
        assert(block_passes(blocks, i));
    }
}

/// A chain built by creation and appends, untouched since, passes validation.
pub proof fn lemma_intact_chain_is_valid(blocks: Seq<Block>)
    requires
        intact(blocks),
    ensures
        chain_valid(blocks),
{
}

/// A block after the genesis block whose recorded hash differs from the digest
/// of its recorded fields makes the chain fail validation.
pub proof fn lemma_stale_hash_detected(blocks: Seq<Block>, i: int)
    requires
        1 <= i < blocks.len(),
        !blocks[i].self_consistent(),
    ensures
        !chain_valid(blocks),
{
    assert(!block_passes(blocks, i));
}

/// Replacing a block that has a successor by one with a different recorded
/// hash makes an intact chain fail validation: the successor's link breaks.
pub proof fn lemma_rehashed_inner_block_detected(blocks: Seq<Block>, i: int, replacement: Block)
    requires
        intact(blocks),
        0 <= i < blocks.len() - 1,
        replacement.hash@ != blocks[i].hash@,
    ensures
        !chain_valid(blocks.update(i, replacement)),
{
    let tampered = blocks.update(i, replacement);
    assert(block_passes(blocks, i + 1));
    assert(tampered[i + 1] == blocks[i + 1]);
    assert(!block_passes(tampered, i + 1));
}

/// Rewriting the data of the last block of an intact chain and recomputing
/// its hash to match goes undetected: nothing after the tail records its hash.
pub proof fn lemma_tail_rewrite_undetected(blocks: Seq<Block>, replacement: Block)
    requires
        intact(blocks),
        replacement.id == blocks.last().id,
        replacement.timestamp == blocks.last().timestamp,
        replacement.previous_block_hash == blocks.last().previous_block_hash,
        replacement.nonce == blocks.last().nonce,
        replacement.self_consistent(),
    ensures
        chain_valid(blocks.update(blocks.len() - 1, replacement)),
{
    let last = blocks.len() - 1;
    let tampered = blocks.update(last, replacement);
    assert forall|i: int| 1 <= i < tampered.len() implies #[trigger] block_passes(tampered, i) by {
        assert(block_passes(blocks, i));
        assert(tampered[i - 1] == blocks[i - 1]);
    }
}

} // verus!
