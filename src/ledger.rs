//! The chain container: accepted blocks and the queue of pending transactions.
use crate::block::{
    block_sealed, is_first_valid_nonce, no_valid_nonce, transaction_views, transactions_digest,
    Block, BlockView, LedgerError,
};
use crate::transaction::{Transaction, TransactionView};
use vstd::prelude::*;

verus! {

/// Linkage anchor of the first block of a chain.
pub const GENESIS_HASH: u64 = 0;

/// The blocks accepted so far, and the transactions waiting for the next
/// block.
pub struct Blockchain {
    size: usize,
    pending_transactions: Vec<Transaction>,
    blocks: Vec<Block>,
}

/// The mathematical content of a `Blockchain`.
pub struct BlockchainView {
    pub size: nat,
    pub pending: Seq<TransactionView>,
    pub blocks: Seq<BlockView>,
}

/// The contents of each block, in order.
pub open spec fn block_views(bs: Seq<Block>) -> Seq<BlockView> {
    bs.map_values(|b: Block| b@)
}

/// The digest the next block is anchored on: that of the last block's
/// transactions, or the genesis sentinel when there is no block yet.
pub open spec fn anchor_of(blocks: Seq<BlockView>) -> u64 {
    if blocks.len() == 0 {
        GENESIS_HASH
    } else {
        transactions_digest(blocks.last().transactions)
    }
}

/// The first block is anchored on the genesis sentinel, and every later
/// block on the digest of its predecessor.
pub open spec fn chain_linked(blocks: Seq<BlockView>) -> bool {
    &&& blocks.len() > 0 ==> blocks[0].last_hash == GENESIS_HASH
    &&& forall|i: int|
        0 < i < blocks.len() ==> #[trigger] blocks[i].last_hash == transactions_digest(
            blocks[i - 1].transactions,
        )
}

impl View for Blockchain {
    type V = BlockchainView;

    closed spec fn view(&self) -> BlockchainView {
        BlockchainView {
            size: self.size as nat,
            pending: transaction_views(self.pending_transactions@),
            blocks: block_views(self.blocks@),
        }
    }
}

impl Blockchain {
    /// The size matches the number of blocks, the chain is linked, and every
    /// block is sealed.
    pub closed spec fn wf(&self) -> bool {
        &&& self@.size == self@.blocks.len()
        &&& chain_linked(self@.blocks)
        &&& forall|i: int| 0 <= i < self@.blocks.len() ==> #[trigger] block_sealed(self@.blocks[i])
    }

    /// An empty chain with no pending transaction.
    pub fn new() -> (r: Self)
        ensures
            r.wf(),
            r@.size == 0,
            r@.pending == Seq::<TransactionView>::empty(),
            r@.blocks == Seq::<BlockView>::empty(),
    {
        let r = Blockchain { size: 0, pending_transactions: Vec::new(), blocks: Vec::new() };
        assert(r@.pending =~= Seq::<TransactionView>::empty());
        assert(r@.blocks =~= Seq::<BlockView>::empty());
        r
    }

    /// The number of accepted blocks.
    pub fn get_size(&self) -> (r: usize)
        requires
            self.wf(),
        ensures
            r == self@.size,
            r == self@.blocks.len(),
    {
        self.size
    }

    pub fn blocks(&self) -> (r: &Vec<Block>)
        ensures
            block_views(r@) == self@.blocks,
    {
        &self.blocks
    }

    pub fn pending_transactions(&self) -> (r: &Vec<Transaction>)
        ensures
            transaction_views(r@) == self@.pending,
    {
        &self.pending_transactions
    }

    /// Queues `transaction` for the next block.
    pub fn add_transaction(&mut self, transaction: Transaction)
        requires
            old(self).wf(),
        ensures
            final(self).wf(),
            final(self)@.pending == old(self)@.pending.push(transaction@),
            final(self)@.blocks == old(self)@.blocks,
            final(self)@.size == old(self)@.size,
    {
        self.pending_transactions.push(transaction);
        assert(self@.pending =~= old(self)@.pending.push(transaction@));
    }

    /// Seals every pending transaction into a new block anchored on the last
    /// block's digest (the genesis sentinel for the first block), appends it
    /// and empties the queue. Fails, changing nothing, when no nonce gives a
    /// valid proof of work.
    pub fn add_block(&mut self) -> (r: Result<(), LedgerError>)
        requires
            old(self).wf(),
            old(self)@.blocks.len() < usize::MAX,
        ensures
            final(self).wf(),
            match r {
                Ok(()) => {
                    &&& final(self)@.pending == Seq::<TransactionView>::empty()
                    &&& final(self)@.size == old(self)@.size + 1
                    &&& final(self)@.blocks.len() == old(self)@.blocks.len() + 1
                    &&& final(self)@.blocks.drop_last() == old(self)@.blocks
                    &&& final(self)@.blocks.last().transactions == old(self)@.pending
                    &&& final(self)@.blocks.last().hash == transactions_digest(old(self)@.pending)
                    &&& final(self)@.blocks.last().last_hash == anchor_of(old(self)@.blocks)
                    &&& is_first_valid_nonce(
                        anchor_of(old(self)@.blocks),
                        final(self)@.blocks.last().proof,
                    )
                },
                Err(e) => {
                    &&& e == LedgerError::NonceExhausted
                    &&& no_valid_nonce(anchor_of(old(self)@.blocks))
                    &&& final(self)@ == old(self)@
                },
            },
    {
        let n = self.blocks.len();
        let anchor = if n == 0 {
            GENESIS_HASH
        } else {
            self.blocks[n - 1].hash()
        };
        assert(anchor == anchor_of(old(self)@.blocks));
        let proof = match Block::calculate_proof_of_work(anchor) {
            Ok(p) => p,
            Err(e) => {
                return Err(e);
            },
        };
        let mut transactions: Vec<Transaction> = Vec::new();
        std::mem::swap(&mut transactions, &mut self.pending_transactions);
        let block = Block::seal(transactions, anchor, proof);
        self.blocks.push(block);
        self.size = self.size + 1;
        proof {
            let bs = self@.blocks;
            assert(bs.drop_last() =~= old(self)@.blocks);
            assert(self@.pending =~= Seq::<TransactionView>::empty());
            assert forall|i: int| 0 <= i < bs.len() implies #[trigger] block_sealed(bs[i]) by {
                if i < bs.len() - 1 {
                    assert(bs[i] == old(self)@.blocks[i]);
                }
            }
            assert forall|i: int| 0 < i < bs.len() implies #[trigger] bs[i].last_hash
                == transactions_digest(bs[i - 1].transactions) by {
                if i < bs.len() - 1 {
                    assert(bs[i] == old(self)@.blocks[i]);
                    assert(bs[i - 1] == old(self)@.blocks[i - 1]);
                } else {
                    assert(bs[i - 1] == old(self)@.blocks.last());
                }
            }
        }
        Ok(())
    }

    /// In every chain, the first block is anchored on the genesis sentinel,
    /// every later block on the digest of its predecessor's transactions,
    /// and the size counts the blocks.
    pub proof fn lemma_chain_linked(c: &Blockchain)
        requires
            c.wf(),
        ensures
            c@.blocks.len() > 0 ==> c@.blocks[0].last_hash == GENESIS_HASH,
            forall|i: int|
                0 < i < c@.blocks.len() ==> #[trigger] c@.blocks[i].last_hash
                    == transactions_digest(c@.blocks[i - 1].transactions),
            forall|i: int|
                0 < i < c@.blocks.len() ==> #[trigger] c@.blocks[i].last_hash == c@.blocks[i
                    - 1].hash,
            c@.size == c@.blocks.len(),
    {
        assert forall|i: int| 0 < i < c@.blocks.len() implies #[trigger] c@.blocks[i].last_hash
            == c@.blocks[i - 1].hash by {
            assert(block_sealed(c@.blocks[i - 1]));
        }
    }

    /// In every chain, each block's proof is the smallest valid nonce for
    /// the digest it is anchored on.
    pub proof fn lemma_proofs_valid(c: &Blockchain)
        requires
            c.wf(),
        ensures
            forall|i: int|
                0 <= i < c@.blocks.len() ==> is_first_valid_nonce(
                    #[trigger] c@.blocks[i].last_hash,
                    c@.blocks[i].proof,
                ),
    {
        assert forall|i: int| 0 <= i < c@.blocks.len() implies is_first_valid_nonce(
            #[trigger] c@.blocks[i].last_hash,
            c@.blocks[i].proof,
        ) by {
            assert(block_sealed(c@.blocks[i]));
        }
    }
}

} // verus!
