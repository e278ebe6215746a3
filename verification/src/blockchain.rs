//! The chain: blocks in order, the payloads that wait for the next block, and
//! the difficulty at which blocks are mined.

use vstd::prelude::*;
use vstd::string::*;

use crate::block::{meets_difficulty, zero_run, zero_text, Block, BlockView};
use crate::clock::unix_time_now;
use crate::digest::DIGEST_HEX_LEN;

verus! {

/// The difficulty of a new chain.
pub const DEFAULT_DIFFICULTY: usize = 4;

/// Whether every block but the first names the hash of the block before it.
pub open spec fn linked(blocks: Seq<BlockView>) -> bool {
    forall|i: int|
        0 < i < blocks.len() ==> (#[trigger] blocks[i]).previous_hash == blocks[i - 1].hash
}

/// What validation checks: every block but the first is sealed and names the
/// hash of the block before it. Neither the first block nor the difficulty
/// has a part in it.
pub open spec fn chain_valid(blocks: Seq<BlockView>) -> bool {
    forall|i: int|
        0 < i < blocks.len() ==> {
            &&& (#[trigger] blocks[i]).sealed()
            &&& blocks[i].previous_hash == blocks[i - 1].hash
        }
}

/// The first block of a chain made at `timestamp`.
pub open spec fn genesis(timestamp: int) -> BlockView {
    BlockView::fresh(timestamp, seq!["Genesis Block"@], zero_run(DIGEST_HEX_LEN as nat))
}

/// A ledger: the blocks so far, the mining difficulty, and the payloads
/// queued for the next block.
pub struct Blockchain {
    /// The blocks, oldest first.
    pub chain: Vec<Block>,
    /// Number of leading zero characters that a mined hash must have.
    pub difficulty: usize,
    /// Payloads queued for the next block, in the order in which they came.
    pub pending_transactions: Vec<String>,
}

/// What a chain is to the contracts.
pub struct ChainView {
    pub blocks: Seq<BlockView>,
    pub difficulty: nat,
    pub pending: Seq<Seq<char>>,
}

impl ChainView {
    /// A chain as it is made at `timestamp`: the first block alone, the
    /// default difficulty, and nothing pending.
    pub open spec fn fresh(timestamp: int) -> ChainView {
        ChainView {
            blocks: seq![genesis(timestamp)],
            difficulty: DEFAULT_DIFFICULTY as nat,
            pending: Seq::empty(),
        }
    }

    /// The chain with one more payload at the end of the queue.
    pub open spec fn queued(self, payload: Seq<char>) -> ChainView {
        ChainView { pending: self.pending.push(payload), ..self }
    }

    /// The block that mining starts from at `timestamp`: it carries the
    /// pending payloads and names the hash of the last block.
    pub open spec fn candidate(self, timestamp: int) -> BlockView
        recommends
            self.blocks.len() > 0,
    {
        BlockView::fresh(timestamp, self.pending, self.blocks.last().hash)
    }

    /// The state that every chain has which was made by [`Blockchain::new`]
    /// and has grown by mining alone: there is a first block, it names 64
    /// zeros as its predecessor, every block is sealed, and each names the
    /// hash of the one before it.
    pub open spec fn intact(self) -> bool {
        &&& self.blocks.len() > 0
        &&& self.blocks[0].previous_hash == zero_run(DIGEST_HEX_LEN as nat)
        &&& forall|i: int| 0 <= i < self.blocks.len() ==> (#[trigger] self.blocks[i]).sealed()
        &&& linked(self.blocks)
    }

    /// Whether `after` is `self` with one block mined onto it at `timestamp`:
    /// the new block carries what was pending, names the last hash, is
    /// sealed, meets the difficulty, and has the least nonce that does; the
    /// queue is empty and the rest is as before.
    pub open spec fn mined_into(self, after: ChainView, timestamp: int) -> bool {
        let block = after.blocks.last();
        &&& after.blocks == self.blocks.push(block)
        &&& after.difficulty == self.difficulty
        &&& after.pending == Seq::<Seq<char>>::empty()
        &&& block.timestamp == timestamp
        &&& block.payloads == self.pending
        &&& block.previous_hash == self.blocks.last().hash
        &&& block.sealed()
        &&& meets_difficulty(block.hash, self.difficulty)
        &&& self.candidate(timestamp).no_hit_between(self.difficulty, -1, block.nonce as int)
    }

    /// Whether mining finds a nonce whatever time the new block is stamped
    /// with: for every timestamp of an `i64`, some nonce of a `u64` gives the
    /// candidate a digest that meets the difficulty.
    pub open spec fn solvable_at_any_time(self) -> bool {
        forall|timestamp: int|
            i64::MIN <= timestamp <= i64::MAX ==> (#[trigger] self.candidate(timestamp)).solvable(
                self.difficulty,
            )
    }

    /// Whether `after` comes from `self` by one step of a ledger's life: a
    /// payload was queued, or a block was mined onto the chain.
    pub open spec fn grows_into(self, after: ChainView) -> bool {
        ||| after == self.queued(after.pending.last())
        ||| self.mined_into(after, after.blocks.last().timestamp)
    }
}

/// Whether `states` is the life of a ledger: it starts with a chain as it is
/// made, and each state comes from the one before it by queuing a payload or
/// by mining a block.
pub open spec fn grown(states: Seq<ChainView>) -> bool {
    &&& states.len() > 0
    &&& states[0] == ChainView::fresh(states[0].blocks[0].timestamp)
    &&& forall|k: int| 0 < k < states.len() ==> states[k - 1].grows_into(#[trigger] states[k])
}

impl View for Blockchain {
    type V = ChainView;

    open spec fn view(&self) -> ChainView {
        ChainView {
            blocks: self.chain@.map_values(|b: Block| b@),
            difficulty: self.difficulty as nat,
            pending: self.pending_transactions.deep_view(),
        }
    }
}

impl Blockchain {
    /// Makes a chain whose first block is stamped `timestamp`. The first
    /// block is not mined: its nonce is zero.
    pub fn new_at(timestamp: i64) -> (ledger: Blockchain)
        ensures
            ledger@ == ChainView::fresh(timestamp as int),
            ledger@.intact(),
    {
        let first = Block::new_at(
            timestamp,
            vec![String::from_str("Genesis Block")],
            zero_text(DIGEST_HEX_LEN),
        );
        let ledger = Blockchain {
            chain: vec![first],
            difficulty: DEFAULT_DIFFICULTY,
            pending_transactions: Vec::new(),
        };
        proof {
            assert(first.transactions.deep_view() =~= seq!["Genesis Block"@]);
            assert(ledger@.blocks =~= seq![genesis(timestamp as int)]);
            assert(ledger@.pending =~= Seq::empty());
        }
        ledger
    }

    /// Makes a chain whose first block is stamped with the current time. See
    /// [`Blockchain::new_at`].
    pub fn new() -> (ledger: Blockchain)
        ensures
            ledger.chain@.len() == 1,
            ledger@ == ChainView::fresh(ledger.chain@[0].timestamp as int),
            ledger@.intact(),
    {
        Blockchain::new_at(unix_time_now())
    }

    /// The last block of the chain.
    pub fn get_latest_block(&self) -> (block: &Block)
        requires
            self.chain@.len() > 0,
        ensures
            *block == self.chain@.last(),
    {
        &self.chain[self.chain.len() - 1]
    }

    /// Queues a payload for the next block, in the text under which it will
    /// stand there. Nothing is asked of the text.
    pub fn add_transaction(&mut self, transaction: String)
        ensures
            final(self).pending_transactions@ == old(self).pending_transactions@.push(transaction),
            final(self).chain == old(self).chain,
            final(self).difficulty == old(self).difficulty,
            final(self)@ == old(self)@.queued(transaction@),
    {
        self.pending_transactions.push(transaction);
        assert(self@.pending =~= old(self)@.pending.push(transaction@));
    }

    /// Mines the pending payloads into a block stamped `timestamp` and
    /// appends it.
    ///
    /// Returns `true` where the search found a nonce; the chain has then
    /// grown by that block and the queue is empty. Returns `false` where no
    /// nonce of a `u64` meets the difficulty; the ledger is then as it was.
    /// An empty queue gives a block without payloads.
    #[must_use]
    pub fn mine_pending_transactions_at(&mut self, timestamp: i64) -> (mined: bool)
        requires
            old(self).chain@.len() > 0,
            old(self).difficulty <= DIGEST_HEX_LEN,
        ensures
            mined <==> old(self)@.candidate(timestamp as int).solvable(old(self)@.difficulty),
            mined ==> old(self)@.mined_into(final(self)@, timestamp as int),
            mined ==> final(self).chain@.subrange(0, old(self).chain@.len() as int) == old(
                self,
            ).chain@,
            !mined ==> *final(self) == *old(self),
            linked(old(self)@.blocks) ==> linked(final(self)@.blocks),
            old(self)@.intact() ==> final(self)@.intact(),
    {
        let payloads = self.pending_transactions.clone();
        let previous_hash = self.get_latest_block().hash.clone();
        let mut block = Block::new_at(timestamp, payloads, previous_hash);
        let mined = block.mine_block(self.difficulty);
        if mined {
            self.chain.push(block);
            self.pending_transactions.clear();
            proof {
                assert(self@.blocks =~= old(self)@.blocks.push(block@));
                assert(self@.pending =~= Seq::<Seq<char>>::empty());
                if linked(old(self)@.blocks) {
                    lemma_mining_keeps_linkage(old(self)@, self@, timestamp as int);
                }
                if old(self)@.intact() {
                    lemma_mining_keeps_intact(old(self)@, self@, timestamp as int);
                }
            }
        }
        mined
    }

    /// Mines the pending payloads into a block stamped with the current time
    /// and appends it. See [`Blockchain::mine_pending_transactions_at`].
    ///
    /// Whether a nonce is found depends on the time that the clock gives.
    /// Where one exists for every time, as it does at difficulty zero, the
    /// block is mined.
    #[must_use]
    pub fn mine_pending_transactions(&mut self) -> (mined: bool)
        requires
            old(self).chain@.len() > 0,
            old(self).difficulty <= DIGEST_HEX_LEN,
        ensures
            old(self)@.solvable_at_any_time() ==> mined,
            old(self).difficulty == 0 ==> mined,
            mined ==> old(self)@.mined_into(
                final(self)@,
                final(self).chain@.last().timestamp as int,
            ),
            mined ==> final(self).chain@.subrange(0, old(self).chain@.len() as int) == old(
                self,
            ).chain@,
            !mined ==> *final(self) == *old(self),
            linked(old(self)@.blocks) ==> linked(final(self)@.blocks),
            old(self)@.intact() ==> final(self)@.intact(),
    {
        let timestamp = unix_time_now();
        proof {
            if self.difficulty == 0 {
                lemma_difficulty_zero_is_solvable(self@);
            }
        }
        self.mine_pending_transactions_at(timestamp)
    }

    /// Checks the chain: every block but the first must be sealed and must
    /// name the hash of the block before it. A chain of one block or none is
    /// valid.
    pub fn is_chain_valid(&self) -> (valid: bool)
        ensures
            valid == chain_valid(self@.blocks),
    {
        let mut i: usize = 1;
        while i < self.chain.len()
            invariant
                1 <= i,
                forall|j: int|
                    0 < j < i && j < self.chain@.len() ==> {
                        &&& (#[trigger] self@.blocks[j]).sealed()
                        &&& self@.blocks[j].previous_hash == self@.blocks[j - 1].hash
                    },
            decreases self.chain@.len() - i,
        {
            let current = &self.chain[i];
            let previous = &self.chain[i - 1];
            assert(self@.blocks[i as int] == current@);
            let digest = current.calculate_hash();
            if !(current.hash == digest) {
                return false;
            }
            if !(current.previous_hash == previous.hash) {
                return false;
            }
            i += 1;
        }
        true
    }
}

/// At difficulty zero every hash meets the target, so mining finds a nonce
/// whatever time the new block is stamped with.
pub proof fn lemma_difficulty_zero_is_solvable(ledger: ChainView)
    requires
        ledger.difficulty == 0,
    ensures
        ledger.solvable_at_any_time(),
{
    assert forall|timestamp: int| i64::MIN <= timestamp <= i64::MAX implies (
    #[trigger] ledger.candidate(timestamp)).solvable(0) by {
        assert(meets_difficulty(ledger.candidate(timestamp).digest_at(0), 0));
    }
}

/// Linkage is kept by mining: where every block of a chain names the hash of
/// the one before it, the same holds after a block was mined onto the chain.
pub proof fn lemma_mining_keeps_linkage(before: ChainView, after: ChainView, timestamp: int)
    requires
        linked(before.blocks),
        before.mined_into(after, timestamp),
    ensures
        linked(after.blocks),
{
}

/// An intact chain is still intact after a block was mined onto it.
pub proof fn lemma_mining_keeps_intact(before: ChainView, after: ChainView, timestamp: int)
    requires
        before.intact(),
        before.mined_into(after, timestamp),
    ensures
        after.intact(),
{
    lemma_mining_keeps_linkage(before, after, timestamp);
}

/// A ledger that was made by [`Blockchain::new`] and has since only queued
/// payloads and mined blocks is intact at every moment of its life: each block
/// names the hash of the one before it, every block is sealed, and the chain
/// passes validation.
pub proof fn lemma_grown_chain_is_intact(states: Seq<ChainView>, k: int)
    requires
        grown(states),
        0 <= k < states.len(),
    ensures
        states[k].intact(),
        linked(states[k].blocks),
        chain_valid(states[k].blocks),
    decreases k,
{
    if k > 0 {
        lemma_grown_chain_is_intact(states, k - 1);
        let before = states[k - 1];
        let after = states[k];
        assert(before.grows_into(after));
        if before.mined_into(after, after.blocks.last().timestamp) {
            lemma_mining_keeps_intact(before, after, after.blocks.last().timestamp);
        }
    }
}

/// An intact chain passes validation.
pub proof fn lemma_intact_is_valid(ledger: ChainView)
    requires
        ledger.intact(),
    ensures
        chain_valid(ledger.blocks),
{
}

/// Tampering is detected: take a valid chain and a block of it other than
/// the first, change the block's content and leave its stored hash as it
/// was. Where the change reaches the previous hash, or gives the content
/// another digest, the chain no longer passes validation.
pub proof fn lemma_tampering_is_detected(blocks: Seq<BlockView>, i: int, tampered: BlockView)
    requires
        chain_valid(blocks),
        0 < i < blocks.len(),
        tampered.hash == blocks[i].hash,
        tampered.previous_hash != blocks[i].previous_hash || tampered.digest()
            != blocks[i].digest(),
    ensures
        !chain_valid(blocks.update(i, tampered)),
{
    let changed = blocks.update(i, tampered);
    assert(!changed[i].sealed() || changed[i].previous_hash != changed[i - 1].hash);
}

/// Validation does not look at the difficulty: a sealed block that names the
/// last hash of a valid chain can be appended and the chain stays valid,
/// though the block's hash misses the difficulty target.
pub proof fn lemma_validation_ignores_difficulty(
    blocks: Seq<BlockView>,
    block: BlockView,
    difficulty: nat,
)
    requires
        chain_valid(blocks),
        block.sealed(),
        block.previous_hash == blocks.last().hash,
        !meets_difficulty(block.hash, difficulty),
    ensures
        chain_valid(blocks.push(block)),
{
}

} // verus!
