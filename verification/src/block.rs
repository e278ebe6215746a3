//! A block of the ledger: its content, its digest, and the search for a
//! nonce that gives the digest enough leading zeros.

use vstd::prelude::*;
use vstd::string::*;

use crate::clock::unix_time_now;
use crate::digest::{
    block_content, content_text, digest_of_text, is_lower_hex, json_array, text_digest,
    DIGEST_HEX_LEN,
};

verus! {

/// A run of `n` zero characters: the target of a search of difficulty `n`,
/// and, with 64 of them, the previous hash of a chain's first block.
pub open spec fn zero_run(n: nat) -> Seq<char> {
    Seq::new(n, |i: int| '0')
}

/// Whether a hash starts with `difficulty` zero characters.
pub open spec fn meets_difficulty(hash: Seq<char>, difficulty: nat) -> bool {
    zero_run(difficulty).is_prefix_of(hash)
}

/// A text of `n` zero characters.
pub fn zero_text(n: usize) -> (text: String)
    ensures
        text@ == zero_run(n as nat),
{
    let mut text = String::new();
    let mut i: usize = 0;
    while i < n
        invariant
            i <= n,
            text@ == zero_run(i as nat),
        decreases n - i,
    {
        text.append("0");
        i += 1;
        proof {
            reveal_strlit("0");
        }
    }
    text
}

/// Tests whether a hash starts with `difficulty` zero characters.
pub fn has_leading_zeros(hash: &str, difficulty: usize) -> (yes: bool)
    ensures
        yes == meets_difficulty(hash@, difficulty as nat),
{
    let len = hash.unicode_len();
    if len < difficulty {
        return false;
    }
    let mut i: usize = 0;
    while i < difficulty
        invariant
            i <= difficulty <= len,
            len == hash@.len(),
            forall|j: int| 0 <= j < i ==> hash@[j] == '0',
        decreases difficulty - i,
    {
        if hash.get_char(i) != '0' {
            assert(zero_run(difficulty as nat)[i as int] == '0');
            return false;
        }
        i += 1;
    }
    true
}

/// A block: a timestamp, the payloads it carries, the hash of the block
/// before it, its own hash, and the nonce that the search has reached.
#[derive(Debug, Clone)]
pub struct Block {
    /// Seconds since the Unix epoch at which the block was made.
    pub timestamp: i64,
    /// The payloads, in the order in which they were queued.
    pub transactions: Vec<String>,
    /// The hash of the block before this one; 64 zeros in a first block.
    pub previous_hash: String,
    /// The digest of the block's content, as of the last time it was computed.
    pub hash: String,
    /// The counter that mining advances.
    pub nonce: u64,
}

/// What a block is to the contracts: its fields as mathematical values.
pub struct BlockView {
    pub timestamp: int,
    pub payloads: Seq<Seq<char>>,
    pub previous_hash: Seq<char>,
    pub hash: Seq<char>,
    pub nonce: nat,
}

impl BlockView {
    /// The digest that the block's content would have with another nonce.
    pub open spec fn digest_at(self, nonce: nat) -> Seq<char> {
        text_digest(content_text(self.timestamp, self.payloads, self.previous_hash, nonce))
    }

    /// The digest of the block's content. The stored hash is no part of it.
    pub open spec fn digest(self) -> Seq<char> {
        self.digest_at(self.nonce)
    }

    /// Whether the stored hash is the digest of the content.
    pub open spec fn sealed(self) -> bool {
        self.hash == self.digest()
    }

    /// Whether no nonce strictly between `lo` and `hi` gives the content a
    /// digest with `difficulty` leading zeros.
    pub open spec fn no_hit_between(self, difficulty: nat, lo: int, hi: int) -> bool {
        forall|n: nat| lo < n < hi ==> !meets_difficulty(#[trigger] self.digest_at(n), difficulty)
    }

    /// Whether some nonce of a `u64` gives the content a digest with
    /// `difficulty` leading zeros.
    pub open spec fn solvable(self, difficulty: nat) -> bool {
        exists|n: nat| n <= u64::MAX && meets_difficulty(#[trigger] self.digest_at(n), difficulty)
    }

    /// Whether some nonce of a `u64` above `lo` gives the content a digest
    /// with `difficulty` leading zeros.
    pub open spec fn solvable_after(self, difficulty: nat, lo: nat) -> bool {
        exists|n: nat|
            lo < n <= u64::MAX && meets_difficulty(#[trigger] self.digest_at(n), difficulty)
    }

    /// A block as it is made: nonce zero, and the hash that goes with it.
    pub open spec fn fresh(
        timestamp: int,
        payloads: Seq<Seq<char>>,
        previous_hash: Seq<char>,
    ) -> BlockView {
        BlockView {
            timestamp,
            payloads,
            previous_hash,
            hash: text_digest(content_text(timestamp, payloads, previous_hash, 0)),
            nonce: 0,
        }
    }
}

/// The digest is a function of the timestamp, the payloads, the previous
/// hash and the nonce: two blocks that agree on these four have the same
/// digest, whatever hash each has stored.
pub proof fn lemma_digest_is_deterministic(a: BlockView, b: BlockView)
    requires
        a.timestamp == b.timestamp,
        a.payloads == b.payloads,
        a.previous_hash == b.previous_hash,
        a.nonce == b.nonce,
    ensures
        a.digest() == b.digest(),
{
}

impl View for Block {
    type V = BlockView;

    open spec fn view(&self) -> BlockView {
        BlockView {
            timestamp: self.timestamp as int,
            payloads: self.transactions.deep_view(),
            previous_hash: self.previous_hash@,
            hash: self.hash@,
            nonce: self.nonce as nat,
        }
    }
}

impl Block {
    /// Makes a block with the given timestamp and nonce zero, and computes
    /// its hash.
    pub fn new_at(timestamp: i64, transactions: Vec<String>, previous_hash: String) -> (block: Block)
        ensures
            block.transactions == transactions,
            block.previous_hash == previous_hash,
            block@ == BlockView::fresh(
                timestamp as int,
                transactions.deep_view(),
                previous_hash@,
            ),
    {
        let mut block = Block { timestamp, transactions, previous_hash, hash: String::new(), nonce: 0 };
        block.hash = block.calculate_hash();
        block
    }

    /// Makes a block stamped with the current time. See [`Block::new_at`].
    pub fn new(transactions: Vec<String>, previous_hash: String) -> (block: Block)
        ensures
            block.transactions == transactions,
            block.previous_hash == previous_hash,
            block@ == BlockView::fresh(
                block.timestamp as int,
                transactions.deep_view(),
                previous_hash@,
            ),
    {
        let timestamp = unix_time_now();
        Block::new_at(timestamp, transactions, previous_hash)
    }

    /// Computes the digest of the block's content: 64 lower-case hexadecimal
    /// characters that depend on the timestamp, the payloads, the previous
    /// hash and the nonce, and on nothing else.
    pub fn calculate_hash(&self) -> (digest: String)
        ensures
            digest@ == self@.digest(),
            digest@.len() == DIGEST_HEX_LEN,
            is_lower_hex(digest@),
    {
        let payloads_json = json_array(&self.transactions);
        let content = block_content(
            self.timestamp,
            payloads_json.as_str(),
            self.previous_hash.as_str(),
            self.nonce,
        );
        digest_of_text(content.as_str())
    }

    /// Searches for a nonce whose digest starts with `difficulty` zeros.
    ///
    /// While the stored hash misses the target, the nonce goes up by one and
    /// the hash is computed anew. The search ends with `true` at the first
    /// hash that meets the target, and with `false` where the nonce has
    /// reached the largest `u64` without one. A stored hash that meets the
    /// target already is left as it is, with the nonce; so is every block at
    /// difficulty zero.
    ///
    /// A digest has 64 characters, so a difficulty above 64 can never be met:
    /// keeping it to 64 is the caller's part.
    #[must_use]
    pub fn mine_block(&mut self, difficulty: usize) -> (found: bool)
        requires
            difficulty <= DIGEST_HEX_LEN,
        ensures
            final(self).timestamp == old(self).timestamp,
            final(self).transactions == old(self).transactions,
            final(self).previous_hash == old(self).previous_hash,
            found == meets_difficulty(final(self).hash@, difficulty as nat),
            found <==> meets_difficulty(old(self).hash@, difficulty as nat) || old(
                self,
            )@.solvable_after(difficulty as nat, old(self).nonce as nat),
            meets_difficulty(old(self).hash@, difficulty as nat) ==> *final(self) == *old(self),
            difficulty == 0 ==> found && *final(self) == *old(self),
            !meets_difficulty(old(self).hash@, difficulty as nat) ==> {
                &&& old(self)@.no_hit_between(
                    difficulty as nat,
                    old(self).nonce as int,
                    final(self).nonce as int,
                )
                &&& found ==> final(self).nonce > old(self).nonce
                &&& !found ==> final(self).nonce == u64::MAX
                &&& final(self).nonce > old(self).nonce ==> final(self)@.sealed()
                &&& final(self).nonce == old(self).nonce ==> *final(self) == *old(self)
            },
            old(self)@.sealed() ==> final(self)@.sealed(),
    {
        while !has_leading_zeros(self.hash.as_str(), difficulty)
            invariant
                self.timestamp == old(self).timestamp,
                self.transactions == old(self).transactions,
                self.previous_hash == old(self).previous_hash,
                old(self).nonce <= self.nonce,
                self.nonce == old(self).nonce ==> *self == *old(self),
                self.nonce > old(self).nonce ==> self@.sealed() && !meets_difficulty(
                    old(self).hash@,
                    difficulty as nat,
                ),
                old(self)@.no_hit_between(
                    difficulty as nat,
                    old(self).nonce as int,
                    self.nonce as int,
                ),
            decreases u64::MAX - self.nonce,
        {
            if self.nonce == u64::MAX {
                return false;
            }
            self.nonce += 1;
            self.hash = self.calculate_hash();
        }
        proof {
            if self.nonce > old(self).nonce {
                assert(self.hash@ == old(self)@.digest_at(self.nonce as nat));
            }
        }
        true
    }
}

} // verus!
