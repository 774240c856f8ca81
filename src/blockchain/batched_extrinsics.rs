//! Blocks: a header that commits to a body of extrinsics by the body's
//! digest, so that a rewritten body is told apart from a malformed header
//! chain.
use vstd::prelude::*;

use crate::blockchain::consensus::THRESHOLD;
use crate::blockchain::{lemma_sum_of_prefix, lemma_sum_of_push, sum_of};
use crate::digest::{hash_words, words_digest};

verus! {

#[derive(Clone, Copy, Debug, PartialEq, Eq, Structural)]
pub struct Header {
    pub parent: u64,
    pub height: u64,
    pub extrinsics_root: u64,
    pub state: u64,
    pub consensus_digest: u64,
}

#[derive(Clone, Debug, PartialEq, Eq)]
pub struct Block {
    pub header: Header,
    pub body: Vec<u64>,
}

/// The header that position `i` of `chain` must extend.
pub open spec fn predecessor(anchor: Header, chain: Seq<Header>, i: int) -> Header {
    if i == 0 {
        anchor
    } else {
        chain[i - 1]
    }
}

/// Every header is a well-formed successor of its predecessor.
pub open spec fn valid_header_chain(anchor: Header, chain: Seq<Header>) -> bool {
    forall|i: int|
        0 <= i < chain.len() ==> #[trigger] chain[i].is_valid_child_of(predecessor(anchor, chain, i))
}

/// The headers of a sequence of blocks.
pub open spec fn headers_of(blocks: Seq<Block>) -> Seq<Header> {
    blocks.map_values(|b: Block| b.header)
}

/// Every block extends the block before it, the first one the anchor.
pub open spec fn valid_block_chain(anchor: Block, chain: Seq<Block>) -> bool {
    forall|i: int|
        0 <= i < chain.len() ==> #[trigger] chain[i].extends(
            predecessor(anchor.header, headers_of(chain), i),
        )
}

/// The state that folding `batch` into `state` yields, when it fits a word.
pub open spec fn batch_result(state: u64, batch: Seq<u64>) -> Option<u64> {
    if state + sum_of(batch) <= u64::MAX {
        Some((state + sum_of(batch)) as u64)
    } else {
        None
    }
}

impl Header {
    /// The words that the digest covers, in field order.
    pub open spec fn words(self) -> Seq<u64> {
        seq![self.parent, self.height, self.extrinsics_root, self.state, self.consensus_digest]
    }

    pub open spec fn spec_digest(self) -> u64 {
        words_digest(self.words())
    }

    pub open spec fn with_nonce(self, n: u64) -> Header {
        Header { consensus_digest: n, ..self }
    }

    pub open spec fn meets_pow(self) -> bool {
        self.spec_digest() < THRESHOLD
    }

    /// The nonce is the least one that meets the target, or the last nonce
    /// when none does.
    pub open spec fn has_least_nonce(self) -> bool {
        &&& forall|n: u64| n < self.consensus_digest ==> !#[trigger] self.with_nonce(n).meets_pow()
        &&& (self.meets_pow() || self.consensus_digest == u64::MAX)
    }

    pub open spec fn is_genesis(self) -> bool {
        &&& self.parent == 0
        &&& self.height == 0
        &&& self.extrinsics_root == 0
        &&& self.state == 0
        &&& self.consensus_digest == 0
    }

    /// What `child` returns for `parent`, `extrinsics_root` and `state`.
    pub open spec fn is_child_of(self, parent: Header, extrinsics_root: u64, state: u64) -> bool {
        &&& self.parent == parent.spec_digest()
        &&& self.height == parent.height + 1
        &&& self.extrinsics_root == extrinsics_root
        &&& self.state == state
        &&& self.has_least_nonce()
    }

    /// What a header alone can show: linked to `parent`, one higher, and a
    /// digest under the target. The state needs the body to be checked.
    pub open spec fn is_valid_child_of(self, parent: Header) -> bool {
        &&& self.parent == parent.spec_digest()
        &&& self.height == parent.height + 1
        &&& self.meets_pow()
    }

    pub fn digest(&self) -> (r: u64)
        ensures
            r == self.spec_digest(),
    {
        let words = vec![
            self.parent,
            self.height,
            self.extrinsics_root,
            self.state,
            self.consensus_digest,
        ];
        proof {
            assert(words@ =~= self.words());
        }
        hash_words(&words)
    }

    /// The height-0 header: every field zero.
    pub fn genesis() -> (r: Self)
        ensures
            r.is_genesis(),
    {
        Header { parent: 0, height: 0, extrinsics_root: 0, state: 0, consensus_digest: 0 }
    }

    /// The next header after `self`, committing to `extrinsics_root` and
    /// carrying `state`, with the least nonce that meets the target.
    pub fn child(&self, extrinsics_root: u64, state: u64) -> (r: Self)
        requires
            self.height < u64::MAX,
        ensures
            r.is_child_of(*self, extrinsics_root, state),
    {
        let mut header = Header {
            parent: self.digest(),
            height: self.height + 1,
            extrinsics_root,
            state,
            consensus_digest: 0,
        };
        let ghost start = header;
        loop
            invariant
                header == start.with_nonce(header.consensus_digest),
                forall|n: u64|
                    n < header.consensus_digest ==> !#[trigger] start.with_nonce(n).meets_pow(),
            ensures
                header.meets_pow() || header.consensus_digest == u64::MAX,
            decreases u64::MAX - header.consensus_digest,
        {
            if header.digest() < THRESHOLD || header.consensus_digest == u64::MAX {
                break;
            }
            header.consensus_digest = header.consensus_digest + 1;
        }
        proof {
            assert forall|n: u64| n < header.consensus_digest implies !#[trigger] header.with_nonce(
                n,
            ).meets_pow() by {
                assert(header.with_nonce(n) == start.with_nonce(n));
            }
        }
        header
    }

    /// Whether `child` is a well-formed successor of `self` as far as
    /// headers alone show.
    pub fn verify_child(&self, child: &Header) -> (r: bool)
        ensures
            r == child.is_valid_child_of(*self),
    {
        child.parent == self.digest() && self.height < u64::MAX && child.height == self.height + 1
            && child.digest() < THRESHOLD
    }

    /// Checks `chain` left to right against `self` with `verify_child`.
    pub fn verify_sub_chain(&self, chain: &[Header]) -> (r: bool)
        ensures
            r == valid_header_chain(*self, chain@),
    {
        let mut last: Header = *self;
        let mut i: usize = 0;
        while i < chain.len()
            invariant
                0 <= i <= chain@.len(),
                last == predecessor(*self, chain@, i as int),
                forall|j: int|
                    0 <= j < i ==> #[trigger] chain@[j].is_valid_child_of(predecessor(*self, chain@, j)),
            decreases chain@.len() - i,
        {
            let h = chain[i];
            if !last.verify_child(&h) {
                return false;
            }
            last = h;
            i = i + 1;
        }
        true
    }
}

/// Folds `batch` into `state` by addition; `None` when the result does not
/// fit a word.
pub fn apply_batch(state: u64, batch: &Vec<u64>) -> (r: Option<u64>)
    ensures
        r == batch_result(state, batch@),
{
    let mut acc: u64 = state;
    let mut i: usize = 0;
    while i < batch.len()
        invariant
            i <= batch@.len(),
            acc == state + sum_of(batch@.subrange(0, i as int)),
        decreases batch@.len() - i,
    {
        proof {
            lemma_sum_of_push(batch@, i as int);
        }
        if acc > u64::MAX - batch[i] {
            proof {
                lemma_sum_of_prefix(batch@, i as int + 1);
            }
            return None;
        }
        acc = acc + batch[i];
        i = i + 1;
    }
    proof {
        assert(batch@.subrange(0, i as int) =~= batch@);
    }
    Some(acc)
}

impl Block {
    /// `self` extends a block whose header is `last`: its header commits to
    /// its body, is a well-formed successor of `last`, and carries the state
    /// that folding the body into `last`'s state yields.
    pub open spec fn extends(self, last: Header) -> bool {
        &&& self.header.extrinsics_root == words_digest(self.body@)
        &&& self.header.is_valid_child_of(last)
        &&& batch_result(last.state, self.body@) == Some(self.header.state)
    }

    /// The genesis header with an empty body.
    pub fn genesis() -> (r: Self)
        ensures
            r.header.is_genesis(),
            r.body@.len() == 0,
    {
        Block { header: Header::genesis(), body: Vec::new() }
    }

    /// The next block after `self`, with `extrinsics` as its body: its header
    /// commits to the body's digest and carries the folded state.
    pub fn child(&self, extrinsics: Vec<u64>) -> (r: Self)
        requires
            self.header.height < u64::MAX,
            self.header.state + sum_of(extrinsics@) <= u64::MAX,
        ensures
            r.body@ == extrinsics@,
            r.header.is_child_of(
                self.header,
                words_digest(extrinsics@),
                (self.header.state + sum_of(extrinsics@)) as u64,
            ),
    {
        let state = match apply_batch(self.header.state, &extrinsics) {
            Some(s) => s,
            None => self.header.state,
        };
        let root = hash_words(&extrinsics);
        let header = self.header.child(root, state);
        Block { header, body: extrinsics }
    }

    /// Checks `chain` left to right against `self`: first that each block's
    /// header commits to its body, then the header-level checks, then the
    /// state. The first block that fails rejects the chain.
    pub fn verify_sub_chain(&self, chain: &[Block]) -> (r: bool)
        ensures
            r == valid_block_chain(*self, chain@),
    {
        let mut last: Header = self.header;
        let mut i: usize = 0;
        while i < chain.len()
            invariant
                0 <= i <= chain@.len(),
                last == predecessor(self.header, headers_of(chain@), i as int),
                forall|j: int|
                    0 <= j < i ==> #[trigger] chain@[j].extends(
                        predecessor(self.header, headers_of(chain@), j),
                    ),
            decreases chain@.len() - i,
        {
            let block = &chain[i];
            let ok = hash_words(&block.body) == block.header.extrinsics_root
                && last.verify_child(&block.header) && match apply_batch(last.state, &block.body) {
                Some(s) => s == block.header.state,
                None => false,
            };
            if !ok {
                assert(!chain@[i as int].extends(predecessor(self.header, headers_of(chain@), i as int)));
                return false;
            }
            last = block.header;
            i = i + 1;
        }
        true
    }
}

/// A block whose header is a well-formed successor of `parent` and commits
/// to its body, but whose state ignores that body: the block must be
/// rejected although its header alone passes.
pub fn build_invalid_child_block_with_valid_header(parent: &Header) -> (r: Block)
    requires
        parent.height < u64::MAX,
    ensures
        r.header.is_child_of(*parent, words_digest(r.body@), parent.state),
        r.header.extrinsics_root == words_digest(r.body@),
        !r.extends(*parent),
{
    let body = vec![1u64];
    let root = hash_words(&body);
    let header = parent.child(root, parent.state);
    let block = Block { header, body };
    proof {
        assert(sum_of(block.body@) == 1) by {
            assert(block.body@.drop_last() =~= Seq::<u64>::empty());
            assert(sum_of(Seq::<u64>::empty()) == 0);
        }
    }
    block
}

} // verus!
