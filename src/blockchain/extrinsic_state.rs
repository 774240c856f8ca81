//! Headers that carry an extrinsic and the running state it produces: each
//! header's state is its parent's state plus its own extrinsic.
use vstd::prelude::*;

use crate::blockchain::{lemma_sum_of_prefix, lemma_sum_of_push, sum_of};
use crate::digest::{hash_words, words_digest};

verus! {

#[derive(Clone, Copy, Debug, PartialEq, Eq, Structural)]
pub struct Header {
    pub parent: u64,
    pub height: u64,
    pub extrinsic: u64,
    pub state: u64,
}

/// The header that position `i` of `chain` must extend.
pub open spec fn predecessor(anchor: Header, chain: Seq<Header>, i: int) -> Header {
    if i == 0 {
        anchor
    } else {
        chain[i - 1]
    }
}

/// Every header extends its predecessor.
pub open spec fn valid_sub_chain(anchor: Header, chain: Seq<Header>) -> bool {
    forall|i: int| 0 <= i < chain.len() ==> #[trigger] chain[i].extends(predecessor(anchor, chain, i))
}

impl Header {
    /// The words that the digest covers, in field order.
    pub open spec fn words(self) -> Seq<u64> {
        seq![self.parent, self.height, self.extrinsic, self.state]
    }

    pub open spec fn spec_digest(self) -> u64 {
        words_digest(self.words())
    }

    pub open spec fn is_genesis(self) -> bool {
        &&& self.parent == 0
        &&& self.height == 0
        &&& self.extrinsic == 0
        &&& self.state == 0
    }

    /// Linked to `last`, one higher, and with `last`'s state plus its own
    /// extrinsic.
    pub open spec fn extends(self, last: Header) -> bool {
        &&& self.parent == last.spec_digest()
        &&& self.height == last.height + 1
        &&& self.state == last.state + self.extrinsic
    }

    /// What `child` returns for `parent` and `extrinsic`.
    pub open spec fn is_child_of(self, parent: Header, extrinsic: u64) -> bool {
        &&& self.extrinsic == extrinsic
        &&& self.extends(parent)
    }

    pub fn digest(&self) -> (r: u64)
        ensures
            r == self.spec_digest(),
    {
        let words = vec![self.parent, self.height, self.extrinsic, self.state];
        proof {
            assert(words@ =~= self.words());
        }
        hash_words(&words)
    }

    /// The height-0 header: no parent, no extrinsic, state zero.
    pub fn genesis() -> (r: Self)
        ensures
            r.is_genesis(),
    {
        Header { parent: 0, height: 0, extrinsic: 0, state: 0 }
    }

    /// The next header after `self`, carrying `extrinsic`.
    pub fn child(&self, extrinsic: u64) -> (r: Self)
        requires
            self.height < u64::MAX,
            self.state + extrinsic <= u64::MAX,
        ensures
            r.is_child_of(*self, extrinsic),
    {
        Header {
            parent: self.digest(),
            height: self.height + 1,
            extrinsic,
            state: self.state + extrinsic,
        }
    }

    /// Checks `chain` left to right against `self`; the first header that is
    /// not linked, not one higher, or whose state is not its predecessor's
    /// plus its extrinsic rejects the chain.
    pub fn verify_sub_chain(&self, chain: &[Header]) -> (r: bool)
        ensures
            r == valid_sub_chain(*self, chain@),
    {
        let mut last: Header = *self;
        let mut i: usize = 0;
        while i < chain.len()
            invariant
                0 <= i <= chain@.len(),
                last == predecessor(*self, chain@, i as int),
                forall|j: int| 0 <= j < i ==> #[trigger] chain@[j].extends(predecessor(*self, chain@, j)),
            decreases chain@.len() - i,
        {
            let h = chain[i];
            if h.parent != last.digest() || last.height == u64::MAX || h.height != last.height + 1
                || last.state > u64::MAX - h.extrinsic || h.state != last.state + h.extrinsic {
                assert(!chain@[i as int].extends(predecessor(*self, chain@, i as int)));
                return false;
            }
            last = h;
            i = i + 1;
        }
        true
    }
}

/// Starting from genesis, applies the extrinsics of `n.1` one by one and
/// collects every header before it is extended: genesis first, then each
/// child but the one built from the last extrinsic. The first component of
/// `n` is not read.
pub fn build_valid_chain(n: (u64, Vec<u64>)) -> (r: Vec<Header>)
    requires
        sum_of(n.1@) <= u64::MAX,
    ensures
        r@.len() == n.1@.len(),
        r@.len() > 0 ==> r@[0].is_genesis(),
        forall|i: int| 0 < i < r@.len() ==> #[trigger] r@[i].is_child_of(r@[i - 1], n.1@[i - 1]),
        r@.len() > 0 ==> valid_sub_chain(r@[0], r@.subrange(1, r@.len() as int)),
{
    let (_, extrinsics) = n;
    let mut chain: Vec<Header> = Vec::new();
    let mut current = Header::genesis();
    let mut i: usize = 0;
    while i < extrinsics.len()
        invariant
            i <= extrinsics@.len(),
            sum_of(extrinsics@) <= u64::MAX,
            chain@.len() == i,
            current.height == i,
            current.state == sum_of(extrinsics@.subrange(0, i as int)),
            i == 0 ==> current.is_genesis(),
            i > 0 ==> chain@[0].is_genesis(),
            i > 0 ==> current.is_child_of(chain@[i - 1], extrinsics@[i - 1]),
            forall|j: int|
                0 < j < i ==> #[trigger] chain@[j].is_child_of(chain@[j - 1], extrinsics@[j - 1]),
        decreases extrinsics@.len() - i,
    {
        proof {
            lemma_sum_of_push(extrinsics@, i as int);
            lemma_sum_of_prefix(extrinsics@, i as int + 1);
        }
        let next = current.child(extrinsics[i]);
        chain.push(current);
        current = next;
        i = i + 1;
    }
    proof {
        if chain@.len() > 0 {
            let tail = chain@.subrange(1, chain@.len() as int);
            assert forall|k: int| 0 <= k < tail.len() implies #[trigger] tail[k].extends(
                predecessor(chain@[0], tail, k),
            ) by {
                let j = k + 1;
                assert(chain@[j].is_child_of(chain@[j - 1], extrinsics@[j - 1]));
                assert(predecessor(chain@[0], tail, k) == chain@[k]);
            }
        }
    }
    chain
}

/// Two chains from genesis that share no header after it: one with
/// extrinsics 1 then 3, the other with 2 then 3.
pub fn build_forked_chain() -> (r: (Vec<Header>, Vec<Header>))
    ensures
        r.0@.len() == 3 && r.1@.len() == 3,
        r.0@[0].is_genesis() && r.1@[0].is_genesis(),
        r.0@[1].is_child_of(r.0@[0], 1) && r.0@[2].is_child_of(r.0@[1], 3),
        r.1@[1].is_child_of(r.1@[0], 2) && r.1@[2].is_child_of(r.1@[1], 3),
        valid_sub_chain(r.0@[0], r.0@.subrange(1, 3)),
        valid_sub_chain(r.1@[0], r.1@.subrange(1, 3)),
{
    let genesis = Header::genesis();
    let block_1 = genesis.child(1);
    let block_2 = block_1.child(3);
    let block_1_prim = genesis.child(2);
    let block_2_prim = block_1_prim.child(3);
    let first = vec![genesis, block_1, block_2];
    let second = vec![genesis, block_1_prim, block_2_prim];
    proof {
        let t0 = first@.subrange(1, 3);
        let t1 = second@.subrange(1, 3);
        assert(t0 =~= seq![block_1, block_2]);
        assert(t1 =~= seq![block_1_prim, block_2_prim]);
        assert(predecessor(genesis, t0, 1) == block_1);
        assert(predecessor(genesis, t1, 1) == block_1_prim);
    }
    (first, second)
}

} // verus!
