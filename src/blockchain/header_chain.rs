//! The plainest chain: headers linked by their parent's digest and numbered
//! by height, with no payload.
use vstd::prelude::*;

use crate::digest::{hash_words, words_digest};

verus! {

#[derive(Clone, Copy, Debug, PartialEq, Eq, Structural)]
pub struct Header {
    pub parent: u64,
    pub height: u64,
}

/// The header that position `i` of `chain` must extend.
pub open spec fn predecessor(anchor: Header, chain: Seq<Header>, i: int) -> Header {
    if i == 0 {
        anchor
    } else {
        chain[i - 1]
    }
}

/// Every header is linked to its predecessor's digest and one higher.
pub open spec fn valid_sub_chain(anchor: Header, chain: Seq<Header>) -> bool {
    forall|i: int| 0 <= i < chain.len() ==> #[trigger] chain[i].extends(predecessor(anchor, chain, i))
}

impl Header {
    /// The words that the digest covers.
    pub open spec fn words(self) -> Seq<u64> {
        seq![self.parent, self.height]
    }

    pub open spec fn spec_digest(self) -> u64 {
        words_digest(self.words())
    }

    pub open spec fn extends(self, last: Header) -> bool {
        &&& self.parent == last.spec_digest()
        &&& self.height == last.height + 1
    }

    pub fn digest(&self) -> (r: u64)
        ensures
            r == self.spec_digest(),
    {
        let words = vec![self.parent, self.height];
        proof {
            assert(words@ =~= self.words());
        }
        hash_words(&words)
    }

    /// The height-0 header with no parent.
    pub fn genesis() -> (r: Self)
        ensures
            r.parent == 0,
            r.height == 0,
    {
        Header { parent: 0, height: 0 }
    }

    /// The next header after `self`.
    pub fn child(&self) -> (r: Self)
        requires
            self.height < u64::MAX,
        ensures
            r.parent == self.spec_digest(),
            r.height == self.height + 1,
    {
        Header { parent: self.digest(), height: self.height + 1 }
    }

    /// Checks `chain` left to right against `self`; the first header that is
    /// not linked to its predecessor, or not one higher, rejects the chain.
    pub fn verify_sub_chain(&self, chain: &[Header]) -> (r: bool)
        ensures
            r == valid_sub_chain(*self, chain@),
    {
        let mut last: Header = *self;
        let mut i: usize = 0;
        while i < chain.len()
            invariant
                0 <= i <= chain@.len(),
                last == predecessor(*self, chain@, i as int),
                forall|j: int| 0 <= j < i ==> #[trigger] chain@[j].extends(predecessor(*self, chain@, j)),
            decreases chain@.len() - i,
        {
            let h = chain[i];
            if h.parent != last.digest() || last.height == u64::MAX || h.height != last.height + 1 {
                assert(!chain@[i as int].extends(predecessor(*self, chain@, i as int)));
                return false;
            }
            last = h;
            i = i + 1;
        }
        true
    }
}

/// Genesis followed by four children, each built from the one before.
pub fn build_valid_chain_length_5() -> (r: Vec<Header>)
    ensures
        r@.len() == 5,
        r@[0].parent == 0 && r@[0].height == 0,
        valid_sub_chain(r@[0], r@.subrange(1, 5)),
{
    let g = Header::genesis();
    let b1 = g.child();
    let b2 = b1.child();
    let b3 = b2.child();
    let b4 = b3.child();
    let chain = vec![g, b1, b2, b3, b4];
    proof {
        let tail = chain@.subrange(1, 5);
        assert(tail =~= seq![b1, b2, b3, b4]);
        assert forall|i: int| 0 <= i < tail.len() implies #[trigger] tail[i].extends(
            predecessor(g, tail, i),
        ) by {
            assert(predecessor(g, tail, i) == chain@[i]);
        }
    }
    chain
}

/// Genesis, a valid child, and then a header whose height skips ahead.
pub fn build_an_invalid_chain() -> (r: Vec<Header>)
    ensures
        r@.len() == 3,
        r@[0].parent == 0 && r@[0].height == 0,
        !valid_sub_chain(r@[0], r@.subrange(1, 3)),
{
    let g = Header::genesis();
    let b1 = g.child();
    let mut b2 = b1.child();
    b2.height = 10;
    let chain = vec![g, b1, b2];
    proof {
        let tail = chain@.subrange(1, 3);
        assert(tail[1] == b2);
        assert(predecessor(g, tail, 1) == b1);
        assert(!tail[1].extends(predecessor(g, tail, 1)));
    }
    chain
}

} // verus!
