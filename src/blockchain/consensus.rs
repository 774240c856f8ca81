//! Headers that carry a state, the extrinsic that produced it, and a
//! proof-of-work nonce; chains of them are validated under an optional
//! fork rule.
use vstd::prelude::*;

use crate::digest::{hash_words, words_digest};

verus! {

/// Mining difficulty: a header is accepted only when its digest falls below
/// this bound (about one percent of the digest space). Both the solver and
/// the validator read it from here.
pub const THRESHOLD: u64 = u64::MAX / 100;

/// The last height at which no fork rule applies.
pub const FORK_HEIGHT: u64 = 2;

#[derive(Clone, Copy, Debug, PartialEq, Eq, Structural)]
pub struct Header {
    pub parent: u64,
    pub height: u64,
    pub extrinsic: u64,
    pub state: u64,
    pub consensus_digest: u64,
}

/// An extra consensus rule on the state of every header past `FORK_HEIGHT`.
#[derive(Clone, Copy, Debug, PartialEq, Eq, Structural)]
pub enum ForkRule {
    /// No extra rule: base validation only.
    Unrestricted,
    /// Every state past the fork is even.
    Even,
    /// Every state past the fork is odd.
    Odd,
}

/// Whether `rule` admits header `h`.
pub open spec fn rule_allows(rule: ForkRule, h: Header) -> bool {
    match rule {
        ForkRule::Unrestricted => true,
        ForkRule::Even => h.height > FORK_HEIGHT ==> h.state % 2 == 0,
        ForkRule::Odd => h.height > FORK_HEIGHT ==> h.state % 2 == 1,
    }
}

/// The header that position `i` of `chain` must extend: the anchor for the
/// first position, the previous candidate otherwise.
pub open spec fn predecessor(anchor: Header, chain: Seq<Header>, i: int) -> Header {
    if i == 0 {
        anchor
    } else {
        chain[i - 1]
    }
}

/// Every candidate extends its predecessor under `rule`.
pub open spec fn valid_sub_chain(anchor: Header, chain: Seq<Header>, rule: ForkRule) -> bool {
    forall|i: int|
        0 <= i < chain.len() ==> #[trigger] chain[i].extends(predecessor(anchor, chain, i), rule)
}

/// Each header of `chain` was minted by `child` from its predecessor, with
/// the matching entry of `extrinsics` as payload.
pub open spec fn minted_chain(anchor: Header, chain: Seq<Header>, extrinsics: Seq<u64>) -> bool {
    &&& chain.len() == extrinsics.len()
    &&& forall|i: int|
        0 <= i < chain.len() ==> #[trigger] chain[i].is_child_of(
            predecessor(anchor, chain, i),
            extrinsics[i],
        )
}

impl Header {
    /// The words that the digest covers, in field order.
    pub open spec fn words(self) -> Seq<u64> {
        seq![self.parent, self.height, self.extrinsic, self.state, self.consensus_digest]
    }

    pub open spec fn spec_digest(self) -> u64 {
        words_digest(self.words())
    }

    pub open spec fn with_nonce(self, n: u64) -> Header {
        Header { consensus_digest: n, ..self }
    }

    pub open spec fn meets_pow(self) -> bool {
        self.spec_digest() < THRESHOLD
    }

    /// The nonce is the least one that meets the target; when no nonce does,
    /// the search ran through the whole nonce space and stopped at its end.
    pub open spec fn has_least_nonce(self) -> bool {
        &&& forall|n: u64| n < self.consensus_digest ==> !#[trigger] self.with_nonce(n).meets_pow()
        &&& (self.meets_pow() || self.consensus_digest == u64::MAX)
    }

    pub open spec fn is_genesis(self) -> bool {
        &&& self.parent == 0
        &&& self.height == 0
        &&& self.extrinsic == 0
        &&& self.state == 0
        &&& self.consensus_digest == 0
    }

    /// What `child` returns for `parent` and `extrinsic`.
    pub open spec fn is_child_of(self, parent: Header, extrinsic: u64) -> bool {
        &&& self.parent == parent.spec_digest()
        &&& self.height == parent.height + 1
        &&& self.extrinsic == extrinsic
        &&& self.state == parent.state + extrinsic
        &&& self.has_least_nonce()
    }

    /// `self` is an acceptable successor of `last` under `rule`: linked by
    /// digest, one higher, with the state that its extrinsic yields, a digest
    /// under the target, and admitted by the rule.
    pub open spec fn extends(self, last: Header, rule: ForkRule) -> bool {
        &&& self.parent == last.spec_digest()
        &&& self.height == last.height + 1
        &&& self.state == last.state + self.extrinsic
        &&& self.meets_pow()
        &&& rule_allows(rule, self)
    }

    pub fn digest(&self) -> (r: u64)
        ensures
            r == self.spec_digest(),
    {
        let words = vec![self.parent, self.height, self.extrinsic, self.state, self.consensus_digest];
        proof {
            assert(words@ =~= self.words());
        }
        hash_words(&words)
    }

    /// The height-0 header: no parent, no extrinsic, state zero, nonce zero.
    /// It needs no proof of work.
    pub fn genesis() -> (r: Self)
        ensures
            r.is_genesis(),
    {
        Header { parent: 0, height: 0, extrinsic: 0, state: 0, consensus_digest: 0 }
    }

    /// The next header after `self`, carrying `extrinsic`, with its nonce
    /// found by `solve_pow`.
    pub fn child(&self, extrinsic: u64) -> (r: Self)
        requires
            self.height < u64::MAX,
            self.state + extrinsic <= u64::MAX,
        ensures
            r.height == self.height + 1,
            r.parent == self.spec_digest(),
            r.is_child_of(*self, extrinsic),
    {
        let mut header = Header {
            parent: self.digest(),
            height: self.height + 1,
            extrinsic,
            state: self.state + extrinsic,
            consensus_digest: 0,
        };
        solve_pow(&mut header);
        header
    }

    /// The checks of `extends`, given the digest of `last` and the digest of
    /// `self`: what `extends_exec` decides once it has computed them.
    pub fn extends_given_digests(
        &self,
        last: &Header,
        last_digest: u64,
        own_digest: u64,
        rule: ForkRule,
    ) -> (r: bool)
        ensures
            r == (self.parent == last_digest && self.height == last.height + 1 && self.state
                == last.state + self.extrinsic && own_digest < THRESHOLD && rule_allows(rule, *self)),
    {
        if self.parent != last_digest {
            return false;
        }
        if last.height == u64::MAX || self.height != last.height + 1 {
            return false;
        }
        if last.state > u64::MAX - self.extrinsic || self.state != last.state + self.extrinsic {
            return false;
        }
        if own_digest >= THRESHOLD {
            return false;
        }
        match rule {
            ForkRule::Unrestricted => true,
            ForkRule::Even => self.height <= FORK_HEIGHT || self.state % 2 == 0,
            ForkRule::Odd => self.height <= FORK_HEIGHT || self.state % 2 == 1,
        }
    }

    /// Whether `self` is an acceptable successor of `last` under `rule`.
    fn extends_exec(&self, last: &Header, rule: ForkRule) -> (r: bool)
        ensures
            r == self.extends(*last, rule),
    {
        self.extends_given_digests(last, last.digest(), self.digest(), rule)
    }

    /// Checks `chain` left to right against `self` under `rule`; the first
    /// header that fails rejects the whole chain.
    pub fn verify_sub_chain_with(&self, chain: &[Header], rule: ForkRule) -> (r: bool)
        ensures
            r == valid_sub_chain(*self, chain@, rule),
    {
        let mut last: Header = *self;
        let mut i: usize = 0;
        while i < chain.len()
            invariant
                0 <= i <= chain@.len(),
                last == predecessor(*self, chain@, i as int),
                forall|j: int|
                    0 <= j < i ==> #[trigger] chain@[j].extends(predecessor(*self, chain@, j), rule),
            decreases chain@.len() - i,
        {
            let h = chain[i];
            if !h.extends_exec(&last, rule) {
                assert(!chain@[i as int].extends(predecessor(*self, chain@, i as int), rule));
                return false;
            }
            last = h;
            i = i + 1;
        }
        true
    }

    /// Base validation: linkage, height, state and proof of work.
    pub fn verify_sub_chain(&self, chain: &[Header]) -> (r: bool)
        ensures
            r == valid_sub_chain(*self, chain@, ForkRule::Unrestricted),
    {
        self.verify_sub_chain_with(chain, ForkRule::Unrestricted)
    }

    /// Base validation, and every state past the fork is even.
    pub fn verify_sub_chain_even(&self, chain: &[Header]) -> (r: bool)
        ensures
            r == valid_sub_chain(*self, chain@, ForkRule::Even),
    {
        self.verify_sub_chain_with(chain, ForkRule::Even)
    }

    /// Base validation, and every state past the fork is odd.
    pub fn verify_sub_chain_odd(&self, chain: &[Header]) -> (r: bool)
        ensures
            r == valid_sub_chain(*self, chain@, ForkRule::Odd),
    {
        self.verify_sub_chain_with(chain, ForkRule::Odd)
    }
}

/// Searches nonces upwards from zero until the header's digest falls below
/// `THRESHOLD`, leaves that nonce in the header and returns it. Should no
/// nonce qualify, the search ends at the last nonce.
pub fn solve_pow(header: &mut Header) -> (r: u64)
    ensures
        *final(header) == old(header).with_nonce(r),
        final(header).has_least_nonce(),
{
    header.consensus_digest = 0;
    loop
        invariant
            *header == old(header).with_nonce(header.consensus_digest),
            forall|n: u64|
                n < header.consensus_digest ==> !#[trigger] old(header).with_nonce(n).meets_pow(),
        ensures
            header.meets_pow() || header.consensus_digest == u64::MAX,
        decreases u64::MAX - header.consensus_digest,
    {
        if header.digest() < THRESHOLD || header.consensus_digest == u64::MAX {
            break;
        }
        header.consensus_digest = header.consensus_digest + 1;
    }
    proof {
        assert forall|n: u64| n < header.consensus_digest implies !#[trigger] header.with_nonce(
            n,
        ).meets_pow() by {
            assert(header.with_nonce(n) == old(header).with_nonce(n));
        }
    }
    header.consensus_digest
}

/// A common prefix (genesis and two children, states 2 and 3) and two
/// suffixes that fork from its tip: one whose states stay even (4, 6) and one
/// whose states stay odd (5, 7).
pub fn build_contentious_forked_chain() -> (r: (Vec<Header>, Vec<Header>, Vec<Header>))
    ensures
        r.0@.len() == 3,
        r.0@[0].is_genesis(),
        minted_chain(r.0@[0], r.0@.subrange(1, 3), seq![2, 1]),
        minted_chain(r.0@[2], r.1@, seq![1, 2]),
        minted_chain(r.0@[2], r.2@, seq![2, 2]),
{
    let g = Header::genesis();
    let b1 = g.child(2);
    let b2 = b1.child(1);
    let even_3 = b2.child(1);
    let even_4 = even_3.child(2);
    let odd_3 = b2.child(2);
    let odd_4 = odd_3.child(2);
    let prefix = vec![g, b1, b2];
    let even = vec![even_3, even_4];
    let odd = vec![odd_3, odd_4];
    proof {
        assert(prefix@.subrange(1, 3) =~= seq![b1, b2]);
    }
    (prefix, even, odd)
}

/// Any anchor accepts the empty chain, under every rule.
pub proof fn lemma_empty_chain_accepted(anchor: Header, rule: ForkRule)
    ensures
        valid_sub_chain(anchor, Seq::<Header>::empty(), rule),
{
}

/// Validation is a function of the anchor and the candidates: two runs of
/// `verify_sub_chain` on the same pair give the same answer.
pub proof fn lemma_verify_deterministic(anchor: Header, chain: Seq<Header>, r1: bool, r2: bool)
    requires
        r1 == valid_sub_chain(anchor, chain, ForkRule::Unrestricted),
        r2 == valid_sub_chain(anchor, chain, ForkRule::Unrestricted),
    ensures
        r1 == r2,
{
}

/// A header that `child` built meets the proof-of-work target, provided that
/// some nonce for its other fields does.
pub proof fn lemma_child_meets_pow(h: Header, parent: Header, extrinsic: u64, n: u64)
    requires
        h.is_child_of(parent, extrinsic),
        h.with_nonce(n).meets_pow(),
    ensures
        h.meets_pow(),
{
    if !h.meets_pow() {
        assert(h.consensus_digest == u64::MAX);
        if n < h.consensus_digest {
            assert(!h.with_nonce(n).meets_pow());
        } else {
            assert(h.with_nonce(n) == h);
        }
    }
}

/// A chain that `child` built from the anchor passes base validation, as
/// long as every search found a nonce that meets the target.
pub proof fn lemma_minted_chain_valid(anchor: Header, chain: Seq<Header>, extrinsics: Seq<u64>)
    requires
        minted_chain(anchor, chain, extrinsics),
        forall|i: int| 0 <= i < chain.len() ==> (#[trigger] chain[i]).meets_pow(),
    ensures
        valid_sub_chain(anchor, chain, ForkRule::Unrestricted),
{
    assert forall|i: int| 0 <= i < chain.len() implies #[trigger] chain[i].extends(
        predecessor(anchor, chain, i),
        ForkRule::Unrestricted,
    ) by {
        assert(chain[i].is_child_of(predecessor(anchor, chain, i), extrinsics[i]));
    }
}

/// In a chain that passes base validation, replacing the parent link of one
/// header makes it fail.
pub proof fn lemma_changed_parent_rejected(anchor: Header, chain: Seq<Header>, i: int, v: u64)
    requires
        valid_sub_chain(anchor, chain, ForkRule::Unrestricted),
        0 <= i < chain.len(),
        v != chain[i].parent,
    ensures
        !valid_sub_chain(anchor, chain.update(i, Header { parent: v, ..chain[i] }), ForkRule::Unrestricted),
{
    let changed = chain.update(i, Header { parent: v, ..chain[i] });
    assert(chain[i].extends(predecessor(anchor, chain, i), ForkRule::Unrestricted));
    assert(predecessor(anchor, changed, i) == predecessor(anchor, chain, i));
    assert(!changed[i].extends(predecessor(anchor, changed, i), ForkRule::Unrestricted));
}

/// In a chain that passes base validation, changing the height of one header
/// makes it fail.
pub proof fn lemma_changed_height_rejected(anchor: Header, chain: Seq<Header>, i: int, v: u64)
    requires
        valid_sub_chain(anchor, chain, ForkRule::Unrestricted),
        0 <= i < chain.len(),
        v != chain[i].height,
    ensures
        !valid_sub_chain(anchor, chain.update(i, Header { height: v, ..chain[i] }), ForkRule::Unrestricted),
{
    let changed = chain.update(i, Header { height: v, ..chain[i] });
    assert(chain[i].extends(predecessor(anchor, chain, i), ForkRule::Unrestricted));
    assert(predecessor(anchor, changed, i) == predecessor(anchor, chain, i));
    assert(!changed[i].extends(predecessor(anchor, changed, i), ForkRule::Unrestricted));
}

/// In a chain that passes base validation, changing the state of one header
/// makes it fail.
pub proof fn lemma_changed_state_rejected(anchor: Header, chain: Seq<Header>, i: int, v: u64)
    requires
        valid_sub_chain(anchor, chain, ForkRule::Unrestricted),
        0 <= i < chain.len(),
        v != chain[i].state,
    ensures
        !valid_sub_chain(anchor, chain.update(i, Header { state: v, ..chain[i] }), ForkRule::Unrestricted),
{
    let changed = chain.update(i, Header { state: v, ..chain[i] });
    assert(chain[i].extends(predecessor(anchor, chain, i), ForkRule::Unrestricted));
    assert(predecessor(anchor, changed, i) == predecessor(anchor, chain, i));
    assert(!changed[i].extends(predecessor(anchor, changed, i), ForkRule::Unrestricted));
}

/// In a chain that passes base validation, changing the nonce of one header
/// makes it fail, unless the new nonce also meets the target and no later
/// header's link tells the two digests apart.
pub proof fn lemma_changed_nonce_rejected(anchor: Header, chain: Seq<Header>, i: int, v: u64)
    requires
        valid_sub_chain(anchor, chain, ForkRule::Unrestricted),
        0 <= i < chain.len(),
        !chain[i].with_nonce(v).meets_pow() || (i + 1 < chain.len()
            && chain[i].with_nonce(v).spec_digest() != chain[i].spec_digest()),
    ensures
        !valid_sub_chain(anchor, chain.update(i, chain[i].with_nonce(v)), ForkRule::Unrestricted),
{
    let changed = chain.update(i, chain[i].with_nonce(v));
    if !chain[i].with_nonce(v).meets_pow() {
        assert(!changed[i].extends(predecessor(anchor, changed, i), ForkRule::Unrestricted));
    } else {
        assert(chain[i + 1].extends(predecessor(anchor, chain, i + 1), ForkRule::Unrestricted));
        assert(predecessor(anchor, changed, i + 1) == changed[i]);
        assert(!changed[i + 1].extends(predecessor(anchor, changed, i + 1), ForkRule::Unrestricted));
    }
}

/// A chain that passes a fork rule passes base validation too.
pub proof fn lemma_fork_rule_implies_base(anchor: Header, chain: Seq<Header>, rule: ForkRule)
    requires
        valid_sub_chain(anchor, chain, rule),
    ensures
        valid_sub_chain(anchor, chain, ForkRule::Unrestricted),
{
    assert forall|i: int| 0 <= i < chain.len() implies #[trigger] chain[i].extends(
        predecessor(anchor, chain, i),
        ForkRule::Unrestricted,
    ) by {
        assert(chain[i].extends(predecessor(anchor, chain, i), rule));
    }
}

/// The even and the odd rule never both accept a chain that reaches past the
/// fork height.
pub proof fn lemma_fork_rules_exclusive(anchor: Header, chain: Seq<Header>, i: int)
    requires
        0 <= i < chain.len(),
        chain[i].height > FORK_HEIGHT,
    ensures
        !(valid_sub_chain(anchor, chain, ForkRule::Even) && valid_sub_chain(
            anchor,
            chain,
            ForkRule::Odd,
        )),
{
    if valid_sub_chain(anchor, chain, ForkRule::Even) {
        assert(chain[i].extends(predecessor(anchor, chain, i), ForkRule::Even));
        assert(!chain[i].extends(predecessor(anchor, chain, i), ForkRule::Odd));
    }
}

} // verus!
