//! A bill-based currency: the state is a set of unspent bills and the serial
//! number that the next bill will carry. A transfer spends existing bills
//! and creates new ones worth no more than it spent; a transfer that breaks
//! a rule leaves the state as it was.
use vstd::prelude::*;

use crate::state_machine::{StateMachine, User};

verus! {

pub struct DigitalCashSystem;

#[derive(Clone, Copy, Debug, Eq, PartialEq, Hash, Structural)]
pub struct Bill {
    pub owner: User,
    pub amount: u64,
    pub serial: u64,
}

/// The unspent bills, kept as a list whose order carries no meaning, and the
/// next serial number.
#[derive(Clone, Debug)]
pub struct State {
    bills: Vec<Bill>,
    next_serial: u64,
}

/// The mathematical content of a `State`.
pub struct StateView {
    pub bills: Set<Bill>,
    pub next_serial: u64,
}

impl View for State {
    type V = StateView;

    closed spec fn view(&self) -> StateView {
        StateView { bills: self.bills@.to_set(), next_serial: self.next_serial }
    }
}

#[derive(Clone, Debug)]
pub enum CashTransaction {
    Mint { minter: User, amount: u64 },
    Transfer { spends: Vec<Bill>, receives: Vec<Bill> },
}

/// The total value of a list of bills.
pub open spec fn amount_sum(bills: Seq<Bill>) -> nat
    decreases bills.len(),
{
    if bills.len() == 0 {
        0
    } else {
        (amount_sum(bills.drop_last()) + bills.last().amount) as nat
    }
}

/// The rules of a transfer: it spends at least one bill, each spent bill is
/// unspent and listed once, each new bill is worth something and carries
/// the next serial number in turn, the serial numbers do not run out, and
/// the new bills are worth no more than the spent ones.
pub open spec fn transfer_valid(s: StateView, spends: Seq<Bill>, receives: Seq<Bill>) -> bool {
    &&& spends.len() > 0
    &&& forall|i: int| 0 <= i < spends.len() ==> s.bills.contains(#[trigger] spends[i])
    &&& spends.no_duplicates()
    &&& forall|i: int|
        0 <= i < receives.len() ==> (#[trigger] receives[i]).amount > 0 && receives[i].serial
            == s.next_serial + i
    &&& s.next_serial + receives.len() <= u64::MAX
    &&& amount_sum(receives) <= amount_sum(spends)
}

/// Minting creates a bill for the minter with the next serial number, as
/// long as serial numbers remain. A valid transfer replaces the spent bills
/// by the new ones; any other transfer changes nothing.
pub open spec fn cash_step(s: StateView, t: CashTransaction) -> StateView {
    match t {
        CashTransaction::Mint { minter, amount } => if s.next_serial < u64::MAX {
            StateView {
                bills: s.bills.insert(Bill { owner: minter, amount, serial: s.next_serial }),
                next_serial: (s.next_serial + 1) as u64,
            }
        } else {
            s
        },
        CashTransaction::Transfer { spends, receives } => if transfer_valid(s, spends@, receives@) {
            StateView {
                bills: s.bills.difference(spends@.to_set()).union(receives@.to_set()),
                next_serial: (s.next_serial + receives@.len()) as u64,
            }
        } else {
            s
        },
    }
}

/// Appending a bill to a list adds it to the list's set.
proof fn lemma_push_to_set(s: Seq<Bill>, x: Bill)
    ensures
        s.push(x).to_set() == s.to_set().insert(x),
{
    assert forall|y: Bill| s.push(x).contains(y) <==> s.to_set().insert(x).contains(y) by {
        if s.push(x).contains(y) && y != x {
            let k = choose|k: int| 0 <= k < s.push(x).len() && s.push(x)[k] == y;
            assert(s[k] == y);
        }
        if s.contains(y) {
            let k = choose|k: int| 0 <= k < s.len() && s[k] == y;
            assert(s.push(x)[k] == y);
        }
        if y == x {
            assert(s.push(x)[s.len() as int] == y);
        }
    }
    assert(s.push(x).to_set() =~= s.to_set().insert(x));
}

/// Whether `b` occurs among the first `n` bills of `v`.
fn occurs_in_prefix(v: &Vec<Bill>, n: usize, b: Bill) -> (r: bool)
    requires
        n <= v@.len(),
    ensures
        r == (exists|j: int| 0 <= j < n && v@[j] == b),
{
    let mut i: usize = 0;
    while i < n
        invariant
            i <= n <= v@.len(),
            forall|j: int| 0 <= j < i ==> v@[j] != b,
        decreases n - i,
    {
        if v[i] == b {
            return true;
        }
        i = i + 1;
    }
    false
}

/// Whether `b` occurs in `v`.
fn contains_bill(v: &Vec<Bill>, b: Bill) -> (r: bool)
    ensures
        r == v@.contains(b),
{
    occurs_in_prefix(v, v.len(), b)
}

/// Whether every bill of `a` occurs in `b`.
fn all_within(a: &Vec<Bill>, b: &Vec<Bill>) -> (r: bool)
    ensures
        r == (forall|x: Bill| a@.contains(x) ==> b@.contains(x)),
{
    let mut i: usize = 0;
    while i < a.len()
        invariant
            i <= a@.len(),
            forall|j: int| 0 <= j < i ==> b@.contains(#[trigger] a@[j]),
        decreases a@.len() - i,
    {
        if !contains_bill(b, a[i]) {
            assert(a@.contains(a@[i as int]));
            return false;
        }
        i = i + 1;
    }
    true
}

/// The total value of `v`, which always fits 128 bits.
fn total_amount(v: &Vec<Bill>) -> (r: u128)
    ensures
        r == amount_sum(v@),
{
    let mut acc: u128 = 0;
    let mut i: usize = 0;
    while i < v.len()
        invariant
            i <= v@.len(),
            acc == amount_sum(v@.subrange(0, i as int)),
            acc <= i * 0xffff_ffff_ffff_ffffu128,
        decreases v@.len() - i,
    {
        assert(v@.subrange(0, i + 1).drop_last() =~= v@.subrange(0, i as int));
        assert(i + 1 <= 0xffff_ffff_ffff_ffffu128);
        acc = acc + v[i].amount as u128;
        i = i + 1;
    }
    assert(v@.subrange(0, i as int) =~= v@);
    acc
}

/// The bills of `bills` that `spends` does not list.
fn without_spent(bills: &Vec<Bill>, spends: &Vec<Bill>) -> (r: Vec<Bill>)
    ensures
        r@.to_set() == bills@.to_set().difference(spends@.to_set()),
{
    let mut kept: Vec<Bill> = Vec::new();
    let mut i: usize = 0;
    while i < bills.len()
        invariant
            i <= bills@.len(),
            kept@.to_set() == bills@.subrange(0, i as int).to_set().difference(spends@.to_set()),
        decreases bills@.len() - i,
    {
        let b = bills[i];
        proof {
            assert(bills@.subrange(0, i + 1) =~= bills@.subrange(0, i as int).push(b));
            lemma_push_to_set(bills@.subrange(0, i as int), b);
        }
        if !contains_bill(spends, b) {
            proof {
                lemma_push_to_set(kept@, b);
            }
            kept.push(b);
        }
        i = i + 1;
        assert(kept@.to_set() =~= bills@.subrange(0, i as int).to_set().difference(spends@.to_set()));
    }
    assert(bills@.subrange(0, i as int) =~= bills@);
    kept
}

/// Whether the spent bills are all unspent and listed once each.
fn spends_ok(bills: &Vec<Bill>, spends: &Vec<Bill>) -> (r: bool)
    ensures
        r == ((forall|i: int| 0 <= i < spends@.len() ==> bills@.contains(#[trigger] spends@[i]))
            && spends@.no_duplicates()),
{
    let mut i: usize = 0;
    while i < spends.len()
        invariant
            i <= spends@.len(),
            forall|j: int| 0 <= j < i ==> bills@.contains(#[trigger] spends@[j]),
            spends@.subrange(0, i as int).no_duplicates(),
        decreases spends@.len() - i,
    {
        if !contains_bill(bills, spends[i]) {
            return false;
        }
        if occurs_in_prefix(spends, i, spends[i]) {
            assert(!spends@.no_duplicates()) by {
                let j = choose|j: int| 0 <= j < i && spends@[j] == spends@[i as int];
                assert(spends@[j] == spends@[i as int]);
            }
            return false;
        }
        let ghost prev = spends@.subrange(0, i as int);
        let ghost next = spends@.subrange(0, i + 1);
        assert forall|a: int, b: int| 0 <= a < b < next.len() implies next[a] != next[b] by {
            if b < i {
                assert(prev[a] != prev[b]);
            } else {
                assert(spends@[a] != spends@[i as int]);
            }
        }
        i = i + 1;
    }
    assert(spends@.subrange(0, i as int) =~= spends@);
    true
}

/// Whether the new bills are each worth something, carry consecutive serial
/// numbers from `next_serial` on, and leave serial numbers to spare.
fn receives_ok(next_serial: u64, receives: &Vec<Bill>) -> (r: bool)
    ensures
        r == ((forall|i: int|
            0 <= i < receives@.len() ==> (#[trigger] receives@[i]).amount > 0
                && receives@[i].serial == next_serial + i) && next_serial + receives@.len()
            <= u64::MAX),
{
    let mut i: usize = 0;
    while i < receives.len()
        invariant
            i <= receives@.len(),
            forall|j: int|
                0 <= j < i ==> (#[trigger] receives@[j]).amount > 0 && receives@[j].serial
                    == next_serial + j,
        decreases receives@.len() - i,
    {
        let bill = receives[i];
        if bill.amount == 0 || bill.serial as u128 != next_serial as u128 + i as u128 {
            return false;
        }
        i = i + 1;
    }
    next_serial as u128 + receives.len() as u128 <= u64::MAX as u128
}

impl State {
    /// No bills; the next serial number is zero.
    pub fn new() -> (r: Self)
        ensures
            r@.bills == Set::<Bill>::empty(),
            r@.next_serial == 0,
    {
        let r = State { bills: Vec::new(), next_serial: 0 };
        assert(r@.bills =~= Set::<Bill>::empty());
        r
    }

    pub fn set_serial(&mut self, serial: u64)
        ensures
            final(self)@.bills == old(self)@.bills,
            final(self)@.next_serial == serial,
    {
        self.next_serial = serial;
    }

    pub fn next_serial(&self) -> (r: u64)
        ensures
            r == self@.next_serial,
    {
        self.next_serial
    }

    fn increment_serial(&mut self)
        requires
            old(self)@.next_serial < u64::MAX,
        ensures
            final(self)@.bills == old(self)@.bills,
            final(self)@.next_serial == old(self)@.next_serial + 1,
    {
        self.next_serial = self.next_serial + 1;
    }

    /// Adds `elem` to the unspent bills and moves on to the next serial
    /// number.
    fn add_bill(&mut self, elem: Bill)
        requires
            old(self)@.next_serial < u64::MAX,
        ensures
            final(self)@.bills == old(self)@.bills.insert(elem),
            final(self)@.next_serial == old(self)@.next_serial + 1,
    {
        if !contains_bill(&self.bills, elem) {
            proof {
                lemma_push_to_set(self.bills@, elem);
            }
            self.bills.push(elem);
        } else {
            assert(self.bills@.to_set() =~= old(self)@.bills.insert(elem));
        }
        self.increment_serial();
    }

    /// A state holding `bills`, reached by adding them one by one to a new
    /// state: the next serial number is their count.
    pub fn from_bills(bills: &[Bill]) -> (r: Self)
        ensures
            r@.bills == bills@.to_set(),
            r@.next_serial == bills@.len(),
    {
        let mut state = State::new();
        let mut i: usize = 0;
        while i < bills.len()
            invariant
                i <= bills@.len(),
                state@.bills == bills@.subrange(0, i as int).to_set(),
                state@.next_serial == i,
            decreases bills@.len() - i,
        {
            proof {
                assert(bills@.subrange(0, i + 1) =~= bills@.subrange(0, i as int).push(bills@[i as int]));
                lemma_push_to_set(bills@.subrange(0, i as int), bills@[i as int]);
            }
            state.add_bill(bills[i]);
            i = i + 1;
        }
        assert(bills@.subrange(0, i as int) =~= bills@);
        state
    }

    /// A copy with the same bills and serial number.
    fn duplicate(&self) -> (r: Self)
        ensures
            r@ == self@,
    {
        let mut bills: Vec<Bill> = Vec::new();
        let mut i: usize = 0;
        while i < self.bills.len()
            invariant
                i <= self.bills@.len(),
                bills@ =~= self.bills@.subrange(0, i as int),
            decreases self.bills@.len() - i,
        {
            bills.push(self.bills[i]);
            i = i + 1;
        }
        assert(self.bills@.subrange(0, i as int) =~= self.bills@);
        State { bills, next_serial: self.next_serial }
    }
}

impl PartialEq for State {
    /// Equal when they hold the same set of bills, in whatever order, and
    /// the same next serial number.
    fn eq(&self, other: &State) -> (r: bool)
        ensures
            r == (self@ == other@),
    {
        let same = self.next_serial == other.next_serial && all_within(&self.bills, &other.bills)
            && all_within(&other.bills, &self.bills);
        proof {
            if all_within_spec(self.bills@, other.bills@) && all_within_spec(other.bills@, self.bills@) {
                assert(self.bills@.to_set() =~= other.bills@.to_set());
            }
            if self@ == other@ {
                assert forall|x: Bill| self.bills@.contains(x) implies other.bills@.contains(x) by {
                    assert(self.bills@.to_set().contains(x));
                }
                assert forall|x: Bill| other.bills@.contains(x) implies self.bills@.contains(x) by {
                    assert(other.bills@.to_set().contains(x));
                }
            }
        }
        same
    }
}

spec fn all_within_spec(a: Seq<Bill>, b: Seq<Bill>) -> bool {
    forall|x: Bill| a.contains(x) ==> b.contains(x)
}

impl vstd::std_specs::cmp::PartialEqSpecImpl for State {
    open spec fn obeys_eq_spec() -> bool {
        true
    }

    open spec fn eq_spec(&self, other: &State) -> bool {
        self@ == other@
    }
}

impl Eq for State {

}

impl StateMachine for DigitalCashSystem {
    type State = State;

    type Transition = CashTransaction;

    fn next_state(starting_state: &State, t: &CashTransaction) -> (r: State)
        ensures
            r@ == cash_step(starting_state@, *t),
    {
        match t {
            CashTransaction::Mint { minter, amount } => {
                let mut new_state = starting_state.duplicate();
                if new_state.next_serial < u64::MAX {
                    let bill = Bill { owner: *minter, amount: *amount, serial: new_state.next_serial };
                    new_state.add_bill(bill);
                }
                new_state
            },
            CashTransaction::Transfer { spends, receives } => {
                if spends.len() == 0 || !spends_ok(&starting_state.bills, spends) || !receives_ok(
                    starting_state.next_serial,
                    receives,
                ) || total_amount(receives) > total_amount(spends) {
                    return starting_state.duplicate();
                }
                let ghost s = starting_state@;
                let kept = without_spent(&starting_state.bills, spends);
                let mut new_state = State { bills: kept, next_serial: starting_state.next_serial };
                assert(new_state@.bills =~= s.bills.difference(spends@.to_set()));
                let mut j: usize = 0;
                while j < receives.len()
                    invariant
                        j <= receives@.len(),
                        s.next_serial + receives@.len() <= u64::MAX,
                        new_state@.next_serial == s.next_serial + j,
                        new_state@.bills == s.bills.difference(spends@.to_set()).union(
                            receives@.subrange(0, j as int).to_set(),
                        ),
                    decreases receives@.len() - j,
                {
                    proof {
                        assert(receives@.subrange(0, j + 1) =~= receives@.subrange(0, j as int).push(
                            receives@[j as int],
                        ));
                        lemma_push_to_set(receives@.subrange(0, j as int), receives@[j as int]);
                    }
                    new_state.add_bill(receives[j]);
                    j = j + 1;
                    assert(new_state@.bills =~= s.bills.difference(spends@.to_set()).union(
                        receives@.subrange(0, j as int).to_set(),
                    ));
                }
                assert(receives@.subrange(0, j as int) =~= receives@);
                new_state
            },
        }
    }
}

} // verus!
