//! An account-based currency: a balance per user. Accounts whose balance
//! drops to zero are closed, and an operation that cannot be carried out
//! leaves every balance as it was.
use vstd::prelude::*;

use std::collections::HashMap;

use crate::state_machine::{StateMachine, User};

verus! {

broadcast use vstd::std_specs::hash::group_hash_axioms;

pub struct AccountedCurrency {}

/// The balance of every user that holds an account.
#[derive(Clone, Debug, PartialEq, Eq)]
pub struct Balances {
    accounts: HashMap<u64, u64>,
}

#[derive(Clone, Copy, Debug, PartialEq, Eq, Structural)]
pub enum AccountingTransaction {
    Mint { minter: User, amount: u64 },
    Burn { burner: User, amount: u64 },
    Transfer { sender: User, receiver: User, amount: u64 },
}

/// The key under which a user's balance is stored.
pub open spec fn user_key(u: User) -> u64 {
    match u {
        User::Alice => 0,
        User::Bob => 1,
        User::Charlie => 2,
    }
}

fn key_of(u: User) -> (r: u64)
    ensures
        r == user_key(u),
{
    match u {
        User::Alice => 0,
        User::Bob => 1,
        User::Charlie => 2,
    }
}

impl View for Balances {
    type V = Map<User, u64>;

    closed spec fn view(&self) -> Map<User, u64> {
        Map::new(
            |u: User| self.accounts@.contains_key(user_key(u)),
            |u: User| self.accounts@[user_key(u)],
        )
    }
}

/// A user's balance, zero for a user without an account.
pub open spec fn balance_of(m: Map<User, u64>, u: User) -> nat {
    if m.contains_key(u) {
        m[u] as nat
    } else {
        0
    }
}

/// The balances that a list of pairs describes; a later pair for the same
/// user overrides an earlier one.
pub open spec fn pairs_map(pairs: Seq<(User, u64)>) -> Map<User, u64>
    decreases pairs.len(),
{
    if pairs.len() == 0 {
        Map::empty()
    } else {
        pairs_map(pairs.drop_last()).insert(pairs.last().0, pairs.last().1)
    }
}

/// `m` with `u`'s balance set to `v`, closing the account when `v` is zero.
pub open spec fn with_balance(m: Map<User, u64>, u: User, v: nat) -> Map<User, u64> {
    if v == 0 {
        m.remove(u)
    } else {
        m.insert(u, v as u64)
    }
}

/// Minting a positive amount credits the minter, unless the balance would
/// overflow. Minting nothing closes the minter's account if it is empty.
pub open spec fn mint(m: Map<User, u64>, minter: User, amount: u64) -> Map<User, u64> {
    if amount > 0 {
        if balance_of(m, minter) + amount <= u64::MAX {
            m.insert(minter, (balance_of(m, minter) + amount) as u64)
        } else {
            m
        }
    } else if m.contains_key(minter) && m[minter] == 0 {
        m.remove(minter)
    } else {
        m
    }
}

/// Burning debits the burner; burning at least the whole balance closes the
/// account. A user without an account burns nothing.
pub open spec fn burn(m: Map<User, u64>, burner: User, amount: u64) -> Map<User, u64> {
    if m.contains_key(burner) {
        if m[burner] > amount {
            m.insert(burner, (m[burner] - amount) as u64)
        } else {
            m.remove(burner)
        }
    } else {
        m
    }
}

/// A transfer needs a sender account holding at least the amount; the sender
/// is debited, then the receiver credited. It fails as a whole if the
/// receiver's balance would overflow.
pub open spec fn transfer(m: Map<User, u64>, sender: User, receiver: User, amount: u64) -> Map<
    User,
    u64,
> {
    if m.contains_key(sender) && m[sender] >= amount {
        let debited = with_balance(m, sender, (m[sender] - amount) as nat);
        if balance_of(debited, receiver) + amount <= u64::MAX {
            with_balance(debited, receiver, (balance_of(debited, receiver) + amount) as nat)
        } else {
            m
        }
    } else {
        m
    }
}

pub open spec fn accounting_step(m: Map<User, u64>, t: AccountingTransaction) -> Map<User, u64> {
    match t {
        AccountingTransaction::Mint { minter, amount } => mint(m, minter, amount),
        AccountingTransaction::Burn { burner, amount } => burn(m, burner, amount),
        AccountingTransaction::Transfer { sender, receiver, amount } => transfer(
            m,
            sender,
            receiver,
            amount,
        ),
    }
}

/// Distinct users have distinct keys.
proof fn lemma_user_key_injective()
    ensures
        forall|a: User, b: User| user_key(a) == user_key(b) ==> a == b,
{
}

impl Balances {
    /// No accounts.
    pub fn new() -> (r: Self)
        ensures
            r@ == Map::<User, u64>::empty(),
    {
        let r = Balances { accounts: HashMap::new() };
        assert(r@ =~= Map::<User, u64>::empty());
        r
    }

    /// The accounts that `pairs` list, a later pair for a user overriding an
    /// earlier one.
    pub fn from_pairs(pairs: &[(User, u64)]) -> (r: Self)
        ensures
            r@ == pairs_map(pairs@),
    {
        let mut r = Balances::new();
        let mut i: usize = 0;
        while i < pairs.len()
            invariant
                i <= pairs@.len(),
                r@ == pairs_map(pairs@.subrange(0, i as int)),
            decreases pairs@.len() - i,
        {
            let (u, v) = pairs[i];
            r.set(u, v);
            i = i + 1;
            assert(pairs@.subrange(0, i as int).drop_last() =~= pairs@.subrange(0, i - 1));
        }
        assert(pairs@.subrange(0, i as int) =~= pairs@);
        r
    }

    /// The user's balance, if the user holds an account.
    pub fn get(&self, u: User) -> (r: Option<u64>)
        ensures
            r == (if self@.contains_key(u) {
                Some(self@[u])
            } else {
                None::<u64>
            }),
    {
        match self.accounts.get(&key_of(u)) {
            Some(v) => Some(*v),
            None => None,
        }
    }

    /// Opens or updates `u`'s account with balance `v`.
    pub fn set(&mut self, u: User, v: u64)
        ensures
            final(self)@ == old(self)@.insert(u, v),
    {
        proof {
            lemma_user_key_injective();
        }
        self.accounts.insert(key_of(u), v);
        assert(final(self)@ =~= old(self)@.insert(u, v));
    }

    /// Closes `u`'s account, if there is one.
    pub fn remove(&mut self, u: User)
        ensures
            final(self)@ == old(self)@.remove(u),
    {
        proof {
            lemma_user_key_injective();
        }
        self.accounts.remove(&key_of(u));
        assert(final(self)@ =~= old(self)@.remove(u));
    }

    /// Sets `u`'s balance to `v`, closing the account when `v` is zero.
    fn set_or_close(&mut self, u: User, v: u64)
        ensures
            final(self)@ == with_balance(old(self)@, u, v as nat),
    {
        if v == 0 {
            self.remove(u);
        } else {
            self.set(u, v);
        }
    }

    /// A copy with the same accounts.
    fn duplicate(&self) -> (r: Self)
        ensures
            r@ == self@,
    {
        Balances { accounts: self.accounts.clone() }
    }
}

impl StateMachine for AccountedCurrency {
    type State = Balances;

    type Transition = AccountingTransaction;

    fn next_state(starting_state: &Balances, transition: &AccountingTransaction) -> (r: Balances)
        ensures
            r@ == accounting_step(starting_state@, *transition),
    {
        let mut new_state = starting_state.duplicate();
        match transition {
            AccountingTransaction::Mint { minter, amount } => {
                if *amount > 0 {
                    let balance = match new_state.get(*minter) {
                        Some(b) => b,
                        None => 0,
                    };
                    if balance <= u64::MAX - *amount {
                        new_state.set(*minter, balance + *amount);
                    }
                } else {
                    if let Some(balance) = new_state.get(*minter) {
                        if balance == 0 {
                            new_state.remove(*minter);
                        }
                    }
                }
            },
            AccountingTransaction::Burn { burner, amount } => {
                if let Some(balance) = new_state.get(*burner) {
                    if balance > *amount {
                        new_state.set(*burner, balance - *amount);
                    } else {
                        new_state.remove(*burner);
                    }
                }
            },
            AccountingTransaction::Transfer { sender, receiver, amount } => {
                if let Some(sender_balance) = new_state.get(*sender) {
                    if sender_balance >= *amount {
                        new_state.set_or_close(*sender, sender_balance - *amount);
                        let receiver_balance = match new_state.get(*receiver) {
                            Some(b) => b,
                            None => 0,
                        };
                        if receiver_balance <= u64::MAX - *amount {
                            new_state.set_or_close(*receiver, receiver_balance + *amount);
                        } else {
                            return starting_state.duplicate();
                        }
                    }
                }
            },
        }
        new_state
    }
}

} // verus!
