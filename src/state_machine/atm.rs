//! An automated teller machine: a card swipe sets the expected PIN digest,
//! keys enter the PIN and then the amount to withdraw, and Enter finishes
//! each of the two.
use vstd::prelude::*;

use crate::digest::{hash_words, words_digest};
use crate::state_machine::StateMachine;

verus! {

#[derive(Hash, Debug, PartialEq, Eq, Clone, Copy, Structural)]
pub enum Key {
    One,
    Two,
    Three,
    Four,
    Enter,
}

#[derive(Debug, PartialEq, Eq, Clone, Copy, Structural)]
pub enum Action {
    /// A card carrying the digest of its PIN.
    SwipeCard(u64),
    PressKey(Key),
}

#[derive(Debug, PartialEq, Eq, Clone, Copy, Structural)]
pub enum Auth {
    Waiting,
    /// A card was swiped; its PIN digest is expected.
    Authenticating(u64),
    Authenticated,
}

#[derive(Debug, PartialEq, Eq, Clone)]
pub struct Atm {
    pub cash_inside: u64,
    pub expected_pin_hash: Auth,
    pub keystroke_register: Vec<Key>,
}

/// The mathematical content of an `Atm`.
pub struct AtmView {
    pub cash_inside: u64,
    pub auth: Auth,
    pub register: Seq<Key>,
}

impl View for Atm {
    type V = AtmView;

    open spec fn view(&self) -> AtmView {
        AtmView {
            cash_inside: self.cash_inside,
            auth: self.expected_pin_hash,
            register: self.keystroke_register@,
        }
    }
}

/// The word that stands for a key: its digit, and zero for Enter.
pub open spec fn key_code(k: Key) -> u64 {
    match k {
        Key::One => 1,
        Key::Two => 2,
        Key::Three => 3,
        Key::Four => 4,
        Key::Enter => 0,
    }
}

/// The number that the digit keys spell in decimal; Enter is skipped.
pub open spec fn keys_value(keys: Seq<Key>) -> nat
    decreases keys.len(),
{
    if keys.len() == 0 {
        0
    } else if keys.last() == Key::Enter {
        keys_value(keys.drop_last())
    } else {
        (keys_value(keys.drop_last()) * 10 + key_code(keys.last())) as nat
    }
}

/// The words whose digest identifies a sequence of keys.
pub open spec fn pin_words(keys: Seq<Key>) -> Seq<u64> {
    keys.map_values(|k: Key| key_code(k))
}

/// A finished step: the register is emptied and the machine waits for a card.
pub open spec fn reset(cash_inside: u64) -> AtmView {
    AtmView { cash_inside, auth: Auth::Waiting, register: Seq::empty() }
}

/// One transition, where `entered` is the digest of the keys in the register.
/// Swiping a card only matters while waiting. While a PIN is being entered,
/// digit keys are recorded and Enter compares the digest of the recorded
/// keys with the card's. Once authenticated, digit keys record an amount and
/// Enter pays it out if the machine holds that much cash.
pub open spec fn atm_step_given(s: AtmView, t: Action, entered: u64) -> AtmView {
    match t {
        Action::SwipeCard(pin_hash) => match s.auth {
            Auth::Waiting => AtmView { auth: Auth::Authenticating(pin_hash), ..s },
            _ => s,
        },
        Action::PressKey(k) => match s.auth {
            Auth::Waiting => s,
            Auth::Authenticating(pin_hash) => if k != Key::Enter {
                AtmView { register: s.register.push(k), ..s }
            } else if entered == pin_hash {
                AtmView { auth: Auth::Authenticated, ..reset(s.cash_inside) }
            } else {
                reset(s.cash_inside)
            },
            Auth::Authenticated => if k != Key::Enter {
                AtmView { register: s.register.push(k), ..s }
            } else if keys_value(s.register) > s.cash_inside {
                reset(s.cash_inside)
            } else {
                reset((s.cash_inside - keys_value(s.register)) as u64)
            },
        },
    }
}

/// One transition of the machine.
pub open spec fn atm_step(s: AtmView, t: Action) -> AtmView {
    atm_step_given(s, t, words_digest(pin_words(s.register)))
}

/// A prefix of the keys never spells a larger number.
proof fn lemma_keys_value_prefix(keys: Seq<Key>, i: int)
    requires
        0 <= i <= keys.len(),
    ensures
        keys_value(keys.subrange(0, i)) <= keys_value(keys),
    decreases keys.len(),
{
    if i < keys.len() {
        assert(keys.drop_last().subrange(0, i) =~= keys.subrange(0, i));
        lemma_keys_value_prefix(keys.drop_last(), i);
    } else {
        assert(keys.subrange(0, i) =~= keys);
    }
}

/// The digest that a card carries for the PIN spelled by `keys`.
pub fn pin_digest(keys: &Vec<Key>) -> (r: u64)
    ensures
        r == words_digest(pin_words(keys@)),
{
    let mut words: Vec<u64> = Vec::new();
    let mut i: usize = 0;
    while i < keys.len()
        invariant
            i <= keys@.len(),
            words@ =~= pin_words(keys@.subrange(0, i as int)),
        decreases keys@.len() - i,
    {
        let code: u64 = match keys[i] {
            Key::One => 1,
            Key::Two => 2,
            Key::Three => 3,
            Key::Four => 4,
            Key::Enter => 0,
        };
        words.push(code);
        i = i + 1;
        assert(keys@.subrange(0, i as int).drop_last() =~= keys@.subrange(0, i - 1));
    }
    assert(keys@.subrange(0, i as int) =~= keys@);
    hash_words(&words)
}

/// The number that `keys` spell, or `None` when it does not fit a word.
fn keys_amount(keys: &Vec<Key>) -> (r: Option<u64>)
    ensures
        r == if keys_value(keys@) <= u64::MAX {
            Some(keys_value(keys@) as u64)
        } else {
            None::<u64>
        },
{
    let mut number: u64 = 0;
    let mut i: usize = 0;
    while i < keys.len()
        invariant
            i <= keys@.len(),
            number == keys_value(keys@.subrange(0, i as int)),
        decreases keys@.len() - i,
    {
        assert(keys@.subrange(0, i as int + 1).drop_last() =~= keys@.subrange(0, i as int));
        let digit: u64 = match keys[i] {
            Key::One => 1,
            Key::Two => 2,
            Key::Three => 3,
            Key::Four => 4,
            Key::Enter => {
                i = i + 1;
                continue;
            },
        };
        let next = match number.checked_mul(10) {
            Some(m) => m.checked_add(digit),
            None => None,
        };
        match next {
            Some(n) => {
                number = n;
            },
            None => {
                proof {
                    lemma_keys_value_prefix(keys@, i as int + 1);
                }
                return None;
            },
        }
        i = i + 1;
    }
    assert(keys@.subrange(0, i as int) =~= keys@);
    Some(number)
}

/// The number that the digit keys spell in decimal; Enter is skipped.
pub fn key_to_digit(keys: &Vec<Key>) -> (r: u64)
    requires
        keys_value(keys@) <= u64::MAX,
    ensures
        r == keys_value(keys@),
{
    match keys_amount(keys) {
        Some(n) => n,
        None => 0,
    }
}

/// A copy of the keys, in order.
fn copy_keys(keys: &Vec<Key>) -> (r: Vec<Key>)
    ensures
        r@ == keys@,
{
    let mut r: Vec<Key> = Vec::new();
    let mut i: usize = 0;
    while i < keys.len()
        invariant
            i <= keys@.len(),
            r@ =~= keys@.subrange(0, i as int),
        decreases keys@.len() - i,
    {
        r.push(keys[i]);
        i = i + 1;
    }
    assert(keys@.subrange(0, i as int) =~= keys@);
    r
}

impl Atm {
    /// One transition, given the digest of the keys in the register; what
    /// `next_state` does once it has computed that digest.
    pub fn next_state_with_pin_digest(starting_state: &Atm, t: &Action, entered: u64) -> (r: Atm)
        ensures
            r@ == atm_step_given(starting_state@, *t, entered),
    {
        let cash = starting_state.cash_inside;
        let waiting = Atm { cash_inside: cash, expected_pin_hash: Auth::Waiting, keystroke_register: Vec::new() };
        proof {
            assert(waiting@.register =~= Seq::<Key>::empty());
        }
        match t {
            Action::SwipeCard(pin_hash) => {
                let auth = match starting_state.expected_pin_hash {
                    Auth::Waiting => Auth::Authenticating(*pin_hash),
                    other => other,
                };
                Atm {
                    cash_inside: cash,
                    expected_pin_hash: auth,
                    keystroke_register: copy_keys(&starting_state.keystroke_register),
                }
            },
            Action::PressKey(k) => {
                match starting_state.expected_pin_hash {
                    Auth::Waiting => Atm {
                        cash_inside: cash,
                        expected_pin_hash: Auth::Waiting,
                        keystroke_register: copy_keys(&starting_state.keystroke_register),
                    },
                    Auth::Authenticating(pin_hash) => {
                        if *k != Key::Enter {
                            let mut register = copy_keys(&starting_state.keystroke_register);
                            register.push(*k);
                            Atm {
                                cash_inside: cash,
                                expected_pin_hash: Auth::Authenticating(pin_hash),
                                keystroke_register: register,
                            }
                        } else if entered == pin_hash {
                            Atm { expected_pin_hash: Auth::Authenticated, ..waiting }
                        } else {
                            waiting
                        }
                    },
                    Auth::Authenticated => {
                        if *k != Key::Enter {
                            let mut register = copy_keys(&starting_state.keystroke_register);
                            register.push(*k);
                            Atm {
                                cash_inside: cash,
                                expected_pin_hash: Auth::Authenticated,
                                keystroke_register: register,
                            }
                        } else {
                            match keys_amount(&starting_state.keystroke_register) {
                                Some(amount) => if amount > cash {
                                    waiting
                                } else {
                                    Atm { cash_inside: cash - amount, ..waiting }
                                },
                                None => waiting,
                            }
                        }
                    },
                }
            },
        }
    }
}

impl StateMachine for Atm {
    type State = Self;

    type Transition = Action;

    fn next_state(starting_state: &Atm, t: &Action) -> (r: Atm)
        ensures
            r@ == atm_step(starting_state@, *t),
    {
        let entered = pin_digest(&starting_state.keystroke_register);
        Atm::next_state_with_pin_digest(starting_state, t, entered)
    }
}

} // verus!
