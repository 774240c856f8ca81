//! Transition functions: each folds one transition into a state.
use vstd::prelude::*;

pub mod accounted_currency;
pub mod atm;
pub mod laundry;
pub mod switches;
pub mod utxo_currency;

verus! {

/// A state machine: a total, deterministic function from a state and a
/// transition to the next state. Each implementation states its own
/// transition in the `ensures` of its `next_state`.
pub trait StateMachine {
    type State;

    type Transition;

    fn next_state(starting_state: &Self::State, transition: &Self::Transition) -> Self::State;

    fn human_name() -> (r: String)
        default_ensures
            r@ == "Unnamed state machine"@,
    {
        "Unnamed state machine".to_owned()
    }
}

/// The participants of the currency machines.
#[derive(Hash, Eq, PartialEq, Debug, Clone, Copy, Structural)]
pub enum User {
    Alice,
    Bob,
    Charlie,
}

} // verus!
