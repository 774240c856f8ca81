//! A piece of clothing through its life: every action wears it by one unit
//! of durability, and it is tattered once that runs out.
use vstd::prelude::*;

use crate::state_machine::StateMachine;

verus! {

pub struct ClothesMachine;

/// A piece of clothing and its remaining durability.
#[derive(Clone, Copy, PartialEq, Eq, Debug, Structural)]
pub enum ClothesState {
    Clean(u64),
    Dirty(u64),
    Wet(u64),
    Tattered,
}

#[derive(Clone, Copy, PartialEq, Eq, Debug, Structural)]
pub enum ClothesAction {
    Wear,
    Wash,
    Dry,
}

/// The durability left, if the clothing is not tattered.
pub open spec fn durability(s: ClothesState) -> Option<u64> {
    match s {
        ClothesState::Clean(i) => Some(i),
        ClothesState::Dirty(i) => Some(i),
        ClothesState::Wet(i) => Some(i),
        ClothesState::Tattered => None,
    }
}

/// The condition that `a` leaves clothing in, with durability `i`: wearing
/// dirties it, washing wets it, and drying cleans wet clothing but leaves
/// clean or dirty clothing as it was.
pub open spec fn after(s: ClothesState, a: ClothesAction, i: u64) -> ClothesState {
    match a {
        ClothesAction::Wear => ClothesState::Dirty(i),
        ClothesAction::Wash => ClothesState::Wet(i),
        ClothesAction::Dry => match s {
            ClothesState::Dirty(_) => ClothesState::Dirty(i),
            _ => ClothesState::Clean(i),
        },
    }
}

/// Every action costs one unit of durability; clothing with at most one unit
/// left becomes tattered, and tattered clothing stays so.
pub open spec fn clothes_step(s: ClothesState, a: ClothesAction) -> ClothesState {
    match durability(s) {
        None => ClothesState::Tattered,
        Some(i) => if i <= 1 {
            ClothesState::Tattered
        } else {
            after(s, a, (i - 1) as u64)
        },
    }
}

impl StateMachine for ClothesMachine {
    type State = ClothesState;

    type Transition = ClothesAction;

    fn next_state(starting_state: &ClothesState, transition: &ClothesAction) -> (r: ClothesState)
        ensures
            r == clothes_step(*starting_state, *transition),
    {
        let i = match starting_state {
            ClothesState::Clean(i) => *i,
            ClothesState::Dirty(i) => *i,
            ClothesState::Wet(i) => *i,
            ClothesState::Tattered => {
                return ClothesState::Tattered;
            },
        };
        if i <= 1 {
            return ClothesState::Tattered;
        }
        let left = i - 1;
        match transition {
            ClothesAction::Wear => ClothesState::Dirty(left),
            ClothesAction::Wash => ClothesState::Wet(left),
            ClothesAction::Dry => match starting_state {
                ClothesState::Dirty(_) => ClothesState::Dirty(left),
                _ => ClothesState::Clean(left),
            },
        }
    }
}

} // verus!
