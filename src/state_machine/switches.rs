//! Light switches: a single toggle, and a pair in which turning the first
//! one off also turns the second one off.
use vstd::prelude::*;

use crate::state_machine::StateMachine;

verus! {

/// One switch: every transition flips it.
pub struct LightSwitch;

impl StateMachine for LightSwitch {
    type State = bool;

    type Transition = ();

    fn next_state(starting_state: &bool, _transition: &()) -> (r: bool)
        ensures
            r == !*starting_state,
    {
        match starting_state {
            true => false,
            false => true,
        }
    }
}

/// Two switches wired together: turning the first off turns the second off
/// too; otherwise each toggle flips its own switch.
pub struct WeirdStateMachine;

#[derive(Clone, Copy, PartialEq, Eq, Debug, Structural)]
pub struct TwoSwitches {
    pub first_switch: bool,
    pub second_switch: bool,
}

impl TwoSwitches {
    pub fn new(first_switch: bool, second_switch: bool) -> (r: Self)
        ensures
            r.first_switch == first_switch,
            r.second_switch == second_switch,
    {
        TwoSwitches { first_switch, second_switch }
    }
}

#[derive(Clone, Copy, PartialEq, Eq, Debug, Structural)]
pub enum Toggle {
    FirstSwitch,
    SecondSwitch,
}

/// The next position of the two switches.
pub open spec fn two_switches_step(s: TwoSwitches, t: Toggle) -> TwoSwitches {
    match t {
        Toggle::FirstSwitch => if s.first_switch {
            TwoSwitches { first_switch: false, second_switch: false }
        } else {
            TwoSwitches { first_switch: true, second_switch: s.second_switch }
        },
        Toggle::SecondSwitch => TwoSwitches {
            first_switch: s.first_switch,
            second_switch: !s.second_switch,
        },
    }
}

impl StateMachine for WeirdStateMachine {
    type State = TwoSwitches;

    type Transition = Toggle;

    fn next_state(starting_state: &TwoSwitches, transition: &Toggle) -> (r: TwoSwitches)
        ensures
            r == two_switches_step(*starting_state, *transition),
    {
        match transition {
            Toggle::FirstSwitch => {
                if starting_state.first_switch {
                    TwoSwitches { first_switch: false, second_switch: false }
                } else {
                    TwoSwitches { first_switch: true, second_switch: starting_state.second_switch }
                }
            },
            Toggle::SecondSwitch => {
                TwoSwitches {
                    first_switch: starting_state.first_switch,
                    second_switch: !starting_state.second_switch,
                }
            },
        }
    }
}

} // verus!
