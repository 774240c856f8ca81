//! A header-chain consensus engine together with a family of small
//! transition functions (state machines) that can drive a chain's state.
pub mod blockchain;
pub mod digest;
pub mod state_machine;
