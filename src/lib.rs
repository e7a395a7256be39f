//! Chaum-Pedersen zero-knowledge authentication: group arithmetic, the
//! prover's and verifier's computations, and the verifier's state machine.
pub mod bignum;
pub mod hexcode;
pub mod random;
pub mod store;
pub mod zkp;
pub mod auth;
pub mod theorems;
