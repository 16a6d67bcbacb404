//! A donation counter: a persistent counter that advances when a call carries
//! a qualifying payment, can be reset by its owner, and whose funds only the
//! owner may withdraw. The handlers are pure functions from the stored state
//! and the request to the new state and the transfers that the host performs.
pub mod coin;
pub mod contract;
pub mod error;
pub mod msg;
pub mod state;
pub mod lemmas;
pub mod bank;
