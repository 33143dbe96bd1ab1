//! A relay node for a peer-to-peer overlay network: it lets two peers that cannot dial each
//! other talk through it.
//!
//! The heart of the crate is the [`engine`], which grants reservations, brokers circuits
//! between a peer that asks and a peer that holds a reservation, counts what each circuit
//! forwards, and gives up what has run out of time or belongs to a peer that is gone. What
//! the engine holds is described as a mathematical value in [`state`], together with what
//! each event makes of it; [`laws`] proves what holds of that value whatever happens.
//!
//! Around the engine stand the [`prober`], which tells when a connection is dead, the
//! address [`discovery`] agent, which learns the addresses under which the node is seen,
//! and the [`dispatcher`], which hands each thing that happens to the part it is for.
//! [`config`] reads what the operator configured.
//!
//! The crate performs no input or output and reads no clock: the caller hands in what was
//! read and the time at which it was read, in milliseconds on a clock that does not go
//! back, and carries out what the crate answers.

pub mod address;
pub mod circuit;
pub mod clock;
pub mod config;
pub mod discovery;
pub mod dispatcher;
pub mod engine;
pub mod error;
pub mod hexcode;
pub mod identity;
pub mod laws;
pub mod ledger;
pub mod limits;
pub mod prober;
pub mod reservation;
pub mod state;
pub mod tally;
