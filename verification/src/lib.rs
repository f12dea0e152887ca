//! Dining philosophers at a round table: a deadlock-free protocol for actors
//! that each need the two sticks next to them, with
//! proofs over a model of the whole table that it is safe and never stuck.

pub mod ensemble;
pub mod liveness;
pub mod naming;
pub mod policy;
pub mod philosofer;
pub mod safety;
pub mod stick;
pub mod table;
pub mod timing;
