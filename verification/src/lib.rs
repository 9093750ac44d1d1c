//! Verified core of a multi-file reader: a store of decoded uploads fed by
//! independent, unordered read tasks, a dispatcher that starts a fresh batch
//! per selection, and a pure projection of the store into display rows.

pub mod dispatch;
pub mod laws;
pub mod results;
pub mod store;
pub mod task;
