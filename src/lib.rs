//! A transaction-proving service core: a single-flight worker guard, a worker
//! registry with health tracking, and a load-balancing proxy that routes proof
//! requests across a fleet of workers; plus the account header whose hash
//! commits to an account's state.

pub mod account;
pub mod error;
pub mod worker;
pub mod registry;
pub mod proxy;
