//! Throttled multi-account task scheduling for a paginated, rate-limited
//! directory service, with the two policies that run on it: synchronising
//! follower and friend id sets, and following back at a fixed cadence.

pub mod account;
pub mod api;
pub mod bits;
pub mod clock;
pub mod follow_back;
pub mod follow_worker;
pub mod id_sync;
pub mod scheduler;
pub mod sync_worker;
