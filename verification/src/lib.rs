//! A generic connection pool.
//!
//! A pool keeps a bounded number of connections that are expensive to make,
//! lends them out one caller at a time and takes them back. What a
//! connection is and how one is made is the business of a [`PoolManager`];
//! the pool keeps the books.
//!
//! # Layout
//!
//! * [`config`] holds the sizing and policy of a pool and their validation.
//! * [`model`] is the pool as a mathematical state machine: the state, its
//!   invariant and one transition for each thing that can happen to a pool.
//! * [`laws`] proves what follows for every pool.
//! * [`internals`] is the state in memory. Each of its steps carries out one
//!   transition of the model and keeps the invariant.
//! * [`pool`] is the pool a caller sees: [`Pool::new`], [`Pool::get`],
//!   [`PooledConnection::replace`] and the work of the helpers.
//!
//! # Who waits, and who works
//!
//! Nothing in this crate blocks, spawns or locks. [`Pool::get`] makes one
//! pass over the state and returns: with a connection, with a creation error
//! that was waiting for a caller, or with `Ok(None)` when the pool has
//! nothing to give yet. In that last case it has queued the creations it may
//! still launch, and the caller tries again after the helpers have worked,
//! which here means after [`Pool::run_helpers`]. A program that shares a
//! pool among threads keeps a [`PoolInternals`] under its own lock, waits on
//! its own condition where `get` would say `Ok(None)`, and lets its own
//! threads do what [`helper_task`] does; the steps and their contracts are
//! the same.
//!
//! # Leases
//!
//! A [`PooledConnection`] is a connection on loan. It owns the connection
//! until [`PooledConnection::replace`] hands it back, and since `replace`
//! takes the lease by value a lease is handed back at most once.
//!
//! A lease does not know its pool, so it cannot return anything by itself.
//! Letting a lease go out of scope without `replace` is a mistake of the
//! caller: the connection is closed with the lease, and the pool, which is
//! not told, keeps it on its books as leased and never fills its place.
//! Nothing panics. A caller that wants connections returned on scope exit
//! wraps pool and lease in a guard of its own.

pub mod config;
pub mod internals;
pub mod laws;
pub mod lease;
pub mod manager;
pub mod model;
pub mod pool;

pub use config::Config;
pub use internals::{CheckOut, PoolInternals, Signal};
pub use lease::PooledConnection;
pub use manager::PoolManager;
pub use pool::{
    add_connection, helper_task, test_connection, Command, InnerPool, NewPoolError, Pool,
};
