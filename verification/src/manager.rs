//! What the pool asks of the resource it manages.

use vstd::prelude::*;

verus! {

/// Database-specific functionality, supplied by the user of the pool.
///
/// The pool promises nothing about what either method returns and is
/// specified for every outcome: a creation may fail at any time, and a
/// connection that was good a moment ago may be broken now.
pub trait PoolManager<C, E>: Send + Sync {
    /// Attempts to create a new connection.
    fn connect(&self) -> Result<C, E>;

    /// Determines whether the connection is still usable.
    fn is_valid(&self, conn: &C) -> bool;
}

} // verus!
