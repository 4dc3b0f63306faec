//! The handle a caller holds while a connection is checked out.

use vstd::prelude::*;

verus! {

/// One connection on loan from a pool.
///
/// The lease owns its connection for as long as it lives: the pool has moved
/// the connection out of its idle queue and does not see it again before the
/// lease is handed back. A lease is handed back by value, so it can end only
/// once.
#[must_use]
pub struct PooledConnection<C> {
    conn: C,
    id: Ghost<nat>,
}

impl<C> PooledConnection<C> {
    /// The connection on loan.
    pub closed spec fn conn(&self) -> C {
        self.conn
    }

    /// The identity under which the pool has the connection on its books.
    pub closed spec fn id(&self) -> nat {
        self.id@
    }

    /// Puts `conn` under a lease with the identity `id`.
    pub(crate) fn issue(conn: C, Ghost(id): Ghost<nat>) -> (lease: Self)
        ensures
            lease.conn() == conn,
            lease.id() == id,
    {
        PooledConnection { conn, id: Ghost(id) }
    }

    /// Ends the lease and gives the connection up.
    pub(crate) fn surrender(self) -> (conn: C)
        ensures
            conn == self.conn(),
    {
        self.conn
    }
}

impl<C> core::ops::Deref for PooledConnection<C> {
    type Target = C;

    /// Read access to the connection, as if the lease were the connection.
    fn deref(&self) -> (conn: &C)
        ensures
            *conn == self.conn(),
    {
        &self.conn
    }
}

} // verus!
