//! A bounded pool of reusable connections.
//!
//! The pool is filled once, when it is built, and never grows or shrinks:
//! every connection is either idle in the pool or checked out to exactly one
//! holder. A caller that finds the pool exhausted waits and asks again.

use crate::queue::Queue;
use vstd::prelude::*;

verus! {

/// A fixed set of connections of type `C`, handed out first in, first out.
pub struct ConnectionPool<C> {
    idle: Queue<C>,
    size: usize,
    checked_out: usize,
}

/// The mathematical content of a [`ConnectionPool`].
pub struct PoolView<C> {
    /// The connections waiting in the pool, the next one to be handed out first.
    pub idle: Seq<C>,
    /// The number of connections that the pool was built with.
    pub size: nat,
    /// The number of connections that holders have and have not yet returned.
    pub checked_out: nat,
}

impl<C> PoolView<C> {
    /// Conservation: every connection is either idle or checked out.
    pub open spec fn wf(self) -> bool {
        self.idle.len() + self.checked_out == self.size
    }

    /// The pool after one connection has been checked out; unchanged when
    /// none is idle.
    pub open spec fn after_get(self) -> Self {
        if self.idle.len() > 0 {
            PoolView {
                idle: self.idle.drop_first(),
                checked_out: self.checked_out + 1,
                ..self
            }
        } else {
            self
        }
    }

    /// The pool after `connection` has come back; unchanged when nothing was
    /// checked out.
    pub open spec fn after_release(self, connection: C) -> Self {
        if self.checked_out > 0 {
            PoolView {
                idle: self.idle.push(connection),
                checked_out: (self.checked_out - 1) as nat,
                ..self
            }
        } else {
            self
        }
    }

    /// The pool after the steps in `ops`, taken in order.
    pub open spec fn after_all(self, ops: Seq<PoolOp<C>>) -> Self
        decreases ops.len(),
    {
        if ops.len() == 0 {
            self
        } else {
            let before = self.after_all(ops.drop_last());
            match ops.last() {
                PoolOp::Get => before.after_get(),
                PoolOp::Release(connection) => before.after_release(connection),
            }
        }
    }
}

/// One step in the life of a pool.
pub enum PoolOp<C> {
    /// A caller asks for a connection.
    Get,
    /// A holder's connection comes back.
    Release(C),
}

impl<C> View for ConnectionPool<C> {
    type V = PoolView<C>;

    closed spec fn view(&self) -> PoolView<C> {
        PoolView {
            idle: self.idle@,
            size: self.size as nat,
            checked_out: self.checked_out as nat,
        }
    }
}

/// A connection checked out of a [`ConnectionPool`]. Only
/// [`ConnectionPool::get`] makes one, and [`ConnectionPool::release`]
/// consumes it, so a connection cannot come back twice nor be used after it
/// came back.
pub struct PooledConnection<C> {
    connection: C,
}

impl<C> View for PooledConnection<C> {
    type V = C;

    closed spec fn view(&self) -> C {
        self.connection
    }
}

impl<C> PooledConnection<C> {
    /// The connection, to read from.
    pub fn connection(&self) -> (connection: &C)
        ensures
            *connection == self@,
    {
        &self.connection
    }

    /// The connection, to work with.
    pub fn connection_mut(&mut self) -> (connection: &mut C)
        ensures
            *connection == old(self)@,
            final(self)@ == *final(connection),
    {
        &mut self.connection
    }
}

impl<C> ConnectionPool<C> {
    /// Takes in the outcome of one attempt to establish a connection while
    /// a pool is built. A connection goes behind those that are idle
    /// already. A failure is handed back, and the connections made so far
    /// stay as they are: the construction ends there.
    pub fn take_in<E>(idle: &mut Queue<C>, outcome: Result<C, E>) -> (failed: Option<E>)
        ensures
            match outcome {
                Ok(connection) => failed is None && final(idle)@ == old(idle)@.push(connection),
                Err(e) => failed == Some(e) && final(idle)@ == old(idle)@,
            },
    {
        match outcome {
            Ok(connection) => {
                idle.push(connection);
                None
            },
            Err(e) => Some(e),
        }
    }

    /// Builds a pool of `size` connections, each made by one call of
    /// `connect`. The first failure ends the construction and is handed on:
    /// there is no pool with fewer connections than asked for.
    pub fn new<E, F: Fn() -> Result<C, E>>(size: usize, connect: F) -> (pool: Result<Self, E>)
        requires
            call_requires(connect, ()),
        ensures
            match pool {
                Ok(p) => {
                    &&& p@.wf()
                    &&& p@.size == size
                    &&& p@.checked_out == 0
                    &&& p@.idle.len() == size
                    &&& forall|i: int|
                        0 <= i < size ==> call_ensures(connect, (), Ok(#[trigger] p@.idle[i]))
                },
                Err(e) => size > 0 && call_ensures(connect, (), Err(e)),
            },
            (forall|r: Result<C, E>| call_ensures(connect, (), r) ==> r is Ok) ==> pool is Ok,
    {
        let mut idle: Queue<C> = Queue::new();
        let mut made: usize = 0;
        while made < size
            invariant
                made <= size,
                idle@.len() == made,
                call_requires(connect, ()),
                forall|i: int| 0 <= i < made ==> call_ensures(connect, (), Ok(#[trigger] idle@[i])),
            decreases size - made,
        {
            let ghost before = idle@;
            let outcome = connect();
            match Self::take_in(&mut idle, outcome) {
                Some(e) => {
                    return Err(e);
                },
                None => {
                    assert(idle@[made as int] == outcome->Ok_0);
                    assert forall|i: int| 0 <= i < made implies call_ensures(
                        connect,
                        (),
                        Ok(#[trigger] idle@[i]),
                    ) by {
                        assert(idle@[i] == before[i]);
                    }
                },
            }
            made = made + 1;
        }
        Ok(ConnectionPool { idle, size, checked_out: 0 })
    }

    /// Checks out the connection that has been idle longest, or answers
    /// `None` when all are checked out. The connection is handed out as it
    /// is: whether it still works shows when it is used.
    pub fn get(&mut self) -> (handle: Option<PooledConnection<C>>)
        requires
            old(self)@.wf(),
        ensures
            final(self)@ == old(self)@.after_get(),
            final(self)@.wf(),
            match handle {
                Some(h) => old(self)@.idle.len() > 0 && h@ == old(self)@.idle[0],
                None => old(self)@.idle.len() == 0,
            },
    {
        match self.idle.pop() {
            Some(connection) => {
                self.checked_out = self.checked_out + 1;
                Some(PooledConnection { connection })
            },
            None => None,
        }
    }

    /// Takes a checked-out connection back and puts it behind the idle ones.
    /// A handle offered while nothing is checked out cannot be this pool's:
    /// it is handed back and the pool stays as it is.
    pub fn release(&mut self, handle: PooledConnection<C>) -> (refused: Option<PooledConnection<C>>)
        requires
            old(self)@.wf(),
        ensures
            final(self)@ == old(self)@.after_release(handle@),
            final(self)@.wf(),
            match refused {
                Some(h) => old(self)@.checked_out == 0 && h@ == handle@,
                None => old(self)@.checked_out > 0,
            },
    {
        if self.checked_out == 0 {
            Some(handle)
        } else {
            self.checked_out = self.checked_out - 1;
            self.idle.push(handle.connection);
            None
        }
    }

    /// The number of connections that the pool was built with.
    pub fn size(&self) -> (size: usize)
        ensures
            size == self@.size,
    {
        self.size
    }

    /// The number of connections waiting in the pool.
    pub fn idle(&self) -> (idle: usize)
        ensures
            idle == self@.idle.len(),
    {
        self.idle.len()
    }

    /// The number of connections checked out and not yet returned.
    pub fn checked_out(&self) -> (out: usize)
        ensures
            out == self@.checked_out,
    {
        self.checked_out
    }
}

/// Pool conservation: whatever is asked of a pool, and in whatever order,
/// no more connections are checked out than it was built with, none is lost
/// and none is added; once every holder has returned its connection, all
/// are idle again.
pub proof fn lemma_pool_conservation<C>(pool: PoolView<C>, ops: Seq<PoolOp<C>>)
    requires
        pool.wf(),
    ensures
        pool.after_all(ops).wf(),
        pool.after_all(ops).size == pool.size,
        pool.after_all(ops).checked_out <= pool.size,
        pool.after_all(ops).checked_out == 0 ==> pool.after_all(ops).idle.len() == pool.size,
    decreases ops.len(),
{
    if ops.len() > 0 {
        lemma_pool_conservation(pool, ops.drop_last());
    }
}

} // verus!
