//! The pool itself: construction, checkout, return, and the work of its
//! helpers.
//!
//! This pool is driven by its caller. [`Pool::get`] never waits: where the
//! pool has nothing to hand out it queues the creations it wants and says
//! so, and the caller lets the helpers work the queue off, with
//! [`Pool::run_helpers`], before it asks again. Since nobody waits, nobody
//! is woken: what the steps of the state say about waking a caller goes
//! unused here.

use std::collections::VecDeque;
use vstd::prelude::*;
use vstd::string::StringExecFns;
use crate::config::Config;
use crate::internals::{CheckOut, PoolInternals};
use crate::lease::PooledConnection;
use crate::manager::PoolManager;
use crate::model::{Answer, PoolState};

verus! {

/// Why a pool could not be built.
#[derive(Debug, PartialEq, Eq)]
pub enum NewPoolError<E> {
    /// The provided pool configuration was invalid.
    InvalidConfig(&'static str),
    /// The manager returned an error when creating a connection.
    ConnectionError(E),
}

impl<E: core::fmt::Display> NewPoolError<E> {
    /// The error in words: what went wrong, followed by the reason or by
    /// the manager's own account of its error.
    pub fn message(&self) -> (text: String)
        ensures
            match self {
                NewPoolError::InvalidConfig(reason) => text@ == "Invalid config: "@ + reason@,
                NewPoolError::ConnectionError(err) => exists|cause: String|
                    #[trigger] vstd::string::to_string_from_display_ensures::<E>(err, cause)
                        && text@ == "Unable to create connections: "@ + cause@,
            },
    {
        match self {
            NewPoolError::InvalidConfig(reason) => String::from_str("Invalid config: ").concat(
                reason,
            ),
            NewPoolError::ConnectionError(err) => {
                let cause = err.to_string();
                String::from_str("Unable to create connections: ").concat(cause.as_str())
            },
        }
    }
}

/// Work that is handed to a helper.
pub enum Command<C> {
    /// Create a connection for the pool.
    AddConnection,
    /// Test a connection and keep it if it is still good.
    TestConnection(C),
}

impl<C> Command<C> {
    /// Whether `answer` is something a helper can bring back for this
    /// command.
    pub open spec fn admits<E>(self, answer: Answer<C, E>) -> bool {
        match self {
            Command::AddConnection => answer is Connection || answer is Failure,
            Command::TestConnection(conn) => answer == Answer::<C, E>::Connection(conn)
                || answer is Nothing,
        }
    }
}

/// Whether `answers` holds one admissible answer for each of `commands`.
pub open spec fn answers_to<C, E>(commands: Seq<Command<C>>, answers: Seq<Answer<C, E>>) -> bool {
    &&& answers.len() == commands.len()
    &&& forall|i: int| 0 <= i < commands.len() ==> (#[trigger] commands[i]).admits(answers[i])
}

/// Whether every one of `commands` asks for a creation.
pub open spec fn all_creations<C>(commands: Seq<Command<C>>) -> bool {
    forall|i: int| 0 <= i < commands.len() ==> #[trigger] commands[i] is AddConnection
}

/// Whether `after` is what `before` becomes when helpers work `commands`
/// off in order, each with an answer its command admits.
pub open spec fn worked_off<C, E>(
    before: PoolState<C, E>,
    after: PoolState<C, E>,
    commands: Seq<Command<C>>,
) -> bool {
    exists|answers: Seq<Answer<C, E>>| #[trigger]
        answers_to(commands, answers) && after == before.answer_all(answers)
}

/// The part of a pool that its helpers work on: the configuration, the
/// manager and the state.
pub struct InnerPool<C, E, M> {
    config: Config,
    manager: M,
    internals: PoolInternals<C, E>,
}

impl<C, E, M> View for InnerPool<C, E, M> {
    type V = PoolState<C, E>;

    closed spec fn view(&self) -> PoolState<C, E> {
        self.internals@
    }
}

impl<C, E, M: PoolManager<C, E>> InnerPool<C, E, M> {
    /// The configuration the pool was built with.
    pub closed spec fn config(&self) -> Config {
        self.config
    }

    /// The configuration is valid and the state is one it allows.
    pub open spec fn wf(&self) -> bool {
        &&& self.config().valid()
        &&& self@.inv(self.config())
    }

    /// Puts a configuration, a manager and a state together.
    pub fn new(config: Config, manager: M, internals: PoolInternals<C, E>) -> (inner: Self)
        requires
            config.valid(),
            internals.wf(config),
        ensures
            inner.wf(),
            inner.config() == config,
            inner@ == internals@,
    {
        InnerPool { config, manager, internals }
    }

    /// The state, to look at.
    pub fn internals(&self) -> (internals: &PoolInternals<C, E>)
        ensures
            internals@ == self@,
    {
        &self.internals
    }

    /// Takes the three apart again.
    pub fn into_parts(self) -> (parts: (Config, M, PoolInternals<C, E>))
        ensures
            parts.0 == self.config(),
            parts.2@ == self@,
    {
        (self.config, self.manager, self.internals)
    }
}

/// A generic connection pool.
pub struct Pool<C, E, M> {
    helper_chan: VecDeque<Command<C>>,
    inner: InnerPool<C, E, M>,
}

impl<C, E, M> View for Pool<C, E, M> {
    type V = PoolState<C, E>;

    closed spec fn view(&self) -> PoolState<C, E> {
        self.inner@
    }
}

impl<C, E, M: PoolManager<C, E>> Pool<C, E, M> {
    /// The configuration the pool was built with.
    pub closed spec fn config(&self) -> Config {
        self.inner.config()
    }

    /// The commands that wait for a helper, the oldest first.
    pub closed spec fn commands(&self) -> Seq<Command<C>> {
        self.helper_chan@
    }

    /// The pool is in order: its state is one the configuration allows, and
    /// the commands that wait are exactly those the state counts as owed,
    /// each of them a creation.
    pub open spec fn wf(&self) -> bool {
        &&& self.config().valid()
        &&& self@.inv(self.config())
        &&& self.commands().len() == self@.pending
        &&& all_creations(self.commands())
    }

    /// Creates a new connection pool.
    ///
    /// An invalid configuration is refused with the reason. Otherwise the
    /// manager is asked for `initial_size` connections, one after another;
    /// the first error ends the attempt and is returned, and the
    /// connections made so far are dropped. Where every creation succeeds
    /// the pool starts with those connections idle, in the order they were
    /// made, and with nothing else on its books.
    pub fn new(config: Config, manager: M) -> (res: Result<Pool<C, E, M>, NewPoolError<E>>)
        ensures
            match res {
                Ok(pool) => {
                    &&& config.valid()
                    &&& pool.wf()
                    &&& pool.config() == config
                    &&& pool@ == PoolState::<C, E>::fresh(pool@.idle)
                    &&& pool@.idle.len() == config.initial_size
                    &&& pool.commands().len() == 0
                },
                Err(NewPoolError::InvalidConfig(reason)) => {
                    &&& !config.valid()
                    &&& config.rejection() == Some(reason@)
                },
                Err(NewPoolError::ConnectionError(_)) => {
                    &&& config.valid()
                    &&& config.initial_size > 0
                },
            },
            config.valid() && config.initial_size == 0 ==> res is Ok,
    {
        match config.validate() {
            Ok(()) => {},
            Err(err) => {
                return Err(NewPoolError::InvalidConfig(err));
            },
        }
        let mut conns: VecDeque<C> = VecDeque::new();
        let mut made: usize = 0;
        while made < config.initial_size
            invariant
                made <= config.initial_size,
                conns@.len() == made,
                config.valid(),
            decreases config.initial_size - made,
        {
            match manager.connect() {
                Ok(conn) => {
                    conns.push_back(conn);
                },
                Err(err) => {
                    return Err(NewPoolError::ConnectionError(err));
                },
            }
            made = made + 1;
        }
        let internals = PoolInternals::new(&config, conns);
        Ok(Pool { helper_chan: VecDeque::new(), inner: InnerPool::new(config, manager, internals) })
    }

    /// Takes the pool apart into its configuration, its manager, its state
    /// and the commands that wait for a helper.
    pub fn into_parts(self) -> (parts: (Config, M, PoolInternals<C, E>, VecDeque<Command<C>>))
        ensures
            parts.0 == self.config(),
            parts.2@ == self@,
            parts.3@ == self.commands(),
    {
        let (config, manager, internals) = self.inner.into_parts();
        (config, manager, internals, self.helper_chan)
    }

    /// The number of connections the pool counts as its own.
    pub fn total(&self) -> (n: usize)
        ensures
            n == self@.total,
    {
        self.inner.internals.total()
    }

    /// The number of idle connections.
    pub fn idle_count(&self) -> (n: usize)
        ensures
            n == self@.idle.len(),
    {
        self.inner.internals.idle_count()
    }

    /// The number of creation errors that wait for a caller.
    pub fn failed_count(&self) -> (n: usize)
        ensures
            n == self@.failed.len(),
    {
        self.inner.internals.failed_count()
    }

    /// The number of connections that are out under lease.
    pub fn leased_count(&self) -> (n: usize)
        requires
            self.wf(),
        ensures
            n == self@.leased.len(),
    {
        self.inner.internals.total() - self.inner.internals.idle_count() - self.helper_chan.len()
    }

    /// The number of commands that wait for a helper.
    pub fn pending_count(&self) -> (n: usize)
        ensures
            n == self.commands().len(),
    {
        self.helper_chan.len()
    }

    /// Retrieves a connection from the pool, without waiting.
    ///
    /// `Ok(Some(lease))` is a connection on loan and `Err(err)` a creation
    /// error that was waiting for a caller, as [`PoolInternals::check_out`]
    /// finds them. `Ok(None)` says that the pool has nothing to give yet:
    /// it has queued one creation for each connection it may still add, and
    /// the caller asks again once the helpers have worked.
    pub fn get(&mut self) -> (res: Result<Option<PooledConnection<C>>, E>)
        requires
            old(self).wf(),
        ensures
            final(self).wf(),
            final(self).config() == old(self).config(),
            match res {
                Ok(Some(lease)) => {
                    let k = (old(self)@.total - final(self)@.total) as nat;
                    &&& final(self)@.total <= old(self)@.total
                    &&& k < old(self)@.idle.len()
                    &&& lease.conn() == old(self)@.idle[k as int]
                    &&& lease.id() == old(self)@.idle_ids[k as int]
                    &&& final(self)@ == old(self)@.reject_front(k).lease_front()
                    &&& final(self)@.leased.contains(lease.id())
                    &&& !final(self)@.idle_ids.contains(lease.id())
                    &&& final(self).commands() == old(self).commands()
                },
                Err(err) => {
                    &&& old(self)@.failed.len() > 0
                    &&& err == old(self)@.failed[0]
                    &&& final(self)@ == old(self)@.reject_front(
                        old(self)@.idle.len(),
                    ).deliver_failure()
                    &&& final(self).commands() == old(self).commands()
                },
                Ok(None) => {
                    let drained = old(self)@.reject_front(old(self)@.idle.len());
                    let n = drained.deficit(old(self).config());
                    &&& old(self)@.failed.len() == 0
                    &&& final(self)@ == drained.reserve(n)
                    &&& final(self).commands() == old(self).commands() + Seq::new(
                        n,
                        |i: int| Command::AddConnection,
                    )
                },
            },
            !old(self).config().test_on_check_out && old(self)@.idle.len() > 0 ==> (res matches Ok(
                Some(_),
            )) && final(self)@ == old(self)@.lease_front(),
    {
        let config = self.inner.config;
        match self.inner.internals.check_out(&config, &self.inner.manager) {
            CheckOut::Ready(lease) => Ok(Some(lease)),
            CheckOut::Failed(err) => Err(err),
            CheckOut::Wait(n) => {
                let ghost before = self.helper_chan@;
                let ghost inner = self.inner;
                let mut sent: usize = 0;
                while sent < n
                    invariant
                        sent <= n,
                        self.inner == inner,
                        self.helper_chan@ == before + Seq::new(
                            sent as nat,
                            |i: int| Command::AddConnection,
                        ),
                    decreases n - sent,
                {
                    self.helper_chan.push_back(Command::AddConnection);
                    sent = sent + 1;
                }
                Ok(None)
            },
        }
    }

    /// Lets the helpers work: every command that waits is answered, the
    /// oldest first, as [`helper_task`] answers it.
    pub fn run_helpers(&mut self)
        requires
            old(self).wf(),
        ensures
            final(self).wf(),
            final(self).config() == old(self).config(),
            final(self).commands().len() == 0,
            worked_off(old(self)@, final(self)@, old(self).commands()),
            old(self)@.helped(final(self)@, old(self)@.pending),
            final(self)@.idle.len() + final(self)@.failed.len() == old(self)@.idle.len() + old(
                self,
            )@.failed.len() + old(self)@.pending,
    {
        helper_task(&mut self.helper_chan, &mut self.inner);
    }

    /// Takes a connection back at the end of its lease.
    pub fn put_back(&mut self, lease: PooledConnection<C>)
        requires
            old(self).wf(),
            old(self)@.leased.contains(lease.id()),
        ensures
            final(self).wf(),
            final(self).config() == old(self).config(),
            final(self).commands() == old(self).commands(),
            final(self)@ == old(self)@.put_back(lease.id(), lease.conn()),
    {
        let config = self.inner.config;
        let _ = self.inner.internals.put_back(&config, lease);
    }
}

impl<C> PooledConnection<C> {
    /// Consumes the lease, returning the connection to its pool.
    ///
    /// The connection becomes the newest idle connection of the pool, and
    /// the pool no longer has it down as leased.
    pub fn replace<E, M: PoolManager<C, E>>(self, pool: &mut Pool<C, E, M>)
        requires
            old(pool).wf(),
            old(pool)@.leased.contains(self.id()),
        ensures
            final(pool).wf(),
            final(pool).config() == old(pool).config(),
            final(pool).commands() == old(pool).commands(),
            final(pool)@ == old(pool)@.put_back(self.id(), self.conn()),
    {
        pool.put_back(self)
    }
}

/// Works off every command in `receiver`, the oldest first, and returns when
/// none is left.
///
/// Each command is answered as [`add_connection`] or [`test_connection`]
/// answers it. The manager decides what the answers are; whatever they are,
/// the state ends up where those answers, taken in order, lead.
pub fn helper_task<C, E, M: PoolManager<C, E>>(
    receiver: &mut VecDeque<Command<C>>,
    inner: &mut InnerPool<C, E, M>,
)
    requires
        old(inner).wf(),
        old(receiver)@.len() <= old(inner)@.pending,
    ensures
        final(inner).wf(),
        final(inner).config() == old(inner).config(),
        final(receiver)@.len() == 0,
        worked_off(old(inner)@, final(inner)@, old(receiver)@),
        old(inner)@.helped(final(inner)@, old(receiver)@.len()),
        all_creations(old(receiver)@) ==> final(inner)@.idle.len() + final(inner)@.failed.len()
            == old(inner)@.idle.len() + old(inner)@.failed.len() + old(receiver)@.len(),
{
    let ghost start = inner@;
    let ghost commands = receiver@;
    let ghost mut answers: Seq<Answer<C, E>> = Seq::empty();
    loop
        invariant
            inner.wf(),
            inner.config() == old(inner).config(),
            start == old(inner)@,
            start.inv(inner.config()),
            commands == old(receiver)@,
            commands.len() <= start.pending,
            answers.len() <= commands.len(),
            receiver@ == commands.skip(answers.len() as int),
            answers_to(commands.take(answers.len() as int), answers),
            inner@ == start.answer_all(answers),
            inner@.pending == start.pending - answers.len(),
        ensures
            inner.wf(),
            inner.config() == old(inner).config(),
            receiver@.len() == 0,
            answers_to(commands, answers),
            inner@ == start.answer_all(answers),
        decreases commands.len() - answers.len(),
    {
        let ghost before = inner@;
        let ghost done = answers;
        match receiver.pop_front() {
            Some(Command::AddConnection) => {
                add_connection(inner);
                proof {
                    if inner@ == before.accept(inner@.idle.last()) {
                        answers = done.push(Answer::Connection(inner@.idle.last()));
                    } else {
                        answers = done.push(Answer::Failure(inner@.failed.last()));
                    }
                }
            },
            Some(Command::TestConnection(conn)) => {
                test_connection(inner, conn);
                proof {
                    if inner@ == before.accept(conn) {
                        answers = done.push(Answer::Connection(conn));
                    } else {
                        answers = done.push(Answer::Nothing);
                    }
                }
            },
            None => {
                proof {
                    assert(commands.take(answers.len() as int) == commands);
                }
                break ;
            },
        }
        proof {
            assert(answers.drop_last() == done);
            assert(commands.skip(done.len() as int).drop_first() == commands.skip(
                answers.len() as int,
            ));
            assert(commands.take(answers.len() as int).drop_last() == commands.take(
                done.len() as int,
            ));
        }
    }
    proof {
        start.lemma_answer_all(inner.config(), answers);
        if all_creations(commands) {
            assert forall|i: int| 0 <= i < answers.len() implies !(#[trigger] answers[i]
                is Nothing) by {
                assert(commands[i].admits(answers[i]));
            }
            start.lemma_creations_all_arrive(inner.config(), answers);
        }
    }
}

/// Asks the manager for a connection and publishes the outcome: a
/// connection joins the idle queue, an error joins the errors that wait for
/// a caller and is no longer counted as a connection.
pub fn add_connection<C, E, M: PoolManager<C, E>>(inner: &mut InnerPool<C, E, M>)
    requires
        old(inner).wf(),
        old(inner)@.pending > 0,
    ensures
        final(inner).wf(),
        final(inner).config() == old(inner).config(),
        final(inner)@ == old(inner)@.accept(final(inner)@.idle.last()) || final(inner)@ == old(
            inner,
        )@.record_failure(final(inner)@.failed.last()),
{
    let res = inner.manager.connect();
    let config = inner.config;
    let _ = inner.internals.finish_connect(&config, res);
}

/// Asks the manager whether `conn` is still good and publishes what it
/// says: a good connection joins the idle queue, a broken one is dropped
/// and no longer counted.
pub fn test_connection<C, E, M: PoolManager<C, E>>(inner: &mut InnerPool<C, E, M>, conn: C)
    requires
        old(inner).wf(),
        old(inner)@.pending > 0,
    ensures
        final(inner).wf(),
        final(inner).config() == old(inner).config(),
        final(inner)@ == old(inner)@.accept(conn) || final(inner)@ == old(inner)@.forfeit(),
{
    let is_valid = inner.manager.is_valid(&conn);
    let config = inner.config;
    let _ = inner.internals.finish_test(&config, conn, is_valid);
}

} // verus!
