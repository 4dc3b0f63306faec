//! The mutable state of a pool and the steps that change it.
//!
//! Every step is a transition of [`PoolState`]: the contracts here say which
//! one, and that the invariant of the pool survives it. Nothing in this
//! module waits or calls out except [`PoolInternals::check_out`], which asks
//! the manager whether an idle connection is still good.

use std::collections::VecDeque;
use vstd::prelude::*;
use crate::config::Config;
use crate::lease::PooledConnection;
use crate::manager::PoolManager;
use crate::model::{Answer, PoolState, Step};

verus! {

/// What one pass over the pool gives a caller that wants a connection.
pub enum CheckOut<C, E> {
    /// A connection, on loan.
    Ready(PooledConnection<C>),
    /// A creation error that was waiting for a caller.
    Failed(E),
    /// Nothing yet: this many creations are to be launched, and the caller
    /// tries again once something has been published.
    Wait(usize),
}

/// What a step that publishes something owes the callers that wait for the
/// pool.
#[derive(Clone, Copy, Debug, PartialEq, Eq)]
pub enum Signal {
    /// Nothing: no caller is woken.
    Nobody,
    /// One waiting caller is woken, if any waits.
    OneWaiter,
}

/// The state a pool keeps under its lock.
pub struct PoolInternals<C, E> {
    conns: VecDeque<C>,
    failed_conns: VecDeque<E>,
    num_conns: usize,
    idle_ids: Ghost<Seq<nat>>,
    leased: Ghost<Set<nat>>,
    pending: Ghost<nat>,
    next_id: Ghost<nat>,
}

impl<C, E> View for PoolInternals<C, E> {
    type V = PoolState<C, E>;

    closed spec fn view(&self) -> PoolState<C, E> {
        PoolState {
            idle: self.conns@,
            idle_ids: self.idle_ids@,
            failed: self.failed_conns@,
            total: self.num_conns as nat,
            leased: self.leased@,
            pending: self.pending@,
            next_id: self.next_id@,
        }
    }
}

impl<C, E> PoolInternals<C, E> {
    /// The state is one that a pool under `config` can be in.
    pub open spec fn wf(&self, config: Config) -> bool {
        self@.inv(config)
    }

    /// The state of a pool that starts out with `conns` idle, the first of
    /// them the first to be handed out.
    pub fn new(config: &Config, conns: VecDeque<C>) -> (internals: Self)
        requires
            conns@.len() <= config.max_size,
        ensures
            internals.wf(*config),
            internals@ == PoolState::<C, E>::fresh(conns@),
    {
        let num_conns = conns.len();
        let ghost n = conns@.len();
        proof {
            PoolState::<C, E>::lemma_fresh_inv(conns@, *config);
        }
        PoolInternals {
            conns,
            failed_conns: VecDeque::new(),
            num_conns,
            idle_ids: Ghost(Seq::new(n, |i: int| i as nat)),
            leased: Ghost(Set::empty()),
            pending: Ghost(0),
            next_id: Ghost(n),
        }
    }

    /// The number of connections the pool counts as its own.
    pub fn total(&self) -> (n: usize)
        ensures
            n == self@.total,
    {
        self.num_conns
    }

    /// The number of idle connections.
    pub fn idle_count(&self) -> (n: usize)
        ensures
            n == self@.idle.len(),
    {
        self.conns.len()
    }

    /// The number of creation errors that wait for a caller.
    pub fn failed_count(&self) -> (n: usize)
        ensures
            n == self@.failed.len(),
    {
        self.failed_conns.len()
    }

    /// Takes the oldest idle connection out under a lease, if there is one.
    pub fn pop_idle(&mut self, config: &Config) -> (res: Option<PooledConnection<C>>)
        requires
            old(self).wf(*config),
        ensures
            final(self).wf(*config),
            match res {
                Some(lease) => {
                    &&& old(self)@.idle.len() > 0
                    &&& lease.conn() == old(self)@.idle[0]
                    &&& lease.id() == old(self)@.idle_ids[0]
                    &&& final(self)@ == old(self)@.lease_front()
                    &&& final(self)@.leased.contains(lease.id())
                    &&& !final(self)@.idle_ids.contains(lease.id())
                },
                None => {
                    &&& old(self)@.idle.len() == 0
                    &&& final(self)@ == old(self)@
                },
            },
    {
        match self.conns.pop_front() {
            Some(conn) => {
                let ghost id = self.idle_ids@[0];
                proof {
                    old(self)@.lemma_step_inv(*config, Step::LeaseFront);
                    self.idle_ids@ = self.idle_ids@.drop_first();
                    self.leased@ = self.leased@.insert(id);
                }
                Some(PooledConnection::issue(conn, Ghost(id)))
            },
            None => None,
        }
    }

    /// Acts on what a test says of a connection that was just taken out for
    /// a caller: a good one stays with its lease, a broken one is dropped
    /// and no longer counted.
    pub fn settle(&mut self, config: &Config, lease: PooledConnection<C>, is_valid: bool) -> (res:
        Option<PooledConnection<C>>)
        requires
            old(self).wf(*config),
            old(self)@.leased.contains(lease.id()),
        ensures
            final(self).wf(*config),
            is_valid ==> res == Some(lease) && final(self)@ == old(self)@,
            !is_valid ==> res is None && final(self)@ == old(self)@.discard(lease.id()),
    {
        if is_valid {
            Some(lease)
        } else {
            proof {
                old(self)@.lemma_step_inv(*config, Step::Discard { id: lease.id() });
                self.leased@ = self.leased@.remove(lease.id());
            }
            self.num_conns = self.num_conns - 1;
            None
        }
    }

    /// Takes the oldest creation error, if one waits.
    pub fn pop_failed(&mut self, config: &Config) -> (res: Option<E>)
        requires
            old(self).wf(*config),
        ensures
            final(self).wf(*config),
            match res {
                Some(err) => {
                    &&& old(self)@.failed.len() > 0
                    &&& err == old(self)@.failed[0]
                    &&& final(self)@ == old(self)@.deliver_failure()
                },
                None => {
                    &&& old(self)@.failed.len() == 0
                    &&& final(self)@ == old(self)@
                },
            },
    {
        proof {
            if old(self)@.failed.len() > 0 {
                old(self)@.lemma_step_inv(*config, Step::DeliverFailure);
            }
        }
        self.failed_conns.pop_front()
    }

    /// Counts the creations that an empty pool may launch ahead of their
    /// outcome, and says how many they are.
    pub fn reserve(&mut self, config: &Config) -> (n: usize)
        requires
            old(self).wf(*config),
        ensures
            final(self).wf(*config),
            n == old(self)@.deficit(*config),
            final(self)@ == old(self)@.reserve(n as nat),
    {
        let room = config.max_size - self.num_conns;
        let n = if room <= config.acquire_increment {
            room
        } else {
            config.acquire_increment
        };
        proof {
            old(self)@.lemma_step_inv(*config, Step::Reserve { n: n as nat });
            self.pending@ = self.pending@ + (n as nat);
        }
        self.num_conns = self.num_conns + n;
        n
    }

    /// One pass of a caller that wants a connection.
    ///
    /// Idle connections are tried oldest first. Where the configuration asks
    /// for it, each is tested, and one that fails is dropped and no longer
    /// counted. The first that stands is leased. With no idle connection
    /// left, the oldest creation error is delivered, if one waits. Otherwise
    /// the pool reserves room for new connections and tells the caller how
    /// many creations to launch before it waits.
    ///
    /// The manager alone decides how many idle connections are dropped; that
    /// number is the fall of the total, and everything else follows from it.
    pub fn check_out<M: PoolManager<C, E>>(&mut self, config: &Config, manager: &M) -> (res:
        CheckOut<C, E>)
        requires
            old(self).wf(*config),
        ensures
            final(self).wf(*config),
            match res {
                CheckOut::Ready(lease) => {
                    let k = (old(self)@.total - final(self)@.total) as nat;
                    &&& final(self)@.total <= old(self)@.total
                    &&& k < old(self)@.idle.len()
                    &&& lease.conn() == old(self)@.idle[k as int]
                    &&& lease.id() == old(self)@.idle_ids[k as int]
                    &&& final(self)@ == old(self)@.reject_front(k).lease_front()
                    &&& final(self)@.leased.contains(lease.id())
                    &&& !final(self)@.idle_ids.contains(lease.id())
                },
                CheckOut::Failed(err) => {
                    &&& old(self)@.failed.len() > 0
                    &&& err == old(self)@.failed[0]
                    &&& final(self)@ == old(self)@.reject_front(
                        old(self)@.idle.len(),
                    ).deliver_failure()
                },
                CheckOut::Wait(n) => {
                    let drained = old(self)@.reject_front(old(self)@.idle.len());
                    &&& old(self)@.failed.len() == 0
                    &&& n == drained.deficit(*config)
                    &&& final(self)@ == drained.reserve(n as nat)
                },
            },
            !config.test_on_check_out && old(self)@.idle.len() > 0 ==> res is Ready
                && final(self)@ == old(self)@.lease_front(),
    {
        let ghost start = self@;
        let ghost mut k: nat = 0;
        proof {
            assert(start.reject_front(0) == start);
        }
        loop
            invariant
                start == old(self)@,
                start.inv(*config),
                self.wf(*config),
                k <= start.idle.len(),
                self@ == start.reject_front(k),
                !config.test_on_check_out ==> k == 0,
            ensures
                self.wf(*config),
                self@ == start.reject_front(start.idle.len()),
                start.idle.len() > 0 ==> config.test_on_check_out,
            decreases start.idle.len() - k,
        {
            match self.pop_idle(config) {
                Some(lease) => {
                    let is_valid = !config.test_on_check_out || manager.is_valid(&lease);
                    proof {
                        start.lemma_reject_one_more(*config, k);
                    }
                    match self.settle(config, lease, is_valid) {
                        Some(lease) => {
                            return CheckOut::Ready(lease);
                        },
                        None => {
                            proof {
                                k = k + 1;
                            }
                        },
                    }
                },
                None => {
                    break ;
                },
            }
        }
        match self.pop_failed(config) {
            Some(err) => CheckOut::Failed(err),
            None => CheckOut::Wait(self.reserve(config)),
        }
    }

    /// Publishes what a helper got from the manager for one creation. A
    /// connection and an error alike are news for one waiting caller.
    pub fn finish_connect(&mut self, config: &Config, res: Result<C, E>) -> (signal: Signal)
        requires
            old(self).wf(*config),
            old(self)@.pending > 0,
        ensures
            final(self).wf(*config),
            final(self)@ == match res {
                Ok(conn) => old(self)@.accept(conn),
                Err(err) => old(self)@.record_failure(err),
            },
            signal == Signal::OneWaiter,
    {
        match res {
            Ok(conn) => {
                proof {
                    old(self)@.lemma_step_inv(
                        *config,
                        Step::Answer { answer: Answer::Connection(conn) },
                    );
                    self.idle_ids@ = self.idle_ids@.push(self.next_id@);
                    self.next_id@ = self.next_id@ + 1;
                    self.pending@ = (self.pending@ - 1) as nat;
                }
                self.conns.push_back(conn);
            },
            Err(err) => {
                proof {
                    old(self)@.lemma_step_inv(
                        *config,
                        Step::Answer { answer: Answer::Failure(err) },
                    );
                    self.pending@ = (self.pending@ - 1) as nat;
                }
                self.failed_conns.push_back(err);
                self.num_conns = self.num_conns - 1;
            },
        }
        Signal::OneWaiter
    }

    /// Publishes what a helper found out about a connection it was given
    /// to test. No caller is woken for it.
    pub fn finish_test(&mut self, config: &Config, conn: C, is_valid: bool) -> (signal: Signal)
        requires
            old(self).wf(*config),
            old(self)@.pending > 0,
        ensures
            final(self).wf(*config),
            final(self)@ == if is_valid {
                old(self)@.accept(conn)
            } else {
                old(self)@.forfeit()
            },
            signal == Signal::Nobody,
    {
        if is_valid {
            proof {
                old(self)@.lemma_step_inv(
                        *config,
                        Step::Answer { answer: Answer::Connection(conn) },
                    );
                self.idle_ids@ = self.idle_ids@.push(self.next_id@);
                self.next_id@ = self.next_id@ + 1;
                self.pending@ = (self.pending@ - 1) as nat;
            }
            self.conns.push_back(conn);
        } else {
            proof {
                old(self)@.lemma_step_inv(*config, Step::Answer { answer: Answer::Nothing });
                self.pending@ = (self.pending@ - 1) as nat;
            }
            self.num_conns = self.num_conns - 1;
        }
        Signal::Nobody
    }

    /// Ends a lease: its connection goes to the back of the idle queue,
    /// which is news for one waiting caller.
    pub fn put_back(&mut self, config: &Config, lease: PooledConnection<C>) -> (signal: Signal)
        requires
            old(self).wf(*config),
            old(self)@.leased.contains(lease.id()),
        ensures
            final(self).wf(*config),
            final(self)@ == old(self)@.put_back(lease.id(), lease.conn()),
            signal == Signal::OneWaiter,
    {
        proof {
            old(self)@.lemma_step_inv(
                *config,
                Step::PutBack { id: lease.id(), conn: lease.conn() },
            );
            self.idle_ids@ = self.idle_ids@.push(lease.id());
            self.leased@ = self.leased@.remove(lease.id());
        }
        self.conns.push_back(lease.surrender());
        Signal::OneWaiter
    }
}

} // verus!
