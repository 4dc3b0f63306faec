//! The pool as a mathematical state machine.
//!
//! A [`PoolState`] is what the pool knows at one moment: which connections
//! sit idle, which creation errors wait for a caller, how many connections it
//! counts as its own, which of them are out under lease and how many commands
//! its helpers still owe an answer to. Every connection carries an identity
//! from the moment the pool accepts it, so that "idle" and "leased" can be
//! told apart even where two connections compare equal.
//!
//! The operations of the pool are the transitions below; the executable code
//! is specified by them.

use vstd::prelude::*;
use crate::config::Config;

verus! {

/// What the pool knows at one moment.
#[verifier::ext_equal]
pub ghost struct PoolState<C, E> {
    /// Idle connections, the least recently returned first.
    pub idle: Seq<C>,
    /// The identity of each idle connection, position by position.
    pub idle_ids: Seq<nat>,
    /// Creation errors not yet delivered, the oldest first.
    pub failed: Seq<E>,
    /// Connections the pool counts as its own.
    pub total: nat,
    /// Identities of the connections that are out under lease.
    pub leased: Set<nat>,
    /// Commands handed to the helpers and not yet answered.
    pub pending: nat,
    /// The identity the next accepted connection will get.
    pub next_id: nat,
}

/// What a helper brings back for one command.
pub ghost enum Answer<C, E> {
    /// A live connection for the idle queue.
    Connection(C),
    /// The error of a creation that failed.
    Failure(E),
    /// Nothing: a tested connection was broken and is gone.
    Nothing,
}

/// One thing that can happen to a pool.
pub ghost enum Step<C, E> {
    /// The oldest idle connection is handed out.
    LeaseFront,
    /// The leased connection `id` is found broken and dropped.
    Discard { id: nat },
    /// The oldest creation error is handed to a caller.
    DeliverFailure,
    /// `n` creations are launched.
    Reserve { n: nat },
    /// A helper brings back an answer.
    Answer { answer: Answer<C, E> },
    /// The lease on `id` ends and `conn` comes back.
    PutBack { id: nat, conn: C },
}

impl<C, E> PoolState<C, E> {
    /// The pool owns no more connections than the configuration allows.
    pub open spec fn within_bound(self, config: Config) -> bool {
        self.total <= config.max_size
    }

    /// Every connection the pool counts is idle, leased or still owed by a
    /// helper, and nothing else is counted.
    pub open spec fn accounted(self) -> bool {
        self.total == self.idle.len() + self.leased.len() + self.pending
    }

    /// No idle connection is out under lease, and no two idle connections
    /// are the same one.
    pub open spec fn exclusive(self) -> bool {
        &&& self.idle_ids.no_duplicates()
        &&& forall|i: int|
            0 <= i < self.idle_ids.len() ==> !self.leased.contains(#[trigger] self.idle_ids[i])
    }

    /// Identities in use are older than the next one to be given out.
    pub open spec fn ids_issued(self) -> bool {
        &&& forall|i: int|
            0 <= i < self.idle_ids.len() ==> #[trigger] self.idle_ids[i] < self.next_id
        &&& forall|id: nat| self.leased.contains(id) ==> id < self.next_id
    }

    /// The invariant of the pool under a configuration.
    pub open spec fn inv(self, config: Config) -> bool {
        &&& self.idle.len() == self.idle_ids.len()
        &&& self.leased.finite()
        &&& self.within_bound(config)
        &&& self.accounted()
        &&& self.exclusive()
        &&& self.ids_issued()
    }

    /// The state of a pool that was just built over `conns`.
    pub open spec fn fresh(conns: Seq<C>) -> Self {
        PoolState {
            idle: conns,
            idle_ids: Seq::new(conns.len(), |i: int| i as nat),
            failed: Seq::empty(),
            total: conns.len(),
            leased: Set::empty(),
            pending: 0,
            next_id: conns.len(),
        }
    }

    /// The oldest idle connection leaves the idle queue under a lease.
    pub open spec fn lease_front(self) -> Self
        recommends
            self.idle.len() > 0,
    {
        PoolState {
            idle: self.idle.drop_first(),
            idle_ids: self.idle_ids.drop_first(),
            leased: self.leased.insert(self.idle_ids[0]),
            ..self
        }
    }

    /// A leased connection is dropped for good and no longer counted.
    pub open spec fn discard(self, id: nat) -> Self
        recommends
            self.leased.contains(id),
    {
        PoolState { leased: self.leased.remove(id), total: (self.total - 1) as nat, ..self }
    }

    /// The first `k` idle connections were leased and discarded in turn.
    pub open spec fn reject_front(self, k: nat) -> Self
        recommends
            k <= self.idle.len(),
    {
        PoolState {
            idle: self.idle.skip(k as int),
            idle_ids: self.idle_ids.skip(k as int),
            total: (self.total - k) as nat,
            ..self
        }
    }

    /// The oldest creation error is handed to a caller.
    pub open spec fn deliver_failure(self) -> Self
        recommends
            self.failed.len() > 0,
    {
        PoolState { failed: self.failed.drop_first(), ..self }
    }

    /// How many creations a caller that finds the pool empty may launch.
    pub open spec fn deficit(self, config: Config) -> nat {
        let room = config.max_size - self.total;
        if room <= 0 {
            0
        } else if room <= config.acquire_increment {
            room as nat
        } else {
            config.acquire_increment as nat
        }
    }

    /// The pool has nothing for a caller and nothing on the way: no idle
    /// connection, no error that waits, no answer owed and no room for a
    /// creation. A caller that comes now waits until a lease ends.
    pub open spec fn exhausted(self, config: Config) -> bool {
        &&& self.idle.len() == 0
        &&& self.failed.len() == 0
        &&& self.pending == 0
        &&& self.deficit(config) == 0
    }

    /// `n` creations are launched and counted ahead of their outcome.
    pub open spec fn reserve(self, n: nat) -> Self {
        PoolState { total: self.total + n, pending: self.pending + n, ..self }
    }

    /// A helper answers a command with a live connection.
    pub open spec fn accept(self, conn: C) -> Self
        recommends
            self.pending > 0,
    {
        PoolState {
            idle: self.idle.push(conn),
            idle_ids: self.idle_ids.push(self.next_id),
            pending: (self.pending - 1) as nat,
            next_id: self.next_id + 1,
            ..self
        }
    }

    /// A helper answers a creation with an error.
    pub open spec fn record_failure(self, err: E) -> Self
        recommends
            self.pending > 0,
    {
        PoolState {
            failed: self.failed.push(err),
            total: (self.total - 1) as nat,
            pending: (self.pending - 1) as nat,
            ..self
        }
    }

    /// A helper answers a test with a connection that is no longer usable.
    pub open spec fn forfeit(self) -> Self
        recommends
            self.pending > 0,
    {
        PoolState {
            total: (self.total - 1) as nat,
            pending: (self.pending - 1) as nat,
            ..self
        }
    }

    /// A helper answers one command.
    pub open spec fn answer(self, answer: Answer<C, E>) -> Self
        recommends
            self.pending > 0,
    {
        match answer {
            Answer::Connection(conn) => self.accept(conn),
            Answer::Failure(err) => self.record_failure(err),
            Answer::Nothing => self.forfeit(),
        }
    }

    /// The helpers answer one command after another, in the order given.
    pub open spec fn answer_all(self, answers: Seq<Answer<C, E>>) -> Self
        recommends
            self.pending >= answers.len(),
        decreases answers.len(),
    {
        if answers.len() == 0 {
            self
        } else {
            self.answer_all(answers.drop_last()).answer(answers.last())
        }
    }

    /// A lease ends and its connection goes to the back of the idle queue.
    pub open spec fn put_back(self, id: nat, conn: C) -> Self
        recommends
            self.leased.contains(id),
    {
        PoolState {
            idle: self.idle.push(conn),
            idle_ids: self.idle_ids.push(id),
            leased: self.leased.remove(id),
            ..self
        }
    }

    /// Whether `step` can happen in this state.
    pub open spec fn enabled(self, config: Config, step: Step<C, E>) -> bool {
        match step {
            Step::LeaseFront => self.idle.len() > 0,
            Step::Discard { id } => self.leased.contains(id),
            Step::DeliverFailure => self.failed.len() > 0,
            Step::Reserve { n } => n <= self.deficit(config),
            Step::Answer { answer } => self.pending > 0,
            Step::PutBack { id, conn } => self.leased.contains(id),
        }
    }

    /// The state after `step`.
    pub open spec fn step(self, step: Step<C, E>) -> Self {
        match step {
            Step::LeaseFront => self.lease_front(),
            Step::Discard { id } => self.discard(id),
            Step::DeliverFailure => self.deliver_failure(),
            Step::Reserve { n } => self.reserve(n),
            Step::Answer { answer } => self.answer(answer),
            Step::PutBack { id, conn } => self.put_back(id, conn),
        }
    }

    /// The state after `steps`, taken in order.
    pub open spec fn run(self, steps: Seq<Step<C, E>>) -> Self
        decreases steps.len(),
    {
        if steps.len() == 0 {
            self
        } else {
            self.run(steps.drop_last()).step(steps.last())
        }
    }

    /// Whether `steps` can happen one after another, starting here.
    pub open spec fn can_run(self, config: Config, steps: Seq<Step<C, E>>) -> bool
        decreases steps.len(),
    {
        steps.len() > 0 ==> {
            &&& self.can_run(config, steps.drop_last())
            &&& self.run(steps.drop_last()).enabled(config, steps.last())
        }
    }

    /// A fresh pool satisfies the invariant whenever its connections fit.
    pub proof fn lemma_fresh_inv(conns: Seq<C>, config: Config)
        requires
            conns.len() <= config.max_size,
        ensures
            Self::fresh(conns).inv(config),
    {
    }

    /// Whatever happens to a pool, the invariant survives it.
    pub proof fn lemma_step_inv(self, config: Config, step: Step<C, E>)
        requires
            self.inv(config),
            self.enabled(config, step),
        ensures
            self.step(step).inv(config),
    {
    }

    /// Rejecting one more idle connection is leasing it and discarding it.
    pub proof fn lemma_reject_one_more(self, config: Config, k: nat)
        requires
            self.inv(config),
            k < self.idle.len(),
        ensures
            self.reject_front(k).inv(config),
            self.reject_front(k).lease_front().discard(self.idle_ids[k as int])
                == self.reject_front(k + 1),
            self.reject_front(k + 1).inv(config),
    {
    }

    /// What holds of the state `after` the helpers have answered `n`
    /// commands, whatever their answers were: leases are untouched, what was
    /// idle or waiting before keeps its place at the front, nothing arrives
    /// that was not asked for, and every answer but a connection gives one
    /// counted slot up.
    pub open spec fn helped(self, after: Self, n: nat) -> bool {
        &&& after.pending == self.pending - n
        &&& after.leased == self.leased
        &&& self.idle.is_prefix_of(after.idle)
        &&& self.idle_ids.is_prefix_of(after.idle_ids)
        &&& self.failed.is_prefix_of(after.failed)
        &&& after.idle.len() + after.failed.len() <= self.idle.len() + self.failed.len() + n
        &&& after.total + n == self.total + (after.idle.len() - self.idle.len())
    }

    /// Answering commands that are owed keeps the invariant and changes the
    /// state only as [`PoolState::helped`] allows.
    pub proof fn lemma_answer_all(self, config: Config, answers: Seq<Answer<C, E>>)
        requires
            self.inv(config),
            answers.len() <= self.pending,
        ensures
            self.answer_all(answers).inv(config),
            self.helped(self.answer_all(answers), answers.len()),
        decreases answers.len(),
    {
        if answers.len() > 0 {
            let before = self.answer_all(answers.drop_last());
            self.lemma_answer_all(config, answers.drop_last());
            before.lemma_step_inv(config, Step::Answer { answer: answers.last() });
        }
    }

    /// Where every answer is a connection or an error, as the answers to
    /// creations are, each one arrives in the idle queue or among the errors
    /// that wait.
    pub proof fn lemma_creations_all_arrive(self, config: Config, answers: Seq<Answer<C, E>>)
        requires
            self.inv(config),
            answers.len() <= self.pending,
            forall|i: int| 0 <= i < answers.len() ==> !(#[trigger] answers[i] is Nothing),
        ensures
            self.answer_all(answers).idle.len() + self.answer_all(answers).failed.len()
                == self.idle.len() + self.failed.len() + answers.len(),
        decreases answers.len(),
    {
        if answers.len() > 0 {
            assert(!(answers[answers.len() - 1] is Nothing));
            self.lemma_creations_all_arrive(config, answers.drop_last());
        }
    }
}

} // verus!
