//! What holds of every pool, proved from the transitions of
//! [`PoolState`].
//!
//! Every operation of the pool requires the invariant and gives it back, and
//! a fresh pool has it; so what follows from the invariant holds whenever a
//! caller can look at the pool.

use vstd::prelude::*;
use crate::config::Config;
use crate::model::{Answer, PoolState, Step};

verus! {

/// The invariant holds from the start and through everything that can
/// happen to a pool: in every state that any run of steps leads to from a
/// fresh pool.
pub proof fn law_invariant_holds_throughout<C, E>(
    conns: Seq<C>,
    config: Config,
    steps: Seq<Step<C, E>>,
)
    requires
        conns.len() <= config.max_size,
        PoolState::<C, E>::fresh(conns).can_run(config, steps),
    ensures
        PoolState::<C, E>::fresh(conns).run(steps).inv(config),
    decreases steps.len(),
{
    let start = PoolState::<C, E>::fresh(conns);
    if steps.len() == 0 {
        PoolState::<C, E>::lemma_fresh_inv(conns, config);
    } else {
        law_invariant_holds_throughout(conns, config, steps.drop_last());
        start.run(steps.drop_last()).lemma_step_inv(config, steps.last());
    }
}

/// The pool never counts more connections than `max_size`.
pub proof fn law_total_within_max<C, E>(state: PoolState<C, E>, config: Config)
    requires
        state.inv(config),
    ensures
        state.total <= config.max_size,
{
}

/// The connections the pool counts are the idle ones, the leased ones and
/// those a helper still owes: nothing is counted twice and nothing is left
/// out.
pub proof fn law_accounting<C, E>(state: PoolState<C, E>, config: Config)
    requires
        state.inv(config),
    ensures
        state.idle.len() + state.leased.len() + state.pending == state.total,
        state.idle.len() <= state.total,
        state.leased.len() <= config.max_size,
{
}

/// No connection sits in the idle queue while a lease holds it, and no
/// connection sits there twice.
pub proof fn law_idle_not_leased<C, E>(state: PoolState<C, E>, config: Config)
    requires
        state.inv(config),
    ensures
        forall|i: int|
            0 <= i < state.idle_ids.len() ==> !state.leased.contains(#[trigger] state.idle_ids[i]),
        forall|i: int, j: int|
            0 <= i < j < state.idle_ids.len() ==> state.idle_ids[i] != state.idle_ids[j],
{
}

/// A connection that is handed out is leased from then on and idle no more.
pub proof fn law_lease_is_exclusive<C, E>(state: PoolState<C, E>, config: Config)
    requires
        state.inv(config),
        state.idle.len() > 0,
    ensures
        state.lease_front().leased.contains(state.idle_ids[0]),
        !state.lease_front().idle_ids.contains(state.idle_ids[0]),
{
    state.lemma_step_inv(config, Step::LeaseFront);
    let id = state.idle_ids[0];
    let after = state.lease_front();
    if after.idle_ids.contains(id) {
        let i = choose|i: int| 0 <= i < after.idle_ids.len() && after.idle_ids[i] == id;
        assert(!after.leased.contains(after.idle_ids[i]));
    }
}

/// A creation error enters the queue of errors once, at the back, when a
/// helper records it, and leaves it once, from the front, when a caller is
/// given it. No other step touches that queue.
pub proof fn law_failures_pass_through_once<C, E>(
    state: PoolState<C, E>,
    config: Config,
    err: E,
    conn: C,
    id: nat,
    n: nat,
)
    requires
        state.inv(config),
    ensures
        state.record_failure(err).failed == state.failed.push(err),
        state.failed.len() > 0 ==> state.failed == seq![state.failed[0]]
            + state.deliver_failure().failed,
        state.failed.len() == 0 ==> state.record_failure(err).deliver_failure().failed.len() == 0
            && state.record_failure(err).failed[0] == err,
        state.lease_front().failed == state.failed,
        state.discard(id).failed == state.failed,
        state.reject_front(n).failed == state.failed,
        state.reserve(n).failed == state.failed,
        state.accept(conn).failed == state.failed,
        state.forfeit().failed == state.failed,
        state.put_back(id, conn).failed == state.failed,
{
}

/// A lease can be ended once: after it the pool no longer has the
/// connection down as leased, so the lease cannot be ended again.
pub proof fn law_release_once<C, E>(state: PoolState<C, E>, config: Config, id: nat, conn: C)
    requires
        state.inv(config),
        state.leased.contains(id),
    ensures
        !state.put_back(id, conn).leased.contains(id),
        state.put_back(id, conn).leased.len() == state.leased.len() - 1,
{
}

/// Handing a connection out and taking it back leaves as many connections
/// idle as before, counts as many, and has the same ones leased; the
/// connection has moved from the front of the idle queue to its back.
pub proof fn law_round_trip<C, E>(state: PoolState<C, E>, config: Config)
    requires
        state.inv(config),
        state.idle.len() > 0,
    ensures
        ({
            let after = state.lease_front().put_back(state.idle_ids[0], state.idle[0]);
            &&& after.inv(config)
            &&& after.idle.len() == state.idle.len()
            &&& after.idle == state.idle.drop_first().push(state.idle[0])
            &&& after.total == state.total
            &&& after.leased == state.leased
            &&& after.failed == state.failed
            &&& after.pending == state.pending
        }),
{
    state.lemma_step_inv(config, Step::LeaseFront);
    state.lease_front().lemma_step_inv(
        config,
        Step::PutBack { id: state.idle_ids[0], conn: state.idle[0] },
    );
}

/// The same where the pool first dropped `k` idle connections that failed
/// their test: the idle queue is shorter by those `k` and by no more.
pub proof fn law_round_trip_after_rejections<C, E>(state: PoolState<C, E>, config: Config, k: nat)
    requires
        state.inv(config),
        k < state.idle.len(),
    ensures
        ({
            let after = state.reject_front(k).lease_front().put_back(
                state.idle_ids[k as int],
                state.idle[k as int],
            );
            &&& after.inv(config)
            &&& after.idle.len() == state.idle.len() - k
            &&& after.total == state.total - k
            &&& after.leased == state.leased
        }),
{
    state.lemma_reject_one_more(config, k);
    let mid = state.reject_front(k);
    mid.lemma_step_inv(config, Step::LeaseFront);
    mid.lease_front().lemma_step_inv(
        config,
        Step::PutBack { id: mid.idle_ids[0], conn: mid.idle[0] },
    );
}

/// No more than `max_size` connections are ever out under lease, and the
/// pool has nothing for a caller and nothing on the way exactly when that
/// many are out and no creation error waits. So with `max_size` callers
/// holding a lease each, the next one waits until a lease ends, and a pass
/// of that caller leaves the state as it was.
pub proof fn law_saturation<C, E>(state: PoolState<C, E>, config: Config)
    requires
        config.valid(),
        state.inv(config),
    ensures
        state.leased.len() <= config.max_size,
        state.exhausted(config) <==> state.leased.len() == config.max_size && state.failed.len()
            == 0,
        state.exhausted(config) ==> state.reject_front(state.idle.len()).reserve(
            state.reject_front(state.idle.len()).deficit(config),
        ) == state,
{
}

/// A caller that was told to wait while creations were on their way is not
/// told so again for want of news: once the helpers have answered, each
/// creation has left a connection in the idle queue or an error for a
/// caller.
pub proof fn law_creations_end_the_wait<C, E>(
    state: PoolState<C, E>,
    config: Config,
    answers: Seq<Answer<C, E>>,
)
    requires
        state.inv(config),
        answers.len() == state.pending,
        forall|i: int| 0 <= i < answers.len() ==> !(#[trigger] answers[i] is Nothing),
    ensures
        state.answer_all(answers).inv(config),
        state.answer_all(answers).pending == 0,
        state.answer_all(answers).idle.len() + state.answer_all(answers).failed.len()
            == state.idle.len() + state.failed.len() + state.pending,
        state.pending > 0 ==> !state.answer_all(answers).exhausted(config),
{
    state.lemma_answer_all(config, answers);
    state.lemma_creations_all_arrive(config, answers);
}

} // verus!
