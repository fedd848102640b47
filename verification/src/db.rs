//! The transaction retry executor: runs a unit of work inside a transaction
//! against the store, commits on success, rolls the store back on failure,
//! and re-invokes the unit from scratch — up to a fixed bound of attempts —
//! when the failure is a retryable conflict.

use vstd::prelude::*;

use crate::error::{Error, ErrorView, TransactionRuntimeError, TransactionRuntimeErrorView};
use crate::store::{Store, StoreContents};

verus! {

/// The isolation level a transaction is begun with.  Retryable conflicts are
/// reported by the store under serializable isolation; the executor treats
/// both levels alike and leaves conflict detection to the store.
#[derive(Clone, Copy, PartialEq, Eq, Structural, Debug)]
pub enum IsolationLevel {
    ReadCommitted,
    Serializable,
}

/// The most attempts one operation may make: the first attempt and up to
/// nine re-executions after retryable conflicts.  The conflict of the last
/// attempt is surfaced to the caller.
pub const MAX_TRANSACTION_ATTEMPTS: usize = 10;

/// A unit of work run inside one transaction.  A unit must be free of
/// externally visible side effects besides its writes to the store, because
/// a retry re-invokes it from scratch against the rolled-back state.
pub trait TransactionUnit: Sized {
    /// What a successful run hands back.
    type Output: View;

    /// The unit as a mathematical function: what one run against a store in
    /// state `pre` returns and, on success, the state it commits.  Until an
    /// implementation says otherwise, the unit is modelled as aborting.
    open spec fn outcome(&self, pre: StoreContents) -> Result<
        (StoreContents, <Self::Output as View>::V),
        TransactionRuntimeErrorView,
    > {
        Err(TransactionRuntimeErrorView::Rollback(ErrorView::NoPrivateBotAvailableError))
    }

    /// The unit's own state after one run against `pre`.  Until an
    /// implementation says otherwise, the unit is modelled as unchanged.
    open spec fn post_state(&self, pre: StoreContents) -> Self {
        *self
    }

    /// One run of the unit.  On failure the store may be left half written;
    /// the executor rolls it back to the snapshot it took.
    fn run(&mut self, store: &mut Store) -> (r: Result<Self::Output, TransactionRuntimeError>)
        requires
            old(store)@.wf(),
        ensures
            *final(self) == old(self).post_state(old(store)@),
            match old(self).outcome(old(store)@) {
                Ok((post, v)) => r matches Ok(out) && out@ == v && final(store)@ == post
                    && post.wf(),
                Err(e) => r matches Err(err) && err@ == e,
            },
    ;
}

/// What running a unit with a budget of `attempts_left` attempts leaves
/// behind: the unit's state after the last attempt, the visible store state,
/// and the result.  A successful attempt commits its state; a rollback
/// failure keeps the pre-state and surfaces at once; a retryable conflict
/// keeps the pre-state and is re-attempted until the budget is spent.
pub open spec fn retry_model<U: TransactionUnit>(unit: U, pre: StoreContents, attempts_left: nat) -> (
    U,
    StoreContents,
    Result<<U::Output as View>::V, ErrorView>,
)
    decreases attempts_left,
{
    let next = unit.post_state(pre);
    match unit.outcome(pre) {
        Ok((post, v)) => (next, post, Ok(v)),
        Err(TransactionRuntimeErrorView::Rollback(e)) => (next, pre, Err(e)),
        Err(TransactionRuntimeErrorView::Retry(e)) => if attempts_left <= 1 {
            (next, pre, Err(e))
        } else {
            retry_model(next, pre, (attempts_left - 1) as nat)
        },
    }
}

/// Runs the unit inside transactions at the given level until an attempt
/// succeeds, fails for good, or the attempt budget is spent.  In this model
/// of the store, attempts run one at a time, so the isolation level makes no
/// visible difference; it records the level the transaction is begun with.
#[verifier::loop_isolation(false)]
fn run_retryable_transaction_with_level<U: TransactionUnit>(
    store: &mut Store,
    unit: &mut U,
    _level: IsolationLevel,
) -> (r: Result<U::Output, Error>)
    requires
        old(store)@.wf(),
    ensures
        final(store)@.wf(),
        ({
            let m = retry_model(*old(unit), old(store)@, MAX_TRANSACTION_ATTEMPTS as nat);
            &&& *final(unit) == m.0
            &&& final(store)@ == m.1
            &&& match m.2 {
                Ok(v) => r matches Ok(out) && out@ == v,
                Err(e) => r matches Err(err) && err@ == e,
            }
        }),
{
    let ghost unit0 = *unit;
    let ghost pre0 = store@;
    let mut retry_count: usize = 0;
    loop
        invariant
            retry_count < MAX_TRANSACTION_ATTEMPTS,
            store@.wf(),
            store@ == pre0,
            retry_model(unit0, pre0, MAX_TRANSACTION_ATTEMPTS as nat) == retry_model(
                *unit,
                pre0,
                (MAX_TRANSACTION_ATTEMPTS - retry_count) as nat,
            ),
        decreases MAX_TRANSACTION_ATTEMPTS - retry_count,
    {
        let backup = store.duplicate();
        let ghost unit_pre = *unit;
        let ghost left = (MAX_TRANSACTION_ATTEMPTS - retry_count) as nat;
        let res = unit.run(store);
        retry_count = retry_count + 1;
        match res {
            Ok(value) => {
                return Ok(value);
            },
            Err(TransactionRuntimeError::Rollback(e)) => {
                *store = backup;
                return Err(e);
            },
            Err(TransactionRuntimeError::Retry(e)) => {
                *store = backup;
                proof {
                    assert(retry_model(unit_pre, pre0, left) == if left <= 1 {
                        (unit_pre.post_state(pre0), pre0, Err::<
                            <U::Output as View>::V,
                            ErrorView,
                        >(e@))
                    } else {
                        retry_model(unit_pre.post_state(pre0), pre0, (left - 1) as nat)
                    });
                }
                if retry_count >= MAX_TRANSACTION_ATTEMPTS {
                    return Err(e);
                }
            },
        }
    }
}

/// Runs the unit of work inside a read-committed transaction, retrying
/// retryable conflicts up to the attempt bound.
pub fn run_retryable_transaction<U: TransactionUnit>(store: &mut Store, unit: &mut U) -> (r: Result<
    U::Output,
    Error,
>)
    requires
        old(store)@.wf(),
    ensures
        final(store)@.wf(),
        ({
            let m = retry_model(*old(unit), old(store)@, MAX_TRANSACTION_ATTEMPTS as nat);
            &&& *final(unit) == m.0
            &&& final(store)@ == m.1
            &&& match m.2 {
                Ok(v) => r matches Ok(out) && out@ == v,
                Err(e) => r matches Err(err) && err@ == e,
            }
        }),
{
    run_retryable_transaction_with_level(store, unit, IsolationLevel::ReadCommitted)
}

/// Runs the unit of work inside a serializable transaction, retrying
/// retryable conflicts up to the attempt bound.
pub fn run_serializable_transaction<U: TransactionUnit>(store: &mut Store, unit: &mut U) -> (r:
    Result<U::Output, Error>)
    requires
        old(store)@.wf(),
    ensures
        final(store)@.wf(),
        ({
            let m = retry_model(*old(unit), old(store)@, MAX_TRANSACTION_ATTEMPTS as nat);
            &&& *final(unit) == m.0
            &&& final(store)@ == m.1
            &&& match m.2 {
                Ok(v) => r matches Ok(out) && out@ == v,
                Err(e) => r matches Err(err) && err@ == e,
            }
        }),
{
    run_retryable_transaction_with_level(store, unit, IsolationLevel::Serializable)
}

/// The unit's own state stepped through `n` runs against the same store
/// state: one step per attempt.
pub open spec fn iterate_post_state<U: TransactionUnit>(unit: U, pre: StoreContents, n: nat) -> U
    decreases n,
{
    if n == 0 {
        unit
    } else {
        iterate_post_state(unit.post_state(pre), pre, (n - 1) as nat)
    }
}

/// Retry bound: when every attempt reports a retryable conflict, the
/// executor makes exactly the given number of attempts — the unit's state is
/// stepped once per attempt, never fewer and never more — the store is left
/// as it was, and the conflict of the last attempt is surfaced.
pub proof fn lemma_retry_bound<U: TransactionUnit>(unit: U, pre: StoreContents, attempts: nat)
    requires
        attempts >= 1,
        forall|u: U, s: StoreContents|
            (#[trigger] u.outcome(s)) matches Err(TransactionRuntimeErrorView::Retry(_)),
    ensures
        retry_model(unit, pre, attempts).0 == iterate_post_state(unit, pre, attempts),
        retry_model(unit, pre, attempts).1 == pre,
        iterate_post_state(unit, pre, (attempts - 1) as nat).outcome(pre) matches Err(
            TransactionRuntimeErrorView::Retry(e),
        ) && retry_model(unit, pre, attempts).2 == Err::<<U::Output as View>::V, ErrorView>(e),
    decreases attempts,
{
    let next = unit.post_state(pre);
    assert(unit.outcome(pre) matches Err(TransactionRuntimeErrorView::Retry(_)));
    assert(iterate_post_state(unit, pre, attempts) == iterate_post_state(
        next,
        pre,
        (attempts - 1) as nat,
    ));
    if attempts == 1 {
        assert(iterate_post_state(next, pre, 0) == next);
        assert(iterate_post_state(unit, pre, 0) == unit);
    } else {
        lemma_retry_bound(next, pre, (attempts - 1) as nat);
        assert(iterate_post_state(unit, pre, (attempts - 1) as nat) == iterate_post_state(
            next,
            pre,
            (attempts - 2) as nat,
        ));
    }
}

} // verus!
