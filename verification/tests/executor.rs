//! The transaction retry executor: the attempt bound, the classification of
//! failures, and rollback on terminal failure.

use osiris::db::{run_retryable_transaction, run_serializable_transaction, TransactionUnit};
use osiris::error::{DatabaseErrorKind, Error, TransactionRuntimeError};
use osiris::model::GuildSpecification;
use osiris::store::Store;

/// A unit of work whose every attempt reports a retryable conflict, and
/// which counts how often it was invoked.
struct AlwaysConflict {
    calls: u32,
}

impl TransactionUnit for AlwaysConflict {
    type Output = String;

    fn run(&mut self, _store: &mut Store) -> Result<String, TransactionRuntimeError> {
        self.calls += 1;
        Err(TransactionRuntimeError::Retry(Error::QueryError(format!(
            "conflict on attempt {}",
            self.calls
        ))))
    }
}

/// A unit of work that signals a terminal abort after writing to the store.
struct DirtyAbort {
    calls: u32,
}

impl TransactionUnit for DirtyAbort {
    type Output = String;

    fn run(&mut self, store: &mut Store) -> Result<String, TransactionRuntimeError> {
        self.calls += 1;
        store.guilds.clear();
        Err(TransactionRuntimeError::Rollback(Error::QueryError(
            "abort after a partial write".to_string(),
        )))
    }
}

/// A unit of work that succeeds at once.
struct Immediate;

impl TransactionUnit for Immediate {
    type Output = String;

    fn run(&mut self, _store: &mut Store) -> Result<String, TransactionRuntimeError> {
        Ok("done".to_string())
    }
}

fn some_store() -> Store {
    Store {
        guilds: vec![GuildSpecification {
            guild_id: Some("1".to_string()),
            guild_name: Some("one".to_string()),
            assigned_private_bot_instance: None,
            private_bot_assignment_last_heartbeat: None,
            initialized: Some(true),
        }],
        instances: vec![],
    }
}

#[test]
fn a_conflicting_unit_is_attempted_exactly_ten_times() {
    let mut store = some_store();
    let mut unit = AlwaysConflict { calls: 0 };
    let r = run_serializable_transaction(&mut store, &mut unit);
    assert_eq!(unit.calls, 10);
    match r {
        Err(Error::QueryError(m)) => assert_eq!(m, "conflict on attempt 10"),
        other => panic!("expected the last conflict to surface, got {other:?}"),
    }
    assert_eq!(store.guilds.len(), 1);
}

#[test]
fn a_terminal_failure_is_not_retried_and_is_rolled_back() {
    let mut store = some_store();
    let mut unit = DirtyAbort { calls: 0 };
    let r = run_retryable_transaction(&mut store, &mut unit);
    assert_eq!(unit.calls, 1);
    assert!(matches!(r, Err(Error::QueryError(_))));
    // the partial write of the failed attempt is not visible
    assert_eq!(store.guilds.len(), 1);
    assert_eq!(store.guilds[0].guild_id.as_deref(), Some("1"));
}

#[test]
fn a_successful_unit_runs_once_and_commits() {
    let mut store = some_store();
    let mut unit = Immediate;
    let r = run_serializable_transaction(&mut store, &mut unit);
    assert_eq!(r.unwrap(), "done");
}

#[test]
fn serialization_failures_are_classified_as_retryable() {
    let e = TransactionRuntimeError::from_database_error(
        DatabaseErrorKind::SerializationFailure,
        "could not serialize access".to_string(),
    );
    assert!(matches!(
        e,
        TransactionRuntimeError::Retry(Error::QueryError(_))
    ));
}

#[test]
fn other_database_failures_roll_back() {
    let e = TransactionRuntimeError::from_database_error(
        DatabaseErrorKind::Other,
        "unique violation".to_string(),
    );
    assert!(matches!(
        e,
        TransactionRuntimeError::Rollback(Error::QueryError(_))
    ));
}

#[test]
fn plain_domain_errors_roll_back() {
    let e = TransactionRuntimeError::from(Error::NoPrivateBotAvailableError);
    assert!(matches!(
        e,
        TransactionRuntimeError::Rollback(Error::NoPrivateBotAvailableError)
    ));
}
