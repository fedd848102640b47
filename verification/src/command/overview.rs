//! The overview command's store lookup: whether the caller's guild already
//! has a private bot instance assigned and, if so, its invite link.  The
//! remaining free slots shown otherwise come from
//! [`Store::remaining_capacity`](crate::store::Store::remaining_capacity).

use vstd::prelude::*;
use vstd::string::*;

use crate::command::invite::{invalid_context_message, missing_instance_message};
use crate::db::{
    retry_model, run_retryable_transaction, TransactionUnit, MAX_TRANSACTION_ATTEMPTS,
};
use crate::error::{Error, ErrorView, TransactionRuntimeError, TransactionRuntimeErrorView};
use crate::model::clone_optional_string;
use crate::store::{find_guild, find_instance, Store, StoreContents};

verus! {

/// What the overview's lookup computes on a store in state `s`: the invite
/// link of the instance assigned to the guild identified by `guild_id`, or
/// nothing when the guild has no assignment yet.  The store is never
/// changed.
pub open spec fn overview_outcome(s: StoreContents, guild_id: Seq<char>) -> Result<
    (StoreContents, Option<String>),
    TransactionRuntimeErrorView,
> {
    match find_guild(s.guilds, guild_id) {
        None => Err(
            TransactionRuntimeErrorView::Rollback(
                ErrorView::InvalidCommandError(invalid_context_message()),
            ),
        ),
        Some(i) => match s.guilds[i].assigned_private_bot_instance {
            Some(a) => match find_instance(s.instances, a@) {
                Some(j) => Ok((s, Some(s.instances[j].invite_link))),
                None => Err(
                    TransactionRuntimeErrorView::Rollback(
                        ErrorView::QueryError(missing_instance_message()),
                    ),
                ),
            },
            None => Ok((s, None)),
        },
    }
}

/// The lookup never asks for a retry of its own.
pub proof fn lemma_overview_outcome_no_retry(s: StoreContents, guild_id: Seq<char>)
    ensures
        !(overview_outcome(s, guild_id) matches Err(TransactionRuntimeErrorView::Retry(_))),
{
}

/// The overview command's store lookup.  The shell resolves the caller's
/// guild to its identifier — or to nothing — before handing over.
pub struct OverviewCommand {
    pub guild_id: Option<String>,
}

impl TransactionUnit for OverviewCommand {
    type Output = Option<String>;

    open spec fn outcome(&self, pre: StoreContents) -> Result<
        (StoreContents, Option<String>),
        TransactionRuntimeErrorView,
    > {
        match self.guild_id {
            None => Err(
                TransactionRuntimeErrorView::Rollback(
                    ErrorView::InvalidCommandError(invalid_context_message()),
                ),
            ),
            Some(g) => overview_outcome(pre, g@),
        }
    }

    open spec fn post_state(&self, pre: StoreContents) -> Self {
        *self
    }

    fn run(&mut self, store: &mut Store) -> (r: Result<
        Option<String>,
        TransactionRuntimeError,
    >) {
        let guild_id = match &self.guild_id {
            None => {
                return Err(
                    TransactionRuntimeError::Rollback(
                        Error::InvalidCommandError(
                            String::from_str("This command can only be used within a guild"),
                        ),
                    ),
                );
            },
            Some(guild_id) => guild_id,
        };
        let guild_index = match store.find_guild_index(guild_id) {
            Some(i) => i,
            None => {
                return Err(
                    TransactionRuntimeError::Rollback(
                        Error::InvalidCommandError(
                            String::from_str("This command can only be used within a guild"),
                        ),
                    ),
                );
            },
        };
        let assigned = clone_optional_string(
            &store.guilds[guild_index].assigned_private_bot_instance,
        );
        match assigned {
            Some(identifier) => match store.find_instance_index(&identifier) {
                Some(j) => Ok(Some(store.instances[j].invite_link.clone())),
                None => Err(
                    TransactionRuntimeError::Rollback(
                        Error::QueryError(
                            String::from_str("The assigned private bot instance does not exist"),
                        ),
                    ),
                ),
            },
            None => Ok(None),
        }
    }
}

impl OverviewCommand {
    /// Looks up the assignment of the caller's guild under a read-committed
    /// transaction.  The store is left exactly as it was: the lookup never
    /// mutates.
    pub fn run(store: &mut Store, guild_id: Option<String>) -> (r: Result<Option<String>, Error>)
        requires
            old(store)@.wf(),
        ensures
            final(store)@.wf(),
            final(store)@ == old(store)@,
            match guild_id {
                None => r matches Err(e) && e@ == ErrorView::InvalidCommandError(
                    invalid_context_message(),
                ),
                Some(g) => match overview_outcome(old(store)@, g@) {
                    Ok((_, link)) => r matches Ok(out) && out == link,
                    Err(TransactionRuntimeErrorView::Rollback(e)) => r matches Err(err) && err@
                        == e,
                    Err(TransactionRuntimeErrorView::Retry(e)) => r matches Err(err) && err@ == e,
                },
            },
    {
        let ghost pre = store@;
        let mut unit = OverviewCommand { guild_id };
        let ghost unit0 = unit;
        let r = run_retryable_transaction(store, &mut unit);
        proof {
            if unit0.guild_id is Some {
                lemma_overview_outcome_no_retry(pre, unit0.guild_id->0@);
            }
            assert(retry_model(unit0, pre, MAX_TRANSACTION_ATTEMPTS as nat) == match unit0.outcome(
                pre,
            ) {
                Ok((post, v)) => (unit0, post, Ok::<Option<String>, ErrorView>(v)),
                Err(TransactionRuntimeErrorView::Rollback(e)) => (
                    unit0,
                    pre,
                    Err::<Option<String>, ErrorView>(e),
                ),
                Err(TransactionRuntimeErrorView::Retry(e)) => (
                    unit0,
                    pre,
                    Err::<Option<String>, ErrorView>(e),
                ),
            });
        }
        r
    }
}

} // verus!
