//! The invite commands.  The private one is the instance allocator: it
//! resolves the caller's guild and returns the invite link of the guild's
//! private bot instance, first assigning the least-loaded instance with a
//! free slot when the guild has none yet.

use vstd::prelude::*;
use vstd::string::*;

use crate::db::{run_serializable_transaction, retry_model, TransactionUnit, MAX_TRANSACTION_ATTEMPTS};
use crate::error::{Error, ErrorView, TransactionRuntimeError, TransactionRuntimeErrorView};
use crate::model::{clone_optional_string, GuildSpecification};
use crate::store::{
    assigned_to, assignment_key, count_assigned_to, find_guild, find_instance, guild_key,
    lemma_count_update, lemma_find_guild_is_first, lemma_find_instance_of_existing,
    lemma_sum_counts_eq_total_assigned, lemma_sum_limits_take, sum_counts, sum_limits,
    total_assigned, total_capacity, Store, StoreContents,
};

verus! {

/// The public invite command: hands out the public instance's invite link,
/// or a notice while public invites are switched off.
pub struct InvitePublicCommand;

impl InvitePublicCommand {
    /// The body of the public invite response.  The shell reads whether the
    /// public invite is enabled, and its link, from configuration.
    pub fn run(public_invite_enabled: bool, public_invite: &str) -> (r: String)
        ensures
            public_invite_enabled ==> r@ == "[Invite link]("@ + public_invite@ + ")"@,
            !public_invite_enabled ==> r@ == "The public instance of aiode is disabled"@,
    {
        if public_invite_enabled {
            let mut response = String::from_str("[Invite link](");
            response.append(public_invite);
            response.append(")");
            response
        } else {
            String::from_str("The public instance of aiode is disabled")
        }
    }
}

/// The message shown when the operation runs without a resolvable guild.
pub open spec fn invalid_context_message() -> Seq<char> {
    "This command can only be used within a guild"@
}

/// The message for the impossible case that an assignment reference names a
/// missing instance row; a well-formed store never reaches it.
pub open spec fn missing_instance_message() -> Seq<char> {
    "The assigned private bot instance does not exist"@
}

/// The load of instance row `j`: how many guilds reference it.
pub open spec fn load_of(s: StoreContents, j: int) -> nat {
    count_assigned_to(s.guilds, s.instances[j].identifier@)
}

/// Whether instance row `j` still has a free slot.
pub open spec fn qualifies(s: StoreContents, j: int) -> bool {
    load_of(s, j) < s.instances[j].server_limit
}

/// The best candidate among the first `upto` instance rows: the
/// lowest-loaded row with a free slot, the earliest row winning ties.
pub open spec fn best_candidate_upto(s: StoreContents, upto: int) -> Option<int>
    decreases upto,
{
    if upto <= 0 {
        None
    } else {
        let prev = best_candidate_upto(s, upto - 1);
        let j = upto - 1;
        if qualifies(s, j) {
            match prev {
                None => Some(j),
                Some(k) => if load_of(s, j) < load_of(s, k) {
                    Some(j)
                } else {
                    Some(k)
                },
            }
        } else {
            prev
        }
    }
}

/// The instance row a fresh assignment goes to, if any row has a free slot.
pub open spec fn chosen_instance(s: StoreContents) -> Option<int> {
    best_candidate_upto(s, s.instances.len() as int)
}

/// The guild row `g` once assigned to the instance named `identifier`.
pub open spec fn with_assignment(g: GuildSpecification, identifier: String) -> GuildSpecification {
    GuildSpecification { assigned_private_bot_instance: Some(identifier), ..g }
}

/// The store once guild row `i` is assigned to instance row `j`.
pub open spec fn store_after_assign(s: StoreContents, i: int, j: int) -> StoreContents {
    StoreContents {
        guilds: s.guilds.update(i, with_assignment(s.guilds[i], s.instances[j].identifier)),
        ..s
    }
}

/// What one attempt of the private invite assignment computes on a store in
/// state `s` for the guild identified by `guild_id`: the state it commits
/// and the invite link it returns, or the failure it rolls back with.
pub open spec fn assign_outcome(s: StoreContents, guild_id: Seq<char>) -> Result<
    (StoreContents, Seq<char>),
    TransactionRuntimeErrorView,
> {
    match find_guild(s.guilds, guild_id) {
        None => Err(
            TransactionRuntimeErrorView::Rollback(
                ErrorView::InvalidCommandError(invalid_context_message()),
            ),
        ),
        Some(i) => match assignment_key(s.guilds[i]) {
            Some(a) => match find_instance(s.instances, a) {
                Some(j) => Ok((s, s.instances[j].invite_link@)),
                None => Err(
                    TransactionRuntimeErrorView::Rollback(
                        ErrorView::QueryError(missing_instance_message()),
                    ),
                ),
            },
            None => match chosen_instance(s) {
                Some(j) => Ok((store_after_assign(s, i, j), s.instances[j].invite_link@)),
                None => Err(
                    TransactionRuntimeErrorView::Rollback(ErrorView::NoPrivateBotAvailableError),
                ),
            },
        },
    }
}

/// Least-loaded selection: a chosen row has a free slot and no row with a
/// free slot is less loaded — among equally loaded rows the earliest wins —
/// and nothing is chosen exactly when no row has a free slot.
pub proof fn lemma_best_candidate_properties(s: StoreContents, upto: int)
    requires
        0 <= upto <= s.instances.len(),
    ensures
        match best_candidate_upto(s, upto) {
            Some(j) => 0 <= j < upto && qualifies(s, j) && forall|k: int|
                0 <= k < upto && #[trigger] qualifies(s, k) ==> (load_of(s, j) < load_of(s, k) || (
                load_of(s, j) == load_of(s, k) && j <= k)),
            None => forall|k: int| 0 <= k < upto ==> !(#[trigger] qualifies(s, k)),
        },
    decreases upto,
{
    if upto > 0 {
        lemma_best_candidate_properties(s, upto - 1);
    }
}

/// An assignment attempt never asks for a retry of its own: every failure
/// it reports rolls the transaction back for good.
pub proof fn lemma_assign_outcome_no_retry(s: StoreContents, guild_id: Seq<char>)
    ensures
        !(assign_outcome(s, guild_id) matches Err(TransactionRuntimeErrorView::Retry(_))),
{
}

/// Capacity invariant: whatever state a successful assignment attempt
/// commits is well formed again — in particular, no instance is ever loaded
/// beyond its server limit, so no sequence of assignments can over-subscribe
/// an instance.
pub proof fn lemma_assign_preserves_wf(s: StoreContents, guild_id: Seq<char>)
    requires
        s.wf(),
    ensures
        assign_outcome(s, guild_id) matches Ok((post, link)) ==> post.wf(),
{
    match find_guild(s.guilds, guild_id) {
        None => {},
        Some(i) => {
            crate::store::lemma_find_guild_from_properties(s.guilds, guild_id, 0);
            match assignment_key(s.guilds[i]) {
                Some(_) => {},
                None => {
                    match chosen_instance(s) {
                        None => {},
                        Some(j) => {
                            lemma_best_candidate_properties(s, s.instances.len() as int);
                            let post = store_after_assign(s, i, j);
                            let g2 = with_assignment(s.guilds[i], s.instances[j].identifier);
                            assert(post.guilds == s.guilds.update(i, g2));
                            assert(post.instances == s.instances);
                            assert(post.limits_positive());
                            assert(post.instance_ids_unique());
                            assert(post.guild_ids_unique()) by {
                                assert forall|a: int, b: int|
                                    0 <= a < b < post.guilds.len() && guild_key(
                                        #[trigger] post.guilds[a],
                                    ) is Some implies guild_key(post.guilds[a]) != guild_key(
                                    #[trigger] post.guilds[b],
                                ) by {
                                    assert(guild_key(post.guilds[a]) == guild_key(s.guilds[a]));
                                    assert(guild_key(post.guilds[b]) == guild_key(s.guilds[b]));
                                }
                            }
                            assert(post.assignments_valid()) by {
                                assert forall|a: int|
                                    0 <= a < post.guilds.len() implies (assignment_key(
                                    #[trigger] post.guilds[a],
                                ) matches Some(key) ==> post.has_instance(key)) by {
                                    if a == i {
                                        assert(assignment_key(g2) == Some(
                                            s.instances[j].identifier@,
                                        ));
                                        assert(0 <= j < post.instances.len()
                                            && post.instances[j].identifier@
                                            == s.instances[j].identifier@);
                                    } else {
                                        assert(post.guilds[a] == s.guilds[a]);
                                        assert(assignment_key(s.guilds[a]) matches Some(key)
                                            ==> s.has_instance(key));
                                    }
                                }
                            }
                            assert(post.capacity_respected()) by {
                                assert forall|k: int|
                                    0 <= k < post.instances.len() implies count_assigned_to(
                                    post.guilds,
                                    (#[trigger] post.instances[k]).identifier@,
                                ) <= post.instances[k].server_limit by {
                                    let id = s.instances[k].identifier@;
                                    lemma_count_update(s.guilds, i, g2, id);
                                    assert(!assigned_to(s.guilds[i], id));
                                    if k == j {
                                        assert(assigned_to(g2, id));
                                        assert(count_assigned_to(post.guilds, id)
                                            == count_assigned_to(s.guilds, id) + 1);
                                    } else {
                                        assert(s.instances[k].identifier@
                                            != s.instances[j].identifier@);
                                        assert(!assigned_to(g2, id));
                                        assert(count_assigned_to(post.guilds, id)
                                            == count_assigned_to(s.guilds, id));
                                    }
                                }
                            }
                        },
                    }
                },
            }
        },
    }
}

/// Idempotence: once an assignment has succeeded, running the assignment
/// again for the same guild returns the same invite link and leaves the
/// store exactly as it is — the assignment reference of a guild is written
/// at most once.
pub proof fn lemma_assign_idempotent(s: StoreContents, guild_id: Seq<char>)
    requires
        s.wf(),
        assign_outcome(s, guild_id) is Ok,
    ensures
        assign_outcome(s, guild_id) matches Ok((post, link)) && assign_outcome(post, guild_id)
            == Ok::<(StoreContents, Seq<char>), TransactionRuntimeErrorView>((post, link)),
{
    crate::store::lemma_find_guild_from_properties(s.guilds, guild_id, 0);
    let i = find_guild(s.guilds, guild_id)->0;
    match assignment_key(s.guilds[i]) {
        Some(_) => {},
        None => {
            let j = chosen_instance(s)->0;
            lemma_best_candidate_properties(s, s.instances.len() as int);
            let post = store_after_assign(s, i, j);
            let g2 = with_assignment(s.guilds[i], s.instances[j].identifier);
            assert forall|k: int| 0 <= k < i implies guild_key(#[trigger] post.guilds[k])
                != Some(guild_id) by {
                assert(post.guilds[k] == s.guilds[k]);
            }
            assert(guild_key(post.guilds[i]) == guild_key(s.guilds[i]));
            lemma_find_guild_is_first(post.guilds, guild_id, i);
            assert(assignment_key(post.guilds[i]) == Some(s.instances[j].identifier@));
            lemma_find_instance_of_existing(post, j);
        },
    }
}

/// A partial sum of loads stays below the matching partial sum of limits
/// while the capacity invariant holds.
proof fn lemma_sum_counts_le_limits(s: StoreContents, upto: int)
    requires
        0 <= upto <= s.instances.len(),
        s.capacity_respected(),
    ensures
        sum_counts(s.instances, s.guilds, upto) <= sum_limits(s.instances, upto),
    decreases upto,
{
    if upto > 0 {
        lemma_sum_counts_le_limits(s, upto - 1);
    }
}

/// One instance's slack is bounded by the difference of the two sums.
proof fn lemma_sum_slack(s: StoreContents, j0: int, upto: int)
    requires
        0 <= j0 < upto <= s.instances.len(),
        s.capacity_respected(),
    ensures
        sum_counts(s.instances, s.guilds, upto) + (s.instances[j0].server_limit - load_of(s, j0))
            <= sum_limits(s.instances, upto),
    decreases upto,
{
    if upto == j0 + 1 {
        lemma_sum_counts_le_limits(s, j0);
    } else {
        lemma_sum_slack(s, j0, upto - 1);
    }
}

/// In a well-formed store where as many guilds are assigned as the pool has
/// capacity, every instance is loaded exactly to its server limit: no slot
/// is free anywhere.
pub proof fn lemma_full_pool_leaves_no_slot(s: StoreContents, j0: int)
    requires
        s.wf(),
        total_assigned(s.guilds) == total_capacity(s.instances),
        0 <= j0 < s.instances.len(),
    ensures
        !qualifies(s, j0),
{
    lemma_sum_counts_eq_total_assigned(s.instances, s.guilds);
    lemma_sum_limits_take(s.instances, s.instances.len() as int);
    assert(s.instances.take(s.instances.len() as int) =~= s.instances);
    lemma_sum_slack(s, j0, s.instances.len() as int);
}

/// Exhaustion: with every slot of the pool taken — as many assigned guilds
/// as the pool has capacity — an assignment attempt for a guild that has no
/// assignment yet reports the exhaustion failure, which commits nothing and
/// leaves every existing assignment unchanged.
pub proof fn lemma_assign_exhausted(s: StoreContents, guild_id: Seq<char>)
    requires
        s.wf(),
        total_assigned(s.guilds) == total_capacity(s.instances),
        find_guild(s.guilds, guild_id) matches Some(i) && assignment_key(s.guilds[i]) is None,
    ensures
        assign_outcome(s, guild_id) == Err::<
            (StoreContents, Seq<char>),
            TransactionRuntimeErrorView,
        >(TransactionRuntimeErrorView::Rollback(ErrorView::NoPrivateBotAvailableError)),
{
    assert forall|j: int| 0 <= j < s.instances.len() implies !qualifies(s, j) by {
        lemma_full_pool_leaves_no_slot(s, j);
    }
    lemma_best_candidate_properties(s, s.instances.len() as int);
    match chosen_instance(s) {
        Some(j) => {
            assert(qualifies(s, j));
        },
        None => {},
    }
}

/// The least-loaded instance row that still has a free slot, ties going to
/// the earliest row.
fn select_instance(store: &Store) -> (r: Option<usize>)
    ensures
        match r {
            Some(j) => j < store.instances.len() && chosen_instance(store@) == Some(j as int),
            None => chosen_instance(store@) is None,
        },
{
    let mut best: Option<usize> = None;
    let mut best_load: usize = 0;
    let mut j: usize = 0;
    while j < store.instances.len()
        invariant
            j <= store.instances.len(),
            match best {
                Some(k) => k < j && best_candidate_upto(store@, j as int) == Some(k as int)
                    && best_load == load_of(store@, k as int),
                None => best_candidate_upto(store@, j as int) is None,
            },
        decreases store.instances.len() - j,
    {
        let load = store.count_assigned(&store.instances[j].identifier);
        let limit = store.instances[j].server_limit;
        let slot_free = limit > 0 && load < limit as usize;
        proof {
            assert(slot_free == qualifies(store@, j as int));
        }
        if slot_free {
            let replace = match best {
                Some(_) => load < best_load,
                None => true,
            };
            if replace {
                best = Some(j);
                best_load = load;
            }
        }
        j = j + 1;
    }
    best
}

/// One attempt of the assignment, run against a live store: the fast path
/// returns an existing assignment's invite link unchanged; otherwise the
/// least-loaded instance with a free slot is assigned and its link returned.
fn attempt_assign(store: &mut Store, guild_id: &String) -> (r: Result<
    String,
    TransactionRuntimeError,
>)
    requires
        old(store)@.wf(),
    ensures
        match assign_outcome(old(store)@, guild_id@) {
            Ok((post, link)) => r matches Ok(out) && out@ == link && final(store)@ == post
                && post.wf(),
            Err(e) => r matches Err(err) && err@ == e && final(store)@ == old(store)@,
        },
{
    proof {
        lemma_assign_preserves_wf(store@, guild_id@);
    }
    let guild_index = match store.find_guild_index(guild_id) {
        Some(i) => i,
        None => {
            return Err(
                TransactionRuntimeError::Rollback(
                    Error::InvalidCommandError(
                        String::from_str("This command can only be used within a guild"),
                    ),
                ),
            );
        },
    };
    let assigned = clone_optional_string(
        &store.guilds[guild_index].assigned_private_bot_instance,
    );
    if let Some(identifier) = assigned {
        match store.find_instance_index(&identifier) {
            Some(j) => {
                return Ok(store.instances[j].invite_link.clone());
            },
            None => {
                return Err(
                    TransactionRuntimeError::Rollback(
                        Error::QueryError(
                            String::from_str("The assigned private bot instance does not exist"),
                        ),
                    ),
                );
            },
        }
    }
    match select_instance(store) {
        None => Err(TransactionRuntimeError::Rollback(Error::NoPrivateBotAvailableError)),
        Some(j) => {
            let identifier = store.instances[j].identifier.clone();
            let invite_link = store.instances[j].invite_link.clone();
            let ghost pre = store@;
            store.guilds[guild_index].assigned_private_bot_instance = Some(identifier);
            proof {
                assert(final(store)@.guilds == pre.guilds.update(
                    guild_index as int,
                    with_assignment(pre.guilds[guild_index as int], pre.instances[j as int].identifier),
                ));
            }
            Ok(invite_link)
        },
    }
}

/// The private invite command: the instance allocator.  The shell resolves
/// the caller's guild to its identifier — or to nothing, when the command is
/// invoked outside any guild — before handing over.
pub struct InvitePrivateCommand {
    pub guild_id: Option<String>,
}

impl TransactionUnit for InvitePrivateCommand {
    type Output = String;

    open spec fn outcome(&self, pre: StoreContents) -> Result<
        (StoreContents, Seq<char>),
        TransactionRuntimeErrorView,
    > {
        match self.guild_id {
            None => Err(
                TransactionRuntimeErrorView::Rollback(
                    ErrorView::InvalidCommandError(invalid_context_message()),
                ),
            ),
            Some(g) => assign_outcome(pre, g@),
        }
    }

    open spec fn post_state(&self, pre: StoreContents) -> Self {
        *self
    }

    fn run(&mut self, store: &mut Store) -> (r: Result<String, TransactionRuntimeError>) {
        match &self.guild_id {
            None => Err(
                TransactionRuntimeError::Rollback(
                    Error::InvalidCommandError(
                        String::from_str("This command can only be used within a guild"),
                    ),
                ),
            ),
            Some(guild_id) => attempt_assign(store, guild_id),
        }
    }
}

impl InvitePrivateCommand {
    /// Looks up or creates the assignment of the caller's guild to a private
    /// bot instance under a serializable transaction and returns the
    /// instance's invite link.  Invoked without a guild, it fails with the
    /// invalid-context error and changes nothing; with every instance at
    /// capacity it fails with the exhaustion error and changes nothing.
    pub fn run(store: &mut Store, guild_id: Option<String>) -> (r: Result<String, Error>)
        requires
            old(store)@.wf(),
        ensures
            final(store)@.wf(),
            match guild_id {
                None => r matches Err(e) && e@ == ErrorView::InvalidCommandError(
                    invalid_context_message(),
                ) && final(store)@ == old(store)@,
                Some(g) => match assign_outcome(old(store)@, g@) {
                    Ok((post, link)) => r matches Ok(out) && out@ == link && final(store)@ == post,
                    Err(TransactionRuntimeErrorView::Rollback(e)) => r matches Err(err) && err@
                        == e && final(store)@ == old(store)@,
                    Err(TransactionRuntimeErrorView::Retry(e)) => r matches Err(err) && err@ == e
                        && final(store)@ == old(store)@,
                },
            },
    {
        let ghost pre = store@;
        let mut unit = InvitePrivateCommand { guild_id };
        let ghost unit0 = unit;
        let r = run_serializable_transaction(store, &mut unit);
        proof {
            if unit0.guild_id is Some {
                lemma_assign_outcome_no_retry(pre, unit0.guild_id->0@);
            }
            assert(retry_model(unit0, pre, MAX_TRANSACTION_ATTEMPTS as nat) == match unit0.outcome(
                pre,
            ) {
                Ok((post, v)) => (unit0, post, Ok::<Seq<char>, ErrorView>(v)),
                Err(TransactionRuntimeErrorView::Rollback(e)) => (
                    unit0,
                    pre,
                    Err::<Seq<char>, ErrorView>(e),
                ),
                Err(TransactionRuntimeErrorView::Retry(e)) => (
                    unit0,
                    pre,
                    Err::<Seq<char>, ErrorView>(e),
                ),
            });
        }
        r
    }
}

} // verus!
