//! The in-memory model of the persisted store: the guild specification table
//! and the private bot instance table, together with the well-formedness
//! invariant that the allocator maintains — above all, that no instance is
//! ever referenced by more guilds than its server limit allows.

use vstd::prelude::*;

use crate::model::{GuildSpecification, NewGuildSpecification, PrivateBotInstance};

verus! {

/// The two tables the allocator works on.  A value of this type stands for
/// the whole visible state of the store at one point in time.
pub struct Store {
    pub guilds: Vec<GuildSpecification>,
    pub instances: Vec<PrivateBotInstance>,
}

/// The store's contents as mathematical sequences; every contract in this
/// crate speaks about values of this type.
#[verifier::ext_equal]
pub struct StoreContents {
    pub guilds: Seq<GuildSpecification>,
    pub instances: Seq<PrivateBotInstance>,
}

impl View for Store {
    type V = StoreContents;

    open spec fn view(&self) -> StoreContents {
        StoreContents { guilds: self.guilds@, instances: self.instances@ }
    }
}

/// The guild identifier of a row, as a character sequence.
pub open spec fn guild_key(g: GuildSpecification) -> Option<Seq<char>> {
    match g.guild_id {
        Some(s) => Some(s@),
        None => None,
    }
}

/// The assignment reference of a row, as a character sequence.
pub open spec fn assignment_key(g: GuildSpecification) -> Option<Seq<char>> {
    match g.assigned_private_bot_instance {
        Some(s) => Some(s@),
        None => None,
    }
}

/// Whether this row's assignment reference names the given instance.
pub open spec fn assigned_to(g: GuildSpecification, identifier: Seq<char>) -> bool {
    assignment_key(g) == Some(identifier)
}

/// How many rows of `guilds` reference the instance named `identifier`: the
/// instance's current load.
pub open spec fn count_assigned_to(guilds: Seq<GuildSpecification>, identifier: Seq<char>) -> nat
    decreases guilds.len(),
{
    if guilds.len() == 0 {
        0
    } else {
        count_assigned_to(guilds.drop_last(), identifier) + if assigned_to(
            guilds.last(),
            identifier,
        ) {
            1nat
        } else {
            0nat
        }
    }
}

/// How many rows of `guilds` carry any assignment reference at all.
pub open spec fn total_assigned(guilds: Seq<GuildSpecification>) -> nat
    decreases guilds.len(),
{
    if guilds.len() == 0 {
        0
    } else {
        total_assigned(guilds.drop_last()) + if assignment_key(guilds.last()) is Some {
            1nat
        } else {
            0nat
        }
    }
}

/// The sum of all server limits: the capacity of the whole pool.
pub open spec fn total_capacity(instances: Seq<PrivateBotInstance>) -> int
    decreases instances.len(),
{
    if instances.len() == 0 {
        0
    } else {
        total_capacity(instances.drop_last()) + instances.last().server_limit
    }
}

/// The index of the first row at or after `start` whose guild identifier
/// equals `guild_id`.
pub open spec fn find_guild_from(
    guilds: Seq<GuildSpecification>,
    guild_id: Seq<char>,
    start: int,
) -> Option<int>
    decreases guilds.len() - start,
{
    if start < 0 || start >= guilds.len() {
        None
    } else if guild_key(guilds[start]) == Some(guild_id) {
        Some(start)
    } else {
        find_guild_from(guilds, guild_id, start + 1)
    }
}

/// The index of the first row whose guild identifier equals `guild_id`.
pub open spec fn find_guild(guilds: Seq<GuildSpecification>, guild_id: Seq<char>) -> Option<int> {
    find_guild_from(guilds, guild_id, 0)
}

/// The index of the first instance at or after `start` whose identifier
/// equals `identifier`.
pub open spec fn find_instance_from(
    instances: Seq<PrivateBotInstance>,
    identifier: Seq<char>,
    start: int,
) -> Option<int>
    decreases instances.len() - start,
{
    if start < 0 || start >= instances.len() {
        None
    } else if instances[start].identifier@ == identifier {
        Some(start)
    } else {
        find_instance_from(instances, identifier, start + 1)
    }
}

/// The index of the first instance whose identifier equals `identifier`.
pub open spec fn find_instance(
    instances: Seq<PrivateBotInstance>,
    identifier: Seq<char>,
) -> Option<int> {
    find_instance_from(instances, identifier, 0)
}

impl StoreContents {
    /// Every server limit is positive.
    pub open spec fn limits_positive(self) -> bool {
        forall|j: int|
            0 <= j < self.instances.len() ==> (#[trigger] self.instances[j]).server_limit > 0
    }

    /// No two instance rows share an identifier.
    pub open spec fn instance_ids_unique(self) -> bool {
        forall|j: int, k: int|
            0 <= j < k < self.instances.len() ==> (#[trigger] self.instances[j]).identifier@ != (
            #[trigger] self.instances[k]).identifier@
    }

    /// No two guild rows share a guild identifier.
    pub open spec fn guild_ids_unique(self) -> bool {
        forall|i: int, k: int|
            0 <= i < k < self.guilds.len() && guild_key(#[trigger] self.guilds[i]) is Some
                ==> guild_key(self.guilds[i]) != guild_key(#[trigger] self.guilds[k])
    }

    /// Whether some instance row carries the given identifier.
    pub open spec fn has_instance(self, identifier: Seq<char>) -> bool {
        exists|j: int|
            0 <= j < self.instances.len() && (#[trigger] self.instances[j]).identifier@
                == identifier
    }

    /// Every assignment reference names an existing instance row.
    pub open spec fn assignments_valid(self) -> bool {
        forall|i: int|
            0 <= i < self.guilds.len() ==> (assignment_key(#[trigger] self.guilds[i]) matches Some(
                a,
            ) ==> self.has_instance(a))
    }

    /// No instance is loaded beyond its server limit.  This is the capacity
    /// invariant: it holds at every visible state of the store.
    pub open spec fn capacity_respected(self) -> bool {
        forall|j: int|
            0 <= j < self.instances.len() ==> count_assigned_to(
                self.guilds,
                (#[trigger] self.instances[j]).identifier@,
            ) <= self.instances[j].server_limit
    }

    /// Well-formedness of the store: what every operation of this crate may
    /// assume and must preserve.
    pub open spec fn wf(self) -> bool {
        &&& self.limits_positive()
        &&& self.instance_ids_unique()
        &&& self.guild_ids_unique()
        &&& self.assignments_valid()
        &&& self.capacity_respected()
    }

    /// The number of free slots left across the whole pool, floored at zero.
    pub open spec fn spec_remaining_capacity(self) -> int {
        let d = total_capacity(self.instances) - total_assigned(self.guilds);
        if d >= 0 {
            d
        } else {
            0
        }
    }
}

/// Appending a row adds one to the load of the instance it references and
/// leaves every other load unchanged.
pub proof fn lemma_count_push(
    guilds: Seq<GuildSpecification>,
    g: GuildSpecification,
    identifier: Seq<char>,
)
    ensures
        count_assigned_to(guilds.push(g), identifier) == count_assigned_to(guilds, identifier) + if assigned_to(
            g,
            identifier,
        ) {
            1nat
        } else {
            0nat
        },
{
    assert(guilds.push(g).drop_last() =~= guilds);
}

/// Replacing one row changes each load by the difference the two rows make
/// for that instance.
pub proof fn lemma_count_update(
    guilds: Seq<GuildSpecification>,
    i: int,
    g: GuildSpecification,
    identifier: Seq<char>,
)
    requires
        0 <= i < guilds.len(),
    ensures
        count_assigned_to(guilds.update(i, g), identifier) + if assigned_to(
            guilds[i],
            identifier,
        ) {
            1nat
        } else {
            0nat
        } == count_assigned_to(guilds, identifier) + if assigned_to(g, identifier) {
            1nat
        } else {
            0nat
        },
    decreases guilds.len(),
{
    if i == guilds.len() - 1 {
        assert(guilds.update(i, g).drop_last() =~= guilds.drop_last());
    } else {
        assert(guilds.update(i, g).drop_last() =~= guilds.drop_last().update(i, g));
        assert(guilds.update(i, g).last() == guilds.last());
        lemma_count_update(guilds.drop_last(), i, g, identifier);
    }
}

/// With positive limits the pool's capacity is non-negative.
pub proof fn lemma_total_capacity_nonneg(instances: Seq<PrivateBotInstance>)
    requires
        forall|j: int| 0 <= j < instances.len() ==> (#[trigger] instances[j]).server_limit > 0,
    ensures
        total_capacity(instances) >= 0,
    decreases instances.len(),
{
    if instances.len() > 0 {
        lemma_total_capacity_nonneg(instances.drop_last());
    }
}

/// With positive limits, a prefix of the pool never holds more capacity than
/// the whole pool.
pub proof fn lemma_total_capacity_take_le(instances: Seq<PrivateBotInstance>, n: int)
    requires
        0 <= n <= instances.len(),
        forall|j: int| 0 <= j < instances.len() ==> (#[trigger] instances[j]).server_limit > 0,
    ensures
        total_capacity(instances.take(n)) <= total_capacity(instances),
        total_capacity(instances.take(n)) >= 0,
    decreases instances.len() - n,
{
    assert forall|j: int| 0 <= j < instances.take(n).len() implies (#[trigger] instances.take(
        n,
    )[j]).server_limit > 0 by {
        assert(instances.take(n)[j] == instances[j]);
    }
    lemma_total_capacity_nonneg(instances.take(n));
    if n == instances.len() {
        assert(instances.take(n) =~= instances);
    } else {
        lemma_total_capacity_take_le(instances, n + 1);
        assert(instances.take(n + 1).drop_last() =~= instances.take(n));
        assert(instances.take(n + 1).last() == instances[n]);
    }
}

/// What a successful or failed search for a guild row means: the index found
/// is the first match, and a missing result means no row matches.
pub proof fn lemma_find_guild_from_properties(
    guilds: Seq<GuildSpecification>,
    guild_id: Seq<char>,
    start: int,
)
    requires
        0 <= start <= guilds.len(),
    ensures
        match find_guild_from(guilds, guild_id, start) {
            Some(i) => start <= i < guilds.len() && guild_key(guilds[i]) == Some(guild_id)
                && forall|k: int|
                start <= k < i ==> guild_key(#[trigger] guilds[k]) != Some(guild_id),
            None => forall|k: int|
                start <= k < guilds.len() ==> guild_key(#[trigger] guilds[k]) != Some(guild_id),
        },
    decreases guilds.len() - start,
{
    if start < guilds.len() && guild_key(guilds[start]) != Some(guild_id) {
        lemma_find_guild_from_properties(guilds, guild_id, start + 1);
    }
}

/// What a successful or failed search for an instance row means.
pub proof fn lemma_find_instance_from_properties(
    instances: Seq<PrivateBotInstance>,
    identifier: Seq<char>,
    start: int,
)
    requires
        0 <= start <= instances.len(),
    ensures
        match find_instance_from(instances, identifier, start) {
            Some(j) => start <= j < instances.len() && instances[j].identifier@ == identifier
                && forall|k: int|
                start <= k < j ==> (#[trigger] instances[k]).identifier@ != identifier,
            None => forall|k: int|
                start <= k < instances.len() ==> (#[trigger] instances[k]).identifier@
                    != identifier,
        },
    decreases instances.len() - start,
{
    if start < instances.len() && instances[start].identifier@ != identifier {
        lemma_find_instance_from_properties(instances, identifier, start + 1);
    }
}

/// A row that matches, with no earlier match, is the row the search finds.
pub proof fn lemma_find_guild_is_first(
    guilds: Seq<GuildSpecification>,
    guild_id: Seq<char>,
    i: int,
)
    requires
        0 <= i < guilds.len(),
        guild_key(guilds[i]) == Some(guild_id),
        forall|k: int| 0 <= k < i ==> guild_key(#[trigger] guilds[k]) != Some(guild_id),
    ensures
        find_guild(guilds, guild_id) == Some(i),
{
    lemma_find_guild_from_properties(guilds, guild_id, 0);
    match find_guild(guilds, guild_id) {
        Some(m) => {
            if m < i {
                assert(guild_key(guilds[m]) != Some(guild_id));
            } else if i < m {
                assert(guild_key(guilds[i]) != Some(guild_id));
            }
        },
        None => {
            assert(guild_key(guilds[i]) != Some(guild_id));
        },
    }
}

/// How many of the first `upto` instance rows carry the identifier `a`.
pub open spec fn matching_instances(
    instances: Seq<PrivateBotInstance>,
    a: Seq<char>,
    upto: int,
) -> nat
    decreases upto,
{
    if upto <= 0 {
        0
    } else {
        matching_instances(instances, a, upto - 1) + if instances[upto - 1].identifier@ == a {
            1nat
        } else {
            0nat
        }
    }
}

/// The loads of the first `upto` instance rows against `guilds`, summed.
pub open spec fn sum_counts(
    instances: Seq<PrivateBotInstance>,
    guilds: Seq<GuildSpecification>,
    upto: int,
) -> nat
    decreases upto,
{
    if upto <= 0 {
        0
    } else {
        sum_counts(instances, guilds, upto - 1) + count_assigned_to(
            guilds,
            instances[upto - 1].identifier@,
        )
    }
}

/// The server limits of the first `upto` instance rows, summed.
pub open spec fn sum_limits(instances: Seq<PrivateBotInstance>, upto: int) -> int
    decreases upto,
{
    if upto <= 0 {
        0
    } else {
        sum_limits(instances, upto - 1) + instances[upto - 1].server_limit
    }
}

/// Summing every server limit gives the pool's total capacity.
pub proof fn lemma_sum_limits_take(instances: Seq<PrivateBotInstance>, upto: int)
    requires
        0 <= upto <= instances.len(),
    ensures
        sum_limits(instances, upto) == total_capacity(instances.take(upto)),
    decreases upto,
{
    if upto > 0 {
        lemma_sum_limits_take(instances, upto - 1);
        assert(instances.take(upto).drop_last() =~= instances.take(upto - 1));
        assert(instances.take(upto).last() == instances[upto - 1]);
    }
}

/// With unique identifiers, an identifier occurs at most once: exactly once
/// if some row carries it, not at all otherwise.
pub proof fn lemma_matching_instances_unique(
    instances: Seq<PrivateBotInstance>,
    a: Seq<char>,
    upto: int,
)
    requires
        0 <= upto <= instances.len(),
        forall|j: int, k: int|
            0 <= j < k < instances.len() ==> (#[trigger] instances[j]).identifier@ != (
            #[trigger] instances[k]).identifier@,
    ensures
        (exists|k: int| 0 <= k < upto && (#[trigger] instances[k]).identifier@ == a)
            ==> matching_instances(instances, a, upto) == 1,
        (forall|k: int| 0 <= k < upto ==> (#[trigger] instances[k]).identifier@ != a)
            ==> matching_instances(instances, a, upto) == 0,
    decreases upto,
{
    if upto > 0 {
        lemma_matching_instances_unique(instances, a, upto - 1);
        if instances[upto - 1].identifier@ == a {
            assert forall|k: int| 0 <= k < upto - 1 implies (#[trigger] instances[k]).identifier@
                != a by {
                assert(instances[k].identifier@ != instances[upto - 1].identifier@);
            }
        } else {
            if exists|k: int| 0 <= k < upto && (#[trigger] instances[k]).identifier@ == a {
                let k = choose|k: int|
                    0 <= k < upto && (#[trigger] instances[k]).identifier@ == a;
                assert(0 <= k < upto - 1 && instances[k].identifier@ == a);
            }
        }
    }
}

/// No instance's load counts an empty table.
pub proof fn lemma_sum_counts_empty(instances: Seq<PrivateBotInstance>, upto: int)
    ensures
        sum_counts(instances, Seq::<GuildSpecification>::empty(), upto) == 0,
    decreases upto,
{
    if upto > 0 {
        lemma_sum_counts_empty(instances, upto - 1);
    }
}

/// Appending a guild row raises the summed loads by the number of instance
/// rows carrying the new row's assignment reference.
pub proof fn lemma_sum_counts_push(
    instances: Seq<PrivateBotInstance>,
    guilds: Seq<GuildSpecification>,
    g: GuildSpecification,
    upto: int,
)
    requires
        0 <= upto <= instances.len(),
    ensures
        sum_counts(instances, guilds.push(g), upto) == sum_counts(instances, guilds, upto) + (
        if assignment_key(g) is Some {
            matching_instances(instances, assignment_key(g)->0, upto)
        } else {
            0nat
        }),
    decreases upto,
{
    if upto > 0 {
        lemma_sum_counts_push(instances, guilds, g, upto - 1);
        lemma_count_push(guilds, g, instances[upto - 1].identifier@);
    }
}

/// Double counting: with valid assignment references and unique instance
/// identifiers, the loads of all instances sum to the number of assigned
/// guilds — every assigned guild is counted by exactly one instance.
pub proof fn lemma_sum_counts_eq_total_assigned(
    instances: Seq<PrivateBotInstance>,
    guilds: Seq<GuildSpecification>,
)
    requires
        forall|i: int|
            0 <= i < guilds.len() ==> (assignment_key(#[trigger] guilds[i]) matches Some(a)
                ==> exists|j: int|
                0 <= j < instances.len() && (#[trigger] instances[j]).identifier@ == a),
        forall|j: int, k: int|
            0 <= j < k < instances.len() ==> (#[trigger] instances[j]).identifier@ != (
            #[trigger] instances[k]).identifier@,
    ensures
        sum_counts(instances, guilds, instances.len() as int) == total_assigned(guilds),
    decreases guilds.len(),
{
    if guilds.len() == 0 {
        assert(guilds =~= Seq::<GuildSpecification>::empty());
        lemma_sum_counts_empty(instances, instances.len() as int);
    } else {
        let shorter = guilds.drop_last();
        let g = guilds.last();
        assert(guilds =~= shorter.push(g));
        assert forall|i: int|
            0 <= i < shorter.len() implies (assignment_key(#[trigger] shorter[i]) matches Some(a)
            ==> exists|j: int|
            0 <= j < instances.len() && (#[trigger] instances[j]).identifier@ == a) by {
            assert(shorter[i] == guilds[i]);
        }
        lemma_sum_counts_eq_total_assigned(instances, shorter);
        lemma_sum_counts_push(instances, shorter, g, instances.len() as int);
        if assignment_key(g) is Some {
            assert(assignment_key(guilds[guilds.len() - 1]) matches Some(a) ==> exists|j: int|
                0 <= j < instances.len() && (#[trigger] instances[j]).identifier@ == a);
            lemma_matching_instances_unique(
                instances,
                assignment_key(g)->0,
                instances.len() as int,
            );
        }
    }
}

/// With unique identifiers, searching for the identifier of row `j` finds
/// exactly row `j`.
pub proof fn lemma_find_instance_of_existing(s: StoreContents, j: int)
    requires
        s.instance_ids_unique(),
        0 <= j < s.instances.len(),
    ensures
        find_instance(s.instances, s.instances[j].identifier@) == Some(j),
{
    lemma_find_instance_from_properties(s.instances, s.instances[j].identifier@, 0);
    match find_instance(s.instances, s.instances[j].identifier@) {
        Some(k) => {
            if k < j {
                assert(s.instances[k].identifier@ != s.instances[j].identifier@);
            } else if j < k {
                assert(s.instances[j].identifier@ != s.instances[k].identifier@);
            }
        },
        None => {
            assert(s.instances[j].identifier@ != s.instances[j].identifier@);
        },
    }
}

impl Store {
    /// An exact copy of the visible state, used to snapshot the store before
    /// a transaction attempt.
    pub fn duplicate(&self) -> (r: Store)
        ensures
            r@ == self@,
    {
        let mut guilds: Vec<GuildSpecification> = Vec::new();
        let mut i: usize = 0;
        while i < self.guilds.len()
            invariant
                i <= self.guilds.len(),
                guilds@ == self.guilds@.take(i as int),
            decreases self.guilds.len() - i,
        {
            guilds.push(self.guilds[i].duplicate());
            proof {
                assert(self.guilds@.take(i as int).push(self.guilds@[i as int]) =~= self.guilds@
                    .take(i as int + 1));
            }
            i = i + 1;
        }
        let mut instances: Vec<PrivateBotInstance> = Vec::new();
        let mut j: usize = 0;
        while j < self.instances.len()
            invariant
                j <= self.instances.len(),
                instances@ == self.instances@.take(j as int),
            decreases self.instances.len() - j,
        {
            instances.push(self.instances[j].duplicate());
            proof {
                assert(self.instances@.take(j as int).push(self.instances@[j as int])
                    =~= self.instances@.take(j as int + 1));
            }
            j = j + 1;
        }
        proof {
            assert(self.guilds@.take(self.guilds@.len() as int) =~= self.guilds@);
            assert(self.instances@.take(self.instances@.len() as int) =~= self.instances@);
        }
        Store { guilds, instances }
    }

    /// The index of the row for the given guild identifier, if there is one.
    pub fn find_guild_index(&self, guild_id: &String) -> (r: Option<usize>)
        ensures
            match r {
                Some(i) => i < self.guilds.len() && find_guild(self@.guilds, guild_id@) == Some(
                    i as int,
                ),
                None => find_guild(self@.guilds, guild_id@) is None,
            },
    {
        let mut i: usize = 0;
        while i < self.guilds.len()
            invariant
                i <= self.guilds.len(),
                find_guild(self@.guilds, guild_id@) == find_guild_from(
                    self@.guilds,
                    guild_id@,
                    i as int,
                ),
            decreases self.guilds.len() - i,
        {
            let matched = match &self.guilds[i].guild_id {
                Some(s) => *s == *guild_id,
                None => false,
            };
            if matched {
                return Some(i);
            }
            i = i + 1;
        }
        None
    }

    /// The index of the instance row with the given identifier, if there is
    /// one.
    pub fn find_instance_index(&self, identifier: &String) -> (r: Option<usize>)
        ensures
            match r {
                Some(j) => j < self.instances.len() && find_instance(self@.instances, identifier@)
                    == Some(j as int),
                None => find_instance(self@.instances, identifier@) is None,
            },
    {
        let mut j: usize = 0;
        while j < self.instances.len()
            invariant
                j <= self.instances.len(),
                find_instance(self@.instances, identifier@) == find_instance_from(
                    self@.instances,
                    identifier@,
                    j as int,
                ),
            decreases self.instances.len() - j,
        {
            if self.instances[j].identifier == *identifier {
                return Some(j);
            }
            j = j + 1;
        }
        None
    }

    /// The current load of the instance with the given identifier.
    pub fn count_assigned(&self, identifier: &String) -> (count: usize)
        ensures
            count == count_assigned_to(self@.guilds, identifier@),
    {
        let mut count: usize = 0;
        let mut i: usize = 0;
        while i < self.guilds.len()
            invariant
                i <= self.guilds.len(),
                count <= i,
                count == count_assigned_to(self@.guilds.take(i as int), identifier@),
            decreases self.guilds.len() - i,
        {
            let matched = match &self.guilds[i].assigned_private_bot_instance {
                Some(a) => *a == *identifier,
                None => false,
            };
            proof {
                assert(self@.guilds.take(i as int + 1).drop_last() =~= self@.guilds.take(i as int));
                assert(self@.guilds.take(i as int + 1).last() == self@.guilds[i as int]);
            }
            if matched {
                count = count + 1;
            }
            i = i + 1;
        }
        proof {
            assert(self@.guilds.take(self@.guilds.len() as int) =~= self@.guilds);
        }
        count
    }

    /// How many guild rows carry any assignment reference.
    pub fn count_all_assigned(&self) -> (count: usize)
        ensures
            count == total_assigned(self@.guilds),
    {
        let mut count: usize = 0;
        let mut i: usize = 0;
        while i < self.guilds.len()
            invariant
                i <= self.guilds.len(),
                count <= i,
                count == total_assigned(self@.guilds.take(i as int)),
            decreases self.guilds.len() - i,
        {
            proof {
                assert(self@.guilds.take(i as int + 1).drop_last() =~= self@.guilds.take(i as int));
                assert(self@.guilds.take(i as int + 1).last() == self@.guilds[i as int]);
            }
            if self.guilds[i].assigned_private_bot_instance.is_some() {
                count = count + 1;
            }
            i = i + 1;
        }
        proof {
            assert(self@.guilds.take(self@.guilds.len() as int) =~= self@.guilds);
        }
        count
    }

    /// The number of free slots left across all instances: the pool's total
    /// capacity minus the number of assigned guilds, floored at zero.  Read
    /// only, for display; the allocator never consults it.
    pub fn remaining_capacity(&self) -> (slots: u64)
        requires
            self@.wf(),
            total_capacity(self@.instances) <= u64::MAX,
        ensures
            slots == self@.spec_remaining_capacity(),
    {
        let mut capacity: u64 = 0;
        let mut j: usize = 0;
        while j < self.instances.len()
            invariant
                j <= self.instances.len(),
                self@.wf(),
                total_capacity(self@.instances) <= u64::MAX,
                capacity == total_capacity(self@.instances.take(j as int)),
            decreases self.instances.len() - j,
        {
            proof {
                assert(self@.instances.take(j as int + 1).drop_last() =~= self@.instances.take(
                    j as int,
                ));
                assert(self@.instances.take(j as int + 1).last() == self@.instances[j as int]);
                lemma_total_capacity_take_le(self@.instances, j as int + 1);
            }
            capacity = capacity + (self.instances[j].server_limit as u64);
            j = j + 1;
        }
        proof {
            assert(self@.instances.take(self@.instances.len() as int) =~= self@.instances);
        }
        let assigned = self.count_all_assigned();
        if capacity >= assigned as u64 {
            capacity - assigned as u64
        } else {
            0
        }
    }

    /// Creates the guild's specification row the first time the system
    /// observes the guild: when no row carries this guild identifier yet, a
    /// fresh row without any instance assignment is appended.  An existing
    /// row is left exactly as it is.
    pub fn create_guild_specification_if_missing(&mut self, new_row: NewGuildSpecification) -> (created:
        bool)
        requires
            old(self)@.wf(),
        ensures
            final(self)@.wf(),
            final(self)@.instances == old(self)@.instances,
            match find_guild(old(self)@.guilds, new_row.guild_id@) {
                Some(_) => !created && final(self)@ == old(self)@,
                None => created && final(self)@.guilds == old(self)@.guilds.push(
                    GuildSpecification {
                        guild_id: Some(new_row.guild_id),
                        guild_name: Some(new_row.guild_name),
                        assigned_private_bot_instance: None,
                        private_bot_assignment_last_heartbeat: None,
                        initialized: Some(new_row.initialized),
                    },
                ),
            },
    {
        let existing = self.find_guild_index(&new_row.guild_id);
        if existing.is_some() {
            return false;
        }
        let ghost pre = self@;
        let ghost fresh = GuildSpecification {
            guild_id: Some(new_row.guild_id),
            guild_name: Some(new_row.guild_name),
            assigned_private_bot_instance: None,
            private_bot_assignment_last_heartbeat: None,
            initialized: Some(new_row.initialized),
        };
        self.guilds.push(
            GuildSpecification {
                guild_id: Some(new_row.guild_id),
                guild_name: Some(new_row.guild_name),
                assigned_private_bot_instance: None,
                private_bot_assignment_last_heartbeat: None,
                initialized: Some(new_row.initialized),
            },
        );
        proof {
            let post = self@;
            assert(post.guilds == pre.guilds.push(fresh));
            assert(post.instances == pre.instances);
            assert(assignment_key(fresh) is None);
            lemma_find_guild_from_properties(pre.guilds, fresh.guild_id->0@, 0);
            assert forall|j: int| 0 <= j < post.instances.len() implies count_assigned_to(
                post.guilds,
                (#[trigger] post.instances[j]).identifier@,
            ) <= post.instances[j].server_limit by {
                lemma_count_push(pre.guilds, fresh, post.instances[j].identifier@);
            }
            assert(post.guild_ids_unique()) by {
                assert forall|i: int, k: int|
                    0 <= i < k < post.guilds.len() && guild_key(#[trigger] post.guilds[i]) is Some
                    implies guild_key(post.guilds[i]) != guild_key(
                    #[trigger] post.guilds[k],
                ) by {
                    if k == post.guilds.len() - 1 {
                        assert(guild_key(pre.guilds[i]) != Some(fresh.guild_id->0@));
                    }
                }
            }
            assert(post.assignments_valid()) by {
                assert forall|i: int|
                    0 <= i < post.guilds.len() implies (assignment_key(
                    #[trigger] post.guilds[i],
                ) matches Some(a) ==> post.has_instance(a)) by {
                    if i < pre.guilds.len() {
                        assert(assignment_key(pre.guilds[i]) matches Some(a)
                            ==> pre.has_instance(a));
                    }
                }
            }
        }
        true
    }
}

} // verus!
