//! The rows that the allocator works on: one per known guild and one per
//! running private bot instance.

use vstd::prelude::*;

verus! {

/// One row of the guild specification table: a Discord guild known to the
/// system, with its optional reference to an assigned private bot instance.
/// The guild identifier is unique and nullable only before the first sync;
/// the assignment reference is written exactly once, from empty to a concrete
/// instance identifier.  The heartbeat is kept as milliseconds since the
/// Unix epoch.
pub struct GuildSpecification {
    pub guild_id: Option<String>,
    pub guild_name: Option<String>,
    pub assigned_private_bot_instance: Option<String>,
    pub private_bot_assignment_last_heartbeat: Option<i64>,
    pub initialized: Option<bool>,
}

/// The fields needed to create a guild specification row the first time the
/// system observes a guild.
pub struct NewGuildSpecification {
    pub guild_id: String,
    pub guild_name: String,
    pub initialized: bool,
}

/// One row of the private bot instance table.  The server limit is this
/// instance's capacity: the number of guilds that may reference it at once.
/// Rows are created and destroyed by operational tooling outside this crate;
/// the allocator only reads them.
pub struct PrivateBotInstance {
    pub identifier: String,
    pub invite_link: String,
    pub server_limit: i32,
}

/// Copies an optional string, field for field.
pub fn clone_optional_string(value: &Option<String>) -> (r: Option<String>)
    ensures
        r == *value,
{
    match value {
        Some(s) => Some(s.clone()),
        None => None,
    }
}

impl GuildSpecification {
    /// An exact copy of the row.
    pub fn duplicate(&self) -> (r: GuildSpecification)
        ensures
            r == *self,
    {
        GuildSpecification {
            guild_id: clone_optional_string(&self.guild_id),
            guild_name: clone_optional_string(&self.guild_name),
            assigned_private_bot_instance: clone_optional_string(
                &self.assigned_private_bot_instance,
            ),
            private_bot_assignment_last_heartbeat: self.private_bot_assignment_last_heartbeat,
            initialized: self.initialized,
        }
    }
}

impl PrivateBotInstance {
    /// An exact copy of the row.
    pub fn duplicate(&self) -> (r: PrivateBotInstance)
        ensures
            r == *self,
    {
        PrivateBotInstance {
            identifier: self.identifier.clone(),
            invite_link: self.invite_link.clone(),
            server_limit: self.server_limit,
        }
    }
}

} // verus!
