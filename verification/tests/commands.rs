//! The command cores around the allocator: help text, public invite,
//! overview lookup, capacity query and the error taxonomy.

use osiris::command::help::HelpCommand;
use osiris::command::invite::InvitePublicCommand;
use osiris::command::overview::OverviewCommand;
use osiris::error::Error;
use osiris::model::{GuildSpecification, PrivateBotInstance};
use osiris::store::Store;

fn guild(id: &str, assigned: Option<&str>) -> GuildSpecification {
    GuildSpecification {
        guild_id: Some(id.to_string()),
        guild_name: Some(format!("guild {id}")),
        assigned_private_bot_instance: assigned.map(|a| a.to_string()),
        private_bot_assignment_last_heartbeat: None,
        initialized: Some(true),
    }
}

fn instance(id: &str, link: &str, limit: i32) -> PrivateBotInstance {
    PrivateBotInstance {
        identifier: id.to_string(),
        invite_link: link.to_string(),
        server_limit: limit,
    }
}

#[test]
fn help_text_names_the_commands() {
    assert_eq!(
        HelpCommand::run(),
        "This bot manages invite links for the aiode bot. Use the 'overview' command to view available public and private invite links or use 'invite private' or 'invite public' to get an invite link for a private or public aiode instance."
    );
}

#[test]
fn public_invite_links_when_enabled() {
    assert_eq!(
        InvitePublicCommand::run(true, "https://example.invalid/invite"),
        "[Invite link](https://example.invalid/invite)"
    );
}

#[test]
fn public_invite_notice_when_disabled() {
    assert_eq!(
        InvitePublicCommand::run(false, "https://example.invalid/invite"),
        "The public instance of aiode is disabled"
    );
}

#[test]
fn overview_reports_the_assigned_instance() {
    let mut store = Store {
        guilds: vec![guild("1", Some("a"))],
        instances: vec![instance("a", "link-a", 2)],
    };
    let r = OverviewCommand::run(&mut store, Some("1".to_string())).unwrap();
    assert_eq!(r.as_deref(), Some("link-a"));
}

#[test]
fn overview_reports_no_assignment() {
    let mut store = Store {
        guilds: vec![guild("1", None)],
        instances: vec![instance("a", "link-a", 2)],
    };
    let r = OverviewCommand::run(&mut store, Some("1".to_string())).unwrap();
    assert_eq!(r, None);
    assert_eq!(store.guilds[0].assigned_private_bot_instance, None);
}

#[test]
fn overview_outside_a_guild_is_invalid() {
    let mut store = Store {
        guilds: vec![],
        instances: vec![],
    };
    let r = OverviewCommand::run(&mut store, None);
    assert!(matches!(r, Err(Error::InvalidCommandError(_))));
}

#[test]
fn remaining_capacity_counts_free_slots() {
    let store = Store {
        guilds: vec![guild("1", Some("a")), guild("2", Some("b")), guild("3", None)],
        instances: vec![instance("a", "link-a", 2), instance("b", "link-b", 3)],
    };
    assert_eq!(store.remaining_capacity(), 3);
}

#[test]
fn remaining_capacity_of_a_full_pool_is_zero() {
    let store = Store {
        guilds: vec![guild("1", Some("a"))],
        instances: vec![instance("a", "link-a", 1)],
    };
    assert_eq!(store.remaining_capacity(), 0);
}

#[test]
fn remaining_capacity_without_instances_is_zero() {
    let store = Store {
        guilds: vec![guild("1", None)],
        instances: vec![],
    };
    assert_eq!(store.remaining_capacity(), 0);
}

#[test]
fn error_codes_match_the_taxonomy() {
    assert_eq!(
        Error::InvalidCommandError("x".to_string()).error_code(),
        400_001
    );
    assert_eq!(Error::UserIsNotSupporterError.error_code(), 400_002);
    assert_eq!(Error::NoPrivateBotAvailableError.error_code(), 400_004);
    assert_eq!(
        Error::DatabaseConnectionError("x".to_string()).error_code(),
        500_001
    );
    assert_eq!(Error::QueryError("x".to_string()).error_code(), 500_002);
    assert_eq!(Error::SerenityError("x".to_string()).error_code(), 500_003);
}

#[test]
fn only_the_500_range_is_internal() {
    assert!(!Error::InvalidCommandError("x".to_string()).is_internal_error());
    assert!(!Error::UserIsNotSupporterError.is_internal_error());
    assert!(!Error::NoPrivateBotAvailableError.is_internal_error());
    assert!(Error::DatabaseConnectionError("x".to_string()).is_internal_error());
    assert!(Error::QueryError("x".to_string()).is_internal_error());
    assert!(Error::SerenityError("x".to_string()).is_internal_error());
}

#[test]
fn messages_splice_in_the_detail() {
    assert_eq!(
        Error::DatabaseConnectionError("pool exhausted".to_string()).message(),
        "Could not establish database connection: pool exhausted"
    );
    assert_eq!(
        Error::QueryError("bad row".to_string()).message(),
        "There has been an error executing a query: 'bad row'"
    );
    assert_eq!(
        Error::InvalidCommandError("This command can only be used within a guild".to_string())
            .message(),
        "This command can only be used within a guild"
    );
}
