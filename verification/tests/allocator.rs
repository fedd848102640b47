//! The allocator end to end: assignment, idempotence, least-loaded
//! selection, exhaustion and context validation.

use osiris::command::invite::InvitePrivateCommand;
use osiris::error::Error;
use osiris::model::{GuildSpecification, NewGuildSpecification, PrivateBotInstance};
use osiris::store::Store;

fn guild(id: &str) -> GuildSpecification {
    GuildSpecification {
        guild_id: Some(id.to_string()),
        guild_name: Some(format!("guild {id}")),
        assigned_private_bot_instance: None,
        private_bot_assignment_last_heartbeat: None,
        initialized: Some(true),
    }
}

fn assigned_guild(id: &str, instance: &str) -> GuildSpecification {
    GuildSpecification {
        assigned_private_bot_instance: Some(instance.to_string()),
        ..guild(id)
    }
}

fn instance(id: &str, link: &str, limit: i32) -> PrivateBotInstance {
    PrivateBotInstance {
        identifier: id.to_string(),
        invite_link: link.to_string(),
        server_limit: limit,
    }
}

fn count_assigned(store: &Store, instance_id: &str) -> usize {
    store
        .guilds
        .iter()
        .filter(|g| g.assigned_private_bot_instance.as_deref() == Some(instance_id))
        .count()
}

#[test]
fn assign_without_guild_returns_invalid_context() {
    let mut store = Store {
        guilds: vec![guild("1")],
        instances: vec![instance("a", "link-a", 1)],
    };
    let r = InvitePrivateCommand::run(&mut store, None);
    match r {
        Err(Error::InvalidCommandError(m)) => {
            assert_eq!(m, "This command can only be used within a guild");
        }
        other => panic!("expected the invalid-context error, got {other:?}"),
    }
    assert_eq!(count_assigned(&store, "a"), 0);
}

#[test]
fn assign_for_unknown_guild_returns_invalid_context() {
    let mut store = Store {
        guilds: vec![guild("1")],
        instances: vec![instance("a", "link-a", 1)],
    };
    let r = InvitePrivateCommand::run(&mut store, Some("2".to_string()));
    assert!(matches!(r, Err(Error::InvalidCommandError(_))));
    assert_eq!(count_assigned(&store, "a"), 0);
}

#[test]
fn assign_picks_an_instance_and_returns_its_link() {
    let mut store = Store {
        guilds: vec![guild("1")],
        instances: vec![instance("a", "link-a", 1)],
    };
    let link = InvitePrivateCommand::run(&mut store, Some("1".to_string())).unwrap();
    assert_eq!(link, "link-a");
    assert_eq!(
        store.guilds[0].assigned_private_bot_instance.as_deref(),
        Some("a")
    );
}

#[test]
fn assign_is_idempotent() {
    let mut store = Store {
        guilds: vec![guild("1")],
        instances: vec![instance("a", "link-a", 1), instance("b", "link-b", 1)],
    };
    let first = InvitePrivateCommand::run(&mut store, Some("1".to_string())).unwrap();
    let assigned_after_first = store.guilds[0].assigned_private_bot_instance.clone();
    let second = InvitePrivateCommand::run(&mut store, Some("1".to_string())).unwrap();
    assert_eq!(first, second);
    assert_eq!(
        store.guilds[0].assigned_private_bot_instance,
        assigned_after_first
    );
    assert_eq!(count_assigned(&store, "a") + count_assigned(&store, "b"), 1);
}

#[test]
fn assign_returns_existing_assignment_unchanged() {
    let mut store = Store {
        guilds: vec![assigned_guild("1", "b")],
        instances: vec![instance("a", "link-a", 5), instance("b", "link-b", 5)],
    };
    let link = InvitePrivateCommand::run(&mut store, Some("1".to_string())).unwrap();
    assert_eq!(link, "link-b");
    assert_eq!(count_assigned(&store, "a"), 0);
    assert_eq!(count_assigned(&store, "b"), 1);
}

#[test]
fn assign_selects_least_loaded_instance() {
    // instance a: capacity 2, one guild assigned; instance b: capacity 2,
    // none assigned -- a new guild must go to b.
    let mut store = Store {
        guilds: vec![assigned_guild("1", "a"), guild("2")],
        instances: vec![instance("a", "link-a", 2), instance("b", "link-b", 2)],
    };
    let link = InvitePrivateCommand::run(&mut store, Some("2".to_string())).unwrap();
    assert_eq!(link, "link-b");
    assert_eq!(
        store.guilds[1].assigned_private_bot_instance.as_deref(),
        Some("b")
    );
}

#[test]
fn assign_breaks_load_ties_by_the_earliest_row() {
    let mut store = Store {
        guilds: vec![guild("1")],
        instances: vec![instance("a", "link-a", 3), instance("b", "link-b", 3)],
    };
    let link = InvitePrivateCommand::run(&mut store, Some("1".to_string())).unwrap();
    assert_eq!(link, "link-a");
}

#[test]
fn assign_skips_full_instances() {
    let mut store = Store {
        guilds: vec![assigned_guild("1", "a"), guild("2")],
        instances: vec![instance("a", "link-a", 1), instance("b", "link-b", 1)],
    };
    let link = InvitePrivateCommand::run(&mut store, Some("2".to_string())).unwrap();
    assert_eq!(link, "link-b");
}

#[test]
fn assign_reports_exhaustion_and_changes_nothing() {
    // total capacity 2, and 2 guilds already assigned: the third distinct
    // guild is turned away and every existing assignment stays as it is.
    let mut store = Store {
        guilds: vec![
            assigned_guild("1", "a"),
            assigned_guild("2", "b"),
            guild("3"),
        ],
        instances: vec![instance("a", "link-a", 1), instance("b", "link-b", 1)],
    };
    let r = InvitePrivateCommand::run(&mut store, Some("3".to_string()));
    assert!(matches!(r, Err(Error::NoPrivateBotAvailableError)));
    assert_eq!(
        store.guilds[0].assigned_private_bot_instance.as_deref(),
        Some("a")
    );
    assert_eq!(
        store.guilds[1].assigned_private_bot_instance.as_deref(),
        Some("b")
    );
    assert_eq!(store.guilds[2].assigned_private_bot_instance, None);
}

#[test]
fn capacity_is_never_exceeded_under_many_assignments() {
    let mut store = Store {
        guilds: (0..10).map(|i| guild(&i.to_string())).collect(),
        instances: vec![
            instance("a", "link-a", 2),
            instance("b", "link-b", 3),
            instance("c", "link-c", 2),
        ],
    };
    let mut served = 0;
    for i in 0..10 {
        match InvitePrivateCommand::run(&mut store, Some(i.to_string())) {
            Ok(_) => served += 1,
            Err(Error::NoPrivateBotAvailableError) => {}
            other => panic!("unexpected result {other:?}"),
        }
        assert!(count_assigned(&store, "a") <= 2);
        assert!(count_assigned(&store, "b") <= 3);
        assert!(count_assigned(&store, "c") <= 2);
    }
    assert_eq!(served, 7);
    assert_eq!(count_assigned(&store, "a"), 2);
    assert_eq!(count_assigned(&store, "b"), 3);
    assert_eq!(count_assigned(&store, "c"), 2);
}

#[test]
fn create_guild_specification_only_once() {
    let mut store = Store {
        guilds: vec![],
        instances: vec![],
    };
    let created = store.create_guild_specification_if_missing(NewGuildSpecification {
        guild_id: "1".to_string(),
        guild_name: "first".to_string(),
        initialized: false,
    });
    assert!(created);
    let created_again = store.create_guild_specification_if_missing(NewGuildSpecification {
        guild_id: "1".to_string(),
        guild_name: "renamed".to_string(),
        initialized: true,
    });
    assert!(!created_again);
    assert_eq!(store.guilds.len(), 1);
    assert_eq!(store.guilds[0].guild_name.as_deref(), Some("first"));
    assert_eq!(store.guilds[0].assigned_private_bot_instance, None);
    assert_eq!(store.guilds[0].initialized, Some(false));
}
