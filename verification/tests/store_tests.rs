//! The store: lookups, session lifecycle, and owned-collection queries.

use itemshop::errors::ServerError;
use itemshop::models::{FullUser, Item, NewSession, Session};
use itemshop::store::Store;

fn fixture() -> Store {
    let user = |id: i32, email: &str| FullUser {
        id,
        created_at: 100,
        updated_at: 100,
        email: email.to_string(),
        password: format!("digest-{}", id),
    };
    let item = |id: i32, user_id: i32, name: &str, price: i32| Item {
        id,
        created_at: 200,
        updated_at: 200,
        user_id,
        name: name.to_string(),
        price,
        protection_ends_at: 300,
    };
    Store {
        users: vec![user(1, "alice@example.com"), user(2, "bob@example.com")],
        sessions: vec![
            Session { id: 11, created_at: 150, user_id: 1 },
            Session { id: 22, created_at: 151, user_id: 2 },
            Session { id: 33, created_at: 152, user_id: 1 },
        ],
        items: vec![
            item(1, 1, "sword", 10),
            item(2, 2, "shield", 20),
            item(3, 1, "potion", 5),
        ],
        next_user_id: 3,
    }
}

#[test]
fn a_new_store_is_empty() {
    let store = Store::new();
    assert!(store.users.is_empty());
    assert!(store.sessions.is_empty());
    assert!(store.items.is_empty());
    assert_eq!(store.next_user_id, 1);
}

#[test]
fn lookups_find_exactly_the_named_rows() {
    let store = fixture();
    assert_eq!(store.find_full_user(1).map(|u| u.email.as_str()), Some("alice@example.com"));
    assert!(store.find_full_user(9).is_none());
    let bob = "bob@example.com".to_string();
    assert_eq!(store.find_user_by_email(&bob).map(|u| u.id), Some(2));
    let ghost = "ghost@example.com".to_string();
    assert!(store.find_user_by_email(&ghost).is_none());
    assert_eq!(store.find_session(22).map(|s| s.user_id), Some(2));
    assert!(store.find_session(99).is_none());
}

#[test]
fn insert_user_assigns_sequential_identifiers() {
    let mut store = Store::new();
    let u1 = store.insert_user("a@example.com".to_string(), "d1".to_string(), 10).unwrap();
    let u2 = store.insert_user("b@example.com".to_string(), "d2".to_string(), 20).unwrap();
    assert_eq!(u1.id, 1);
    assert_eq!(u2.id, 2);
    assert_eq!(u2.created_at, 20);
    assert_eq!(store.next_user_id, 3);
    let taken = store.insert_user("a@example.com".to_string(), "d3".to_string(), 30);
    assert!(matches!(taken, Err(ServerError::UniqueViolation)));
    assert_eq!(store.users.len(), 2);
}

#[test]
fn create_session_requires_an_existing_user_and_a_fresh_identifier() {
    let mut store = fixture();
    let made = store.create_session(NewSession { user_id: 2 }, 44, 500).unwrap();
    assert_eq!(made.user_id, 2);
    assert_eq!(made.created_at, 500);
    let absent = store.create_session(NewSession { user_id: 9 }, 55, 500);
    assert!(matches!(absent, Err(ServerError::NotFound)));
    let collision = store.create_session(NewSession { user_id: 1 }, 44, 500);
    assert!(matches!(collision, Err(ServerError::SessionIdCollision)));
    assert_eq!(store.sessions.len(), 4);
}

#[test]
fn delete_session_is_exact_about_absence() {
    let mut store = fixture();
    assert!(store.delete_session(11).is_ok());
    assert!(matches!(store.delete_session(11), Err(ServerError::NotFound)));
    assert_eq!(store.sessions.len(), 2);
}

#[test]
fn update_user_password_changes_only_the_digest() {
    let mut store = fixture();
    let slim = store.update_user_password(1, "fresh-digest".to_string()).unwrap();
    assert_eq!(slim.id, 1);
    assert_eq!(slim.email, "alice@example.com");
    assert_eq!(store.users[0].password, "fresh-digest");
    assert_eq!(store.users[0].email, "alice@example.com");
    assert!(matches!(
        store.update_user_password(9, "x".to_string()),
        Err(ServerError::NotFound)
    ));
}

#[test]
fn delete_user_cascades_to_sessions_and_items() {
    let mut store = fixture();
    assert!(store.delete_user(1));
    assert_eq!(store.users.len(), 1);
    assert_eq!(store.users[0].id, 2);
    assert_eq!(store.sessions.len(), 1);
    assert_eq!(store.sessions[0].id, 22);
    assert_eq!(store.items.len(), 1);
    assert_eq!(store.items[0].id, 2);
    assert!(!store.delete_user(1));
}

#[test]
fn owned_collections_are_filtered_by_owner_in_stored_order() {
    let store = fixture();
    let alice = store.find_full_user(1).unwrap().slim();
    let items = alice.items(&store);
    assert_eq!(items.len(), 2);
    assert_eq!(items[0].name, "sword");
    assert_eq!(items[1].name, "potion");
    let sessions = alice.sessions(&store);
    assert_eq!(sessions.len(), 2);
    assert_eq!(sessions[0].id, 11);
    assert_eq!(sessions[1].id, 33);
    let bob = store.find_full_user(2).unwrap().slim();
    assert_eq!(bob.items(&store).len(), 1);
    assert_eq!(bob.sessions(&store).len(), 1);
}

#[test]
fn a_spent_identifier_space_is_reported() {
    let mut store = Store::new();
    store.next_user_id = i32::MAX;
    let r = store.insert_user("a@example.com".to_string(), "d".to_string(), 0);
    assert!(matches!(r, Err(ServerError::IdSpaceExhausted)));
    assert!(store.users.is_empty());
}

#[test]
fn user_getters_expose_the_fields() {
    let store = fixture();
    let alice = store.find_full_user(1).unwrap().slim();
    assert_eq!(alice.id(), 1);
    assert_eq!(alice.created_at(), 100);
    assert_eq!(alice.updated_at(), 100);
    assert_eq!(alice.email(), "alice@example.com");
    let copy = alice.duplicate();
    assert_eq!(copy.email, alice.email);
}
