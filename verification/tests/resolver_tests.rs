//! The resolvers: registration, login, authorization, logout, deletion.

use itemshop::graphql::{
    ChangePasswordUser, Context, Mutation, Query, SessionIdInput, SessionIdResponse,
    SessionResponse, UserIdInput, UserIdResponse, UserResponse, get_current_user,
};
use itemshop::models::{NewUser, Session, User};
use itemshop::store::Store;

const SECRET: &str = "test-secret-key";

fn register(store: &mut Store, email: &str, password: &str) -> User {
    let input = NewUser { email: email.to_string(), password: password.to_string() };
    match Mutation::createUser(store, input, SECRET) {
        Ok(UserResponse::User(u)) => u,
        other => panic!("registration failed: {:?}", result_kind(&other)),
    }
}

fn login(store: &mut Store, email: &str, password: &str) -> Session {
    let input = NewUser { email: email.to_string(), password: password.to_string() };
    match Mutation::login(store, input, SECRET) {
        Ok(SessionResponse::Session(s)) => s,
        _ => panic!("login failed"),
    }
}

fn result_kind(r: &Result<UserResponse, itemshop::errors::ServerError>) -> &'static str {
    match r {
        Ok(UserResponse::User(_)) => "user",
        Ok(UserResponse::ValidationError(_)) => "validation",
        Ok(UserResponse::AuthenticationError(_)) => "authentication",
        Ok(UserResponse::PermissionError(_)) => "permission",
        Err(_) => "server error",
    }
}

#[test]
fn create_user_returns_the_record_without_the_password() {
    let mut store = Store::new();
    let user = register(&mut store, "alice@example.com", "password1");
    assert_eq!(user.id, 1);
    assert_eq!(user.email, "alice@example.com");
    assert_eq!(user.created_at, user.updated_at);
    assert_eq!(store.users.len(), 1);
    // The returned record holds identifier, timestamps, and email; the
    // digest stays in the store and never appears in it.
    assert!(!store.users[0].password.contains("password1"));
}

#[test]
fn create_user_rejects_invalid_input_inline() {
    let mut store = Store::new();
    let input = NewUser { email: "nope".to_string(), password: "short".to_string() };
    match Mutation::createUser(&mut store, input, SECRET) {
        Ok(UserResponse::ValidationError(v)) => {
            assert_eq!(v.errors.len(), 2);
        },
        _ => panic!("expected a validation error"),
    }
    assert_eq!(store.users.len(), 0);
}

#[test]
fn duplicate_email_earns_the_email_duplicate_code_and_no_second_row() {
    let mut store = Store::new();
    register(&mut store, "alice@example.com", "password1");
    let again = NewUser { email: "alice@example.com".to_string(), password: "password2".to_string() };
    match Mutation::createUser(&mut store, again, SECRET) {
        Ok(UserResponse::ValidationError(v)) => {
            assert_eq!(v.errors.len(), 1);
            assert_eq!(v.errors[0].field, "email");
            assert_eq!(v.errors[0].code, "email_duplicate");
            assert_eq!(v.errors[0].message, "a user already exists with this email");
        },
        _ => panic!("expected a validation error"),
    }
    assert_eq!(store.users.len(), 1);
}

#[test]
fn login_returns_a_session_for_the_right_user() {
    let mut store = Store::new();
    let user = register(&mut store, "alice@example.com", "password1");
    let session = login(&mut store, "alice@example.com", "password1");
    assert_eq!(session.user_id, user.id);
    assert_eq!(store.sessions.len(), 1);
    assert_eq!(store.sessions[0].id, session.id);
}

#[test]
fn login_with_a_wrong_password_creates_no_session() {
    let mut store = Store::new();
    register(&mut store, "alice@example.com", "password1");
    let input = NewUser { email: "alice@example.com".to_string(), password: "password2".to_string() };
    match Mutation::login(&mut store, input, SECRET) {
        Ok(SessionResponse::ValidationError(v)) => {
            assert_eq!(v.errors.len(), 1);
            assert_eq!(v.errors[0].field, "password");
            assert_eq!(v.errors[0].code, "authentication_error");
            assert_eq!(v.errors[0].message, "incorrect credentials");
        },
        _ => panic!("expected a validation error"),
    }
    assert_eq!(store.sessions.len(), 0);
}

#[test]
fn login_with_an_unknown_email_looks_the_same_as_a_wrong_password() {
    let mut store = Store::new();
    let input = NewUser { email: "ghost@example.com".to_string(), password: "password1".to_string() };
    match Mutation::login(&mut store, input, SECRET) {
        Ok(SessionResponse::ValidationError(v)) => {
            assert_eq!(v.errors[0].code, "authentication_error");
        },
        _ => panic!("expected a validation error"),
    }
    assert_eq!(store.sessions.len(), 0);
}

#[test]
fn api_version_needs_no_principal() {
    assert_eq!(Query::apiVersion(), "0.1.0");
}

#[test]
fn owner_scoped_query_without_a_principal_is_an_authentication_error() {
    let mut store = Store::new();
    let user = register(&mut store, "alice@example.com", "password1");
    let ctx = Context::from_request(&store, None);
    assert!(ctx.user.is_none());
    match Query::user(&ctx, &store, user.id) {
        Ok(UserResponse::AuthenticationError(e)) => {
            assert_eq!(e.code, "authentication_error");
            assert_eq!(e.message, "Authenticated user required");
        },
        _ => panic!("expected an authentication error"),
    }
}

#[test]
fn malformed_authorization_headers_resolve_to_no_principal() {
    let mut store = Store::new();
    register(&mut store, "alice@example.com", "password1");
    let session = login(&mut store, "alice@example.com", "password1");
    let good = format!("Bearer {}", session.token());

    assert!(get_current_user(&store, Some(&good)).is_some());
    assert!(get_current_user(&store, None).is_none());
    assert!(get_current_user(&store, Some("Basic abc")).is_none());
    assert!(get_current_user(&store, Some("Bearer not-a-uuid")).is_none());
    assert!(get_current_user(&store, Some("Bearer")).is_none());
    // A well-formed token that names no session resolves to no principal.
    assert!(
        get_current_user(&store, Some("Bearer 99999999-9999-4999-8999-999999999999")).is_none()
    );
}

#[test]
fn change_password_on_another_user_is_a_permission_error() {
    let mut store = Store::new();
    let alice = register(&mut store, "alice@example.com", "password1");
    let bob = register(&mut store, "bob@example.com", "password2");
    let session = login(&mut store, "alice@example.com", "password1");
    let header = format!("Bearer {}", session.token());
    let ctx = Context::from_request(&store, Some(&header));
    assert_eq!(ctx.user.as_ref().map(|u| u.id), Some(alice.id));

    let input = ChangePasswordUser {
        id: bob.id,
        old_password: "password2".to_string(),
        new_password: "password3".to_string(),
    };
    match Mutation::changePassword(&ctx, &mut store, input, SECRET) {
        Ok(UserResponse::PermissionError(e)) => {
            assert_eq!(e.code, "permission_error");
            assert_eq!(e.message, "Permission denied");
        },
        _ => panic!("expected a permission error"),
    }
    // Bob's digest is untouched: his old password still logs him in.
    login(&mut store, "bob@example.com", "password2");
}

#[test]
fn change_password_verifies_the_old_password_first() {
    let mut store = Store::new();
    let alice = register(&mut store, "alice@example.com", "password1");
    let session = login(&mut store, "alice@example.com", "password1");
    let header = format!("Bearer {}", session.token());
    let ctx = Context::from_request(&store, Some(&header));

    let wrong = ChangePasswordUser {
        id: alice.id,
        old_password: "password9".to_string(),
        new_password: "password3".to_string(),
    };
    match Mutation::changePassword(&ctx, &mut store, wrong, SECRET) {
        Ok(UserResponse::ValidationError(v)) => {
            assert_eq!(v.errors.len(), 1);
            assert_eq!(v.errors[0].field, "old_password");
            assert_eq!(v.errors[0].code, "old_password_incorrect");
            assert_eq!(v.errors[0].message, "incorrect old password");
        },
        _ => panic!("expected a validation error"),
    }

    let short = ChangePasswordUser {
        id: alice.id,
        old_password: "password1".to_string(),
        new_password: "short".to_string(),
    };
    match Mutation::changePassword(&ctx, &mut store, short, SECRET) {
        Ok(UserResponse::ValidationError(v)) => {
            assert_eq!(v.errors[0].field, "new_password");
            assert_eq!(v.errors[0].code, "length");
        },
        _ => panic!("expected a validation error"),
    }

    let right = ChangePasswordUser {
        id: alice.id,
        old_password: "password1".to_string(),
        new_password: "password3".to_string(),
    };
    match Mutation::changePassword(&ctx, &mut store, right, SECRET) {
        Ok(UserResponse::User(u)) => assert_eq!(u.id, alice.id),
        _ => panic!("expected the updated user"),
    }
    // The new password logs in; the old one no longer does.
    login(&mut store, "alice@example.com", "password3");
    let stale = NewUser { email: "alice@example.com".to_string(), password: "password1".to_string() };
    match Mutation::login(&mut store, stale, SECRET) {
        Ok(SessionResponse::ValidationError(_)) => (),
        _ => panic!("the old password must no longer log in"),
    }
}

#[test]
fn logout_revokes_the_token_and_repeats_report_not_found() {
    let mut store = Store::new();
    register(&mut store, "alice@example.com", "password1");
    let session = login(&mut store, "alice@example.com", "password1");
    let header = format!("Bearer {}", session.token());
    let ctx = Context::from_request(&store, Some(&header));
    assert!(ctx.user.is_some());

    match Mutation::logout(&ctx, &mut store, SessionIdInput { id: session.id }) {
        Ok(SessionIdResponse::SessionIdOutput(o)) => assert_eq!(o.id, session.id),
        _ => panic!("expected the session identifier back"),
    }
    // The same bearer token now resolves to no principal.
    assert!(get_current_user(&store, Some(&header)).is_none());
    assert_eq!(store.sessions.len(), 0);

    // Logging out again reports the absence instead of succeeding.
    let ctx2 = Context { user: ctx.user };
    assert!(Mutation::logout(&ctx2, &mut store, SessionIdInput { id: session.id }).is_err());
}

#[test]
fn logout_of_another_users_session_is_a_permission_error() {
    let mut store = Store::new();
    register(&mut store, "alice@example.com", "password1");
    register(&mut store, "bob@example.com", "password2");
    let alice_session = login(&mut store, "alice@example.com", "password1");
    let bob_session = login(&mut store, "bob@example.com", "password2");
    let header = format!("Bearer {}", alice_session.token());
    let ctx = Context::from_request(&store, Some(&header));

    match Mutation::logout(&ctx, &mut store, SessionIdInput { id: bob_session.id }) {
        Ok(SessionIdResponse::PermissionError(_)) => (),
        _ => panic!("expected a permission error"),
    }
    assert_eq!(store.sessions.len(), 2);
}

#[test]
fn delete_user_removes_the_account_and_its_sessions() {
    let mut store = Store::new();
    let alice = register(&mut store, "alice@example.com", "password1");
    let session = login(&mut store, "alice@example.com", "password1");
    let header = format!("Bearer {}", session.token());
    let ctx = Context::from_request(&store, Some(&header));

    match Mutation::deleteUser(&ctx, &mut store, UserIdInput { id: alice.id }) {
        Ok(UserIdResponse::UserIdOutput(o)) => assert_eq!(o.id, alice.id),
        _ => panic!("expected the user identifier back"),
    }
    assert_eq!(store.users.len(), 0);
    assert_eq!(store.sessions.len(), 0);
    assert!(get_current_user(&store, Some(&header)).is_none());
}

#[test]
fn delete_user_requires_ownership() {
    let mut store = Store::new();
    register(&mut store, "alice@example.com", "password1");
    let bob = register(&mut store, "bob@example.com", "password2");
    let session = login(&mut store, "alice@example.com", "password1");
    let header = format!("Bearer {}", session.token());
    let ctx = Context::from_request(&store, Some(&header));

    match Mutation::deleteUser(&ctx, &mut store, UserIdInput { id: bob.id }) {
        Ok(UserIdResponse::PermissionError(_)) => (),
        _ => panic!("expected a permission error"),
    }
    let none = Context::from_request(&store, None);
    match Mutation::deleteUser(&none, &mut store, UserIdInput { id: bob.id }) {
        Ok(UserIdResponse::AuthenticationError(_)) => (),
        _ => panic!("expected an authentication error"),
    }
    assert_eq!(store.users.len(), 2);
}

#[test]
fn reading_a_vanished_self_is_a_lookup_failure() {
    let mut store = Store::new();
    let alice = register(&mut store, "alice@example.com", "password1");
    // A principal resolved before the row vanished: the ownership check
    // passes, the read then reports the absence.
    let ctx = Context { user: Some(alice.duplicate()) };
    store.delete_user(alice.id);
    assert!(Query::user(&ctx, &store, alice.id).is_err());
}

#[test]
fn scenario_alice_reads_herself_but_not_bob() {
    let mut store = Store::new();
    let alice = register(&mut store, "alice@example.com", "password1");
    let bob = register(&mut store, "bob@example.com", "password2");
    let session = login(&mut store, "alice@example.com", "password1");
    let header = format!("Bearer {}", session.token());
    let ctx = Context::from_request(&store, Some(&header));

    match Query::user(&ctx, &store, alice.id) {
        Ok(UserResponse::User(u)) => {
            assert_eq!(u.id, alice.id);
            assert_eq!(u.email, "alice@example.com");
        },
        _ => panic!("expected Alice's record"),
    }
    match Query::user(&ctx, &store, bob.id) {
        Ok(UserResponse::PermissionError(_)) => (),
        _ => panic!("expected a permission error"),
    }
}
