//! Tests of the user store: row creation, the schema's rules, and the
//! update operations.

use auth_service::role::Role;
use auth_service::token::Token;
use auth_service::token_store::{Session, TokenStore};
use auth_service::user_store::{role, user, UserStore};

#[test]
fn test_insert_user() {
    let mut test_user = user {
        id: 0,
        email: "test_email".to_string(),
        username: "test_username".to_string(),
        password: "test_password".to_string(),
        banned: false,
        verified: false,
        email_token: Option::None,
    };

    let mut store = UserStore::new();
    let userv = store.insert_user(
        "test_username".to_string(),
        "test_email".to_string(),
        "test_password".to_string(),
    );
    let user = userv.unwrap();
    test_user.id += user.id;
    let test_role = role { id: user.id, name: Role::parse("user").unwrap() };
    let role = store.fetch_user_role(test_role.id);

    assert_eq!(test_user, user);
    assert_eq!(test_role, role.unwrap());
}

#[test]
fn test_insert_user_fail() {
    let mut store = UserStore::new();
    let user = store.insert_user(
        "REEEEEEEEEEEEEEEEEEEEEEEEEEEEEEE".to_string(),
        "email_test1".to_string(),
        "password1".to_string(),
    );
    assert!(user.is_err());
}

#[test]
fn test_update_functions() {
    let mut test_user = user {
        id: 0,
        email: "email1".to_string(),
        username: "username1".to_string(),
        password: "password1".to_string(),
        banned: true,
        verified: true,
        email_token: Option::Some("123456789".to_string()),
    };

    let mut store = UserStore::new();
    let userv = store.insert_user(
        "username1".to_string(),
        "email1".to_string(),
        "password1".to_string(),
    );
    let user = userv.unwrap();
    test_user.id += user.id;
    let test_role = role { id: test_user.id, name: Role::parse("moderator").unwrap() };
    assert_eq!(
        true,
        store.update_role(user.id, Role::parse("moderator").unwrap()).unwrap()
    );
    let new_user_role = store.fetch_user_role(user.id);
    assert_eq!(test_role, new_user_role.unwrap());

    assert_eq!(true, store.update_ban(user.id, true).unwrap());
    assert_eq!(true, store.update_email_token(user.id, "123456789".to_string()).unwrap());
    assert_eq!(true, store.update_verify(user.id, true).unwrap());

    let userv = store.fetch_user(&test_user.username);
    assert_eq!(test_user, userv.unwrap());
}

#[test]
fn insert_assigns_ids_from_one_upward() {
    let mut store = UserStore::new();
    let first = store
        .insert_user("first".to_string(), "first@x.com".to_string(), "h1".to_string())
        .unwrap();
    let second = store
        .insert_user("second".to_string(), "second@x.com".to_string(), "h2".to_string())
        .unwrap();
    assert_eq!(first.id, 1);
    assert_eq!(second.id, 2);
}

#[test]
fn insert_rejects_empty_username() {
    let mut store = UserStore::new();
    let r = store.insert_user(String::new(), "e@x.com".to_string(), "h".to_string());
    assert!(r.is_err());
    assert_eq!(store.user_count(), 0);
    assert_eq!(store.role_count(), 0);
}

#[test]
fn insert_accepts_longest_username() {
    let mut store = UserStore::new();
    let twenty = "abcdefghijklmnopqrst".to_string();
    assert_eq!(twenty.len(), 20);
    let r = store.insert_user(twenty.clone(), "e@x.com".to_string(), "h".to_string());
    assert_eq!(r.unwrap().username, twenty);

    let twenty_one = "abcdefghijklmnopqrstu".to_string();
    let r2 = store.insert_user(twenty_one, "f@x.com".to_string(), "h".to_string());
    assert!(r2.is_err());
}

#[test]
fn insert_rejects_duplicate_email() {
    let mut store = UserStore::new();
    store
        .insert_user("one".to_string(), "shared@x.com".to_string(), "h1".to_string())
        .unwrap();
    let r = store.insert_user("two".to_string(), "shared@x.com".to_string(), "h2".to_string());
    assert!(r.is_err());
    assert_eq!(store.user_count(), 1);
    assert_eq!(store.role_count(), 1);
}

#[test]
fn insert_creates_user_and_role_atomically() {
    let mut store = UserStore::new();
    let u = store
        .insert_user("carol".to_string(), "carol@x.com".to_string(), "h".to_string())
        .unwrap();
    assert_eq!(store.user_count(), 1);
    assert_eq!(store.role_count(), 1);
    assert_eq!(store.fetch_user_role(u.id).unwrap(), role { id: u.id, name: Role::User });
}

#[test]
fn fetch_user_unknown_username_fails() {
    let store = UserStore::new();
    assert!(store.fetch_user(&"nobody".to_string()).is_err());
}

#[test]
fn token_store_insert_overwrites_and_remove_reports_absence() {
    let mut store = TokenStore::new();
    assert_eq!(store.len(), 0);

    let t = Token::new("tok".to_string());
    store.insert(t.clone(), Session { user_id: 1, role: Role::User, issued_at: 10 });
    store.insert(t.clone(), Session { user_id: 2, role: Role::Moderator, issued_at: 20 });
    assert_eq!(store.len(), 1);

    let s = store.lookup(&t).unwrap();
    assert_eq!(s.user_id, 2);
    assert_eq!(s.role, Role::Moderator);
    assert_eq!(s.issued_at, 20);

    assert!(store.remove(&t).is_ok());
    assert!(store.remove(&t).is_err());
    assert!(store.lookup(&t).is_err());
    assert_eq!(store.len(), 0);
}

#[test]
fn update_functions_report_missing_id() {
    let mut store = UserStore::new();
    assert_eq!(store.update_ban(7, true).unwrap(), false);
    assert_eq!(store.update_verify(7, true).unwrap(), false);
    assert_eq!(store.update_email_token(7, "t".to_string()).unwrap(), false);
    assert_eq!(store.update_role(7, Role::Moderator).unwrap(), false);
}
