//! Tests of the service facade: authentication, sessions, registration and
//! role assignment, with the real key derivation and token generation.

use auth_service::error::{AuthError, ErrorKind};
use auth_service::role::Role;
use auth_service::service::{AuthPayload, AuthServer, RegisterUserPayload, SetUserRolePayload};
use auth_service::token::Token;

fn server() -> AuthServer {
    AuthServer::new("test-pepper".to_string())
}

fn register_payload(username: &str, password: &str, email: &str) -> RegisterUserPayload {
    RegisterUserPayload {
        username: username.to_string(),
        password: password.to_string(),
        email: email.to_string(),
    }
}

fn auth_payload(username: &str, password: &str) -> AuthPayload {
    AuthPayload { username: username.to_string(), password: password.to_string() }
}

#[test]
fn register_authenticate_role_deauthenticate_scenario() {
    let mut s = server();

    let p = s.register(register_payload("alice", "Secret123!", "alice@x.com")).unwrap();
    assert_eq!(p.id, 1);
    assert_eq!(p.username, "alice".to_string());

    let token = s.authenticate(auth_payload("alice", "Secret123!")).unwrap();
    let text = token.as_inner().clone();
    assert!(!text.is_empty());
    assert_eq!(text.len(), 80);

    assert_eq!(s.get_user_role(&token).unwrap(), Role::User);
    assert!(s.deauthenticate(&token).is_ok());
    assert_eq!(s.get_user_role(&token).unwrap_err(), AuthError::InvalidToken);
}

#[test]
fn register_twice_fails_with_existing_user() {
    let mut s = server();
    s.register(register_payload("bob", "pw", "b@x.com")).unwrap();
    let second = s.register(register_payload("bob", "pw", "b@x.com"));
    assert_eq!(second.unwrap_err(), AuthError::ExistingUser);
}

#[test]
fn duplicate_registration_leaves_one_row() {
    let mut s = server();
    s.register(register_payload("bob", "pw", "b@x.com")).unwrap();
    let _ = s.register(register_payload("bob", "pw2", "b2@x.com"));
    assert_eq!(s.user_store().count_with_username(&"bob".to_string()), 1);
    assert_eq!(s.user_store().user_count(), 1);
    assert_eq!(s.user_store().role_count(), 1);
}

#[test]
fn wrong_password_is_rejected_and_records_nothing() {
    let mut s = server();
    s.register(register_payload("carol", "right", "c@x.com")).unwrap();
    let r = s.authenticate(auth_payload("carol", "wrong"));
    assert_eq!(r.unwrap_err(), AuthError::InvalidPassword);
    assert_eq!(s.token_count(), 0);
}

#[test]
fn unknown_username_is_rejected_and_records_nothing() {
    let mut s = server();
    let r = s.authenticate(auth_payload("nobody", "pw"));
    assert_eq!(r.unwrap_err(), AuthError::InvalidUsername);
    assert_eq!(s.token_count(), 0);
}

#[test]
fn deauthenticate_succeeds_exactly_once() {
    let mut s = server();
    s.register(register_payload("dave", "pw", "d@x.com")).unwrap();
    let token = s.authenticate(auth_payload("dave", "pw")).unwrap();

    assert!(s.deauthenticate(&token).is_ok());
    assert_eq!(s.deauthenticate(&token).unwrap_err(), AuthError::InvalidToken);
    assert_eq!(s.get_user_role(&token).unwrap_err(), AuthError::InvalidToken);
}

#[test]
fn deauthenticate_unknown_token_fails() {
    let mut s = server();
    let stray = Token::new("not-a-minted-token".to_string());
    assert_eq!(s.deauthenticate(&stray).unwrap_err(), AuthError::InvalidToken);
}

#[test]
fn distinct_logins_fill_the_token_store() {
    let mut s = server();
    let users = ["u1", "u2", "u3", "u4", "u5", "u6", "u7", "u8"];
    for name in users.iter() {
        let email = format!("{}@x.com", name);
        s.register(RegisterUserPayload {
            username: name.to_string(),
            password: "pw".to_string(),
            email,
        })
        .unwrap();
    }
    let mut tokens: Vec<String> = Vec::new();
    for name in users.iter() {
        let t = s.authenticate(auth_payload(name, "pw")).unwrap();
        tokens.push(t.into_inner());
    }
    assert_eq!(s.token_count(), users.len());
    for i in 0..tokens.len() {
        for j in 0..i {
            assert_ne!(tokens[i], tokens[j]);
        }
    }
}

#[test]
fn minted_tokens_do_not_collide_over_a_sample() {
    let mut seen: Vec<String> = Vec::new();
    for _ in 0..200 {
        let t = auth_service::token::generate_token().into_inner();
        assert_eq!(t.len(), 80);
        assert!(!seen.contains(&t));
        seen.push(t);
    }
}

#[test]
fn corrupt_stored_hash_is_a_server_error() {
    let mut s = server();
    s.register_hashed("eve".to_string(), "not-a-stored-hash".to_string(), "e@x.com".to_string())
        .unwrap();
    let r = s.authenticate(auth_payload("eve", "anything"));
    assert_eq!(r.unwrap_err(), AuthError::InternalServerError);
    assert_eq!(s.token_count(), 0);
}

#[test]
fn register_hashed_maps_store_refusals() {
    let mut s = server();
    s.register_hashed("frank".to_string(), "h1".to_string(), "f@x.com".to_string()).unwrap();
    let dup_name =
        s.register_hashed("frank".to_string(), "h2".to_string(), "f2@x.com".to_string());
    assert_eq!(dup_name.unwrap_err(), AuthError::ExistingUser);
    let dup_email =
        s.register_hashed("frank2".to_string(), "h3".to_string(), "f@x.com".to_string());
    assert_eq!(dup_email.unwrap_err(), AuthError::InternalServerError);
}

#[test]
fn set_user_role_requires_an_admin_caller() {
    // Seed a first administrator in the injected store, as a deployment
    // would, then serve over it.
    let mut store = auth_service::user_store::UserStore::new();
    let seeded_hash = auth_service::pass_funcs::hash_password("adminpwtest-pepper");
    let seeded = store
        .insert_user("root".to_string(), "root@x.com".to_string(), seeded_hash)
        .unwrap();
    assert!(store.update_role(seeded.id, Role::Admin).unwrap());
    let mut s = AuthServer::with_store("test-pepper".to_string(), store);

    let member = s.register(register_payload("gina", "pw", "g@x.com")).unwrap();

    // Without an admin session no role can be assigned.
    let member_token = s.authenticate(auth_payload("gina", "pw")).unwrap();
    let no_authority = s.set_user_role(
        &member_token,
        SetUserRolePayload { id: member.id, role: Role::Moderator },
    );
    assert_eq!(no_authority.unwrap_err(), AuthError::InvalidToken);

    let stray = Token::new("stray".to_string());
    let bad_token =
        s.set_user_role(&stray, SetUserRolePayload { id: member.id, role: Role::Moderator });
    assert_eq!(bad_token.unwrap_err(), AuthError::InvalidToken);

    // With the admin's own session the assignment succeeds and is visible.
    let admin_token = s.authenticate(auth_payload("root", "adminpw")).unwrap();
    assert_eq!(s.get_user_role(&admin_token).unwrap(), Role::Admin);
    s.set_user_role(&admin_token, SetUserRolePayload { id: member.id, role: Role::Moderator })
        .unwrap();
    assert_eq!(
        s.user_store().fetch_user_role(member.id).unwrap().name,
        Role::Moderator
    );

    // An id without a role row is the caller's error.
    let missing = s.set_user_role(&admin_token, SetUserRolePayload { id: 999, role: Role::User });
    assert_eq!(missing.unwrap_err(), AuthError::InvalidUsername);
}

#[test]
fn register_rejects_malformed_username() {
    let mut s = server();
    let too_long = s.register(register_payload("abcdefghijklmnopqrstu", "pw", "x@x.com"));
    assert_eq!(too_long.unwrap_err(), AuthError::InternalServerError);
    let empty = s.register(register_payload("", "pw", "y@x.com"));
    assert_eq!(empty.unwrap_err(), AuthError::InternalServerError);
    assert_eq!(s.user_store().user_count(), 0);
}

#[test]
fn stored_hash_is_peppered() {
    let mut s = server();
    s.register(register_payload("henry", "pw", "h@x.com")).unwrap();
    let row = s.user_store().fetch_user(&"henry".to_string()).unwrap();
    // The stored value is a derived hash of the peppered password, never the
    // plaintext, and the bare password does not check against it.
    assert_ne!(row.password, "pw".to_string());
    assert!(auth_service::pass_funcs::check_password("pwtest-pepper", &row.password));
    assert!(!auth_service::pass_funcs::check_password("pw", &row.password));
}

#[test]
fn hash_password_round_trip() {
    let h = auth_service::pass_funcs::hash_password("hunter2");
    assert!(!h.is_empty());
    assert_ne!(h, "hunter2".to_string());
    assert!(auth_service::pass_funcs::check_password("hunter2", &h));
    assert!(!auth_service::pass_funcs::check_password("hunter3", &h));
    // A stored value that does not parse as a hash is a non-match.
    assert!(!auth_service::pass_funcs::check_password("hunter2", "garbage"));
}

#[test]
fn error_kinds_map_onto_the_wire_taxonomy() {
    assert_eq!(ErrorKind::ConnectionError.to_auth_error(), AuthError::InternalServerError);
    assert_eq!(ErrorKind::QueryError.to_auth_error(), AuthError::InternalServerError);
    assert_eq!(ErrorKind::ServerError.to_auth_error(), AuthError::InternalServerError);
    assert_eq!(ErrorKind::InvalidUsername.to_auth_error(), AuthError::InvalidUsername);
    assert_eq!(ErrorKind::InvalidPassword.to_auth_error(), AuthError::InvalidPassword);
    assert_eq!(ErrorKind::InvalidToken.to_auth_error(), AuthError::InvalidToken);
}

#[test]
fn role_names_parse_exactly() {
    assert_eq!(Role::parse("admin"), Some(Role::Admin));
    assert_eq!(Role::parse("moderator"), Some(Role::Moderator));
    assert_eq!(Role::parse("user"), Some(Role::User));
    assert_eq!(Role::parse("User"), None);
    assert_eq!(Role::parse("superuser"), None);
    assert_eq!(Role::parse(""), None);
    assert_eq!(Role::parse(Role::Admin.as_str()), Some(Role::Admin));
    assert_eq!(Role::parse(Role::Moderator.as_str()), Some(Role::Moderator));
    assert_eq!(Role::parse(Role::User.as_str()), Some(Role::User));
}
