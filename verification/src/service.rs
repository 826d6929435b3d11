//! The auth service facade: one stateful component owning the token store
//! and the user store, dispatching each request kind and translating every
//! internal failure into the wire error taxonomy.
//!
//! The pepper — the service-wide secret appended to passwords before
//! hashing — is supplied at construction, never embedded here.

use vstd::prelude::*;
use vstd::string::StringExecFns;

use crate::error::AuthError;
use crate::pass_funcs::{pbkdf2_check_outcome, pbkdf2_hash, pbkdf2_match, pbkdf2_valid_format,
    PasswordCheck};
use crate::role::Role;
use crate::token::{generate_token, Token, TOKEN_CHARS};
use crate::token_store::{Session, TokenStore};
use crate::user_store::{fresh_user_row, lemma_every_user_has_role, lemma_user_id_witness, role,
    UserStore, UserStoreV, UserV};

verus! {

/// The work factor of the key derivation used for stored credentials.
pub const HASH_PASS_CYCLES: u32 = 10000;

/// A login request: who claims to sign in, and with which plaintext
/// password.
#[derive(Debug)]
pub struct AuthPayload {
    pub username: String,
    pub password: String,
}

/// A signup request: the desired username, the plaintext password, and the
/// contact email.
#[derive(Debug)]
pub struct RegisterUserPayload {
    pub username: String,
    pub password: String,
    pub email: String,
}

/// What a successful signup reports back: the store-assigned id and the
/// username as stored.
#[derive(Debug)]
pub struct AddUserPayload {
    pub id: u32,
    pub username: String,
}

/// A role-assignment request: whose role to set, and to what.
#[derive(Debug)]
pub struct SetUserRolePayload {
    pub id: u32,
    pub role: Role,
}

/// Relies on `chrono`'s `Utc::now`: the current time as seconds since the
/// Unix epoch. It depends on the wall clock, so nothing is assumed of it.
#[verifier::external_body]
fn now_unix_seconds() -> i64 {
    chrono::offset::Utc::now().timestamp()
}

/// The mathematical value of the whole service: the token map, the user
/// store, and the pepper.
pub ghost struct AuthServerV {
    pub tokens: Map<Seq<char>, Session>,
    pub users: UserStoreV,
    pub pepper: Seq<char>,
}

/// The auth server: owns the only mutable state — the token store and the
/// user store — and the pepper secret.
pub struct AuthServer {
    tokens: TokenStore,
    users: UserStore,
    pepper: String,
}

impl View for AuthServer {
    type V = AuthServerV;

    closed spec fn view(&self) -> AuthServerV {
        AuthServerV { tokens: self.tokens@, users: self.users@, pepper: self.pepper@ }
    }
}

impl AuthServer {
    /// Both stores obey their rules.
    pub closed spec fn wf(self) -> bool {
        &&& self.tokens.wf()
        &&& self.users@.wf()
    }

    /// A fresh server with no users and no sessions. The pepper must come
    /// from configuration; it is not a constant of the library.
    pub fn new(pepper: String) -> (s: AuthServer)
        ensures
            s.wf(),
            s@.tokens == Map::<Seq<char>, Session>::empty(),
            s@.users.users == Seq::<UserV>::empty(),
            s@.users.roles == Seq::<role>::empty(),
            s@.users.next_id == 1,
            s@.pepper == pepper@,
    {
        AuthServer { tokens: TokenStore::new(), users: UserStore::new(), pepper }
    }

    /// A server over an existing user store — the injected-collaborator
    /// form, which a deployment uses to seed accounts (say, a first
    /// administrator) before serving — with no sessions yet.
    pub fn with_store(pepper: String, users: UserStore) -> (s: AuthServer)
        requires
            users@.wf(),
        ensures
            s.wf(),
            s@.tokens == Map::<Seq<char>, Session>::empty(),
            s@.users == users@,
            s@.pepper == pepper@,
    {
        AuthServer { tokens: TokenStore::new(), users, pepper }
    }

    /// Verify credentials and mint a session.
    ///
    /// An unknown username is `InvalidUsername`; a known username whose
    /// stored hash the peppered password does not check against is
    /// `InvalidPassword`; a stored hash that does not parse is corrupt data,
    /// `InternalServerError`. Exactly on a match a fresh token is minted and
    /// the session — the user's id and current role, with the issue time —
    /// is recorded under it before the token is returned. No failure path
    /// changes any state.
    pub fn authenticate(&mut self, payload: AuthPayload) -> (r: Result<Token, AuthError>)
        requires
            old(self).wf(),
        ensures
            final(self).wf(),
            final(self)@.users == old(self)@.users,
            final(self)@.pepper == old(self)@.pepper,
            match r {
                Ok(t) => ({
                    let u = old(self)@.users.user_named(payload.username@);
                    &&& old(self)@.users.has_username(payload.username@)
                    &&& pbkdf2_match(payload.password@ + old(self)@.pepper, u.password)
                    &&& t@.len() == TOKEN_CHARS
                    &&& final(self)@.tokens.contains_key(t@)
                    &&& final(self)@.tokens == old(self)@.tokens.insert(
                        t@,
                        final(self)@.tokens[t@],
                    )
                    &&& final(self)@.tokens[t@].user_id == u.id
                    &&& final(self)@.tokens[t@].role == old(self)@.users.role_for(u.id).name
                }),
                Err(AuthError::InvalidUsername) => !old(self)@.users.has_username(
                    payload.username@,
                ) && final(self)@ == old(self)@,
                Err(AuthError::InvalidPassword) => ({
                    let u = old(self)@.users.user_named(payload.username@);
                    &&& old(self)@.users.has_username(payload.username@)
                    &&& pbkdf2_valid_format(u.password)
                    &&& !pbkdf2_match(payload.password@ + old(self)@.pepper, u.password)
                    &&& final(self)@ == old(self)@
                }),
                Err(AuthError::InternalServerError) => ({
                    let u = old(self)@.users.user_named(payload.username@);
                    &&& old(self)@.users.has_username(payload.username@)
                    &&& !pbkdf2_valid_format(u.password)
                    &&& final(self)@ == old(self)@
                }),
                _ => false,
            },
    {
        let AuthPayload { username, password } = payload;

        // Fetch the user record; absence is the caller's error.
        let user_row = match self.users.fetch_user(&username) {
            Ok(u) => u,
            Err(e) => {
                return Err(e.to_auth_error());
            },
        };

        // Pepper the password and check it against the stored hash.
        let peppered = password.concat(self.pepper.as_str());
        match pbkdf2_check_outcome(peppered.as_str(), user_row.password.as_str()) {
            PasswordCheck::Match => {
                proof {
                    let v = self@.users;
                    let i = v.username_index(payload.username@);
                    assert(0 <= i < v.users.len() && v.users[i].username == payload.username@);
                    lemma_user_id_witness(v, i);
                    lemma_every_user_has_role(v, user_row@.id);
                }
                let role_row = match self.users.fetch_user_role(user_row.id) {
                    Ok(rr) => rr,
                    Err(_) => {
                        // Unreachable: a well-formed store has a role row for
                        // every user, established just above.
                        proof {
                            assert(false);
                        }
                        return Err(AuthError::InternalServerError);
                    },
                };
                let token = generate_token();
                let now = now_unix_seconds();
                let session = Session { user_id: user_row.id, role: role_row.name, issued_at: now };
                self.tokens.insert(token.clone(), session);
                Ok(token)
            },
            PasswordCheck::Mismatch => Err(AuthError::InvalidPassword),
            PasswordCheck::BadFormat => Err(AuthError::InternalServerError),
        }
    }

    /// Drop the session a token denotes. Succeeds exactly once per minted
    /// token: a second call on the same token is `InvalidToken`.
    pub fn deauthenticate(&mut self, token: &Token) -> (r: Result<(), AuthError>)
        requires
            old(self).wf(),
        ensures
            final(self).wf(),
            final(self)@.users == old(self)@.users,
            final(self)@.pepper == old(self)@.pepper,
            match r {
                Ok(()) => old(self)@.tokens.contains_key(token@) && final(self)@.tokens == old(
                    self,
                )@.tokens.remove(token@),
                Err(e) => e == AuthError::InvalidToken && !old(self)@.tokens.contains_key(token@)
                    && final(self)@ == old(self)@,
            },
    {
        match self.tokens.remove(token) {
            Ok(()) => Ok(()),
            Err(e) => Err(e.to_auth_error()),
        }
    }

    /// The role cached in the session a token denotes. A pure lookup: role
    /// changes after the token was issued are not observed until
    /// re-authentication.
    pub fn get_user_role(&self, token: &Token) -> (r: Result<Role, AuthError>)
        requires
            self.wf(),
        ensures
            match r {
                Ok(found) => self@.tokens.contains_key(token@) && found == self@.tokens[
                    token@
                ].role,
                Err(e) => e == AuthError::InvalidToken && !self@.tokens.contains_key(token@),
            },
    {
        match self.tokens.lookup(token) {
            Ok(session) => Ok(session.role),
            Err(e) => Err(e.to_auth_error()),
        }
    }

    /// Register a user whose password hash is already derived: the uniqueness
    /// check, the atomic two-row insert, and the error mapping, with no call
    /// out of the library. Succeeds exactly when the store accepts the new
    /// user; a taken username is `ExistingUser`, any other store refusal is
    /// `InternalServerError`.
    pub fn register_hashed(
        &mut self,
        username: String,
        hashed_password: String,
        email: String,
    ) -> (r: Result<AddUserPayload, AuthError>)
        requires
            old(self).wf(),
        ensures
            final(self).wf(),
            final(self)@.tokens == old(self)@.tokens,
            final(self)@.pepper == old(self)@.pepper,
            match r {
                Ok(p) => {
                    &&& old(self)@.users.accepts_new_user(username@, email@)
                    &&& p.id == old(self)@.users.next_id
                    &&& p.username@ == username@
                    &&& final(self)@.users.users == old(self)@.users.users.push(
                        fresh_user_row(p.id, username@, email@, hashed_password@),
                    )
                    &&& final(self)@.users.roles == old(self)@.users.roles.push(
                        (role { id: p.id, name: Role::User }),
                    )
                    &&& final(self)@.users.next_id == old(self)@.users.next_id + 1
                },
                Err(AuthError::ExistingUser) => old(self)@.users.has_username(username@)
                    && final(self)@ == old(self)@,
                Err(AuthError::InternalServerError) => {
                    &&& !old(self)@.users.has_username(username@)
                    &&& !old(self)@.users.accepts_new_user(username@, email@)
                    &&& final(self)@ == old(self)@
                },
                _ => false,
            },
    {
        // A taken username is the caller's error, reported as such.
        match self.users.fetch_user(&username) {
            Ok(_) => {
                return Err(AuthError::ExistingUser);
            },
            Err(_) => {},
        }
        // One atomic step creates the user row and its default role row.
        match self.users.insert_user(username, email, hashed_password) {
            Ok(u) => Ok(AddUserPayload { id: u.id, username: u.username }),
            Err(e) => Err(e.to_auth_error()),
        }
    }

    /// Register a new user: check the username is free, pepper and hash the
    /// password, and create the user row and its default role row of `User`
    /// as one atomic step.
    ///
    /// A taken username is `ExistingUser`, checked before any hashing. On
    /// success the stored hash is one the peppered password checks against.
    /// A hashing failure or a store refusal (malformed username, taken
    /// email, exhausted id space) is `InternalServerError`. No failure path
    /// changes any state.
    pub fn register(&mut self, payload: RegisterUserPayload) -> (r: Result<
        AddUserPayload,
        AuthError,
    >)
        requires
            old(self).wf(),
        ensures
            final(self).wf(),
            final(self)@.tokens == old(self)@.tokens,
            final(self)@.pepper == old(self)@.pepper,
            match r {
                Ok(p) => ({
                    let stored = final(self)@.users.users.last();
                    &&& old(self)@.users.accepts_new_user(payload.username@, payload.email@)
                    &&& p.id == old(self)@.users.next_id
                    &&& p.username@ == payload.username@
                    &&& final(self)@.users.users == old(self)@.users.users.push(
                        fresh_user_row(p.id, payload.username@, payload.email@, stored.password),
                    )
                    &&& pbkdf2_valid_format(stored.password)
                    &&& pbkdf2_match(payload.password@ + old(self)@.pepper, stored.password)
                    &&& final(self)@.users.roles == old(self)@.users.roles.push(
                        (role { id: p.id, name: Role::User }),
                    )
                    &&& final(self)@.users.next_id == old(self)@.users.next_id + 1
                }),
                Err(AuthError::ExistingUser) => old(self)@.users.has_username(payload.username@)
                    && final(self)@ == old(self)@,
                Err(AuthError::InternalServerError) => !old(self)@.users.has_username(
                    payload.username@,
                ) && final(self)@ == old(self)@,
                _ => false,
            },
    {
        let RegisterUserPayload { username, password, email } = payload;

        // A taken username is reported before any (slow) hashing.
        match self.users.fetch_user(&username) {
            Ok(_) => {
                return Err(AuthError::ExistingUser);
            },
            Err(_) => {},
        }

        // Pepper and hash the password with the service's work factor.
        let peppered = password.concat(self.pepper.as_str());
        let hashed = match pbkdf2_hash(peppered.as_str(), HASH_PASS_CYCLES) {
            Some(h) => h,
            None => {
                return Err(AuthError::InternalServerError);
            },
        };

        self.register_hashed(username, hashed, email)
    }

    /// Assign a role. The caller authorizes with their own token, which must
    /// denote an `Admin` session; anything else is `InvalidToken`. With
    /// authority established, an id without a role row is
    /// `InvalidUsername`; otherwise that user's single role row is set to
    /// the requested role. No failure path changes any state.
    pub fn set_user_role(&mut self, caller: &Token, payload: SetUserRolePayload) -> (r: Result<
        (),
        AuthError,
    >)
        requires
            old(self).wf(),
        ensures
            final(self).wf(),
            final(self)@.tokens == old(self)@.tokens,
            final(self)@.pepper == old(self)@.pepper,
            final(self)@.users.users == old(self)@.users.users,
            final(self)@.users.next_id == old(self)@.users.next_id,
            match r {
                Ok(()) => {
                    &&& old(self)@.tokens.contains_key(caller@)
                    &&& old(self)@.tokens[caller@].role == Role::Admin
                    &&& old(self)@.users.has_role_for(payload.id)
                    &&& final(self)@.users.roles == old(self)@.users.roles.update(
                        old(self)@.users.role_index(payload.id),
                        (role { id: payload.id, name: payload.role }),
                    )
                },
                Err(AuthError::InvalidToken) => (!old(self)@.tokens.contains_key(caller@) || old(
                    self,
                )@.tokens[caller@].role != Role::Admin) && final(self)@ == old(self)@,
                Err(AuthError::InvalidUsername) => {
                    &&& old(self)@.tokens.contains_key(caller@)
                    &&& old(self)@.tokens[caller@].role == Role::Admin
                    &&& !old(self)@.users.has_role_for(payload.id)
                    &&& final(self)@ == old(self)@
                },
                _ => false,
            },
    {
        // Resolve the caller's own session; only an admin may assign roles.
        let caller_role = match self.tokens.lookup(caller) {
            Ok(session) => session.role,
            Err(e) => {
                return Err(e.to_auth_error());
            },
        };
        match caller_role {
            Role::Admin => {},
            _ => {
                return Err(AuthError::InvalidToken);
            },
        }
        match self.users.update_role(payload.id, payload.role) {
            Ok(true) => Ok(()),
            Ok(false) => Err(AuthError::InvalidUsername),
            Err(_) => {
                // Unreachable: the in-memory store's role update never fails
                // with an error, only with `false` for a missing id.
                proof {
                    assert(false);
                }
                Err(AuthError::InternalServerError)
            },
        }
    }

    /// How many live sessions the token store holds.
    pub fn token_count(&self) -> (n: usize)
        requires
            self.wf(),
        ensures
            n == self@.tokens.dom().len(),
    {
        self.tokens.len()
    }

    /// The user store, for observation.
    pub fn user_store(&self) -> (r: &UserStore)
        ensures
            r@ == self@.users,
    {
        &self.users
    }
}

} // verus!
