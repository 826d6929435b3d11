//! The user store: user rows and their role rows.
//!
//! This is the persistence collaborator's contract made concrete: an
//! in-memory store that enforces the schema's rules — store-assigned unique
//! ids, unique usernames of 1 to 20 characters, unique emails, and exactly
//! one role row per user row, created atomically with the user. A backend
//! that keeps the rows elsewhere must exhibit the same observable behaviour;
//! callers of the library hold this type.

use vstd::prelude::*;

use crate::error::ErrorKind;
use crate::role::Role;

verus! {

broadcast use vstd::seq::group_seq_axioms;

/// A user row: identity record with credentials and account flags.
#[allow(non_camel_case_types)]
#[derive(Debug, PartialEq, Eq)]
pub struct user {
    /// Store-assigned unique id.
    pub id: u32,
    /// Unique contact address.
    pub email: String,
    /// Unique login name, 1 to 20 characters.
    pub username: String,
    /// Password hash (an opaque string encoding algorithm, salt and digest).
    pub password: String,
    /// Whether the account is banned.
    pub banned: bool,
    /// Whether the account's email is verified.
    pub verified: bool,
    /// Outstanding email-verification token, if any.
    pub email_token: Option<String>,
}

/// A role row: the role held by the user with the same id.
#[allow(non_camel_case_types)]
#[derive(Copy, Clone, Eq, PartialEq, Structural, Debug)]
pub struct role {
    /// The id of the user this role belongs to.
    pub id: u32,
    /// The role's name, drawn from the closed role set.
    pub name: Role,
}

/// The mathematical value of a user row.
pub ghost struct UserV {
    pub id: u32,
    pub email: Seq<char>,
    pub username: Seq<char>,
    pub password: Seq<char>,
    pub banned: bool,
    pub verified: bool,
    pub email_token: Option<Seq<char>>,
}

impl View for user {
    type V = UserV;

    open spec fn view(&self) -> UserV {
        UserV {
            id: self.id,
            email: self.email@,
            username: self.username@,
            password: self.password@,
            banned: self.banned,
            verified: self.verified,
            email_token: match self.email_token {
                Some(t) => Some(t@),
                None => None,
            },
        }
    }
}

impl Clone for user {
    fn clone(&self) -> (r: user)
        ensures
            r@ == self@,
    {
        user {
            id: self.id,
            email: self.email.clone(),
            username: self.username.clone(),
            password: self.password.clone(),
            banned: self.banned,
            verified: self.verified,
            email_token: match &self.email_token {
                Some(t) => Some(t.clone()),
                None => None,
            },
        }
    }
}

/// The user row that registration creates, before any later mutation.
pub open spec fn fresh_user_row(
    id: u32,
    username: Seq<char>,
    email: Seq<char>,
    password: Seq<char>,
) -> UserV {
    UserV {
        id,
        email,
        username,
        password,
        banned: false,
        verified: false,
        email_token: None,
    }
}

/// The mathematical value of the whole store.
pub ghost struct UserStoreV {
    pub users: Seq<UserV>,
    pub roles: Seq<role>,
    pub next_id: u32,
}

impl UserStoreV {
    /// Some user row carries this username.
    pub open spec fn has_username(self, n: Seq<char>) -> bool {
        exists|i: int| 0 <= i < self.users.len() && self.users[i].username == n
    }

    /// The index of the user row carrying this username.
    pub open spec fn username_index(self, n: Seq<char>) -> int {
        choose|i: int| 0 <= i < self.users.len() && self.users[i].username == n
    }

    /// The user row carrying this username.
    pub open spec fn user_named(self, n: Seq<char>) -> UserV {
        self.users[self.username_index(n)]
    }

    /// Some user row carries this email.
    pub open spec fn has_email(self, e: Seq<char>) -> bool {
        exists|i: int| 0 <= i < self.users.len() && self.users[i].email == e
    }

    /// Some user row carries this id.
    pub open spec fn has_user_id(self, id: u32) -> bool {
        exists|i: int| 0 <= i < self.users.len() && self.users[i].id == id
    }

    /// The index of the user row carrying this id.
    pub open spec fn user_id_index(self, id: u32) -> int {
        choose|i: int| 0 <= i < self.users.len() && self.users[i].id == id
    }

    /// Some role row belongs to this user id.
    pub open spec fn has_role_for(self, id: u32) -> bool {
        exists|i: int| 0 <= i < self.roles.len() && self.roles[i].id == id
    }

    /// The index of the role row belonging to this user id.
    pub open spec fn role_index(self, id: u32) -> int {
        choose|i: int| 0 <= i < self.roles.len() && self.roles[i].id == id
    }

    /// The role row belonging to this user id.
    pub open spec fn role_for(self, id: u32) -> role {
        self.roles[self.role_index(id)]
    }

    /// The test a user row carries this username.
    pub open spec fn username_pred(n: Seq<char>) -> spec_fn(UserV) -> bool {
        |u: UserV| u.username == n
    }

    /// The test a role row belongs to this user id.
    pub open spec fn role_id_pred(id: u32) -> spec_fn(role) -> bool {
        |r: role| r.id == id
    }

    /// How many user rows carry this username.
    pub open spec fn count_username(self, n: Seq<char>) -> nat {
        self.users.filter(Self::username_pred(n)).len()
    }

    /// How many role rows belong to this user id.
    pub open spec fn count_roles_for(self, id: u32) -> nat {
        self.roles.filter(Self::role_id_pred(id)).len()
    }

    /// Whether inserting a user with these values must succeed: the store
    /// accepts a fresh username of 1 to 20 characters, a fresh email, and
    /// has an id left to assign.
    pub open spec fn accepts_new_user(self, username: Seq<char>, email: Seq<char>) -> bool {
        &&& 1 <= username.len() <= 20
        &&& !self.has_username(username)
        &&& !self.has_email(email)
        &&& self.next_id < u32::MAX
    }

    /// The store's rules: ids, usernames and emails are unique, usernames
    /// have 1 to 20 characters, ids stay below the next one to be assigned,
    /// and the role rows stand in one-to-one correspondence with the user
    /// rows (the role at each position belongs to the user at that position).
    pub open spec fn wf(self) -> bool {
        &&& forall|i: int, j: int|
            0 <= i < j < self.users.len() ==> self.users[i].id != self.users[j].id
        &&& forall|i: int, j: int|
            0 <= i < j < self.users.len() ==> self.users[i].username != self.users[j].username
        &&& forall|i: int, j: int|
            0 <= i < j < self.users.len() ==> self.users[i].email != self.users[j].email
        &&& self.roles.len() == self.users.len()
        &&& forall|i: int| 0 <= i < self.users.len() ==> self.roles[i].id == self.users[i].id
        &&& forall|i: int| 0 <= i < self.users.len() ==> self.users[i].id < self.next_id
        &&& forall|i: int|
            0 <= i < self.users.len() ==> 1 <= (#[trigger] self.users[i]).username.len() <= 20
        &&& self.next_id >= 1
    }
}

/// Any user row with a matching username is the row `user_named` denotes:
/// under well-formedness the witness is unique.
pub proof fn lemma_username_witness(v: UserStoreV, i: int)
    requires
        v.wf(),
        0 <= i < v.users.len(),
    ensures
        v.has_username(v.users[i].username),
        v.username_index(v.users[i].username) == i,
        v.user_named(v.users[i].username) == v.users[i],
{
    let n = v.users[i].username;
    assert(v.has_username(n));
    let j = v.username_index(n);
    if i != j {
        assert(v.users[i].username != v.users[j].username);
    }
}

/// Any user row with a matching id is the row `user_id_index` finds.
pub proof fn lemma_user_id_witness(v: UserStoreV, i: int)
    requires
        v.wf(),
        0 <= i < v.users.len(),
    ensures
        v.has_user_id(v.users[i].id),
        v.user_id_index(v.users[i].id) == i,
{
    let id = v.users[i].id;
    assert(v.has_user_id(id));
    let j = v.user_id_index(id);
    if i != j {
        assert(v.users[i].id != v.users[j].id);
    }
}

/// Any role row with a matching id is the row `role_for` denotes.
pub proof fn lemma_role_witness(v: UserStoreV, i: int)
    requires
        v.wf(),
        0 <= i < v.roles.len(),
    ensures
        v.has_role_for(v.roles[i].id),
        v.role_index(v.roles[i].id) == i,
        v.role_for(v.roles[i].id) == v.roles[i],
{
    let id = v.roles[i].id;
    assert(v.has_role_for(id));
    let j = v.role_index(id);
    if i != j {
        let iu = v.users[i].id;
        assert(v.roles[i].id == v.users[i].id);
        assert(v.roles[j].id == v.users[j].id);
        assert(v.users[i].id != v.users[j].id);
    }
}

/// Every user of a well-formed store has a role row.
pub proof fn lemma_every_user_has_role(v: UserStoreV, id: u32)
    requires
        v.wf(),
        v.has_user_id(id),
    ensures
        v.has_role_for(id),
        v.role_for(id).id == id,
{
    let i = v.user_id_index(id);
    assert(0 <= i < v.users.len() && v.users[i].id == id);
    assert(v.roles[i].id == id);
    lemma_role_witness(v, i);
}

/// The store of user rows and role rows.
pub struct UserStore {
    users: Vec<user>,
    roles: Vec<role>,
    next_id: u32,
}

impl View for UserStore {
    type V = UserStoreV;

    closed spec fn view(&self) -> UserStoreV {
        UserStoreV {
            users: self.users@.map_values(|u: user| u@),
            roles: self.roles@,
            next_id: self.next_id,
        }
    }
}

impl UserStore {
    /// An empty store; ids are assigned from 1 upward.
    pub fn new() -> (s: UserStore)
        ensures
            s@.wf(),
            s@.users == Seq::<UserV>::empty(),
            s@.roles == Seq::<role>::empty(),
            s@.next_id == 1,
    {
        let s = UserStore { users: Vec::new(), roles: Vec::new(), next_id: 1 };
        proof {
            assert(s@.users =~= Seq::<UserV>::empty());
        }
        s
    }

    /// The index of the user row carrying this username, if any.
    fn find_by_username(&self, name: &String) -> (r: Option<usize>)
        ensures
            match r {
                Some(i) => 0 <= i < self@.users.len() && self@.users[i as int].username == name@,
                None => !self@.has_username(name@),
            },
    {
        let n = self.users.len();
        let mut i: usize = 0;
        while i < n
            invariant
                n == self.users@.len(),
                0 <= i <= n,
                forall|j: int| 0 <= j < i ==> self@.users[j].username != name@,
            decreases n - i,
        {
            if self.users[i].username == *name {
                return Some(i);
            }
            i += 1;
        }
        None
    }

    /// The index of the user row carrying this email, if any.
    fn find_by_email(&self, email: &String) -> (r: Option<usize>)
        ensures
            match r {
                Some(i) => 0 <= i < self@.users.len() && self@.users[i as int].email == email@,
                None => !self@.has_email(email@),
            },
    {
        let n = self.users.len();
        let mut i: usize = 0;
        while i < n
            invariant
                n == self.users@.len(),
                0 <= i <= n,
                forall|j: int| 0 <= j < i ==> self@.users[j].email != email@,
            decreases n - i,
        {
            if self.users[i].email == *email {
                return Some(i);
            }
            i += 1;
        }
        None
    }

    /// Create a user row from a username, email and (already hashed)
    /// password, together with its default role row of `User`, as one
    /// atomic step; returns the new row. A username already present, a
    /// malformed username, an email already present, or an exhausted id
    /// space is a query failure, and the store is unchanged.
    pub fn insert_user(
        &mut self,
        user_name: String,
        new_email: String,
        new_password: String,
    ) -> (r: Result<user, ErrorKind>)
        requires
            old(self)@.wf(),
        ensures
            final(self)@.wf(),
            match r {
                Ok(u) => {
                    &&& old(self)@.accepts_new_user(user_name@, new_email@)
                    &&& u@ == fresh_user_row(
                        old(self)@.next_id,
                        user_name@,
                        new_email@,
                        new_password@,
                    )
                    &&& final(self)@.users == old(self)@.users.push(u@)
                    &&& final(self)@.roles == old(self)@.roles.push(
                        (role { id: u@.id, name: Role::User }),
                    )
                    &&& final(self)@.next_id == old(self)@.next_id + 1
                },
                Err(e) => {
                    &&& e == ErrorKind::QueryError
                    &&& !old(self)@.accepts_new_user(user_name@, new_email@)
                    &&& final(self)@ == old(self)@
                },
            },
    {
        let ulen = user_name.as_str().unicode_len();
        if ulen < 1 || ulen > 20 {
            return Err(ErrorKind::QueryError);
        }
        if self.find_by_username(&user_name).is_some() {
            return Err(ErrorKind::QueryError);
        }
        if self.find_by_email(&new_email).is_some() {
            return Err(ErrorKind::QueryError);
        }
        if self.next_id == u32::MAX {
            return Err(ErrorKind::QueryError);
        }
        let id = self.next_id;
        let row = user {
            id,
            email: new_email.clone(),
            username: user_name.clone(),
            password: new_password.clone(),
            banned: false,
            verified: false,
            email_token: None,
        };
        let ghost pre = self@;
        self.users.push(row);
        self.roles.push(role { id, name: Role::User });
        self.next_id = id + 1;
        let result = user {
            id,
            email: new_email,
            username: user_name,
            password: new_password,
            banned: false,
            verified: false,
            email_token: None,
        };
        proof {
            assert(self@.users =~= pre.users.push(result@));
            lemma_insert_wf(pre, self@, result@);
        }
        Ok(result)
    }
}

impl UserStore {
    /// The index of the user row carrying this id, if any.
    fn find_by_id(&self, id: u32) -> (r: Option<usize>)
        ensures
            match r {
                Some(i) => 0 <= i < self@.users.len() && self@.users[i as int].id == id,
                None => !self@.has_user_id(id),
            },
    {
        let n = self.users.len();
        let mut i: usize = 0;
        while i < n
            invariant
                n == self.users@.len(),
                0 <= i <= n,
                forall|j: int| 0 <= j < i ==> self@.users[j].id != id,
            decreases n - i,
        {
            if self.users[i].id == id {
                return Some(i);
            }
            i += 1;
        }
        None
    }

    /// The index of the role row belonging to this user id, if any.
    fn find_role_by_id(&self, id: u32) -> (r: Option<usize>)
        ensures
            match r {
                Some(i) => 0 <= i < self@.roles.len() && self@.roles[i as int].id == id,
                None => !self@.has_role_for(id),
            },
    {
        let n = self.roles.len();
        let mut i: usize = 0;
        while i < n
            invariant
                n == self.roles@.len(),
                0 <= i <= n,
                forall|j: int| 0 <= j < i ==> self@.roles[j].id != id,
            decreases n - i,
        {
            if self.roles[i].id == id {
                return Some(i);
            }
            i += 1;
        }
        None
    }

    /// The user row carrying this username, or `InvalidUsername` if none
    /// does.
    pub fn fetch_user(&self, new_username: &String) -> (r: Result<user, ErrorKind>)
        requires
            self@.wf(),
        ensures
            match r {
                Ok(u) => self@.has_username(new_username@) && u@ == self@.user_named(
                    new_username@,
                ),
                Err(e) => e == ErrorKind::InvalidUsername && !self@.has_username(new_username@),
            },
    {
        match self.find_by_username(new_username) {
            Some(i) => {
                proof {
                    lemma_username_witness(self@, i as int);
                }
                Ok(self.users[i].clone())
            },
            None => Err(ErrorKind::InvalidUsername),
        }
    }

    /// The role row belonging to this user id. A user without a role row is
    /// an inconsistent store, reported as `ServerError`; a well-formed store
    /// never reports it for an existing user.
    pub fn fetch_user_role(&self, user_id: u32) -> (r: Result<role, ErrorKind>)
        requires
            self@.wf(),
        ensures
            match r {
                Ok(rr) => self@.has_role_for(user_id) && rr == self@.role_for(user_id),
                Err(e) => e == ErrorKind::ServerError && !self@.has_role_for(user_id),
            },
    {
        match self.find_role_by_id(user_id) {
            Some(i) => {
                proof {
                    lemma_role_witness(self@, i as int);
                }
                Ok(self.roles[i])
            },
            None => Err(ErrorKind::ServerError),
        }
    }

    /// Set the banned flag of the user with this id. Returns whether a row
    /// was updated; an absent id updates nothing.
    pub fn update_ban(&mut self, user_id: u32, banned_value: bool) -> (r: Result<
        bool,
        ErrorKind,
    >)
        requires
            old(self)@.wf(),
        ensures
            final(self)@.wf(),
            final(self)@.roles == old(self)@.roles,
            final(self)@.next_id == old(self)@.next_id,
            match r {
                Ok(true) => old(self)@.has_user_id(user_id) && final(self)@.users == old(
                    self,
                )@.users.update(
                    old(self)@.user_id_index(user_id),
                    (UserV {
                        banned: banned_value,
                        ..old(self)@.users[old(self)@.user_id_index(user_id)]
                    }),
                ),
                Ok(false) => !old(self)@.has_user_id(user_id) && final(self)@ == old(self)@,
                Err(_) => false,
            },
    {
        let ghost pre = self@;
        match self.find_by_id(user_id) {
            Some(i) => {
                proof {
                    lemma_user_id_witness(pre, i as int);
                }
                let row = &mut self.users[i];
                row.banned = banned_value;
                proof {
                    assert(self@.users =~= pre.users.update(
                        i as int,
                        (UserV { banned: banned_value, ..pre.users[i as int] }),
                    ));
                    lemma_update_row_wf(pre, self@, i as int);
                }
                Ok(true)
            },
            None => Ok(false),
        }
    }

    /// Set the verified flag of the user with this id. Returns whether a
    /// row was updated.
    pub fn update_verify(&mut self, user_id: u32, verify_value: bool) -> (r: Result<
        bool,
        ErrorKind,
    >)
        requires
            old(self)@.wf(),
        ensures
            final(self)@.wf(),
            final(self)@.roles == old(self)@.roles,
            final(self)@.next_id == old(self)@.next_id,
            match r {
                Ok(true) => old(self)@.has_user_id(user_id) && final(self)@.users == old(
                    self,
                )@.users.update(
                    old(self)@.user_id_index(user_id),
                    (UserV {
                        verified: verify_value,
                        ..old(self)@.users[old(self)@.user_id_index(user_id)]
                    }),
                ),
                Ok(false) => !old(self)@.has_user_id(user_id) && final(self)@ == old(self)@,
                Err(_) => false,
            },
    {
        let ghost pre = self@;
        match self.find_by_id(user_id) {
            Some(i) => {
                proof {
                    lemma_user_id_witness(pre, i as int);
                }
                let row = &mut self.users[i];
                row.verified = verify_value;
                proof {
                    assert(self@.users =~= pre.users.update(
                        i as int,
                        (UserV { verified: verify_value, ..pre.users[i as int] }),
                    ));
                    lemma_update_row_wf(pre, self@, i as int);
                }
                Ok(true)
            },
            None => Ok(false),
        }
    }

    /// Set the email-verification token of the user with this id. Returns
    /// whether a row was updated.
    pub fn update_email_token(&mut self, user_id: u32, email_token_value: String) -> (r: Result<
        bool,
        ErrorKind,
    >)
        requires
            old(self)@.wf(),
        ensures
            final(self)@.wf(),
            final(self)@.roles == old(self)@.roles,
            final(self)@.next_id == old(self)@.next_id,
            match r {
                Ok(true) => old(self)@.has_user_id(user_id) && final(self)@.users == old(
                    self,
                )@.users.update(
                    old(self)@.user_id_index(user_id),
                    (UserV {
                        email_token: Some(email_token_value@),
                        ..old(self)@.users[old(self)@.user_id_index(user_id)]
                    }),
                ),
                Ok(false) => !old(self)@.has_user_id(user_id) && final(self)@ == old(self)@,
                Err(_) => false,
            },
    {
        let ghost pre = self@;
        match self.find_by_id(user_id) {
            Some(i) => {
                proof {
                    lemma_user_id_witness(pre, i as int);
                }
                let row = &mut self.users[i];
                row.email_token = Some(email_token_value);
                proof {
                    assert(self@.users =~= pre.users.update(
                        i as int,
                        (UserV { email_token: Some(email_token_value@), ..pre.users[i as int] }),
                    ));
                    lemma_update_row_wf(pre, self@, i as int);
                }
                Ok(true)
            },
            None => Ok(false),
        }
    }

    /// Set the role of the user with this id. Returns whether a role row
    /// was updated.
    pub fn update_role(&mut self, user_id: u32, new_role: Role) -> (r: Result<bool, ErrorKind>)
        requires
            old(self)@.wf(),
        ensures
            final(self)@.wf(),
            final(self)@.users == old(self)@.users,
            final(self)@.next_id == old(self)@.next_id,
            match r {
                Ok(true) => old(self)@.has_role_for(user_id) && final(self)@.roles == old(
                    self,
                )@.roles.update(
                    old(self)@.role_index(user_id),
                    (role { id: user_id, name: new_role }),
                ),
                Ok(false) => !old(self)@.has_role_for(user_id) && final(self)@ == old(self)@,
                Err(_) => false,
            },
    {
        let ghost pre = self@;
        match self.find_role_by_id(user_id) {
            Some(i) => {
                proof {
                    lemma_role_witness(pre, i as int);
                }
                let row = &mut self.roles[i];
                row.name = new_role;
                proof {
                    assert(self@.roles =~= pre.roles.update(
                        i as int,
                        (role { id: user_id, name: new_role }),
                    ));
                    assert forall|a: int|
                        0 <= a < self@.users.len() implies self@.roles[a].id
                        == self@.users[a].id by {
                        if a != i as int {
                            assert(self@.roles[a] == pre.roles[a]);
                        }
                    }
                }
                Ok(true)
            },
            None => Ok(false),
        }
    }

    /// How many user rows the store holds.
    pub fn user_count(&self) -> (n: usize)
        ensures
            n == self@.users.len(),
    {
        self.users.len()
    }

    /// How many role rows the store holds.
    pub fn role_count(&self) -> (n: usize)
        ensures
            n == self@.roles.len(),
    {
        self.roles.len()
    }

    /// How many user rows carry this username; in a well-formed store zero
    /// or one.
    pub fn count_with_username(&self, name: &String) -> (n: usize)
        ensures
            n == self@.count_username(name@),
    {
        let m = self.users.len();
        let mut i: usize = 0;
        let mut cnt: usize = 0;
        while i < m
            invariant
                m == self.users@.len(),
                0 <= i <= m,
                cnt <= i,
                cnt == self@.users.subrange(0, i as int).filter(
                    UserStoreV::username_pred(name@),
                ).len(),
            decreases m - i,
        {
            let hit = self.users[i].username == *name;
            proof {
                reveal(Seq::filter);
                let pred = UserStoreV::username_pred(name@);
                let s_pre = self@.users.subrange(0, i as int);
                let s_post = self@.users.subrange(0, i + 1);
                assert(s_post.drop_last() =~= s_pre);
                assert(s_post.last() == self@.users[i as int]);
                assert(self@.users[i as int] == self.users@[i as int]@);
                assert(self@.users[i as int].username == self.users@[i as int].username@);
                assert(pred(self@.users[i as int]) == (self@.users[i as int].username == name@));
                assert(pred(self@.users[i as int]) == hit);
                if hit {
                    assert(s_post.filter(pred) =~= s_pre.filter(pred).push(
                        self@.users[i as int],
                    ));
                } else {
                    assert(s_post.filter(pred) =~= s_pre.filter(pred));
                }
            }
            if hit {
                cnt = cnt + 1;
            }
            i += 1;
        }
        proof {
            assert(self@.users.subrange(0, m as int) =~= self@.users);
        }
        cnt
    }
}

/// Overwriting a row without touching its id, username or email preserves
/// the store's rules.
proof fn lemma_update_row_wf(pre: UserStoreV, post: UserStoreV, i: int)
    requires
        pre.wf(),
        0 <= i < pre.users.len(),
        post.users.len() == pre.users.len(),
        post.users[i].id == pre.users[i].id,
        post.users[i].username == pre.users[i].username,
        post.users[i].email == pre.users[i].email,
        forall|j: int| 0 <= j < pre.users.len() && j != i ==> post.users[j] == pre.users[j],
        post.roles == pre.roles,
        post.next_id == pre.next_id,
    ensures
        post.wf(),
{
    assert forall|a: int, b: int|
        0 <= a < b < post.users.len() implies post.users[a].id != post.users[b].id
            && post.users[a].username != post.users[b].username && post.users[a].email
            != post.users[b].email by {
        assert(post.users[a].id == pre.users[a].id);
        assert(post.users[b].id == pre.users[b].id);
        assert(post.users[a].username == pre.users[a].username);
        assert(post.users[b].username == pre.users[b].username);
        assert(post.users[a].email == pre.users[a].email);
        assert(post.users[b].email == pre.users[b].email);
    }
    assert forall|a: int| 0 <= a < post.users.len() implies post.roles[a].id
        == post.users[a].id by {
        assert(post.users[a].id == pre.users[a].id);
    }
    assert forall|a: int| 0 <= a < post.users.len() implies post.users[a].id < post.next_id by {
        assert(post.users[a].id == pre.users[a].id);
    }
    assert forall|a: int|
        0 <= a < post.users.len() implies 1 <= (#[trigger] post.users[a]).username.len() <= 20 by {
        assert(post.users[a].username == pre.users[a].username);
        assert(1 <= pre.users[a].username.len() <= 20);
    }
}

/// No element satisfies the predicate: the filtered sequence is empty.
proof fn lemma_filter_none<A>(s: Seq<A>, pred: spec_fn(A) -> bool)
    requires
        forall|i: int| 0 <= i < s.len() ==> !pred(#[trigger] s[i]),
    ensures
        s.filter(pred).len() == 0,
    decreases s.len(),
{
    reveal(Seq::filter);
    if s.len() > 0 {
        lemma_filter_none(s.drop_last(), pred);
    }
}

/// Exactly one element satisfies the predicate: the filtered sequence has
/// exactly one element.
proof fn lemma_filter_one<A>(s: Seq<A>, pred: spec_fn(A) -> bool, k: int)
    requires
        0 <= k < s.len(),
        pred(s[k]),
        forall|i: int| 0 <= i < s.len() && i != k ==> !pred(#[trigger] s[i]),
    ensures
        s.filter(pred).len() == 1,
    decreases s.len(),
{
    reveal(Seq::filter);
    if k == s.len() - 1 {
        lemma_filter_none(s.drop_last(), pred);
    } else {
        assert(!pred(s.last()));
        lemma_filter_one(s.drop_last(), pred, k);
    }
}

/// A well-formed store holds exactly one user row per present username and
/// none per absent one.
pub proof fn lemma_username_count(v: UserStoreV, n: Seq<char>)
    requires
        v.wf(),
    ensures
        v.count_username(n) == if v.has_username(n) {
            1nat
        } else {
            0nat
        },
{
    let pred = UserStoreV::username_pred(n);
    if v.has_username(n) {
        let k = v.username_index(n);
        lemma_filter_one(v.users, pred, k);
    } else {
        lemma_filter_none(v.users, pred);
    }
}

/// A well-formed store holds exactly one role row per existing user id and
/// none per absent one.
pub proof fn lemma_role_count(v: UserStoreV, id: u32)
    requires
        v.wf(),
    ensures
        v.count_roles_for(id) == if v.has_user_id(id) {
            1nat
        } else {
            0nat
        },
{
    let pred = UserStoreV::role_id_pred(id);
    if v.has_user_id(id) {
        let k = v.user_id_index(id);
        assert(v.roles[k].id == v.users[k].id);
        assert forall|i: int| 0 <= i < v.roles.len() && i != k implies !pred(
            #[trigger] v.roles[i],
        ) by {
            assert(v.roles[i].id == v.users[i].id);
            assert(v.users[i].id != v.users[k].id);
        }
        lemma_filter_one(v.roles, pred, k);
    } else {
        assert forall|i: int| 0 <= i < v.roles.len() implies !pred(#[trigger] v.roles[i]) by {
            assert(v.roles[i].id == v.users[i].id);
            assert(v.has_user_id(v.users[i].id));
        }
        lemma_filter_none(v.roles, pred);
    }
}

/// Appending a fresh user row and its role row preserves the store's rules.
pub proof fn lemma_insert_wf(pre: UserStoreV, post: UserStoreV, u: UserV)
    requires
        pre.wf(),
        1 <= u.username.len() <= 20,
        !pre.has_username(u.username),
        !pre.has_email(u.email),
        u.id == pre.next_id,
        pre.next_id < u32::MAX,
        post.users == pre.users.push(u),
        post.roles == pre.roles.push((role { id: u.id, name: Role::User })),
        post.next_id == pre.next_id + 1,
    ensures
        post.wf(),
{
    let n = pre.users.len() as int;
    assert forall|i: int, j: int|
        0 <= i < j < post.users.len() implies post.users[i].id != post.users[j].id by {
        if j < n {
        } else {
            assert(post.users[i] == pre.users[i]);
            assert(pre.users[i].id < pre.next_id);
        }
    }
    assert forall|i: int, j: int|
        0 <= i < j < post.users.len() implies post.users[i].username != post.users[j].username by {
        if j < n {
        } else {
            assert(post.users[i] == pre.users[i]);
        }
    }
    assert forall|i: int, j: int|
        0 <= i < j < post.users.len() implies post.users[i].email != post.users[j].email by {
        if j < n {
        } else {
            assert(post.users[i] == pre.users[i]);
        }
    }
}

} // verus!
