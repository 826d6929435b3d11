//! The closed set of authorization roles and its explicit, fallible parse.
//!
//! Role names read from storage or from a client are parsed with
//! [`Role::parse`]; an unrecognized name is rejected rather than silently
//! defaulted, since a silent default is a latent authorization risk.

use vstd::prelude::*;

verus! {

/// An authorization level associated with a user.
#[derive(Copy, Clone, Eq, PartialEq, Structural, Debug)]
pub enum Role {
    /// May administer other users (e.g. assign roles).
    Admin,
    /// May moderate content.
    Moderator,
    /// An ordinary user; the default assigned at registration.
    User,
}

impl Role {
    /// The canonical lower-case name of this role.
    pub open spec fn spec_name(self) -> Seq<char> {
        match self {
            Role::Admin => "admin"@,
            Role::Moderator => "moderator"@,
            Role::User => "user"@,
        }
    }

    /// The canonical lower-case name of this role.
    pub fn as_str(self) -> (r: &'static str)
        ensures
            r@ == self.spec_name(),
    {
        match self {
            Role::Admin => "admin",
            Role::Moderator => "moderator",
            Role::User => "user",
        }
    }

    /// The role a canonical name denotes, if any.
    pub open spec fn spec_parse(name: Seq<char>) -> Option<Role> {
        if name == "admin"@ {
            Some(Role::Admin)
        } else if name == "moderator"@ {
            Some(Role::Moderator)
        } else if name == "user"@ {
            Some(Role::User)
        } else {
            None
        }
    }

    /// Parse a role name. Exactly the canonical names are accepted; anything
    /// else yields `None`.
    pub fn parse(name: &str) -> (r: Option<Role>)
        ensures
            r == Role::spec_parse(name@),
    {
        let owned: String = name.to_owned();
        if owned == "admin".to_owned() {
            Some(Role::Admin)
        } else if owned == "moderator".to_owned() {
            Some(Role::Moderator)
        } else if owned == "user".to_owned() {
            Some(Role::User)
        } else {
            None
        }
    }
}

} // verus!
