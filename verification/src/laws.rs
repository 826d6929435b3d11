//! The service's cross-operation laws, stated over the views that the
//! operations' own contracts use and proved once and for all.
//!
//! Each law here relates several operations: what registration plants in the
//! user store, what authentication therefore caches in a session, and what
//! dropping or counting sessions observes. Laws about a single operation
//! stand in that operation's own `ensures`.

use vstd::prelude::*;

use crate::role::Role;
use crate::token_store::Session;
use crate::user_store::{fresh_user_row, lemma_every_user_has_role, lemma_insert_wf,
    lemma_role_count, lemma_role_witness, lemma_username_count, lemma_username_witness, role,
    UserStoreV};

verus! {

broadcast use vstd::map::group_map_axioms, vstd::set::group_set_axioms;

/// Law: the role a registration assigns is the one authentication caches.
///
/// `register`'s contract leaves the user store exactly as `post` relates to
/// `pre` here: one fresh user row and one role row of `User`. In any such
/// store the new username resolves to the new id, and the role resolved for
/// that id — the role that `authenticate`'s contract caches in the session
/// it records, and that `get_user_role` then reports for the minted token —
/// is `User`.
pub proof fn lemma_registered_role_is_user(
    pre: UserStoreV,
    post: UserStoreV,
    name: Seq<char>,
    email: Seq<char>,
    hash: Seq<char>,
    id: u32,
)
    requires
        pre.wf(),
        pre.accepts_new_user(name, email),
        id == pre.next_id,
        post.users == pre.users.push(fresh_user_row(id, name, email, hash)),
        post.roles == pre.roles.push((role { id, name: Role::User })),
        post.next_id == pre.next_id + 1,
    ensures
        post.wf(),
        post.has_username(name),
        post.user_named(name).id == id,
        post.user_named(name).password == hash,
        post.has_role_for(id),
        post.role_for(id).name == Role::User,
{
    lemma_insert_wf(pre, post, fresh_user_row(id, name, email, hash));
    let last = post.users.len() - 1;
    assert(post.users[last] == fresh_user_row(id, name, email, hash));
    lemma_username_witness(post, last);
    assert(post.roles[last] == (role { id, name: Role::User }));
    lemma_role_witness(post, last);
}

/// Law: a session can be dropped exactly once. After a successful
/// deauthentication — whose contract removes the token from the map — the
/// same token resolves to nothing, so a second deauthentication or any role
/// lookup on it reports `InvalidToken`.
pub proof fn lemma_deauthenticate_once(tokens: Map<Seq<char>, Session>, t: Seq<char>)
    requires
        tokens.contains_key(t),
    ensures
        !tokens.remove(t).contains_key(t),
{
}

/// Law: a rejected duplicate registration leaves exactly one row for the
/// username. A well-formed store holds at most one row per username, and
/// `register`'s contract leaves the store unchanged on `ExistingUser`.
pub proof fn lemma_existing_username_count(v: UserStoreV, n: Seq<char>)
    requires
        v.wf(),
        v.has_username(n),
    ensures
        v.count_username(n) == 1,
{
    lemma_username_count(v, n);
}

/// Law: no user exists without a role. In a well-formed store every user id
/// has exactly one role row — registration creates the pair atomically and
/// no operation breaks it.
pub proof fn lemma_registered_user_has_one_role(v: UserStoreV, id: u32)
    requires
        v.wf(),
        v.has_user_id(id),
    ensures
        v.has_role_for(id),
        v.count_roles_for(id) == 1,
{
    lemma_every_user_has_role(v, id);
    lemma_role_count(v, id);
}

/// Law: recording a session under a token not yet present grows the token
/// map by exactly one entry, so successful authentications with distinct
/// fresh tokens count one each. That freshly minted tokens are distinct is
/// probabilistic — by the entropy drawn — and is sampled by test, not
/// proved.
pub proof fn lemma_fresh_token_counts(
    tokens: Map<Seq<char>, Session>,
    t: Seq<char>,
    s: Session,
)
    requires
        tokens.dom().finite(),
        !tokens.contains_key(t),
    ensures
        tokens.insert(t, s).dom().finite(),
        tokens.insert(t, s).dom().len() == tokens.dom().len() + 1,
{
    assert(tokens.insert(t, s).dom() =~= tokens.dom().insert(t));
}

} // verus!
